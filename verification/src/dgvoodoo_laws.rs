//! What holds of every merged `dgVoodoo.conf`: it is healthy, merging it again
//! changes nothing, every line but the forced keys is kept, and those are as
//! required.
use vstd::prelude::*;
use crate::dgvoodoo::{
    api_named, at_least, bare, bare_lines, completed, conf_backup, dgvoodoo_action,
    directx_section, finished, first_member,
    general_section, gives, healthy_conf, in_directx, in_general, in_place_of, is_header,
    is_member, lacking, leading_number, lemma_unlines_push, merge_line, merge_lines, merged,
    merged_lines,
    open_heading, start, unlines, vram_enough, vram_line, DgVoodooStep, Merge, API_LINE, MARK_LINE,
    VRAM_FLOOR,
};
use crate::ini::one_line;
use crate::lines::{
    is_cut, is_piece, lemma_pieces, lemma_pieces_of, line_text, lines, pieces, words,
};
use crate::number::{decimal, lemma_decimal_reads_back, without_plus};
use crate::paths::slashed;
use crate::text::{
    ends_with, head, is_digit, is_space, lemma_position_is, lemma_trim_end, lemma_trim_end_shape,
    lemma_trim_is, lemma_trim_start, lemma_trim_start_shape, lower, occurs_at, rest, same_nocase,
    trim, trim_end, trim_start,
};

verus! {

/// A line without white space at its end.
pub open spec fn settled(t: Seq<char>) -> bool {
    &&& trim_end(t) == t
    &&& forall|j: int| 0 <= j < t.len() ==> t[j] != '\n'
}

pub proof fn lemma_key_line(t: Seq<char>, key: Seq<char>, value: Seq<char>, k: int)
    requires
        t == key + " = "@ + value,
        k == key.len(),
        key.len() > 0,
        !is_space(key[0]),
        !is_space(key.last()),
        value.len() > 0,
        !is_space(value[0]),
        !is_space(value.last()),
        key[0] != '[',
        forall|j: int| 0 <= j < key.len() ==> key[j] != '=' && key[j] != '\n',
        forall|j: int| 0 <= j < value.len() ==> value[j] != '\n',
    ensures
        settled(t),
        trim(t) == t,
        !is_header(t),
        rest(t, '=') == Some(seq![' '] + value),
        trim(head(t, '=')) == key,
        trim(seq![' '] + value) == value,
{
    reveal_strlit(" = ");
    assert(t[0] == key[0]);
    assert(t.last() == value.last());
    lemma_trim_is(t);
    assert forall|j: int| 0 <= j < t.len() implies t[j] != '\n' by {
        if j < k {
            assert(t[j] == key[j]);
        } else if j >= k + 3 {
            assert(t[j] == value[j - k - 3]);
        }
    }
    assert(t[k + 1] == '=');
    assert forall|j: int| 0 <= j < k + 1 implies t[j] != '=' by {
        if j < k {
            assert(t[j] == key[j]);
        }
    }
    lemma_position_is(t, '=', k + 1);
    assert(t.skip(k + 2) =~= seq![' '] + value);
    let h = head(t, '=');
    assert(h =~= key.push(' '));
    lemma_trim_end(h, k);
    assert(h.take(k) =~= key);
    assert(h[0] == key[0]);
    let v = seq![' '] + value;
    lemma_trim_start(v, 1);
    assert(v.skip(1) =~= value);
}

proof fn lemma_api_line()
    ensures
        settled(API_LINE@),
        trim(API_LINE@) == API_LINE@,
        !is_header(API_LINE@),
        gives(API_LINE@, "OutputAPI"@),
        occurs_at(lower(API_LINE@), "outputapi"@, 0),
        occurs_at(lower(API_LINE@), "d3d11_fl11_0"@, 12),
{
    reveal_strlit("OutputAPI = d3d11_fl11_0");
    reveal_strlit("OutputAPI");
    reveal_strlit("d3d11_fl11_0");
    reveal_strlit("outputapi");
    reveal_strlit(" = ");
    assert(API_LINE@ =~= "OutputAPI"@ + " = "@ + "d3d11_fl11_0"@);
    lemma_key_line(API_LINE@, "OutputAPI"@, "d3d11_fl11_0"@, 9);
    let low = lower(API_LINE@);
    assert(low.subrange(0, 9) =~= "outputapi"@);
    assert(low.subrange(12, 24) =~= "d3d11_fl11_0"@);
}

proof fn lemma_mark_line()
    ensures
        settled(MARK_LINE@),
        trim(MARK_LINE@) == MARK_LINE@,
        !is_header(MARK_LINE@),
        gives(MARK_LINE@, "dgVoodooWatermark"@),
        !gives(MARK_LINE@, "VRAM"@),
        !gives(MARK_LINE@, "OutputAPI"@),
{
    reveal_strlit("dgVoodooWatermark = false");
    reveal_strlit("dgVoodooWatermark");
    reveal_strlit("false");
    reveal_strlit(" = ");
    reveal_strlit("VRAM");
    reveal_strlit("OutputAPI");
    assert(MARK_LINE@ =~= "dgVoodooWatermark"@ + " = "@ + "false"@);
    lemma_key_line(MARK_LINE@, "dgVoodooWatermark"@, "false"@, 17);
    assert(lower("dgVoodooWatermark"@).len() == 17);
    assert(lower("VRAM"@).len() == 4);
    assert(lower("OutputAPI"@).len() == 9);
}

proof fn lemma_digits_are_words(t: Seq<char>)
    requires
        t.len() > 0,
        forall|j: int| 0 <= j < t.len() ==> !is_space(#[trigger] t[j]),
    ensures
        words(t) == seq![t],
        words(seq![' '] + t) == seq![t],
    decreases t.len(),
{
    let s = seq![' '] + t;
    let d = t.drop_last();
    assert(s.drop_last() =~= seq![' '] + d);
    assert(s.last() == t.last());
    assert forall|j: int| 0 <= j < d.len() implies !is_space(#[trigger] d[j]) by {
        assert(d[j] == t[j]);
    }
    if t.len() == 1 {
        assert(d =~= Seq::empty());
        let one = seq![' '];
        assert(s.drop_last() =~= one);
        assert(one.drop_last() =~= Seq::empty());
        assert(words(one.drop_last()) =~= Seq::empty());
        assert(words(one) =~= Seq::empty());
        assert(s[s.len() - 2] == ' ');
        assert(t =~= seq![t.last()]);
        assert(words(s) =~= seq![t]);
        assert(words(d) =~= Seq::empty());
        assert(words(t) =~= seq![t]);
    } else {
        lemma_digits_are_words(d);
        assert(!is_space(t[t.len() - 2]));
        assert(s[s.len() - 2] == t[t.len() - 2]);
        assert(d.push(t.last()) =~= t);
        assert(words(t) =~= seq![t]);
        assert(words(s) =~= seq![t]);
    }
}

/// A `VRAM` line reads back as its number.
pub proof fn lemma_vram_line(n: nat)
    requires
        n <= u32::MAX,
    ensures
        settled(vram_line(n)),
        trim(vram_line(n)) == vram_line(n),
        !is_header(vram_line(n)),
        gives(vram_line(n), "VRAM"@),
        !gives(vram_line(n), "OutputAPI"@),
        leading_number(rest(vram_line(n), '=')->0) == n,
        leading_number(trim(rest(vram_line(n), '=')->0)) == n,
{
    reveal_strlit("VRAM = ");
    reveal_strlit("VRAM");
    reveal_strlit(" = ");
    reveal_strlit("OutputAPI");
    let v = decimal(n);
    lemma_decimal_reads_back(n);
    assert forall|j: int| 0 <= j < v.len() implies !is_space(#[trigger] v[j]) && v[j] != '\n' && v[j]
        != '+' by {
        assert(is_digit(v[j]));
    }
    assert(vram_line(n) =~= "VRAM"@ + " = "@ + v);
    lemma_key_line(vram_line(n), "VRAM"@, v, 4);
    lemma_digits_are_words(v);
    assert(without_plus(v) == v);
    assert(seq![v][0] == v);
    assert(lower("VRAM"@).len() == 4);
    assert(lower("OutputAPI"@).len() == 9);
}

/// The names of the two sections differ.
proof fn lemma_sections(s: Seq<char>)
    ensures
        !(in_general(s) && in_directx(s)),
        !in_general(Seq::empty()),
        !in_directx(Seq::empty()),
{
    reveal_strlit("General");
    reveal_strlit("DirectX");
    assert(lower("General"@)[0] == 'g');
    assert(lower("DirectX"@)[0] == 'd');
    assert(lower(Seq::<char>::empty()).len() == 0);
    assert(lower("General"@).len() == 7);
    assert(lower("DirectX"@).len() == 7);
}

/// Trimming the end first changes nothing.
proof fn lemma_trim_twice(raw: Seq<char>)
    ensures
        trim_end(trim_end(raw)) == trim_end(raw),
        trim(trim_end(raw)) == trim(raw),
{
    let e = trim_end(raw);
    lemma_trim_end_shape(raw);
    assert(trim_end(e) == e);
    let b = trim_start(raw);
    lemma_trim_start_shape(raw);
    let k = raw.len() - b.len();
    if k <= e.len() {
        assert(forall|j: int| 0 <= j < k ==> e[j] == raw[j]);
        if k < e.len() {
            assert(e[k] == raw[k]);
            assert(raw[k] == b[0]);
        }
        lemma_trim_start(e, k);
        let f = e.skip(k);
        if f.len() > 0 {
            assert(f.last() == e.last());
        }
        assert(trim_end(f) == f);
        assert forall|j: int| f.len() <= j < b.len() implies is_space(b[j]) by {
            assert(b[j] == raw[j + k]);
        }
        if f.len() > 0 {
            assert(b[f.len() - 1] == f[f.len() - 1]);
        }
        lemma_trim_end(b, f.len() as int);
        assert(b.take(f.len() as int) =~= f);
    } else {
        if b.len() > 0 {
            assert(b[0] == raw[k]);
            assert(is_space(raw[k]));
        }
        assert(forall|j: int| 0 <= j < e.len() ==> e[j] == raw[j]);
        lemma_trim_start(e, e.len() as int);
        assert(e.skip(e.len() as int) =~= Seq::empty());
        assert(b =~= Seq::empty());
    }
}

/// A carriage return more at the end of a line changes nothing of what it says.
proof fn lemma_in_place(l: Seq<char>, raw: Seq<char>)
    requires
        trim(l) == l,
        l.len() > 0,
    ensures
        trim(in_place_of(l, raw)) == l,
        in_place_of(l, in_place_of(l, raw)) == in_place_of(l, raw),
        in_place_of(l, l) == l,
        in_place_of(l, raw) == l || in_place_of(l, raw) == l.push('\r'),
{
    let s = l.push('\r');
    let n = l.len() as int;
    lemma_trimmed_ends(l);
    assert(l.last() != '\r') by {
        assert(is_space('\r'));
    }
    assert(s.last() == '\r');
    assert(trim(s) == l) by {
        assert(s[0] == l[0]);
        assert(trim_start(s) == s);
        assert(is_space('\r'));
        assert(s[n - 1] == l.last());
        lemma_trim_end(s, n);
        assert(s.take(n) =~= l);
    }
}

proof fn lemma_trimmed_ends(l: Seq<char>)
    requires
        trim(l) == l,
        l.len() > 0,
    ensures
        !is_space(l[0]),
        !is_space(l.last()),
{
    crate::text::lemma_trim_shape(l);
}

/// Two lines that end in white space alone differ in nothing else.
proof fn lemma_same_trim(a: Seq<char>, b: Seq<char>)
    requires
        trim_end(a) == trim_end(b),
    ensures
        trim(a) == trim(b),
{
    lemma_trim_twice(a);
    lemma_trim_twice(b);
}

proof fn lemma_merge_add(m: Merge, a: Seq<Seq<char>>, b: Seq<Seq<char>>)
    ensures
        merge_lines(m, a + b) == merge_lines(merge_lines(m, a), b),
    decreases b.len(),
{
    if b.len() == 0 {
        assert(a + b =~= a);
    } else {
        lemma_merge_add(m, a, b.drop_last());
        assert((a + b).drop_last() =~= a + b.drop_last());
        assert((a + b).last() == b.last());
    }
}

proof fn lemma_merge_one(m: Merge, l: Seq<char>)
    ensures
        merge_lines(m, seq![l]) == merge_line(m, l),
{
    assert(seq![l].drop_last() =~= Seq::empty());
    assert(merge_lines(m, Seq::empty()) == m);
}

proof fn lemma_merge_push(m: Merge, a: Seq<Seq<char>>, l: Seq<char>)
    ensures
        merge_lines(m, a.push(l)) == merge_line(merge_lines(m, a), l),
{
    assert(a.push(l).drop_last() =~= a);
}

proof fn lemma_leading_number(v: Seq<char>)
    ensures
        leading_number(v) <= u32::MAX,
{
}

/// The lines that a line adds to the file.
spec fn added(m: Merge, raw: Seq<char>) -> Seq<Seq<char>> {
    if is_header(trim(raw)) {
        lacking(m).push(raw)
    } else {
        seq![merge_line(m, raw).out.last()]
    }
}

proof fn lemma_added(m: Merge, raw: Seq<char>)
    ensures
        merge_line(m, raw).out == m.out + added(m, raw),
        added(m, raw).len() >= 1,
{
    if is_header(trim(raw)) {
        assert((m.out + lacking(m)).push(raw) =~= m.out + lacking(m).push(raw));
    } else {
        assert(merge_line(m, raw).out =~= m.out + added(m, raw));
    }
}

/// Reading what completes a section completes it.
proof fn lemma_lacking_again(m: Merge)
    ensures
        merge_lines(m, lacking(m)) == completed(m),
        completed(completed(m)) == completed(m),
        lacking(completed(m)) == Seq::<Seq<char>>::empty(),
{
    lemma_sections(m.section);
    lemma_api_line();
    lemma_mark_line();
    lemma_vram_line(VRAM_FLOOR as nat);
    lemma_vram_mark(VRAM_FLOOR as nat);
    let vl = vram_line(VRAM_FLOOR as nat);
    let none = Seq::<Seq<char>>::empty();
    lemma_in_place(API_LINE@, API_LINE@);
    lemma_in_place(vl, vl);
    assert(lacking(completed(m)) =~= none);
    assert(completed(m).out + none =~= completed(m).out);
    if in_general(m.section) && !m.api {
        assert(lacking(m) =~= seq![API_LINE@]);
        lemma_merge_one(m, API_LINE@);
        assert(m.out.push(API_LINE@) =~= m.out + lacking(m));
    } else if in_directx(m.section) {
        if !m.vram && !m.mark {
            assert(lacking(m) =~= seq![vl].push(MARK_LINE@));
            lemma_merge_push(m, seq![vl], MARK_LINE@);
            lemma_merge_one(m, vl);
            assert(m.out.push(vl).push(MARK_LINE@) =~= m.out + lacking(m));
        } else if !m.vram {
            assert(lacking(m) =~= seq![vl]);
            lemma_merge_one(m, vl);
            assert(m.out.push(vl) =~= m.out + lacking(m));
        } else if !m.mark {
            assert(lacking(m) =~= seq![MARK_LINE@]);
            lemma_merge_one(m, MARK_LINE@);
            assert(m.out.push(MARK_LINE@) =~= m.out + lacking(m));
        } else {
            assert(lacking(m) =~= none);
            assert(m.out + none =~= m.out);
        }
    } else {
        assert(lacking(m) =~= none);
        assert(m.out + none =~= m.out);
    }
}

proof fn lemma_vram_mark(n: nat)
    requires
        n <= u32::MAX,
    ensures
        !gives(vram_line(n), "dgVoodooWatermark"@),
{
    reveal_strlit("VRAM = ");
    reveal_strlit("VRAM");
    reveal_strlit(" = ");
    reveal_strlit("dgVoodooWatermark");
    lemma_vram_line(n);
    assert(lower("VRAM"@).len() == 4);
    assert(lower("dgVoodooWatermark"@).len() == 17);
}

/// Reading the lines that a line adds does what the line did.
proof fn lemma_added_again(m: Merge, raw: Seq<char>)
    ensures
        merge_lines(m, added(m, raw)) == merge_line(m, raw),
{
    let t = trim(raw);
    if is_header(t) {
        let c = completed(m);
        lemma_lacking_again(m);
        lemma_merge_push(m, lacking(m), raw);
        assert(merge_line(c, raw) == merge_line(m, raw));
    } else {
        lemma_sections(m.section);
        let r = merge_line(m, raw);
        let l = r.out.last();
        lemma_merge_one(m, l);
        lemma_api_line();
        lemma_mark_line();
        if in_general(m.section) && gives(t, "OutputAPI"@) {
            lemma_in_place(API_LINE@, raw);
            assert(merge_line(m, l) == r);
        } else if in_directx(m.section) && gives(t, "VRAM"@) {
            lemma_leading_number(trim(rest(t, '=')->0));
            let n = at_least(leading_number(trim(rest(t, '=')->0)), VRAM_FLOOR as nat);
            lemma_vram_line(n);
            lemma_in_place(vram_line(n), raw);
            assert(l == in_place_of(vram_line(n), raw));
            assert(merge_line(m, l) == r);
        } else {
            assert(l == raw);
            assert(merge_line(m, raw) == r);
        }
    }
}

/// Reading what has been written so far gives the same merge.
proof fn lemma_again(ls: Seq<Seq<char>>)
    ensures
        merge_lines(start(), merge_lines(start(), ls).out) == merge_lines(start(), ls),
    decreases ls.len(),
{
    if ls.len() > 0 {
        let m = merge_lines(start(), ls.drop_last());
        lemma_again(ls.drop_last());
        lemma_added(m, ls.last());
        lemma_added_again(m, ls.last());
        lemma_merge_add(start(), m.out, added(m, ls.last()));
    }
}

/// Some line is the one that names the output.
spec fn has_api(ls: Seq<Seq<char>>) -> bool {
    exists|i: int| 0 <= i < ls.len() && is_api(#[trigger] ls[i])
}

spec fn is_api(l: Seq<char>) -> bool {
    l == API_LINE@ || l == API_LINE@.push('\r')
}

/// What the merge keeps to from line to line.
spec fn sound(m: Merge) -> bool {
    &&& in_general(m.section) ==> m.saw_general
    &&& in_directx(m.section) ==> m.saw_directx
    &&& m.saw_general && !in_general(m.section) ==> m.api
    &&& m.saw_directx && !in_directx(m.section) ==> m.vram && m.mark
    &&& m.api ==> m.saw_general && has_api(m.out)
    &&& m.vram ==> m.saw_directx
    &&& m.mark ==> m.saw_directx
}

proof fn lemma_sound(ls: Seq<Seq<char>>)
    ensures
        sound(merge_lines(start(), ls)),
    decreases ls.len(),
{
    lemma_sections(Seq::empty());
    if ls.len() > 0 {
        let m = merge_lines(start(), ls.drop_last());
        let raw = ls.last();
        let r = merge_line(m, raw);
        lemma_sound(ls.drop_last());
        lemma_sections(m.section);
        lemma_sections(r.section);
        lemma_added(m, raw);
        if m.api {
            let i = choose|i: int| 0 <= i < m.out.len() && is_api(#[trigger] m.out[i]);
            assert(r.out[i] == m.out[i]);
        } else if r.api {
            if is_header(trim(raw)) {
                assert(in_general(m.section));
                assert(lacking(m)[0] == API_LINE@);
            }
            assert(is_api(r.out[m.out.len() as int]));
        }
    }
}

proof fn lemma_sound_completed(m: Merge)
    requires
        sound(m),
    ensures
        sound(completed(m)),
        completed(m).saw_general ==> completed(m).api,
        completed(m).saw_directx ==> completed(m).vram && completed(m).mark,
{
    lemma_sections(m.section);
    let c = completed(m);
    if m.api {
        let i = choose|i: int| 0 <= i < m.out.len() && is_api(#[trigger] m.out[i]);
        assert(c.out[i] == m.out[i]);
    } else if c.api {
        assert(lacking(m)[0] == API_LINE@);
        assert(is_api(c.out[m.out.len() as int]));
    }
}

/// The lines of the sections that are added at the end.
proof fn lemma_section_lines()
    ensures
        settled(Seq::<char>::empty()),
        settled("[General]"@),
        settled("[DirectX]"@),
        settled("VideoCard = internal3D"@),
        settled("Antialiasing = appdriven"@),
        settled("FastVideoMemoryAccess = false"@),
        trim(Seq::<char>::empty()) == Seq::<char>::empty(),
        trim("[General]"@) == "[General]"@,
        trim("[DirectX]"@) == "[DirectX]"@,
        trim("VideoCard = internal3D"@) == "VideoCard = internal3D"@,
        trim("Antialiasing = appdriven"@) == "Antialiasing = appdriven"@,
        trim("FastVideoMemoryAccess = false"@) == "FastVideoMemoryAccess = false"@,
        !is_header(Seq::<char>::empty()),
        is_header("[General]"@),
        is_header("[DirectX]"@),
        !is_header("VideoCard = internal3D"@),
        !is_header("Antialiasing = appdriven"@),
        !is_header("FastVideoMemoryAccess = false"@),
        in_general("[General]"@.subrange(1, "[General]"@.len() - 1)),
        !in_directx("[General]"@.subrange(1, "[General]"@.len() - 1)),
        in_directx("[DirectX]"@.subrange(1, "[DirectX]"@.len() - 1)),
        !in_general("[DirectX]"@.subrange(1, "[DirectX]"@.len() - 1)),
{
    reveal_strlit("[General]");
    reveal_strlit("[DirectX]");
    reveal_strlit("General");
    reveal_strlit("DirectX");
    reveal_strlit("VideoCard = internal3D");
    reveal_strlit("Antialiasing = appdriven");
    reveal_strlit("FastVideoMemoryAccess = false");
    assert("[General]"@.subrange(1, 8) =~= "General"@);
    assert("[DirectX]"@.subrange(1, 8) =~= "DirectX"@);
    lemma_sections("General"@);
    lemma_sections("DirectX"@);
}

/// No key that a section gains at the end, other than its own, is one that
/// the merge looks for.
proof fn lemma_section_keys(key: Seq<char>)
    requires
        key == "OutputAPI"@ || key == "VRAM"@ || key == "dgVoodooWatermark"@,
    ensures
        !gives(Seq::empty(), key),
        !gives("VideoCard = internal3D"@, key),
        !gives("Antialiasing = appdriven"@, key),
        !gives("FastVideoMemoryAccess = false"@, key),
{
    reveal_strlit(" = ");
    reveal_strlit("OutputAPI");
    reveal_strlit("VRAM");
    reveal_strlit("dgVoodooWatermark");
    reveal_strlit("VideoCard = internal3D");
    reveal_strlit("Antialiasing = appdriven");
    reveal_strlit("FastVideoMemoryAccess = false");
    let (a, b, c) = (
        "VideoCard = internal3D"@,
        "Antialiasing = appdriven"@,
        "FastVideoMemoryAccess = false"@,
    );
    assert(a =~= a.take(9) + " = "@ + a.skip(12));
    lemma_key_line(a, a.take(9), a.skip(12), 9);
    assert(b =~= b.take(12) + " = "@ + b.skip(15));
    lemma_key_line(b, b.take(12), b.skip(15), 12);
    assert(c =~= c.take(21) + " = "@ + c.skip(24));
    lemma_key_line(c, c.take(21), c.skip(24), 21);
    assert(lower(key).len() == key.len());
    assert(lower(a.take(9)).len() == 9);
    assert(lower(a.take(9))[0] == 'v');
    assert(lower(b.take(12)).len() == 12);
    assert(lower(c.take(21)).len() == 21);
    assert(lower("OutputAPI"@)[0] == 'o');
}

/// Reading an added `[General]` section.
proof fn lemma_general_again(m: Merge)
    requires
        completed(m) == m,
        !m.saw_general,
        !m.api,
        m.saw_directx ==> m.vram && m.mark,
        in_directx(m.section) ==> m.saw_directx,
    ensures
        ({
            let r = merge_lines(m, general_section());
            &&& r.out == m.out + general_section()
            &&& r.saw_general
            &&& r.api
            &&& r.saw_directx == m.saw_directx
            &&& r.vram == m.vram
            &&& r.mark == m.mark
            &&& in_general(r.section)
            &&& completed(r) == r
        }),
{
    let e = Seq::<char>::empty();
    let h = "[General]"@;
    lemma_section_lines();
    lemma_section_keys("OutputAPI"@);
    lemma_section_keys("VRAM"@);
    lemma_section_keys("dgVoodooWatermark"@);
    lemma_api_line();
    lemma_in_place(API_LINE@, API_LINE@);
    let none = Seq::<Seq<char>>::empty();
    assert(general_section() =~= none.push(e).push(h).push(API_LINE@));
    lemma_merge_push(m, none, e);
    lemma_merge_push(m, none.push(e), h);
    lemma_merge_push(m, none.push(e).push(h), API_LINE@);
    let m1 = merge_line(m, e);
    assert(m1 == (Merge { out: m.out.push(e), ..m }));
    lemma_complete(m);
    assert(lacking(m1) =~= none);
    assert(m1.out + none =~= m1.out);
    let m2 = merge_line(m1, h);
    assert(m2.out =~= m.out.push(e).push(h));
    let r = merge_line(m2, API_LINE@);
    assert(r.out =~= m.out + general_section());
    lemma_sections(r.section);
    assert(lacking(r) =~= none);
    assert(r.out + none =~= r.out);
}

proof fn lemma_complete(m: Merge)
    requires
        completed(m) == m,
    ensures
        lacking(m) == Seq::<Seq<char>>::empty(),
{
    assert((m.out + lacking(m)).len() == m.out.len());
    assert(lacking(m) =~= Seq::empty());
}

/// Reading an added `[DirectX]` section.
proof fn lemma_directx_again(m: Merge)
    requires
        completed(m) == m,
        !m.saw_directx,
        !m.vram,
        !m.mark,
        in_general(m.section) ==> m.api,
    ensures
        ({
            let r = merge_lines(m, directx_section());
            &&& r.out == m.out + directx_section()
            &&& r.saw_directx
            &&& r.vram
            &&& r.mark
            &&& r.saw_general == m.saw_general
            &&& r.api == m.api
            &&& in_directx(r.section)
            &&& completed(r) == r
        }),
{
    let e = Seq::<char>::empty();
    let h = "[DirectX]"@;
    let v = vram_line(VRAM_FLOOR as nat);
    lemma_section_lines();
    lemma_section_keys("OutputAPI"@);
    lemma_section_keys("VRAM"@);
    lemma_section_keys("dgVoodooWatermark"@);
    lemma_vram_line(VRAM_FLOOR as nat);
    lemma_in_place(v, v);
    lemma_mark_line();
    let none = Seq::<Seq<char>>::empty();
    let l1 = none.push(e);
    let l2 = l1.push(h);
    let l3 = l2.push("VideoCard = internal3D"@);
    let l4 = l3.push(v);
    let l5 = l4.push(MARK_LINE@);
    let l6 = l5.push("Antialiasing = appdriven"@);
    let l7 = l6.push("FastVideoMemoryAccess = false"@);
    assert(directx_section() =~= l7);
    lemma_merge_push(m, none, e);
    lemma_merge_push(m, l1, h);
    lemma_merge_push(m, l2, "VideoCard = internal3D"@);
    lemma_merge_push(m, l3, v);
    lemma_merge_push(m, l4, MARK_LINE@);
    lemma_merge_push(m, l5, "Antialiasing = appdriven"@);
    lemma_merge_push(m, l6, "FastVideoMemoryAccess = false"@);
    let m1 = merge_line(m, e);
    assert(m1 == (Merge { out: m.out.push(e), ..m }));
    lemma_complete(m);
    assert(lacking(m1) =~= none);
    assert(m1.out + none =~= m1.out);
    let m2 = merge_line(m1, h);
    assert(m2.out =~= m.out.push(e).push(h));
    lemma_sections(m2.section);
    let m3 = merge_line(m2, "VideoCard = internal3D"@);
    let m4 = merge_line(m3, v);
    let m5 = merge_line(m4, MARK_LINE@);
    let m6 = merge_line(m5, "Antialiasing = appdriven"@);
    let r = merge_line(m6, "FastVideoMemoryAccess = false"@);
    assert(r.out =~= m.out + directx_section());
    assert(lacking(r) =~= none);
    assert(r.out + none =~= r.out);
}

/// The merged lines, read again: they stay as they are, and hold every key.
proof fn lemma_finished_again(ls: Seq<Seq<char>>)
    ensures
        ({
            let f = finished(merge_lines(start(), ls));
            let r = merge_lines(start(), f);
            &&& r.out == f
            &&& r.saw_general && r.saw_directx
            &&& r.api && r.vram && r.mark
            &&& finished(r) == f
        }),
{
    let m = merge_lines(start(), ls);
    let c = completed(m);
    let none = Seq::<Seq<char>>::empty();
    let f = finished(m);
    lemma_again(ls);
    lemma_sound(ls);
    lemma_sound_completed(m);
    lemma_lacking_again(m);
    lemma_merge_add(start(), m.out, lacking(m));
    assert(merge_lines(start(), c.out) == c);
    lemma_sections(c.section);
    let g = if !m.saw_general {
        general_section()
    } else {
        none
    };
    let d = if !m.saw_directx {
        directx_section()
    } else {
        none
    };
    assert(f =~= c.out + g + d);
    lemma_merge_add(start(), c.out, g);
    lemma_merge_add(start(), c.out + g, d);
    let c1 = merge_lines(c, g);
    if !m.saw_general {
        lemma_general_again(c);
    } else {
        assert(c.out + g =~= c.out);
    }
    lemma_sections(c1.section);
    if !m.saw_directx {
        lemma_directx_again(c1);
    } else {
        assert(c1.out + d =~= c1.out);
    }
    let r = merge_lines(c1, d);
    assert(r.out =~= f);
    assert(finished(r) =~= r.out);
}

/// Every line adds at least itself.
proof fn lemma_grows(ls: Seq<Seq<char>>)
    ensures
        merge_lines(start(), ls).out.len() >= ls.len(),
    decreases ls.len(),
{
    if ls.len() > 0 {
        let m = merge_lines(start(), ls.drop_last());
        lemma_grows(ls.drop_last());
        lemma_added(m, ls.last());
    }
}

/// In a file that the merge leaves as it is, the check sees what the merge saw.
proof fn lemma_seen(ls: Seq<Seq<char>>)
    requires
        merge_lines(start(), ls).out == ls,
    ensures
        vram_enough(ls) == merge_lines(start(), ls).vram,
        same_nocase(open_heading(ls), "[DirectX]"@) == in_directx(merge_lines(start(), ls).section),
    decreases ls.len(),
{
    reveal_strlit("[DirectX]");
    reveal_strlit("DirectX");
    assert(lower("[DirectX]"@).len() == 9);
    assert(lower(Seq::<char>::empty()).len() == 0);
    lemma_sections(Seq::empty());
    if ls.len() > 0 {
        let p = ls.drop_last();
        let raw = ls.last();
        let m = merge_lines(start(), p);
        lemma_grows(p);
        lemma_added(m, raw);
        assert(m.out.len() == p.len());
        assert(m.out =~= p) by {
            assert forall|i: int| 0 <= i < p.len() implies m.out[i] == p[i] by {
                assert((m.out + added(m, raw))[i] == m.out[i]);
            }
        }
        lemma_seen(p);
        lemma_sections(m.section);
        let t = trim(raw);
        let r = merge_line(m, raw);
        assert(r.out.last() == raw);
        if is_header(t) {
            let name = t.subrange(1, t.len() - 1);
            lemma_bracketed(t);
        } else if in_directx(m.section) && gives(t, "VRAM"@) {
            lemma_leading_number(trim(rest(t, '=')->0));
            let n = at_least(leading_number(trim(rest(t, '=')->0)), VRAM_FLOOR as nat);
            lemma_vram_line(n);
            lemma_in_place(vram_line(n), raw);
            assert(raw == in_place_of(vram_line(n), raw));
        }
    }
}

proof fn lemma_bracketed(t: Seq<char>)
    requires
        is_header(t),
    ensures
        same_nocase(t, "[DirectX]"@) == in_directx(t.subrange(1, t.len() - 1)),
{
    reveal_strlit("[DirectX]");
    reveal_strlit("DirectX");
    let name = t.subrange(1, t.len() - 1);
    let (a, b) = ("[DirectX]"@, "DirectX"@);
    assert(lower(a).len() == 9 && lower(b).len() == 7);
    assert(lower(t).len() == t.len() && lower(name).len() == name.len());
    if same_nocase(t, a) {
        assert forall|i: int| 0 <= i < 7 implies lower(name)[i] == lower(b)[i] by {
            assert(lower(t)[i + 1] == lower(a)[i + 1]);
        }
        assert(lower(name) =~= lower(b));
    }
    if in_directx(name) {
        assert forall|i: int| 0 <= i < 9 implies lower(t)[i] == lower(a)[i] by {
            if 1 <= i < 8 {
                assert(lower(name)[i - 1] == lower(b)[i - 1]);
            }
        }
        assert(lower(t) =~= lower(a));
    }
}

/// Settled lines, written out, are read back.
pub proof fn lemma_lines_unlines(ls: Seq<Seq<char>>)
    requires
        forall|i: int| 0 <= i < ls.len() ==> settled(#[trigger] ls[i]),
    ensures
        lines(unlines(ls)) == ls,
{
    let ps = Seq::new(ls.len(), |i: int| ls[i].push('\n'));
    assert forall|i: int| 0 <= i < ps.len() implies is_piece(#[trigger] ps[i]) && ps[i].last()
        == '\n' by {
        assert(settled(ls[i]));
        assert forall|j: int| 0 <= j < ps[i].len() - 1 implies ps[i][j] != '\n' by {
            assert(ps[i][j] == ls[i][j]);
        }
    }
    assert(is_cut(ps));
    lemma_pieces_of(ps);
    assert forall|i: int| 0 <= i < ls.len() implies line_text(#[trigger] ps[i]) == ls[i] by {
        assert(settled(ls[i]));
        lemma_trim_end_shape(ls[i]);
        assert(ps[i].drop_last() =~= ls[i]);
        if ls[i].len() > 0 {
            assert(is_space('\r'));
        }
    }
    assert(lines(unlines(ls)) =~= ls);
}

/// The bare lines of a text hold no line feed.
proof fn lemma_bare_plain(s: Seq<char>)
    ensures
        forall|i: int| 0 <= i < bare_lines(s).len() ==> one_line(#[trigger] bare_lines(s)[i]),
{
    lemma_pieces(s);
    assert forall|i: int| 0 <= i < bare_lines(s).len() implies one_line(
        #[trigger] bare_lines(s)[i],
    ) by {
        let p = pieces(s)[i];
        assert(is_piece(p));
        assert forall|j: int| 0 <= j < bare(p).len() implies bare(p)[j] != '\n' by {
            assert(bare(p)[j] == p[j]);
        }
    }
}

/// Lines without line feeds, written out, are read back.
proof fn lemma_bare_unlines(ls: Seq<Seq<char>>)
    requires
        forall|i: int| 0 <= i < ls.len() ==> one_line(#[trigger] ls[i]),
    ensures
        bare_lines(unlines(ls)) == ls,
{
    let ps = Seq::new(ls.len(), |i: int| ls[i].push('\n'));
    assert forall|i: int| 0 <= i < ps.len() implies is_piece(#[trigger] ps[i]) && ps[i].last()
        == '\n' by {
        assert(one_line(ls[i]));
        assert forall|j: int| 0 <= j < ps[i].len() - 1 implies ps[i][j] != '\n' by {
            assert(ps[i][j] == ls[i][j]);
        }
    }
    assert(is_cut(ps));
    lemma_pieces_of(ps);
    assert forall|i: int| 0 <= i < ls.len() implies bare(#[trigger] ps[i]) == ls[i] by {
        assert(ps[i].drop_last() =~= ls[i]);
    }
    assert(bare_lines(unlines(ls)) =~= ls);
}

/// The check sees the same in lines that differ in white space round them.
proof fn lemma_same_seen(a: Seq<Seq<char>>, b: Seq<Seq<char>>)
    requires
        a.len() == b.len(),
        forall|i: int| 0 <= i < a.len() ==> trim(#[trigger] a[i]) == trim(b[i]),
    ensures
        vram_enough(a) == vram_enough(b),
        open_heading(a) == open_heading(b),
    decreases a.len(),
{
    if a.len() > 0 {
        assert forall|i: int| 0 <= i < a.drop_last().len() implies trim(
            #[trigger] a.drop_last()[i],
        ) == trim(b.drop_last()[i]) by {
            assert(a.drop_last()[i] == a[i]);
        }
        lemma_same_seen(a.drop_last(), b.drop_last());
        assert(trim(a[a.len() - 1]) == trim(b[b.len() - 1]));
    }
}

/// A file is healthy by its bare lines as by its lines.
proof fn lemma_bare_enough(s: Seq<char>)
    ensures
        vram_enough(lines(s)) == vram_enough(bare_lines(s)),
{
    let (a, b) = (lines(s), bare_lines(s));
    assert(a.len() == b.len());
    assert forall|i: int| 0 <= i < a.len() implies trim(#[trigger] a[i]) == trim(b[i]) by {
        let p = pieces(s)[i];
        assert(a[i] == line_text(p));
        assert(is_space('\n') && is_space('\r'));
        lemma_same_trim(a[i], b[i]);
    }
    lemma_same_seen(a, b);
}

proof fn lemma_lacking_plain(m: Merge)
    ensures
        forall|i: int| 0 <= i < lacking(m).len() ==> one_line(#[trigger] lacking(m)[i]),
{
    lemma_api_line();
    lemma_mark_line();
    lemma_vram_line(VRAM_FLOOR as nat);
}

proof fn lemma_out_plain(ls: Seq<Seq<char>>)
    requires
        forall|i: int| 0 <= i < ls.len() ==> one_line(#[trigger] ls[i]),
    ensures
        forall|i: int|
            0 <= i < merge_lines(start(), ls).out.len() ==> one_line(
                #[trigger] merge_lines(start(), ls).out[i],
            ),
    decreases ls.len(),
{
    if ls.len() > 0 {
        let p = ls.drop_last();
        let m = merge_lines(start(), p);
        let raw = ls.last();
        let r = merge_line(m, raw);
        assert forall|i: int| 0 <= i < p.len() implies one_line(#[trigger] p[i]) by {
            assert(ls[i] == p[i]);
        }
        lemma_out_plain(p);
        assert(one_line(ls[ls.len() - 1]));
        lemma_lacking_plain(m);
        lemma_api_line();
        let t = trim(raw);
        if !is_header(t) && in_directx(m.section) && gives(t, "VRAM"@) {
            lemma_leading_number(trim(rest(t, '=')->0));
            lemma_vram_line(at_least(leading_number(trim(rest(t, '=')->0)), VRAM_FLOOR as nat));
        }
        assert forall|i: int| 0 <= i < r.out.len() implies one_line(#[trigger] r.out[i]) by {
            if i < m.out.len() {
                assert(r.out[i] == m.out[i]);
            } else if is_header(t) && i < m.out.len() + lacking(m).len() {
                assert(r.out[i] == lacking(m)[i - m.out.len()]);
            }
        }
    }
}

proof fn lemma_merged_plain(existing: Seq<char>)
    ensures
        forall|i: int|
            0 <= i < merged_lines(existing).len() ==> one_line(
                #[trigger] merged_lines(existing)[i],
            ),
        bare_lines(merged(existing)) == merged_lines(existing),
{
    let m = merge_lines(start(), bare_lines(existing));
    lemma_bare_plain(existing);
    lemma_out_plain(bare_lines(existing));
    lemma_lacking_plain(m);
    lemma_section_lines();
    lemma_api_line();
    lemma_mark_line();
    lemma_vram_line(VRAM_FLOOR as nat);
    let c = completed(m).out;
    let g = if !m.saw_general {
        general_section()
    } else {
        Seq::empty()
    };
    let d = if !m.saw_directx {
        directx_section()
    } else {
        Seq::empty()
    };
    let f = merged_lines(existing);
    assert(f == c + g + d);
    assert forall|i: int| 0 <= i < f.len() implies one_line(#[trigger] f[i]) by {
        if i < m.out.len() {
            assert(f[i] == m.out[i]);
        } else if i < c.len() {
            assert(f[i] == lacking(m)[i - m.out.len()]);
        } else if i < c.len() + g.len() {
            assert(f[i] == g[i - c.len()]);
        } else {
            assert(f[i] == d[i - c.len() - g.len()]);
        }
    }
    lemma_bare_unlines(f);
}

/// A line of a text occurs in it.
pub proof fn lemma_line_occurs(ls: Seq<Seq<char>>, i: int)
    requires
        0 <= i < ls.len(),
    ensures
        exists|k: int| #[trigger] occurs_at(unlines(ls), ls[i], k),
    decreases ls.len(),
{
    let p = ls.drop_last();
    lemma_unlines_push(p, ls.last());
    assert(p.push(ls.last()) =~= ls);
    let u = unlines(ls);
    if i == ls.len() - 1 {
        let k = unlines(p).len() as int;
        assert(u.subrange(k, k + ls[i].len()) =~= ls[i]);
        assert(occurs_at(u, ls[i], k));
    } else {
        lemma_line_occurs(p, i);
        let k = choose|k: int| #[trigger] occurs_at(unlines(p), p[i], k);
        assert(u.subrange(k, k + ls[i].len()) =~= unlines(p).subrange(k, k + ls[i].len()));
        assert(occurs_at(u, ls[i], k));
    }
}

pub proof fn lemma_api_named(text: Seq<char>, k: int)
    requires
        occurs_at(text, API_LINE@, k),
    ensures
        api_named(text),
{
    lemma_api_line();
    let low = lower(text);
    let la = lower(API_LINE@);
    reveal_strlit("outputapi");
    reveal_strlit("d3d11_fl11_0");
    reveal_strlit("OutputAPI = d3d11_fl11_0");
    assert forall|i: int| 0 <= i < la.len() implies low[k + i] == la[i] by {
        assert(text.subrange(k, k + API_LINE@.len())[i] == text[k + i]);
    }
    assert(low.subrange(k, k + 9) =~= la.subrange(0, 9));
    assert(occurs_at(low, "outputapi"@, k));
    assert(low.subrange(k + 12, k + 24) =~= la.subrange(12, 24));
    assert(occurs_at(low, "d3d11_fl11_0"@, k + 12));
}

/// Merging always gives a file that passes the health check: it names the
/// D3D11 output and its VRAM is at least the floor, whatever the file held.
pub proof fn law_merged_is_healthy(existing: Seq<char>)
    ensures
        healthy_conf(merged(existing)),
{
    let f = merged_lines(existing);
    lemma_finished_again(bare_lines(existing));
    lemma_merged_plain(existing);
    lemma_bare_enough(merged(existing));
    lemma_seen(f);
    lemma_sound(f);
    let i = choose|i: int| 0 <= i < f.len() && is_api(#[trigger] f[i]);
    lemma_line_occurs(f, i);
    let u = unlines(f);
    let k = choose|k: int| #[trigger] occurs_at(u, f[i], k);
    let n = API_LINE@.len() as int;
    assert(u.subrange(k, k + n) =~= u.subrange(k, k + f[i].len()).take(n));
    assert(f[i].take(n) =~= API_LINE@);
    assert(occurs_at(u, API_LINE@, k));
    lemma_api_named(u, k);
}

/// Merging a merged file changes nothing.
pub proof fn law_merging_is_idempotent(existing: Seq<char>)
    ensures
        merged(merged(existing)) == merged(existing),
{
    lemma_finished_again(bare_lines(existing));
    lemma_merged_plain(existing);
}

// ── the lines that are not forced ──────────────────────────────────

/// The section that is open after the lines `ls`.
pub open spec fn open_section(ls: Seq<Seq<char>>) -> Seq<char>
    decreases ls.len(),
{
    if ls.len() == 0 {
        Seq::empty()
    } else {
        let t = trim(ls.last());
        if is_header(t) {
            t.subrange(1, t.len() - 1)
        } else {
            open_section(ls.drop_last())
        }
    }
}

/// The line sets a key that the merge forces, in the section it belongs to.
pub open spec fn is_forced(section: Seq<char>, line: Seq<char>) -> bool {
    let t = trim(line);
    &&& !is_header(t)
    &&& {
        ||| in_general(section) && gives(t, "OutputAPI"@)
        ||| in_directx(section) && gives(t, "VRAM"@)
    }
}

/// The lines that the merge does not force.
pub open spec fn other_lines(ls: Seq<Seq<char>>) -> Seq<Seq<char>>
    decreases ls.len(),
{
    if ls.len() == 0 {
        Seq::empty()
    } else if is_forced(open_section(ls.drop_last()), ls.last()) {
        other_lines(ls.drop_last())
    } else {
        other_lines(ls.drop_last()).push(ls.last())
    }
}

/// Some heading of `ls` opens the section `name`.
pub open spec fn has_section(ls: Seq<Seq<char>>, name: Seq<char>) -> bool {
    exists|i: int|
        #![trigger ls[i]]
        0 <= i < ls.len() && is_header(trim(ls[i])) && same_nocase(
            trim(ls[i]).subrange(1, trim(ls[i]).len() - 1),
            name,
        )
}

proof fn lemma_other_push(ls: Seq<Seq<char>>, l: Seq<char>)
    ensures
        open_section(ls.push(l)) == if is_header(trim(l)) {
            trim(l).subrange(1, trim(l).len() - 1)
        } else {
            open_section(ls)
        },
        other_lines(ls.push(l)) == if is_forced(open_section(ls), l) {
            other_lines(ls)
        } else {
            other_lines(ls).push(l)
        },
{
    assert(ls.push(l).drop_last() =~= ls);
}

/// `b` is `a`, or `a` with one more line that turns the watermark off.
pub open spec fn mark_added(a: Seq<Seq<char>>, b: Seq<Seq<char>>) -> bool {
    exists|k: int| 0 <= k <= a.len() && b == #[trigger] a.insert(k, MARK_LINE@)
}

proof fn lemma_mark_added_push(a: Seq<Seq<char>>, b: Seq<Seq<char>>, l: Seq<char>)
    requires
        mark_added(a, b),
    ensures
        mark_added(a.push(l), b.push(l)),
{
    let k = choose|k: int| 0 <= k <= a.len() && b == #[trigger] a.insert(k, MARK_LINE@);
    assert(b.push(l) =~= a.push(l).insert(k, MARK_LINE@));
}

proof fn lemma_mark_added_add(a: Seq<Seq<char>>, b: Seq<Seq<char>>, c: Seq<Seq<char>>)
    requires
        mark_added(a, b),
    ensures
        mark_added(a + c, b + c),
{
    let k = choose|k: int| 0 <= k <= a.len() && b == #[trigger] a.insert(k, MARK_LINE@);
    assert(b + c =~= (a + c).insert(k, MARK_LINE@));
}

proof fn lemma_lacking_other(m: Merge, ls: Seq<Seq<char>>)
    requires
        open_section(ls) == m.section,
    ensures
        open_section(ls + lacking(m)) == m.section,
        other_lines(ls + lacking(m)) == if in_directx(m.section) && !m.mark {
            other_lines(ls).push(MARK_LINE@)
        } else {
            other_lines(ls)
        },
{
    lemma_sections(m.section);
    lemma_api_line();
    lemma_mark_line();
    lemma_vram_line(VRAM_FLOOR as nat);
    let vl = vram_line(VRAM_FLOOR as nat);
    if in_general(m.section) && !m.api {
        assert(ls + lacking(m) =~= ls.push(API_LINE@));
        lemma_other_push(ls, API_LINE@);
    } else if in_directx(m.section) {
        if !m.vram && !m.mark {
            assert(ls + lacking(m) =~= ls.push(vl).push(MARK_LINE@));
            lemma_other_push(ls, vl);
            lemma_other_push(ls.push(vl), MARK_LINE@);
        } else if !m.vram {
            assert(ls + lacking(m) =~= ls.push(vl));
            lemma_other_push(ls, vl);
        } else if !m.mark {
            assert(ls + lacking(m) =~= ls.push(MARK_LINE@));
            lemma_other_push(ls, MARK_LINE@);
        } else {
            assert(ls + lacking(m) =~= ls);
        }
    } else {
        assert(ls + lacking(m) =~= ls);
    }
}

/// What the merge keeps of the lines read: all of them, and a watermark line
/// besides only where it has written one.
spec fn keeps(m: Merge, kept: Seq<Seq<char>>) -> bool {
    ||| other_lines(m.out) == kept
    ||| m.mark && m.saw_directx && mark_added(kept, other_lines(m.out))
}

proof fn lemma_completed_keeps(m: Merge, kept: Seq<Seq<char>>)
    requires
        open_section(m.out) == m.section,
        in_directx(m.section) ==> m.saw_directx,
        keeps(m, kept),
    ensures
        open_section(completed(m).out) == m.section,
        keeps(completed(m), kept),
{
    lemma_lacking_other(m, m.out);
    if in_directx(m.section) && !m.mark {
        assert(kept.push(MARK_LINE@) =~= kept.insert(kept.len() as int, MARK_LINE@));
    }
}

proof fn lemma_others(ls: Seq<Seq<char>>)
    ensures
        open_section(ls) == merge_lines(start(), ls).section,
        open_section(merge_lines(start(), ls).out) == merge_lines(start(), ls).section,
        keeps(merge_lines(start(), ls), other_lines(ls)),
        merge_lines(start(), ls).saw_general == has_section(ls, "General"@),
        merge_lines(start(), ls).saw_directx == has_section(ls, "DirectX"@),
    decreases ls.len(),
{
    if ls.len() > 0 {
        let p = ls.drop_last();
        let raw = ls.last();
        let m = merge_lines(start(), p);
        let t = trim(raw);
        lemma_others(p);
        lemma_sound(p);
        lemma_sections(m.section);
        lemma_api_line();
        lemma_has_section(p, raw, "General"@);
        lemma_has_section(p, raw, "DirectX"@);
        assert(p.push(raw) =~= ls);
        let kept = other_lines(p);
        if is_header(t) {
            let c = completed(m);
            lemma_completed_keeps(m, kept);
            lemma_other_push(c.out, raw);
            if other_lines(c.out) != kept {
                lemma_mark_added_push(kept, other_lines(c.out), raw);
            }
        } else if in_general(m.section) && gives(t, "OutputAPI"@) {
            lemma_in_place(API_LINE@, raw);
            lemma_other_push(m.out, in_place_of(API_LINE@, raw));
        } else if in_directx(m.section) && gives(t, "VRAM"@) {
            lemma_leading_number(trim(rest(t, '=')->0));
            let n = at_least(leading_number(trim(rest(t, '=')->0)), VRAM_FLOOR as nat);
            lemma_vram_line(n);
            lemma_in_place(vram_line(n), raw);
            lemma_other_push(m.out, in_place_of(vram_line(n), raw));
        } else {
            lemma_other_push(m.out, raw);
            if other_lines(m.out) != kept {
                lemma_mark_added_push(kept, other_lines(m.out), raw);
            }
        }
    }
}

proof fn lemma_has_section(p: Seq<Seq<char>>, raw: Seq<char>, name: Seq<char>)
    ensures
        has_section(p.push(raw), name) == (has_section(p, name) || (is_header(trim(raw))
            && same_nocase(trim(raw).subrange(1, trim(raw).len() - 1), name))),
{
    let ls = p.push(raw);
    assert(ls[p.len() as int] == raw);
    if has_section(p, name) {
        let i = choose|i: int|
            #![trigger p[i]]
            0 <= i < p.len() && is_header(trim(p[i])) && same_nocase(
                trim(p[i]).subrange(1, trim(p[i]).len() - 1),
                name,
            );
        assert(ls[i] == p[i]);
    }
    if has_section(ls, name) {
        let i = choose|i: int|
            #![trigger ls[i]]
            0 <= i < ls.len() && is_header(trim(ls[i])) && same_nocase(
                trim(ls[i]).subrange(1, trim(ls[i]).len() - 1),
                name,
            );
        if i < p.len() {
            assert(ls[i] == p[i]);
        }
    }
}

proof fn lemma_general_others(ls: Seq<Seq<char>>)
    ensures
        other_lines(ls + general_section()) == other_lines(ls) + seq![Seq::empty(), "[General]"@],
{
    let e = Seq::<char>::empty();
    lemma_section_lines();
    lemma_api_line();
    lemma_section_keys("OutputAPI"@);
    lemma_section_keys("VRAM"@);
    lemma_section_keys("dgVoodooWatermark"@);
    let l1 = ls.push(e);
    let l2 = l1.push("[General]"@);
    lemma_other_push(ls, e);
    lemma_other_push(l1, "[General]"@);
    lemma_other_push(l2, API_LINE@);
    assert(ls + general_section() =~= l2.push(API_LINE@));
    assert(other_lines(l2) =~= other_lines(ls) + seq![e, "[General]"@]);
}

proof fn lemma_directx_others(ls: Seq<Seq<char>>)
    ensures
        other_lines(ls + directx_section()) == other_lines(ls) + seq![
            Seq::empty(),
            "[DirectX]"@,
            "VideoCard = internal3D"@,
            MARK_LINE@,
            "Antialiasing = appdriven"@,
            "FastVideoMemoryAccess = false"@,
        ],
{
    let e = Seq::<char>::empty();
    let v = vram_line(VRAM_FLOOR as nat);
    lemma_section_lines();
    lemma_mark_line();
    lemma_vram_line(VRAM_FLOOR as nat);
    lemma_section_keys("OutputAPI"@);
    lemma_section_keys("VRAM"@);
    lemma_section_keys("dgVoodooWatermark"@);
    let l1 = ls.push(e);
    let l2 = l1.push("[DirectX]"@);
    let l3 = l2.push("VideoCard = internal3D"@);
    let l4 = l3.push(v);
    let l5 = l4.push(MARK_LINE@);
    let l6 = l5.push("Antialiasing = appdriven"@);
    let l7 = l6.push("FastVideoMemoryAccess = false"@);
    lemma_other_push(ls, e);
    lemma_other_push(l1, "[DirectX]"@);
    lemma_other_push(l2, "VideoCard = internal3D"@);
    lemma_other_push(l3, v);
    lemma_other_push(l4, MARK_LINE@);
    lemma_other_push(l5, "Antialiasing = appdriven"@);
    lemma_other_push(l6, "FastVideoMemoryAccess = false"@);
    assert(ls + directx_section() =~= l7);
    assert(other_lines(l7) =~= other_lines(ls) + seq![
        e,
        "[DirectX]"@,
        "VideoCard = internal3D"@,
        MARK_LINE@,
        "Antialiasing = appdriven"@,
        "FastVideoMemoryAccess = false"@,
    ]);
}

/// The lines that are not forced among those of the sections that a file lacks.
pub open spec fn missing_sections(ls: Seq<Seq<char>>) -> Seq<Seq<char>> {
    (if !has_section(ls, "General"@) {
        seq![Seq::empty(), "[General]"@]
    } else {
        Seq::empty()
    }) + (if !has_section(ls, "DirectX"@) {
        seq![
            Seq::empty(),
            "[DirectX]"@,
            "VideoCard = internal3D"@,
            MARK_LINE@,
            "Antialiasing = appdriven"@,
            "FastVideoMemoryAccess = false"@,
        ]
    } else {
        Seq::empty()
    })
}

/// Merging keeps every line but those of the two forced keys, in their order and
/// to the last character.
/// What it adds besides are the lines of a section that the file lacked and,
/// to a `[DirectX]` section that does not mention it, the watermark key.
pub proof fn law_merge_keeps_other_lines(existing: Seq<char>)
    ensures
        ({
            let ls = bare_lines(existing);
            let kept = other_lines(ls) + missing_sections(ls);
            let now = other_lines(bare_lines(merged(existing)));
            ||| now == kept
            ||| has_section(ls, "DirectX"@) && mark_added(kept, now)
        }),
{
    let ls = bare_lines(existing);
    let m = merge_lines(start(), ls);
    let c = completed(m);
    let kept = other_lines(ls);
    let none = Seq::<Seq<char>>::empty();
    lemma_merged_plain(existing);
    lemma_others(ls);
    lemma_sound(ls);
    lemma_completed_keeps(m, kept);
    let g = if !m.saw_general {
        general_section()
    } else {
        none
    };
    if !m.saw_general {
        lemma_general_others(c.out);
    } else {
        assert(c.out + none =~= c.out);
    }
    if !m.saw_directx {
        lemma_directx_others(c.out + g);
    } else {
        assert(c.out + g + none =~= c.out + g);
    }
    let tail = missing_sections(ls);
    assert(other_lines(merged_lines(existing)) =~= other_lines(c.out) + tail);
    if other_lines(c.out) != kept {
        lemma_mark_added_add(kept, other_lines(c.out), tail);
    }
}

// ── the forced keys ────────────────────────────────────────────────

/// Line `i` gives the output API, in its section.
pub open spec fn gives_api(ls: Seq<Seq<char>>, i: int) -> bool {
    &&& 0 <= i < ls.len()
    &&& !is_header(trim(ls[i]))
    &&& in_general(open_section(ls.take(i)))
    &&& gives(trim(ls[i]), "OutputAPI"@)
}

/// Line `i` gives the VRAM, in its section.
pub open spec fn gives_vram(ls: Seq<Seq<char>>, i: int) -> bool {
    &&& 0 <= i < ls.len()
    &&& !is_header(trim(ls[i]))
    &&& in_directx(open_section(ls.take(i)))
    &&& gives(trim(ls[i]), "VRAM"@)
}

/// Line `i` says `VRAM = n` with an `n` that is enough.
pub open spec fn enough_at(ls: Seq<Seq<char>>, i: int) -> bool {
    exists|n: nat| n >= VRAM_FLOOR && trim(ls[i]) == #[trigger] vram_line(n)
}

/// In a file that the merge leaves as it is, the forced keys are as required,
/// and those that the merge has seen are there.
proof fn lemma_forced(ls: Seq<Seq<char>>)
    requires
        merge_lines(start(), ls).out == ls,
    ensures
        open_section(ls) == merge_lines(start(), ls).section,
        forall|i: int| #[trigger] gives_api(ls, i) ==> trim(ls[i]) == API_LINE@,
        forall|i: int| #[trigger] gives_vram(ls, i) ==> enough_at(ls, i),
        merge_lines(start(), ls).api ==> exists|i: int| gives_api(ls, i),
        merge_lines(start(), ls).vram ==> exists|i: int| gives_vram(ls, i),
    decreases ls.len(),
{
    lemma_others(ls);
    if ls.len() > 0 {
        let p = ls.drop_last();
        let raw = ls.last();
        let last = ls.len() - 1;
        let m = merge_lines(start(), p);
        lemma_grows(p);
        lemma_added(m, raw);
        assert(m.out.len() == p.len());
        assert(m.out =~= p) by {
            assert forall|i: int| 0 <= i < p.len() implies m.out[i] == p[i] by {
                assert((m.out + added(m, raw))[i] == m.out[i]);
            }
        }
        lemma_forced(p);
        lemma_api_line();
        let t = trim(raw);
        let r = merge_line(m, raw);
        assert(r.out.last() == raw);
        assert(ls.take(last) =~= p);
        assert forall|i: int| 0 <= i < last implies #[trigger] ls[i] == p[i] && ls.take(i) == p.take(
            i,
        ) by {
            assert(ls.take(i) =~= p.take(i));
        }
        assert forall|i: int| #[trigger] gives_api(ls, i) implies trim(ls[i]) == API_LINE@ by {
            if i < last {
                assert(ls[i] == p[i]);
                assert(gives_api(p, i));
            } else {
                lemma_in_place(API_LINE@, raw);
            }
        }
        assert forall|i: int| #[trigger] gives_vram(ls, i) implies enough_at(ls, i) by {
            if i < last {
                assert(ls[i] == p[i]);
                assert(gives_vram(p, i));
                assert(enough_at(p, i));
            } else {
                lemma_sections(m.section);
                let n = at_least(leading_number(trim(rest(t, '=')->0)), VRAM_FLOOR as nat);
                lemma_leading_number(trim(rest(t, '=')->0));
                lemma_vram_line(n);
                lemma_in_place(vram_line(n), raw);
                assert(trim(ls[i]) == vram_line(n));
            }
        }
        if r.api {
            if m.api {
                let k = choose|k: int| gives_api(p, k);
                assert(ls[k] == p[k]);
                assert(gives_api(ls, k));
            } else {
                assert(gives_api(ls, last));
            }
        }
        if r.vram {
            if m.vram {
                let k = choose|k: int| gives_vram(p, k);
                assert(ls[k] == p[k]);
                assert(gives_vram(ls, k));
            } else {
                assert(gives_vram(ls, last));
            }
        }
    }
}

/// A merged file gives both forced keys, and every line that gives one gives it
/// as required: the D3D11 output under `[General]`, at least the floor of VRAM
/// under `[DirectX]`.
pub proof fn law_merged_forces_the_keys(existing: Seq<char>)
    ensures
        ({
            let ls = bare_lines(merged(existing));
            &&& exists|i: int| gives_api(ls, i)
            &&& exists|i: int| gives_vram(ls, i)
            &&& forall|i: int| #[trigger] gives_api(ls, i) ==> trim(ls[i]) == API_LINE@
            &&& forall|i: int| #[trigger] gives_vram(ls, i) ==> enough_at(ls, i)
        }),
{
    lemma_finished_again(bare_lines(existing));
    lemma_merged_plain(existing);
    let ls = merged_lines(existing);
    lemma_forced(ls);
    let i = choose|i: int| gives_api(ls, i);
    assert(gives_api(ls, i));
    let j = choose|j: int| gives_vram(ls, j);
    assert(gives_vram(ls, j));
}

// ── the forced lines and the DLL ───────────────────────────────────

/// Emulated VRAM is raised to four gibibytes where the file gives less, and kept
/// where it gives more; the output is forced to D3D11; both keep a carriage
/// return.
pub proof fn law_forced_keys_are_rewritten(m: Merge, raw: Seq<char>)
    requires
        !is_header(trim(raw)),
    ensures
        ({
            let t = trim(raw);
            let now = merge_line(m, raw).out;
            let end = if raw.len() > 0 && raw.last() == '\r' {
                seq!['\r']
            } else {
                Seq::<char>::empty()
            };
            let keyed = |key: Seq<char>|
                rest(t, '=') is Some && lower(trim(head(t, '='))) == lower(key);
            let under = |name: Seq<char>| lower(m.section) == lower(name);
            let n = leading_number(trim(rest(t, '=')->0));
            let api = under("General"@) && keyed("OutputAPI"@);
            let vram = under("DirectX"@) && keyed("VRAM"@);
            &&& api ==> now == m.out.push("OutputAPI = d3d11_fl11_0"@ + end)
            &&& !api && vram && n < 4096 ==> now == m.out.push("VRAM = "@ + decimal(4096) + end)
            &&& !api && vram && n >= 4096 ==> now == m.out.push("VRAM = "@ + decimal(n) + end)
            &&& !api && !vram ==> now == m.out.push(raw)
        }),
{
    let t = trim(raw);
    let n = at_least(leading_number(trim(rest(t, '=')->0)), 4096);
    let r = seq!['\r'];
    let none = Seq::<char>::empty();
    assert(API_LINE@.push('\r') =~= API_LINE@ + r);
    assert(API_LINE@ + none =~= API_LINE@);
    assert(vram_line(n).push('\r') =~= "VRAM = "@ + decimal(n) + r);
    assert(vram_line(n) + none =~= vram_line(n));
}

/// The DLL in the release is found by its folder and name at the end of the
/// member's path, slashes and backslashes alike, in any case: that of x64 for a
/// 64-bit game, that of x86 for any other.
pub proof fn law_dll_is_of_the_bitness(name: Seq<char>, bitness: u8)
    ensures
        ({
            let low = lower(slashed(name));
            &&& bitness == 64 ==> (is_member(name, bitness) <==> low == lower("MS/x64/D3D9.dll"@)
                || ends_with(low, "/ms/x64/d3d9.dll"@))
            &&& bitness != 64 ==> (is_member(name, bitness) <==> low == lower("MS/x86/D3D9.dll"@)
                || ends_with(low, "/ms/x86/d3d9.dll"@))
        }),
{
}

/// The DLL that is installed is the first of the release that fits.
pub proof fn law_first_fitting_dll_is_taken(names: Seq<Seq<char>>, bitness: u8)
    ensures
        first_member(names, bitness) is Some <==> exists|i: int|
            0 <= i < names.len() && is_member(#[trigger] names[i], bitness),
        first_member(names, bitness) matches Some(m) ==> exists|i: int|
            0 <= i < names.len() && #[trigger] names[i] == m && is_member(m, bitness)
                && forall|j: int| 0 <= j < i ==> !is_member(#[trigger] names[j], bitness),
    decreases names.len(),
{
    let f = |n: Seq<char>| is_member(n, bitness);
    if names.len() > 0 {
        let u = names.drop_last();
        law_first_fitting_dll_is_taken(u, bitness);
        let last = names.len() - 1;
        if exists|i: int| 0 <= i < names.len() && is_member(#[trigger] names[i], bitness) {
            let i = choose|i: int| 0 <= i < names.len() && is_member(#[trigger] names[i], bitness);
            if i < u.len() {
                assert(is_member(u[i], bitness));
            }
        }
        match first_member(u, bitness) {
            Some(m) => {
                let i = choose|i: int|
                    0 <= i < u.len() && #[trigger] u[i] == m && is_member(m, bitness)
                        && forall|j: int| 0 <= j < i ==> !is_member(#[trigger] u[j], bitness);
                assert(names[i] == m);
                assert forall|j: int| 0 <= j < i implies !is_member(
                    #[trigger] names[j],
                    bitness,
                ) by {
                    assert(u[j] == names[j]);
                }
            },
            None => {
                assert forall|j: int| 0 <= j < last implies !is_member(
                    #[trigger] names[j],
                    bitness,
                ) by {
                    assert(u[j] == names[j]);
                }
                assert(names[last] == names.last());
            },
        }
    }
}

/// A file is kept as it was before its first edit, and only then: a copy that is
/// there is never written over, and where there is no file there is none to keep.
pub proof fn law_first_conf_is_kept(existing: Option<Seq<char>>, backup_there: bool)
    ensures
        backup_there ==> conf_backup(existing, backup_there) is None,
        !backup_there ==> conf_backup(existing, backup_there) == existing,
{
}

/// A `d3d9.dll` that is not dgVoodoo's stops the step; a dgVoodoo that is there
/// has its file merged, and a game with neither gets one.
pub proof fn law_foreign_d3d9_is_never_replaced(dgvoodoo_there: bool, d3d9_there: bool)
    ensures
        dgvoodoo_action(dgvoodoo_there, d3d9_there) is None <==> d3d9_there && !dgvoodoo_there,
        dgvoodoo_action(dgvoodoo_there, d3d9_there) == Some(DgVoodooStep::MergeConf)
            <==> dgvoodoo_there,
        dgvoodoo_action(dgvoodoo_there, d3d9_there) == Some(DgVoodooStep::Download)
            <==> !dgvoodoo_there && !d3d9_there,
{
}

} // verus!
