//! Line-preserving edits of `OptiScaler.ini`: one key is set, every other
//! line stays as it is.
use vstd::prelude::*;
use vstd::slice::slice_subrange;
use crate::lines::{
    cut, ended, ended_pieces, flat, is_cut, is_full, is_piece, lemma_ended_pieces, lemma_flat3,
    lemma_flat_add, lemma_pieces, lemma_pieces_of, pieces,
};
use crate::text::{
    chars, equal_nocase, equals, head, head_of, is_space, lemma_position_is, lemma_trim_end_of,
    lemma_trim_end_of_shape, lemma_trim_is, put, put_str, rows, same_nocase, second, second_of,
    string, trim, trim_end_of, trimmed, trimmed_end_of,
};

verus! {

/// A line without its line ending.
pub open spec fn raw_line(p: Seq<char>) -> Seq<char> {
    trim_end_of(p, '\r', '\n')
}

/// The line ending of a line.
pub open spec fn line_end(p: Seq<char>) -> Seq<char> {
    p.skip(raw_line(p).len() as int)
}

/// What stands before the first `=`.
pub open spec fn field_name(t: Seq<char>) -> Seq<char> {
    trim(head(t, '='))
}

/// What stands after the first `=`, up to a second one.
pub open spec fn field_value(t: Seq<char>) -> Option<Seq<char>> {
    match second(t, '=') {
        Some(v) => Some(trim(v)),
        None => None,
    }
}

/// The line opens a section.
pub open spec fn is_heading(p: Seq<char>) -> bool {
    let t = trim(raw_line(p));
    t.len() > 0 && t[0] == '['
}

/// After the lines `ps` the section whose heading is `header` is open.
pub open spec fn under(ps: Seq<Seq<char>>, header: Seq<char>) -> bool
    decreases ps.len(),
{
    if ps.len() == 0 {
        false
    } else if is_heading(ps.last()) {
        same_nocase(trim(raw_line(ps.last())), header)
    } else {
        under(ps.drop_last(), header)
    }
}

/// Line `i` gives `key` a value in the section.
pub open spec fn sets(ps: Seq<Seq<char>>, i: int, header: Seq<char>, key: Seq<char>) -> bool {
    &&& !is_heading(ps[i])
    &&& under(ps.take(i), header)
    &&& field_name(trim(raw_line(ps[i]))) == key
}

/// The value on the line is `value`.
pub open spec fn reads(p: Seq<char>, value: Seq<char>) -> bool {
    field_value(trim(raw_line(p))) == Some(value)
}

pub open spec fn assignment(key: Seq<char>, value: Seq<char>) -> Seq<char> {
    key + seq!['='] + value
}

/// The lines, with every line that gives `key` another value rewritten.
pub open spec fn edited(
    ps: Seq<Seq<char>>,
    header: Seq<char>,
    key: Seq<char>,
    value: Seq<char>,
) -> Seq<Seq<char>> {
    Seq::new(
        ps.len(),
        |i: int|
            if sets(ps, i, header, key) && !reads(ps[i], value) {
                assignment(key, value) + line_end(ps[i])
            } else {
                ps[i]
            },
    )
}

pub open spec fn heading(section: Seq<char>) -> Seq<char> {
    seq!['['] + section + seq![']']
}

/// The lines that a missing section is added with.
pub open spec fn new_section(header: Seq<char>, key: Seq<char>, value: Seq<char>) -> Seq<char> {
    seq!['\n'] + header + seq!['\n'] + assignment(key, value) + seq!['\n']
}

/// Some line gives `key` a value in the section.
pub open spec fn is_set(ps: Seq<Seq<char>>, header: Seq<char>, key: Seq<char>) -> bool {
    exists|i: int| 0 <= i < ps.len() && sets(ps, i, header, key)
}

/// The end of the section, its last one where it is opened more than once: so
/// many lines come before it. Nothing where no heading opens the section.
pub open spec fn section_end(ps: Seq<Seq<char>>, header: Seq<char>) -> Option<int>
    decreases ps.len(),
{
    if ps.len() == 0 {
        None
    } else if under(ps, header) {
        Some(ps.len() as int)
    } else {
        section_end(ps.drop_last(), header)
    }
}

/// The lines, the last one ended, with `key=value` as line `at`.
pub open spec fn with_line(
    ps: Seq<Seq<char>>,
    at: int,
    key: Seq<char>,
    value: Seq<char>,
) -> Seq<Seq<char>> {
    ended_pieces(ps).insert(at, assignment(key, value).push('\n'))
}

/// `ini` with `key=value` under `[section]`; `None` where it already reads so.
/// A key that is missing comes to the end of its section, a section that is
/// missing to the end of the file.
pub open spec fn ini_with(
    ini: Seq<char>,
    section: Seq<char>,
    key: Seq<char>,
    value: Seq<char>,
) -> Option<Seq<char>> {
    let ps = pieces(ini);
    let header = heading(section);
    let body = flat(edited(ps, header, key, value));
    if !is_set(ps, header, key) {
        match section_end(ps, header) {
            None => Some(ended(ini) + new_section(header, key, value)),
            Some(at) => Some(flat(with_line(ps, at, key, value))),
        }
    } else if exists|i: int| 0 <= i < ps.len() && sets(ps, i, header, key) && !reads(ps[i], value) {
        Some(body)
    } else {
        None
    }
}

/// The text with a line added.
fn line_added(ps: &Vec<Vec<char>>, at: usize, key: &str, value: &str) -> (r: Vec<char>)
    requires
        is_cut(rows(ps@)),
        at <= ps@.len(),
    ensures
        r@ == flat(with_line(rows(ps@), at as int, key@, value@)),
{
    let ghost all = rows(ps@);
    let ghost e = ended_pieces(all);
    let ghost l = with_line(all, at as int, key@, value@);
    let mut out: Vec<char> = Vec::new();
    let mut k: usize = 0;
    let mut added = false;
    assert(l.take(0) =~= Seq::empty());
    assert(e.len() == all.len());
    while k < ps.len() || !added
        invariant
            all == rows(ps@),
            all.len() == ps@.len(),
            is_cut(all),
            e == ended_pieces(all),
            e.len() == all.len(),
            l == e.insert(at as int, assignment(key@, value@).push('\n')),
            at <= ps@.len(),
            k <= ps@.len(),
            added ==> k >= at,
            !added ==> k <= at,
            out@ == flat(l.take(k + if added { 1int } else { 0 })),
        decreases ps@.len() - k + if added { 0int } else { 1 },
    {
        if k == at && !added {
            put_str(&mut out, key);
            out.push('=');
            put_str(&mut out, value);
            out.push('\n');
            added = true;
            proof {
                assert(l.take(k + 1).drop_last() =~= l.take(k as int));
                assert(l.take(k + 1).last() == l[k as int]);
                assert(out@ =~= flat(l.take(k as int)) + assignment(key@, value@).push('\n'));
            }
        } else {
            let line = ps[k].as_slice();
            let ghost j = k + if added { 1int } else { 0 };
            proof {
                assert(all[k as int] == line@);
                assert(is_piece(all[k as int]));
                assert(l.take(j + 1).drop_last() =~= l.take(j));
                assert(l.take(j + 1).last() == l[j]);
                assert(l[j] == e[k as int]);
            }
            put(&mut out, line);
            if k == ps.len() - 1 && line[line.len() - 1] != '\n' {
                out.push('\n');
                assert(out@ =~= flat(l.take(j)) + line@.push('\n'));
            } else {
                assert(e[k as int] == line@);
            }
            k = k + 1;
        }
    }
    assert(l.take(l.len() as int) =~= l);
    out
}

/// Set `key=value` inside `[section]`, appending the section or the key when
/// missing; `None` when it already reads that way. Section-scoped because
/// OptiScaler.ini repeats names like `Enabled` under many headings.
pub fn set_ini_key(ini: &str, section: &str, key: &str, value: &str) -> (r: Option<String>)
    ensures
        match r {
            Some(t) => ini_with(ini@, section@, key@, value@) == Some(t@),
            None => ini_with(ini@, section@, key@, value@) is None,
        },
{
    let text = chars(ini);
    let ps = cut(text.as_slice());
    let mut header: Vec<char> = Vec::new();
    header.push('[');
    put_str(&mut header, section);
    header.push(']');
    assert(header@ =~= heading(section@));
    let header_text = string(header.as_slice());
    let mut out: Vec<char> = Vec::new();
    let mut in_section = false;
    let mut seen = false;
    let mut changed = false;
    let mut place: Option<usize> = None;
    let mut i: usize = 0;
    let ghost all = pieces(ini@);
    let ghost ed = edited(all, header@, key@, value@);
    assert(ed.take(0) =~= Seq::empty());
    assert(all.take(0) =~= Seq::empty());
    while i < ps.len()
        invariant
            i <= ps@.len(),
            rows(ps@) == all,
            all == pieces(ini@),
            header_text@ == header@,
            header@ == heading(section@),
            ed == edited(all, header@, key@, value@),
            out@ == flat(ed.take(i as int)),
            in_section == under(all.take(i as int), header@),
            section_end(all.take(i as int), header@) == (match place {
                Some(p) => Some(p as int),
                None => None,
            }),
            place matches Some(p) ==> p <= i,
            seen == exists|j: int| 0 <= j < i && sets(all, j, header@, key@),
            changed == exists|j: int|
                0 <= j < i && sets(all, j, header@, key@) && !reads(all[j], value@),
        decreases ps@.len() - i,
    {
        let line = ps[i].as_slice();
        let raw = trimmed_end_of(line, '\r', '\n');
        let t = trimmed(raw);
        proof {
            assert(rows(ps@)[i as int] == line@);
            assert(all.take(i + 1).drop_last() =~= all.take(i as int));
            assert(all.take(i + 1).last() == line@);
            assert(ed.take(i + 1).drop_last() =~= ed.take(i as int));
            assert(ed.take(i + 1).last() == ed[i as int]);
        }
        let mut rewrite = false;
        if t.len() > 0 && t[0] == '[' {
            in_section = equal_nocase(t, header_text.as_str());
            assert(!sets(all, i as int, header@, key@));
        } else if in_section && equals(trimmed(head_of(t, '=')), key) {
            assert(sets(all, i as int, header@, key@));
            seen = true;
            let current = match second_of(t, '=') {
                Some(v) => equals(trimmed(v), value),
                None => false,
            };
            assert(current == reads(line@, value@));
            if !current {
                rewrite = true;
                changed = true;
            }
        } else {
            assert(!sets(all, i as int, header@, key@));
        }
        if rewrite {
            put_str(&mut out, key);
            out.push('=');
            put_str(&mut out, value);
            let end = slice_subrange(line, raw.len(), line.len());
            assert(end@ =~= line_end(line@));
            put(&mut out, end);
            assert(out@ =~= flat(ed.take(i as int)) + (assignment(key@, value@) + line_end(line@)));
        } else {
            put(&mut out, line);
        }
        i = i + 1;
        if in_section {
            place = Some(i);
        }
    }
    assert(ed.take(all.len() as int) =~= ed);
    assert(all.take(all.len() as int) =~= all);
    proof {
        lemma_pieces(ini@);
    }
    if !seen {
        assert(ed =~= all);
        if let Some(at) = place {
            let added = line_added(&ps, at, key, value);
            return Some(string(added.as_slice()));
        }
        if out.len() > 0 && out[out.len() - 1] != '\n' {
            out.push('\n');
        }
        out.push('\n');
        put(&mut out, header.as_slice());
        out.push('\n');
        put_str(&mut out, key);
        out.push('=');
        put_str(&mut out, value);
        out.push('\n');
        assert(out@ =~= ended(ini@) + new_section(header@, key@, value@));
        changed = true;
    }
    if changed {
        Some(string(out.as_slice()))
    } else {
        None
    }
}

/// `[DlssNr] Enabled=true` in OptiScaler.ini; `None` when it already says so.
/// Section-scoped: `Enabled` appears under half a dozen headings in that file.
pub fn set_dlss_nr_enabled(ini: &str) -> (r: Option<String>)
    ensures
        match r {
            Some(t) => ini_with(ini@, "DlssNr"@, "Enabled"@, "true"@) == Some(t@),
            None => ini_with(ini@, "DlssNr"@, "Enabled"@, "true"@) is None,
        },
{
    set_ini_key(ini, "DlssNr", "Enabled", "true")
}

/// The line gives `LoadReshade` a value, in whatever section.
pub open spec fn loads(p: Seq<char>) -> bool {
    same_nocase(field_name(raw_line(p)), "LoadReshade"@)
}

/// The value on the line is `true`.
pub open spec fn load_on(p: Seq<char>) -> bool {
    field_value(raw_line(p)) == Some("true"@)
}

/// The lines, with `LoadReshade` switched on where it is not.
pub open spec fn loading(ps: Seq<Seq<char>>) -> Seq<Seq<char>> {
    Seq::new(
        ps.len(),
        |i: int|
            if loads(ps[i]) && !load_on(ps[i]) {
                "LoadReshade=true"@ + line_end(ps[i])
            } else {
                ps[i]
            },
    )
}

/// `ini` with `LoadReshade=true`; `None` where it already reads so.
pub open spec fn ini_loading(ini: Seq<char>) -> Option<Seq<char>> {
    let ps = pieces(ini);
    let body = flat(loading(ps));
    if !(exists|i: int| 0 <= i < ps.len() && loads(#[trigger] ps[i])) {
        Some(ended(body) + "\n[Plugins]\nLoadReshade=true\n"@)
    } else if exists|i: int| 0 <= i < ps.len() && loads(#[trigger] ps[i]) && !load_on(ps[i]) {
        Some(body)
    } else {
        None
    }
}

/// `LoadReshade=true` in OptiScaler.ini; `None` when already set.
pub fn set_load_reshade(ini: &str) -> (r: Option<String>)
    ensures
        match r {
            Some(t) => ini_loading(ini@) == Some(t@),
            None => ini_loading(ini@) is None,
        },
{
    let text = chars(ini);
    let ps = cut(text.as_slice());
    let mut out: Vec<char> = Vec::new();
    let mut seen = false;
    let mut changed = false;
    let mut i: usize = 0;
    let ghost all = pieces(ini@);
    let ghost ed = loading(all);
    assert(ed.take(0) =~= Seq::empty());
    while i < ps.len()
        invariant
            i <= ps@.len(),
            rows(ps@) == all,
            ed == loading(all),
            out@ == flat(ed.take(i as int)),
            seen == exists|j: int| 0 <= j < i && loads(#[trigger] all[j]),
            changed == exists|j: int| 0 <= j < i && loads(#[trigger] all[j]) && !load_on(all[j]),
        decreases ps@.len() - i,
    {
        let line = ps[i].as_slice();
        let t = trimmed_end_of(line, '\r', '\n');
        proof {
            assert(rows(ps@)[i as int] == line@);
            assert(all[i as int] == line@);
            assert(ed.take(i + 1).drop_last() =~= ed.take(i as int));
            assert(ed.take(i + 1).last() == ed[i as int]);
        }
        let mut rewrite = false;
        if equal_nocase(trimmed(head_of(t, '=')), "LoadReshade") {
            seen = true;
            let current = match second_of(t, '=') {
                Some(v) => equals(trimmed(v), "true"),
                None => false,
            };
            assert(current == load_on(line@));
            if !current {
                rewrite = true;
                changed = true;
            }
        }
        if rewrite {
            put_str(&mut out, "LoadReshade=true");
            let end = slice_subrange(line, t.len(), line.len());
            assert(end@ =~= line_end(line@));
            put(&mut out, end);
            assert(out@ =~= flat(ed.take(i as int)) + ("LoadReshade=true"@ + line_end(line@)));
        } else {
            put(&mut out, line);
        }
        i = i + 1;
    }
    assert(ed.take(all.len() as int) =~= ed);
    if !seen {
        if out.len() > 0 && out[out.len() - 1] != '\n' {
            out.push('\n');
        }
        put_str(&mut out, "\n[Plugins]\nLoadReshade=true\n");
        assert(out@ =~= ended(flat(ed)) + "\n[Plugins]\nLoadReshade=true\n"@);
        changed = true;
    }
    if changed {
        Some(string(out.as_slice()))
    } else {
        None
    }
}

// ── laws ───────────────────────────────────────────────────────────

/// A text that stands on one line and comes back from a `name=value` line.
pub open spec fn is_plain(t: Seq<char>) -> bool {
    &&& trim(t) == t
    &&& forall|j: int| 0 <= j < t.len() ==> t[j] != '=' && t[j] != '\n'
}

/// No line feed.
pub open spec fn one_line(t: Seq<char>) -> bool {
    forall|j: int| 0 <= j < t.len() ==> t[j] != '\n'
}

proof fn lemma_plain_ends(t: Seq<char>)
    requires
        is_plain(t),
        t.len() > 0,
    ensures
        !is_space(t[0]),
        !is_space(t.last()),
{
    crate::text::lemma_trim_shape(t);
}

proof fn lemma_raw_line(body: Seq<char>, end: Seq<char>)
    requires
        body.len() > 0 ==> body.last() != '\r' && body.last() != '\n',
        forall|j: int| 0 <= j < end.len() ==> end[j] == '\r' || end[j] == '\n',
    ensures
        raw_line(body + end) == body,
{
    let s = body + end;
    lemma_trim_end_of(s, '\r', '\n', body.len() as int);
    assert(s.take(body.len() as int) =~= body);
}

proof fn lemma_line_end(p: Seq<char>)
    requires
        is_piece(p),
    ensures
        forall|j: int| 0 <= j < line_end(p).len() ==> line_end(p)[j] == '\r' || line_end(p)[j] == '\n',
        forall|j: int| 0 <= j < line_end(p).len() - 1 ==> line_end(p)[j] != '\n',
        p.last() == '\n' ==> line_end(p).len() > 0 && line_end(p).last() == '\n',
{
    lemma_trim_end_of_shape(p, '\r', '\n');
    let k = raw_line(p).len() as int;
    assert forall|j: int| 0 <= j < line_end(p).len() implies line_end(p)[j] == '\r' || line_end(p)[j]
        == '\n' by {
        assert(line_end(p)[j] == p[k + j]);
    }
    assert forall|j: int| 0 <= j < line_end(p).len() - 1 implies line_end(p)[j] != '\n' by {
        assert(line_end(p)[j] == p[k + j]);
    }
    if p.last() == '\n' {
        if k == p.len() {
            assert(raw_line(p).last() == p.last());
        }
    }
}

/// What an assignment line says.
proof fn lemma_assignment(key: Seq<char>, value: Seq<char>, end: Seq<char>)
    requires
        is_plain(key),
        is_plain(value),
        forall|j: int| 0 <= j < end.len() ==> end[j] == '\r' || end[j] == '\n',
    ensures
        raw_line(assignment(key, value) + end) == assignment(key, value),
        trim(assignment(key, value)) == assignment(key, value),
        field_name(assignment(key, value)) == key,
        field_value(assignment(key, value)) == Some(value),
{
    let a = assignment(key, value);
    if key.len() > 0 {
        lemma_plain_ends(key);
        assert(a[0] == key[0]);
    } else {
        assert(a[0] == '=');
    }
    if value.len() > 0 {
        lemma_plain_ends(value);
        assert(a.last() == value.last());
    } else {
        assert(a.last() == '=');
    }
    lemma_raw_line(a, end);
    lemma_trim_is(a);
    lemma_position_is(a, '=', key.len() as int);
    assert(head(a, '=') =~= key);
    assert(a.skip(key.len() as int + 1) =~= value);
    lemma_position_is(value, '=', value.len() as int);
    assert(head(value, '=') =~= value);
}

/// Setting a key and setting it again changes nothing: once `key=value` has
/// been written, the file reads that way.
///
/// A key or value that a line cannot hold (a line feed, an `=`, white space
/// at an end, a key that starts like a heading) never reads back, and neither
/// does a section name with a line feed.
pub proof fn law_set_ini_key_settles(
    ini: Seq<char>,
    section: Seq<char>,
    key: Seq<char>,
    value: Seq<char>,
)
    requires
        is_plain(key),
        is_plain(value),
        one_line(section),
        key.len() > 0 ==> key[0] != '[',
    ensures
        ini_with(ini, section, key, value) matches Some(out) ==> ini_with(out, section, key, value)
            is None,
{
    let ps = pieces(ini);
    let header = heading(section);
    let ed = edited(ps, header, key, value);
    lemma_pieces(ini);
    lemma_section_end(ps, header);
    if is_set(ps, header, key) {
        if ini_with(ini, section, key, value) is Some {
            lemma_edited_cut(ps, header, key, value);
            lemma_pieces_of(ed);
            lemma_edited_reads(ps, header, key, value);
            let k = choose|i: int| 0 <= i < ps.len() && sets(ps, i, header, key);
            assert(sets(ed, k, header, key));
        }
    } else if section_end(ps, header) is None {
        assert(ps.take(ps.len() as int) =~= ps);
        lemma_added(ini, section, key, value);
    } else {
        lemma_line_added_reads(ini, section, key, value);
    }
}

/// The end of a section is in it; a section that is never open has none.
proof fn lemma_section_end(ps: Seq<Seq<char>>, header: Seq<char>)
    ensures
        section_end(ps, header) matches Some(at) ==> 0 < at <= ps.len() && under(
            ps.take(at),
            header,
        ),
        section_end(ps, header) is None ==> forall|i: int|
            0 <= i <= ps.len() ==> !under(#[trigger] ps.take(i), header),
    decreases ps.len(),
{
    if ps.len() > 0 {
        let p = ps.drop_last();
        lemma_section_end(p, header);
        assert(ps.take(ps.len() as int) =~= ps);
        assert forall|i: int| 0 <= i < ps.len() implies #[trigger] ps.take(i) == p.take(i) by {
            assert(ps.take(i) =~= p.take(i));
        }
    } else {
        assert forall|i: int| 0 <= i <= ps.len() implies !under(#[trigger] ps.take(i), header) by {
            assert(ps.take(i).len() == 0);
        }
    }
}

/// The line with the key, as it is added.
proof fn lemma_new_line(key: Seq<char>, value: Seq<char>)
    requires
        is_plain(key),
        is_plain(value),
        key.len() > 0 ==> key[0] != '[',
    ensures
        ({
            let x = assignment(key, value).push('\n');
            &&& is_full(x)
            &&& raw_line(x) == assignment(key, value)
            &&& !is_heading(x)
            &&& field_name(trim(raw_line(x))) == key
            &&& reads(x, value)
        }),
{
    let a = assignment(key, value);
    let blank = seq!['\n'];
    lemma_assignment(key, value, blank);
    assert(a + blank =~= a.push('\n'));
    assert(a[0] == if key.len() > 0 { key[0] } else { '=' });
}

/// The lines with one added: those before it stay where they are, the others
/// come one further down, and all in the sections that they were in.
proof fn lemma_with_line(
    ini: Seq<char>,
    at: int,
    key: Seq<char>,
    value: Seq<char>,
    header: Seq<char>,
    i: int,
)
    requires
        is_plain(key),
        is_plain(value),
        key.len() > 0 ==> key[0] != '[',
        0 <= at <= pieces(ini).len(),
        0 <= i <= pieces(ini).len(),
    ensures
        ({
            let ps = pieces(ini);
            let l = with_line(ps, at, key, value);
            let j = if i < at { i } else { i + 1 };
            &&& pieces(flat(l)) == l
            &&& l.len() == ps.len() + 1
            &&& l[at] == assignment(key, value).push('\n')
            &&& i < ps.len() ==> l[j] == ps[i] || (l[j] == ps[i].push('\n') && i == ps.len() - 1)
            &&& under(l.take(j), header) == under(ps.take(i), header)
            &&& under(l.take(at), header) == under(ps.take(at), header)
        }),
    decreases i,
{
    let ps = pieces(ini);
    let e = ended_pieces(ps);
    let x = assignment(key, value).push('\n');
    let l = with_line(ps, at, key, value);
    lemma_pieces(ini);
    lemma_ended_pieces(ini);
    lemma_new_line(key, value);
    assert forall|k: int| 0 <= k < l.len() implies is_full(#[trigger] l[k]) by {
        if k < at {
            assert(l[k] == e[k]);
        } else if k > at {
            assert(l[k] == e[k - 1]);
        }
    }
    lemma_pieces_of(l);
    lemma_same_lines(ps, e, i, header);
    lemma_same_lines(ps, e, at, header);
    assert(l.take(at) =~= e.take(at));
    if i < at {
        assert(l.take(i) =~= e.take(i));
    } else {
        assert(l.take(i + 1).drop_last() =~= l.take(i));
        if i == at {
            assert(l.take(i + 1).last() == x);
        } else {
            lemma_with_line(ini, at, key, value, header, i - 1);
            assert(l.take(i + 1).last() == e[i - 1]);
            assert(ps.take(i).drop_last() =~= ps.take(i - 1));
            assert(ps.take(i).last() == ps[i - 1]);
            lemma_same_line(ps, e, i - 1);
        }
    }
}

/// An added line reads back.
proof fn lemma_line_added_reads(ini: Seq<char>, section: Seq<char>, key: Seq<char>, value: Seq<char>)
    requires
        is_plain(key),
        is_plain(value),
        key.len() > 0 ==> key[0] != '[',
        !is_set(pieces(ini), heading(section), key),
        section_end(pieces(ini), heading(section)) is Some,
    ensures
        ini_with(ini_with(ini, section, key, value)->0, section, key, value) is None,
{
    let header = heading(section);
    let ps = pieces(ini);
    let at = section_end(ps, header)->0;
    let l = with_line(ps, at, key, value);
    lemma_section_end(ps, header);
    lemma_new_line(key, value);
    lemma_with_line(ini, at, key, value, header, at);
    assert(sets(l, at, header, key));
    assert forall|k: int| 0 <= k < l.len() && sets(l, k, header, key) implies reads(l[k], value) by {
        if k != at {
            let i = if k < at { k } else { k - 1 };
            lemma_with_line(ini, at, key, value, header, i);
            if l[k] != ps[i] {
                assert(l[k].drop_last() =~= ps[i]);
            }
            assert(raw_line(l[k]) == raw_line(ps[i]));
            assert(sets(ps, i, header, key));
        }
    }
}

/// Editing keeps the shape of the lines.
proof fn lemma_edited_cut(ps: Seq<Seq<char>>, header: Seq<char>, key: Seq<char>, value: Seq<char>)
    requires
        is_cut(ps),
        is_plain(key),
        is_plain(value),
    ensures
        is_cut(edited(ps, header, key, value)),
{
    let ed = edited(ps, header, key, value);
    let a = assignment(key, value);
    assert forall|i: int| 0 <= i < ed.len() implies is_piece(#[trigger] ed[i]) && (i < ed.len() - 1
        ==> ed[i].last() == '\n') by {
        assert(is_piece(ps[i]));
        lemma_line_end(ps[i]);
        if sets(ps, i, header, key) && !reads(ps[i], value) {
            let e = line_end(ps[i]);
            assert forall|j: int| 0 <= j < ed[i].len() - 1 implies ed[i][j] != '\n' by {
                if j < a.len() {
                    assert(ed[i][j] == a[j]);
                } else {
                    assert(ed[i][j] == e[j - a.len()]);
                }
            }
            if e.len() > 0 {
                assert(ed[i].last() == e.last());
            }
        }
    }
}

/// After editing, the lines that set the key are the same ones, and all of
/// them read the value.
proof fn lemma_edited_reads(ps: Seq<Seq<char>>, header: Seq<char>, key: Seq<char>, value: Seq<char>)
    requires
        is_cut(ps),
        is_plain(key),
        is_plain(value),
        key.len() > 0 ==> key[0] != '[',
    ensures
        forall|i: int|
            0 <= i < ps.len() ==> sets(edited(ps, header, key, value), i, header, key) == sets(
                ps,
                i,
                header,
                key,
            ),
        forall|i: int|
            0 <= i < ps.len() && sets(ps, i, header, key) ==> reads(
                #[trigger] edited(ps, header, key, value)[i],
                value,
            ),
{
    let ed = edited(ps, header, key, value);
    let a = assignment(key, value);
    assert forall|i: int| 0 <= i < ps.len() implies sets(ed, i, header, key) == sets(
        ps,
        i,
        header,
        key,
    ) && (sets(ps, i, header, key) ==> reads(ed[i], value)) by {
        lemma_edited_under(ps, i, header, key, value, header);
        if sets(ps, i, header, key) && !reads(ps[i], value) {
            assert(is_piece(ps[i]));
            lemma_line_end(ps[i]);
            lemma_assignment(key, value, line_end(ps[i]));
            assert(a[0] == if key.len() > 0 { key[0] } else { '=' });
        }
    }
}

/// Editing changes no heading, so the sections stay where they are.
proof fn lemma_edited_under(
    ps: Seq<Seq<char>>,
    i: int,
    header: Seq<char>,
    key: Seq<char>,
    value: Seq<char>,
    any: Seq<char>,
)
    requires
        is_cut(ps),
        is_plain(key),
        is_plain(value),
        key.len() > 0 ==> key[0] != '[',
        0 <= i <= ps.len(),
    ensures
        under(edited(ps, header, key, value).take(i), any) == under(ps.take(i), any),
    decreases i,
{
    let ed = edited(ps, header, key, value);
    if i > 0 {
        lemma_edited_under(ps, i - 1, header, key, value, any);
        assert(ed.take(i).drop_last() =~= ed.take(i - 1));
        assert(ps.take(i).drop_last() =~= ps.take(i - 1));
        assert(ed.take(i).last() == ed[i - 1]);
        assert(ps.take(i).last() == ps[i - 1]);
        if sets(ps, i - 1, header, key) && !reads(ps[i - 1], value) {
            assert(is_piece(ps[i - 1]));
            lemma_line_end(ps[i - 1]);
            lemma_assignment(key, value, line_end(ps[i - 1]));
            let a = assignment(key, value);
            assert(a[0] == if key.len() > 0 { key[0] } else { '=' });
        }
    }
}

/// An added section reads back.
proof fn lemma_added(ini: Seq<char>, section: Seq<char>, key: Seq<char>, value: Seq<char>)
    requires
        is_plain(key),
        is_plain(value),
        one_line(section),
        key.len() > 0 ==> key[0] != '[',
        key.len() > 0 || !under(pieces(ini), heading(section)),
        forall|i: int|
            0 <= i < pieces(ini).len() ==> !sets(pieces(ini), i, heading(section), key),
    ensures
        ini_with(ended(ini) + new_section(heading(section), key, value), section, key, value) is None,
{
    let header = heading(section);
    let ps = pieces(ini);
    let n = ps.len() as int;
    let a = assignment(key, value);
    let blank = seq!['\n'];
    let e = ended_pieces(ps);
    let l = e + seq![blank, header + blank, a + blank];
    lemma_added_lines(ini, section, key, value);
    assert forall|j: int| 0 <= j < n implies #[trigger] l[j] == ps[j] || l[j] == ps[j].push('\n') by {
        assert(l[j] == e[j]);
    }
    // The lines that were there say what they said.
    assert forall|i: int| 0 <= i <= n implies under(#[trigger] l.take(i), header) == under(
        ps.take(i),
        header,
    ) by {
        lemma_same_lines(ps, l, i, header);
    }
    assert forall|i: int| 0 <= i < n implies !sets(l, i, header, key) by {
        lemma_same_line(ps, l, i);
        assert(!sets(ps, i, header, key));
        assert(under(l.take(i), header) == under(ps.take(i), header));
    }
    // The blank line.
    lemma_raw_line(Seq::empty(), blank);
    assert(Seq::<char>::empty() + blank =~= blank);
    assert(l[n] == blank);
    assert(ps.take(n) =~= ps);
    assert(!sets(l, n, header, key)) by {
        let t = Seq::<char>::empty();
        lemma_position_is(t, '=', 0);
        assert(head(t, '=') =~= t);
        assert(trim(raw_line(l[n])) =~= t);
        assert(field_name(t) =~= t);
        assert(under(l.take(n), header) == under(ps, header));
    }
    // The heading.
    assert(header[0] == '[' && header.last() == ']');
    lemma_raw_line(header, blank);
    lemma_trim_is(header);
    assert(l[n + 1] == header + blank);
    assert(is_heading(l[n + 1]));
    assert(!sets(l, n + 1, header, key));
    // The assignment.
    assert(l.take(n + 2).last() == l[n + 1]);
    assert(under(l.take(n + 2), header));
    lemma_assignment(key, value, blank);
    assert(l[n + 2] == a + blank);
    assert(a[0] == if key.len() > 0 { key[0] } else { '=' });
    assert(sets(l, n + 2, header, key));
    assert(reads(l[n + 2], value));
    assert forall|i: int| 0 <= i < l.len() && sets(l, i, header, key) implies reads(l[i], value) by {
        assert(i == n + 2);
    }
}

/// A line that got a line feed says what it said.
proof fn lemma_same_line(ps: Seq<Seq<char>>, l: Seq<Seq<char>>, i: int)
    requires
        0 <= i < ps.len() <= l.len(),
        l[i] == ps[i] || l[i] == ps[i].push('\n'),
    ensures
        raw_line(l[i]) == raw_line(ps[i]),
{
    if l[i] != ps[i] {
        assert(l[i].drop_last() =~= ps[i]);
    }
}

proof fn lemma_same_lines(ps: Seq<Seq<char>>, l: Seq<Seq<char>>, i: int, header: Seq<char>)
    requires
        0 <= i <= ps.len() <= l.len(),
        forall|j: int| 0 <= j < ps.len() ==> #[trigger] l[j] == ps[j] || l[j] == ps[j].push('\n'),
    ensures
        under(l.take(i), header) == under(ps.take(i), header),
    decreases i,
{
    if i > 0 {
        lemma_same_lines(ps, l, i - 1, header);
        lemma_same_line(ps, l, i - 1);
        assert(l.take(i).drop_last() =~= l.take(i - 1));
        assert(ps.take(i).drop_last() =~= ps.take(i - 1));
        assert(l.take(i).last() == l[i - 1]);
        assert(ps.take(i).last() == ps[i - 1]);
    }
}

/// The lines of an `ini` that got a section.
proof fn lemma_added_lines(ini: Seq<char>, section: Seq<char>, key: Seq<char>, value: Seq<char>)
    requires
        is_plain(key),
        is_plain(value),
        one_line(section),
    ensures
        ({
            let header = heading(section);
            let blank = seq!['\n'];
            pieces(ended(ini) + new_section(header, key, value)) == ended_pieces(pieces(ini)) + seq![
                blank,
                header + blank,
                assignment(key, value) + blank,
            ]
        }),
        ended_pieces(pieces(ini)).len() == pieces(ini).len(),
        forall|j: int|
            0 <= j < pieces(ini).len() ==> #[trigger] ended_pieces(pieces(ini))[j] == pieces(
                ini,
            )[j] || ended_pieces(pieces(ini))[j] == pieces(ini)[j].push('\n'),
{
    let header = heading(section);
    let a = assignment(key, value);
    let blank = seq!['\n'];
    let ps = pieces(ini);
    let n = ps.len() as int;
    let e = ended_pieces(ps);
    lemma_ended_pieces(ini);
    let l3 = seq![blank, header + blank, a + blank];
    let l = e + l3;
    assert(flat(l3) == new_section(header, key, value)) by {
        lemma_flat3(blank, header + blank, a + blank);
        assert(blank + (header + blank) + (a + blank) =~= new_section(header, key, value));
    }
    lemma_flat_add(e, l3);
    assert forall|i: int| 0 <= i < l.len() implies is_full(#[trigger] l[i]) by {
        if i < n {
            assert(l[i] == e[i]);
        } else if i == n {
            assert(l[i] == blank);
        } else if i == n + 1 {
            assert(l[i] == header + blank);
        } else {
            assert(l[i] == a + blank);
        }
    }
    lemma_pieces_of(l);
}

/// Where line `i` comes to: one further down where the key is added before it.
pub open spec fn place_of(ps: Seq<Seq<char>>, header: Seq<char>, key: Seq<char>, i: int) -> int {
    if is_set(ps, header, key) {
        i
    } else {
        match section_end(ps, header) {
            Some(at) => if i < at {
                i
            } else {
                i + 1
            },
            None => i,
        }
    }
}

/// Setting a key is scoped to it: every line that does not set the key stays as
/// it is, in the section that it was in, and in its order. A last line without a
/// line feed gets one where a key or a section is added.
pub proof fn law_set_ini_key_keeps_other_lines(
    ini: Seq<char>,
    section: Seq<char>,
    key: Seq<char>,
    value: Seq<char>,
    header: Seq<char>,
    i: int,
)
    requires
        is_plain(key),
        is_plain(value),
        one_line(section),
        key.len() > 0 ==> key[0] != '[',
        0 <= i < pieces(ini).len(),
        ini_with(ini, section, key, value) is Some,
    ensures
        ({
            let out = pieces(ini_with(ini, section, key, value)->0);
            let j = place_of(pieces(ini), heading(section), key, i);
            &&& j < out.len()
            &&& sets(pieces(ini), i, heading(section), key) || out[j] == pieces(ini)[i] || (out[j]
                == pieces(ini)[i].push('\n') && i == pieces(ini).len() - 1)
            &&& under(out.take(j), header) == under(pieces(ini).take(i), header)
        }),
{
    let ps = pieces(ini);
    let h = heading(section);
    let ed = edited(ps, h, key, value);
    lemma_pieces(ini);
    lemma_section_end(ps, h);
    if is_set(ps, h, key) {
        lemma_edited_cut(ps, h, key, value);
        lemma_pieces_of(ed);
        lemma_edited_under(ps, i, h, key, value, header);
    } else if section_end(ps, h) is Some {
        lemma_with_line(ini, section_end(ps, h)->0, key, value, header, i);
    } else {
        lemma_added_lines(ini, section, key, value);
        let l = pieces(ini_with(ini, section, key, value)->0);
        assert forall|j: int| 0 <= j < ps.len() implies #[trigger] l[j] == ps[j] || l[j]
            == ps[j].push('\n') by {
            assert(l[j] == ended_pieces(ps)[j]);
        }
        lemma_same_lines(ps, l, i, header);
    }
}

/// A line that was there sets another key as before.
proof fn lemma_line_kept(
    ini: Seq<char>,
    section: Seq<char>,
    key: Seq<char>,
    value: Seq<char>,
    header: Seq<char>,
    other: Seq<char>,
    i: int,
)
    requires
        is_plain(key),
        is_plain(value),
        one_line(section),
        key.len() > 0 ==> key[0] != '[',
        other != key,
        0 <= i < pieces(ini).len(),
        ini_with(ini, section, key, value) is Some,
    ensures
        ({
            let out = pieces(ini_with(ini, section, key, value)->0);
            let j = place_of(pieces(ini), heading(section), key, i);
            &&& 0 <= j < out.len()
            &&& sets(out, j, header, other) == sets(pieces(ini), i, header, other)
            &&& sets(out, j, header, other) ==> raw_line(out[j]) == raw_line(pieces(ini)[i])
        }),
{
    let ps = pieces(ini);
    let h = heading(section);
    let a = assignment(key, value);
    let ed = edited(ps, h, key, value);
    let l = pieces(ini_with(ini, section, key, value)->0);
    lemma_pieces(ini);
    law_set_ini_key_keeps_other_lines(ini, section, key, value, header, i);
    let j = place_of(ps, h, key, i);
    lemma_section_end(ps, h);
    if is_set(ps, h, key) {
        lemma_edited_cut(ps, h, key, value);
        lemma_pieces_of(ed);
        if sets(ps, i, h, key) && !reads(ps[i], value) {
            assert(is_piece(ps[i]));
            lemma_line_end(ps[i]);
            lemma_assignment(key, value, line_end(ps[i]));
            assert(a[0] == if key.len() > 0 { key[0] } else { '=' });
        }
    } else {
        assert(!sets(ps, i, h, key));
        if l[j] != ps[i] {
            assert(l[j].drop_last() =~= ps[i]);
        }
    }
}

/// The lines that were added set no other key.
proof fn lemma_added_sets(
    ini: Seq<char>,
    section: Seq<char>,
    key: Seq<char>,
    value: Seq<char>,
    header: Seq<char>,
    other: Seq<char>,
    i: int,
)
    requires
        is_plain(key),
        is_plain(value),
        one_line(section),
        key.len() > 0 ==> key[0] != '[',
        other.len() > 0,
        other != key,
        ini_with(ini, section, key, value) is Some,
        0 <= i < pieces(ini_with(ini, section, key, value)->0).len(),
        forall|j: int|
            0 <= j < pieces(ini).len() ==> #[trigger] place_of(
                pieces(ini),
                heading(section),
                key,
                j,
            ) != i,
    ensures
        !sets(pieces(ini_with(ini, section, key, value)->0), i, header, other),
{
    let ps = pieces(ini);
    let n = ps.len() as int;
    let h = heading(section);
    let a = assignment(key, value);
    let ed = edited(ps, h, key, value);
    let l = pieces(ini_with(ini, section, key, value)->0);
    let blank = seq!['\n'];
    lemma_pieces(ini);
    lemma_section_end(ps, h);
    if is_set(ps, h, key) {
        lemma_edited_cut(ps, h, key, value);
        lemma_pieces_of(ed);
        assert(place_of(ps, h, key, i) == i);
    } else if section_end(ps, h) is Some {
        let at = section_end(ps, h)->0;
        lemma_with_line(ini, at, key, value, h, at);
        lemma_new_line(key, value);
        if i < at {
            assert(place_of(ps, h, key, i) == i);
        } else if i > at {
            assert(place_of(ps, h, key, i - 1) == i);
        }
    } else {
        assert(place_of(ps, h, key, i) == i);
        lemma_added_lines(ini, section, key, value);
        if i == n {
            let t = Seq::<char>::empty();
            assert(l[i] == blank);
            lemma_raw_line(t, blank);
            assert(t + blank =~= blank);
            lemma_position_is(t, '=', 0);
            assert(head(t, '=') =~= t);
            assert(trim(raw_line(l[i])) =~= t);
            assert(field_name(t) =~= t);
        } else if i == n + 1 {
            assert(l[i] == h + blank);
            assert(h[0] == '[' && h.last() == ']');
            lemma_raw_line(h, blank);
            lemma_trim_is(h);
        } else {
            assert(l[i] == a + blank);
            lemma_assignment(key, value, blank);
        }
    }
}

/// Setting one key leaves another as it reads.
///
/// The empty key is left out: the blank line before an added section counts as
/// a line of it.
pub proof fn law_set_ini_key_keeps_other_keys(
    ini: Seq<char>,
    section: Seq<char>,
    key: Seq<char>,
    value: Seq<char>,
    other_section: Seq<char>,
    other: Seq<char>,
    other_value: Seq<char>,
)
    requires
        is_plain(key),
        is_plain(value),
        one_line(section),
        key.len() > 0 ==> key[0] != '[',
        other.len() > 0,
        other != key,
        ini_with(ini, other_section, other, other_value) is None,
    ensures
        ini_with(ini, section, key, value) matches Some(out) ==> ini_with(
            out,
            other_section,
            other,
            other_value,
        ) is None,
{
    if ini_with(ini, section, key, value) is Some {
        let ps = pieces(ini);
        let oh = heading(other_section);
        let l = pieces(ini_with(ini, section, key, value)->0);
        let h = heading(section);
        let k = choose|i: int| 0 <= i < ps.len() && sets(ps, i, oh, other);
        lemma_line_kept(ini, section, key, value, oh, other, k);
        assert(sets(l, place_of(ps, h, key, k), oh, other));
        assert forall|i: int| 0 <= i < l.len() && sets(l, i, oh, other) implies reads(
            l[i],
            other_value,
        ) by {
            if exists|j: int| 0 <= j < ps.len() && #[trigger] place_of(ps, h, key, j) == i {
                let j = choose|j: int| 0 <= j < ps.len() && #[trigger] place_of(ps, h, key, j) == i;
                lemma_line_kept(ini, section, key, value, oh, other, j);
                assert(reads(ps[j], other_value));
            } else {
                lemma_added_sets(ini, section, key, value, oh, other, i);
            }
        }
    }
}

proof fn lemma_load_words()
    ensures
        is_plain("LoadReshade"@),
        is_plain("true"@),
        "LoadReshade=true"@ == assignment("LoadReshade"@, "true"@),
        "LoadReshade"@.len() == 11,
        "\n[Plugins]\nLoadReshade=true\n"@ == seq!['\n'] + ("[Plugins]"@ + seq!['\n']) + (
        "LoadReshade=true"@ + seq!['\n']),
        "[Plugins]"@.len() == 9,
        one_line("[Plugins]"@),
        raw_line("[Plugins]"@ + seq!['\n']) == "[Plugins]"@,
{
    reveal_strlit("LoadReshade");
    reveal_strlit("true");
    reveal_strlit("LoadReshade=true");
    reveal_strlit("[Plugins]");
    reveal_strlit("\n[Plugins]\nLoadReshade=true\n");
    lemma_trim_is("LoadReshade"@);
    lemma_trim_is("true"@);
    assert("LoadReshade=true"@ =~= assignment("LoadReshade"@, "true"@));
    assert("\n[Plugins]\nLoadReshade=true\n"@ =~= seq!['\n'] + ("[Plugins]"@ + seq!['\n']) + (
    "LoadReshade=true"@ + seq!['\n']));
    lemma_raw_line("[Plugins]"@, seq!['\n']);
}

/// A line that loads ReShade and says so.
proof fn lemma_load_line(end: Seq<char>)
    requires
        forall|j: int| 0 <= j < end.len() ==> end[j] == '\r' || end[j] == '\n',
    ensures
        loads("LoadReshade=true"@ + end),
        load_on("LoadReshade=true"@ + end),
{
    lemma_load_words();
    lemma_assignment("LoadReshade"@, "true"@, end);
}

/// Once `LoadReshade=true` has been written, the file reads that way.
pub proof fn law_set_load_reshade_settles(ini: Seq<char>)
    ensures
        ini_loading(ini) matches Some(out) ==> ini_loading(out) is None,
{
    let ps = pieces(ini);
    let ed = loading(ps);
    lemma_pieces(ini);
    if exists|i: int| 0 <= i < ps.len() && loads(#[trigger] ps[i]) {
        let k = choose|i: int| 0 <= i < ps.len() && loads(#[trigger] ps[i]);
        lemma_loading(ps);
        lemma_pieces_of(ed);
        assert(loads(ed[k]));
    } else {
        assert(ed =~= ps);
        lemma_load_added(ini);
    }
}

proof fn lemma_loading(ps: Seq<Seq<char>>)
    requires
        is_cut(ps),
    ensures
        is_cut(loading(ps)),
        forall|i: int|
            0 <= i < ps.len() ==> loads(#[trigger] loading(ps)[i]) == loads(ps[i]) && (loads(ps[i])
                ==> load_on(loading(ps)[i])),
{
    let ed = loading(ps);
    let a = "LoadReshade=true"@;
    lemma_load_words();
    assert forall|i: int| 0 <= i < ps.len() implies is_piece(#[trigger] ed[i]) && (i < ed.len() - 1
        ==> ed[i].last() == '\n') && loads(ed[i]) == loads(ps[i]) && (loads(ps[i]) ==> load_on(
        ed[i],
    )) by {
        assert(is_piece(ps[i]));
        lemma_line_end(ps[i]);
        if loads(ps[i]) && !load_on(ps[i]) {
            let e = line_end(ps[i]);
            lemma_load_line(e);
            assert forall|j: int| 0 <= j < ed[i].len() - 1 implies ed[i][j] != '\n' by {
                if j < a.len() {
                    assert(ed[i][j] == a[j]);
                } else {
                    assert(ed[i][j] == e[j - a.len()]);
                }
            }
            if e.len() > 0 {
                assert(ed[i].last() == e.last());
            }
        }
    }
}

proof fn lemma_load_added(ini: Seq<char>)
    requires
        forall|i: int| 0 <= i < pieces(ini).len() ==> !loads(#[trigger] pieces(ini)[i]),
    ensures
        ini_loading(ended(ini) + "\n[Plugins]\nLoadReshade=true\n"@) is None,
{
    let ps = pieces(ini);
    let n = ps.len() as int;
    let blank = seq!['\n'];
    let a = "LoadReshade=true"@;
    let h = "[Plugins]"@;
    let e = ended_pieces(ps);
    lemma_ended_pieces(ini);
    lemma_load_words();
    let l3 = seq![blank, h + blank, a + blank];
    let l = e + l3;
    lemma_flat3(blank, h + blank, a + blank);
    lemma_flat_add(e, l3);
    assert forall|i: int| 0 <= i < l.len() implies is_full(#[trigger] l[i]) by {
        if i < n {
            assert(l[i] == e[i]);
        } else if i == n {
            assert(l[i] == blank);
        } else if i == n + 1 {
            assert(l[i] == h + blank);
        } else {
            assert(l[i] == a + blank);
        }
    }
    lemma_pieces_of(l);
    lemma_load_line(blank);
    assert(l[n + 2] == a + blank);
    assert forall|i: int| 0 <= i < n + 2 implies !loads(#[trigger] l[i]) by {
        let name = field_name(raw_line(l[i]));
        if i < n {
            assert(l[i] == e[i]);
            lemma_same_line(ps, l, i);
            assert(!loads(ps[i]));
        } else {
            let t = if i == n { Seq::<char>::empty() } else { h };
            assert(raw_line(l[i]) == t) by {
                if i == n {
                    assert(l[i] == blank);
                    lemma_raw_line(Seq::empty(), blank);
                    assert(Seq::<char>::empty() + blank =~= blank);
                } else {
                    assert(l[i] == h + blank);
                }
            }
            crate::text::lemma_position(t, '=');
            crate::text::lemma_trim_shape(head(t, '='));
            assert(name.len() <= t.len());
            assert(crate::text::lower(name).len() == name.len());
            assert(crate::text::lower("LoadReshade"@).len() == 11);
        }
    }
}

/// The lines of a file give a key a value in a section: below the heading of the
/// section, before any other one, stands a line with the key before its `=` and
/// the value behind it.
pub open spec fn says(
    ps: Seq<Seq<char>>,
    i: int,
    section: Seq<char>,
    key: Seq<char>,
    value: Seq<char>,
) -> bool {
    let t = trim(trim_end_of(ps[i], '\r', '\n'));
    &&& 0 <= i < ps.len()
    &&& !(t.len() > 0 && t[0] == '[')
    &&& under(ps.take(i), seq!['['] + section + seq![']'])
    &&& trim(head(t, '=')) == key
    &&& second(t, '=') is Some
    &&& trim(second(t, '=')->0) == value
}

/// The file after a change, or as it is where nothing changes.
pub open spec fn after_change(ini: Seq<char>, change: Option<Seq<char>>) -> Seq<char> {
    match change {
        Some(t) => t,
        None => ini,
    }
}

/// Once a key has been set the file gives it that value in its section, and
/// nowhere in that section another one.
pub proof fn law_set_key_reads_back(
    ini: Seq<char>,
    section: Seq<char>,
    key: Seq<char>,
    value: Seq<char>,
)
    requires
        is_plain(key),
        is_plain(value),
        one_line(section),
        key.len() > 0 ==> key[0] != '[',
    ensures
        ({
            let ps = pieces(after_change(ini, ini_with(ini, section, key, value)));
            &&& exists|i: int| says(ps, i, section, key, value)
            &&& forall|i: int|
                0 <= i < ps.len() && #[trigger] sets(ps, i, heading(section), key) ==> says(
                    ps,
                    i,
                    section,
                    key,
                    value,
                )
        }),
{
    law_set_ini_key_settles(ini, section, key, value);
    let out = after_change(ini, ini_with(ini, section, key, value));
    lemma_reads_as_set(out, section, key, value);
}

proof fn lemma_reads_as_set(
    out: Seq<char>,
    section: Seq<char>,
    key: Seq<char>,
    value: Seq<char>,
)
    requires
        ini_with(out, section, key, value) is None,
    ensures
        exists|i: int| says(pieces(out), i, section, key, value),
        forall|i: int|
            0 <= i < pieces(out).len() && #[trigger] sets(pieces(out), i, heading(section), key)
                ==> says(pieces(out), i, section, key, value),
{
    let ps = pieces(out);
    let k = choose|i: int| 0 <= i < ps.len() && sets(ps, i, heading(section), key);
    assert(sets(ps, k, heading(section), key));
    assert forall|i: int|
        0 <= i < ps.len() && #[trigger] sets(ps, i, heading(section), key) implies says(
        ps,
        i,
        section,
        key,
        value,
    ) by {
        assert(reads(ps[i], value));
    }
    assert(says(ps, k, section, key, value));
}

/// The line has `LoadReshade` before its `=`, whatever its case.
pub open spec fn names_load(p: Seq<char>) -> bool {
    same_nocase(trim(head(trim_end_of(p, '\r', '\n'), '=')), "LoadReshade"@)
}

/// The line has `true` behind its `=`.
pub open spec fn is_on(p: Seq<char>) -> bool {
    let v = second(trim_end_of(p, '\r', '\n'), '=');
    v is Some && trim(v->0) == "true"@
}

/// Once ReShade is to be loaded, the file has a line that says so and none that
/// says otherwise.
pub proof fn law_load_reshade_reads_back(ini: Seq<char>)
    ensures
        ({
            let ps = pieces(after_change(ini, ini_loading(ini)));
            &&& exists|i: int| 0 <= i < ps.len() && names_load(#[trigger] ps[i])
            &&& forall|i: int|
                0 <= i < ps.len() && names_load(#[trigger] ps[i]) ==> is_on(ps[i])
        }),
{
    law_set_load_reshade_settles(ini);
    let out = after_change(ini, ini_loading(ini));
    let ps = pieces(out);
    assert(ini_loading(out) is None);
    let k = choose|i: int| 0 <= i < ps.len() && loads(#[trigger] ps[i]);
    assert(names_load(ps[k]));
    assert forall|i: int| 0 <= i < ps.len() && names_load(#[trigger] ps[i]) implies is_on(
        ps[i],
    ) by {
        assert(loads(ps[i]));
        assert(load_on(ps[i]));
    }
}

} // verus!
