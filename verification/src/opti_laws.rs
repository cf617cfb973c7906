//! What holds of the OptiScaler engine as a whole: the manifest reads back, no
//! file is placed outside the game folder, and the settings settle.
use vstd::prelude::*;
use crate::archive::ExtractView;
use crate::folder::{same_path, Tree};
use crate::game::RESHADE_PROXY;
use crate::ini::{
    ini_with, is_plain, law_set_ini_key_keeps_other_keys, law_set_ini_key_settles, one_line,
};
use crate::lang::Lang;
use crate::lines::{
    ended, ended_pieces, first_line, flat, is_cut, is_full, is_piece, join, lemma_ended_pieces,
    lemma_first_line, lemma_flat_push, lemma_pieces, lemma_pieces_of, line_text, lines, pieces,
};
use crate::opti::{
    entries, extraction, ini_set, is_entry, is_installed, is_tag_line, manifest_text, placement,
    placements, recorded_tag, refresh, repo_of, settings_text, with_reshade, writes, FetchView,
    Placed, RESHADE64,
};
use crate::paths::{
    clean, is_name, lemma_clean, lemma_clean_free, lemma_lines_join, lemma_named_parts,
    lemma_split_one, named_parts, slashed,
};
use crate::text::{
    is_space, lemma_trim_is, lemma_trim_start, lemma_trim_start_shape, lower, starts_with, trim,
    trim_start,
};

verus! {

// ── the manifest ───────────────────────────────────────────────────

proof fn lemma_filter_tail(x: Seq<char>, v: Seq<Seq<char>>, f: spec_fn(Seq<char>) -> bool)
    requires
        !f(x),
        forall|i: int| 0 <= i < v.len() ==> f(#[trigger] v[i]),
    ensures
        (seq![x] + v).filter(f) == v,
{
    let one = seq![x];
    assert(one.filter(f) =~= Seq::empty()) by {
        let none = Seq::<Seq<char>>::empty();
        reveal(Seq::filter);
        assert(one.drop_last() =~= none);
        assert(none.filter(f) =~= none);
        assert(one.last() == x);
    }
    lemma_filter_whole(v, f);
    Seq::filter_distributes_over_add(one, v, f);
    assert(Seq::<Seq<char>>::empty() + v =~= v);
}

proof fn lemma_filter_whole(v: Seq<Seq<char>>, f: spec_fn(Seq<char>) -> bool)
    requires
        forall|i: int| 0 <= i < v.len() ==> f(#[trigger] v[i]),
    ensures
        v.filter(f) == v,
    decreases v.len(),
{
    reveal(Seq::filter);
    if v.len() > 0 {
        let u = v.drop_last();
        assert(f(v[v.len() - 1]));
        assert forall|i: int| 0 <= i < u.len() implies f(#[trigger] u[i]) by {
            assert(u[i] == v[i]);
        }
        lemma_filter_whole(u, f);
        assert(u.push(v.last()) =~= v);
    }
}

proof fn lemma_first_none(v: Seq<Seq<char>>, f: spec_fn(Seq<char>) -> bool)
    requires
        forall|i: int| 0 <= i < v.len() ==> !f(#[trigger] v[i]),
    ensures
        first_line(v, f) is None,
    decreases v.len(),
{
    if v.len() > 0 {
        let u = v.drop_last();
        assert(!f(v[v.len() - 1]));
        assert forall|i: int| 0 <= i < u.len() implies !f(#[trigger] u[i]) by {
            assert(u[i] == v[i]);
        }
        lemma_first_none(u, f);
    }
}

proof fn lemma_join_first(x: Seq<char>, v: Seq<Seq<char>>, sep: Seq<char>)
    requires
        v.len() > 0,
    ensures
        join(seq![x] + v, sep) == x + sep + join(v, sep),
    decreases v.len(),
{
    let all = seq![x] + v;
    if v.len() == 1 {
        assert(all.drop_last() =~= seq![x]);
        assert(all.last() == v[0]);
        assert(join(seq![x], sep) == x);
    } else {
        let u = v.drop_last();
        lemma_join_first(x, u, sep);
        assert(all.drop_last() =~= seq![x] + u);
        assert(all.last() == v.last());
        assert(x + sep + join(u, sep) + sep + v.last() =~= x + sep + (join(u, sep) + sep
            + v.last()));
    }
}

/// White space at the end does not count.
proof fn lemma_trim_drop_last(t: Seq<char>)
    requires
        t.len() > 0,
        is_space(t.last()),
    ensures
        trim(t.drop_last()) == trim(t),
{
    let u = t.drop_last();
    lemma_trim_start_shape(t);
    let k = t.len() - trim_start(t).len();
    if k == t.len() {
        assert forall|j: int| 0 <= j < u.len() implies is_space(u[j]) by {
            assert(u[j] == t[j]);
        }
        lemma_trim_start(u, u.len() as int);
        assert(u.skip(u.len() as int) =~= trim_start(t));
    } else {
        assert(trim_start(t)[0] == t[k]);
        assert forall|j: int| 0 <= j < k implies is_space(u[j]) by {
            assert(u[j] == t[j]);
        }
        lemma_trim_start(u, k);
        assert(trim_start(t).last() == t.last());
        assert(trim_start(t).drop_last() =~= u.skip(k));
    }
}

/// The line that records a tag, as it is read back.
proof fn lemma_tag_line(tag: Seq<char>)
    ensures
        ({
            let line = line_text(("# tag "@ + tag).push('\n'));
            &&& is_tag_line(line)
            &&& !is_entry(line)
            &&& trim(line.skip("# tag "@.len() as int)) == trim(tag)
        }),
{
    reveal_strlit("# tag ");
    let head = "# tag "@;
    let full = head + tag;
    let line = line_text(full.push('\n'));
    assert(full.push('\n').drop_last() =~= full);
    if full.last() == '\r' {
        assert(tag.len() > 0 && tag.last() == '\r') by {
            if tag.len() == 0 {
                assert(full =~= head);
            }
        }
        assert(line =~= head + tag.drop_last());
        assert(line.skip(6) =~= tag.drop_last());
        lemma_trim_drop_last(tag);
    } else {
        assert(line == full);
        assert(line.skip(6) =~= tag);
    }
    assert(line.subrange(0, 6) =~= head);
    assert(line[0] == '#');
}

/// A manifest gives back what it records: the files it was written for, in
/// their order, and the tag, without white space round it.
///
/// A file whose path is blank, starts with `#` or holds a line feed is not read
/// back, nor is one that ends with a carriage return and is not the last; and a
/// line feed in the tag would start an entry.
pub proof fn law_manifest_reads_back(tag: Option<Seq<char>>, installed: Seq<Seq<char>>)
    requires
        tag is Some ==> one_line(tag->0),
        forall|i: int|
            0 <= i < installed.len() ==> is_entry(#[trigger] installed[i]) && one_line(
                installed[i],
            ),
        forall|i: int|
            0 <= i < installed.len() - 1 ==> (#[trigger] installed[i]).last() != '\r',
    ensures
        entries(manifest_text(tag, installed)) == installed,
        recorded_tag(manifest_text(tag, installed)) == (match tag {
            Some(t) => Some(trim(t)),
            None => None,
        }),
{
    let f = |t: Seq<char>| is_entry(t);
    let g = |t: Seq<char>| is_tag_line(t);
    lemma_entries(installed);
    match tag {
        None => {
            lemma_plain_manifest(installed);
            lemma_filter_whole(installed, f);
            lemma_first_none(installed, g);
        },
        Some(t) => {
            let line = line_text(("# tag "@ + t).push('\n'));
            let all = seq![line] + installed;
            lemma_tag_line(t);
            lemma_tagged_manifest(t, installed);
            lemma_filter_tail(line, installed, f);
            assert(all.take(1) =~= seq![line]);
            assert(seq![line].drop_last() =~= Seq::empty());
            assert(first_line(seq![line].drop_last(), g) is None);
            assert(first_line(all.take(1), g) == Some(line));
            lemma_first_line(all, g, 1);
        },
    }
}

/// Entries that stand on their own lines.
spec fn are_lines(v: Seq<Seq<char>>) -> bool {
    &&& forall|i: int| 0 <= i < v.len() ==> (#[trigger] v[i]).len() > 0 && one_line(v[i])
    &&& forall|i: int| 0 <= i < v.len() - 1 ==> (#[trigger] v[i]).last() != '\r'
}

proof fn lemma_entries(v: Seq<Seq<char>>)
    requires
        forall|i: int| 0 <= i < v.len() ==> is_entry(#[trigger] v[i]) && one_line(v[i]),
        forall|i: int| 0 <= i < v.len() - 1 ==> (#[trigger] v[i]).last() != '\r',
    ensures
        are_lines(v),
        forall|i: int| 0 <= i < v.len() ==> !is_tag_line(#[trigger] v[i]),
{
    reveal_strlit("# tag ");
    assert forall|i: int| 0 <= i < v.len() implies (#[trigger] v[i]).len() > 0 && !is_tag_line(
        v[i],
    ) by {
        assert(is_entry(v[i]));
        lemma_nonblank(v[i]);
        if is_tag_line(v[i]) {
            assert(v[i].subrange(0, 6)[0] == '#');
        }
    }
}

proof fn lemma_plain_manifest(v: Seq<Seq<char>>)
    requires
        are_lines(v),
    ensures
        lines(manifest_text(None, v)) == v,
{
    let n = v.len() as int;
    let text = manifest_text(None, v);
    assert(text =~= join(v, "\n"@));
    if n == 0 {
        assert(text =~= Seq::empty());
        assert(lines(text) =~= v);
    } else {
        assert(v[n - 1].len() > 0);
        lemma_lines_join(v);
        assert forall|i: int| 0 <= i < n implies #[trigger] lines(text)[i] == v[i] by {
            if i < n - 1 {
                assert(v[i].push('\n').drop_last() =~= v[i]);
                assert(v[i].last() != '\r');
            }
        }
        assert(lines(text) =~= v);
    }
}

proof fn lemma_tagged_manifest(t: Seq<char>, v: Seq<Seq<char>>)
    requires
        are_lines(v),
        one_line(t),
    ensures
        lines(manifest_text(Some(t), v)) == seq![line_text(("# tag "@ + t).push('\n'))] + v,
{
    reveal_strlit("\n");
    reveal_strlit("# tag ");
    let first = "# tag "@ + t;
    let line = line_text(first.push('\n'));
    let n = v.len() as int;
    let text = manifest_text(Some(t), v);
    let all = seq![line] + v;
    assert forall|j: int| 0 <= j < first.len() implies first[j] != '\n' by {
        if j >= 6 {
            assert(first[j] == t[j - 6]);
        }
    }
    if n == 0 {
        let ps = seq![first.push('\n')];
        assert(text =~= first.push('\n'));
        assert(is_piece(ps[0]));
        assert(is_cut(ps));
        lemma_pieces_of(ps);
        assert(ps.drop_last() =~= Seq::empty());
        assert(flat(ps.drop_last()) =~= Seq::empty());
        assert(flat(ps) =~= text);
        assert(lines(text) =~= all);
    } else {
        let w = seq![first] + v;
        lemma_join_first(first, v, "\n"@);
        assert(text =~= join(w, "\n"@));
        assert forall|i: int, j: int|
            #![trigger w[i][j]]
            0 <= i < w.len() && 0 <= j < w[i].len() implies w[i][j] != '\n' by {
            if i > 0 {
                assert(w[i] == v[i - 1]);
                assert(one_line(v[i - 1]));
            }
        }
        assert(w.last() == v[n - 1]);
        lemma_lines_join(w);
        assert forall|i: int| 0 <= i < all.len() implies #[trigger] lines(text)[i] == all[i] by {
            if i > 0 {
                let x = v[i - 1];
                assert(w[i] == x);
                assert(x.push('\n').drop_last() =~= x);
                if i < n {
                    assert(x.last() != '\r');
                }
            }
        }
        assert(lines(text) =~= all);
    }
}

/// A line that is not blank has a character.
proof fn lemma_nonblank(t: Seq<char>)
    requires
        trim(t).len() > 0,
    ensures
        t.len() > 0,
{
    if t.len() == 0 {
        lemma_trim_is(t);
    }
}

/// `ReShade64.dll` is recorded once: it becomes the last line of the manifest,
/// which then has it. The lines before it stay, but for a carriage return at
/// the end of a manifest without a line feed.
pub proof fn law_reshade_is_recorded_once(manifest: Seq<char>)
    ensures
        with_reshade(manifest) matches Some(out) ==> {
            &&& with_reshade(out) is None
            &&& lines(out).len() == lines(manifest).len() + 1
            &&& lines(out).last() == RESHADE64@
            &&& manifest.len() == 0 || manifest.last() != '\r' ==> lines(out) == lines(
                manifest,
            ).push(RESHADE64@)
        },
{
    if with_reshade(manifest) is Some {
        reveal_strlit("\n");
        reveal_strlit("ReShade64.dll");
        let out = with_reshade(manifest)->0;
        let ps = pieces(manifest);
        let n = ps.len() as int;
        let e = ended_pieces(ps);
        let l = e.push(RESHADE64@);
        lemma_pieces(manifest);
        lemma_ended_pieces(manifest);
        assert(out =~= ended(manifest) + RESHADE64@);
        lemma_flat_push(e, RESHADE64@);
        assert forall|i: int| 0 <= i < l.len() implies is_piece(#[trigger] l[i]) by {
            if i < n {
                assert(is_full(e[i]));
            }
        }
        assert forall|i: int| 0 <= i < l.len() - 1 implies (#[trigger] l[i]).last() == '\n' by {
            assert(is_full(e[i]));
        }
        lemma_pieces_of(l);
        assert(lines(out)[n] == RESHADE64@);
        assert(lines(out).contains(RESHADE64@));
        if manifest.len() == 0 || manifest.last() != '\r' {
            assert forall|i: int| 0 <= i < n implies #[trigger] lines(out)[i] == lines(
                manifest,
            )[i] by {
                assert(l[i] == e[i]);
                if e[i] != ps[i] {
                    assert(e[i] == ps[i].push('\n'));
                    assert(ps[i].push('\n').drop_last() =~= ps[i]);
                    assert(flat(ps) == flat(ps.drop_last()) + ps.last());
                    assert(is_piece(ps[n - 1]));
                    assert(manifest.last() == ps.last().last());
                }
            }
            assert(lines(out) =~= lines(manifest).push(RESHADE64@));
        }
    }
}

// ── the placements ─────────────────────────────────────────────────

/// A path below a folder: every part of it names something, and only slashes
/// stand between the parts.
pub open spec fn is_inside(path: Seq<char>) -> bool {
    &&& named_parts(path).len() > 0
    &&& clean(path) == path
    &&& forall|j: int| 0 <= j < path.len() ==> path[j] != '\\'
}

proof fn lemma_placement_inside(member: Seq<char>)
    requires
        is_installed(member),
    ensures
        is_inside(placement(member).dest),
{
    let rel = slashed(member);
    assert forall|j: int| 0 <= j < rel.len() implies rel[j] != '\\' by {
        assert(member[j] == member[j]);
    }
    lemma_clean(rel);
    lemma_clean_free(rel, '\\');
    if placement(member).dest != clean(rel) {
        reveal_strlit("dxgi.dll");
        reveal_strlit(".");
        reveal_strlit("..");
        let p = RESHADE_PROXY@;
        assert(p.len() == 8);
        lemma_split_one(p, '/');
        lemma_one_name(p);
    }
}

proof fn lemma_one_name(p: Seq<char>)
    requires
        is_name(p),
        crate::lines::split(p, '/', '/') == seq![p],
    ensures
        named_parts(p) == seq![p],
        clean(p) == p,
{
    reveal(Seq::filter);
    assert(seq![p].drop_last() =~= Seq::empty());
    assert(Seq::<Seq<char>>::empty().push(p) =~= seq![p]);
}

/// The paths in a release are never trusted: every file goes below the game
/// folder.
pub proof fn law_placements_stay_inside(names: Seq<Seq<char>>, i: int)
    requires
        0 <= i < placements(names).len(),
    ensures
        is_inside(placements(names)[i].dest),
        forall|k: int|
            0 <= k < named_parts(placements(names)[i].dest).len() ==> is_name(
                #[trigger] named_parts(placements(names)[i].dest)[k],
            ),
    decreases names.len(),
{
    let u = names.drop_last();
    if i < placements(u).len() {
        law_placements_stay_inside(u, i);
    } else {
        lemma_placement_inside(names.last());
    }
    lemma_named_parts(placements(names)[i].dest);
}

/// Everything that is placed is extracted, in order, but for the settings file:
/// one that is there is never written.
pub proof fn law_settings_file_is_kept(t: Tree, v: Seq<Placed>)
    ensures
        forall|i: int|
            0 <= i < extraction(t, v).len() ==> extracted_for(
                t,
                v,
                #[trigger] extraction(t, v)[i],
            ),
        forall|k: int|
            0 <= k < v.len() && !(#[trigger] v[k]).settings ==> extraction(t, v).contains(
                ExtractView { member: v[k].member, dest: v[k].dest },
            ),
    decreases v.len(),
{
    if v.len() > 0 {
        let u = v.drop_last();
        let plan = extraction(t, u);
        let all = extraction(t, v);
        let last = v.len() - 1;
        law_settings_file_is_kept(t, u);
        assert forall|i: int| 0 <= i < all.len() implies extracted_for(t, v, #[trigger] all[i]) by {
            if i < plan.len() {
                assert(all[i] == plan[i]);
                let k = choose|k: int| 0 <= k < u.len() && is_for(t, #[trigger] u[k], plan[i]);
                assert(is_for(t, v[k], all[i]));
            } else {
                assert(is_for(t, v[last], all[i]));
            }
        }
        assert forall|k: int| 0 <= k < v.len() && !(#[trigger] v[k]).settings implies all.contains(
            ExtractView { member: v[k].member, dest: v[k].dest },
        ) by {
            let e = ExtractView { member: v[k].member, dest: v[k].dest };
            if k < u.len() {
                assert(u[k] == v[k]);
                let i = choose|i: int| 0 <= i < plan.len() && plan[i] == e;
                assert(all[i] == e);
            } else {
                assert(all[all.len() - 1] == e);
            }
        }
    }
}

/// The extraction is that of the placement, which is no settings file that is
/// there.
pub open spec fn is_for(t: Tree, p: Placed, e: ExtractView) -> bool {
    e.member == p.member && e.dest == p.dest && (p.settings ==> !t.has(p.dest))
}

pub open spec fn extracted_for(t: Tree, v: Seq<Placed>, e: ExtractView) -> bool {
    exists|k: int| 0 <= k < v.len() && is_for(t, #[trigger] v[k], e)
}

// ── the settings ───────────────────────────────────────────────────

/// A key that reads its value keeps it through the setting of another.
proof fn lemma_kept(
    ini: Seq<char>,
    section: Seq<char>,
    key: Seq<char>,
    value: Seq<char>,
    other_section: Seq<char>,
    other: Seq<char>,
    other_value: Seq<char>,
)
    requires
        is_word(key),
        is_plain(value),
        one_line(section),
        other.len() > 0,
        other != key,
        ini_with(ini, other_section, other, other_value) is None,
    ensures
        ini_with(
            ini_set(ini, section, key, value),
            other_section,
            other,
            other_value,
        ) is None,
{
    law_set_ini_key_keeps_other_keys(
        ini,
        section,
        key,
        value,
        other_section,
        other,
        other_value,
    );
}

/// A name that a line can set.
spec fn is_word(key: Seq<char>) -> bool {
    is_plain(key) && key.len() > 0 && key[0] != '['
}

proof fn lemma_set(ini: Seq<char>, section: Seq<char>, key: Seq<char>, value: Seq<char>)
    requires
        is_word(key),
        is_plain(value),
        one_line(section),
    ensures
        ini_with(ini_set(ini, section, key, value), section, key, value) is None,
{
    law_set_ini_key_settles(ini, section, key, value);
}

proof fn lemma_words()
    ensures
        is_word("Enabled"@),
        is_word("WorkingScale"@),
        is_word("ManualInputPolling"@),
        is_word("RestoreComputeSignature"@),
        is_word("RestoreGraphicSignature"@),
        is_word("ExtendedStateRestore"@),
        is_plain("true"@),
        is_plain("false"@),
        one_line("DlssNr"@),
        one_line("Hotfix"@),
        "Enabled"@.len() == 7,
        "WorkingScale"@.len() == 12,
        "ManualInputPolling"@.len() == 18,
        "RestoreComputeSignature"@.len() == 23,
        "RestoreGraphicSignature"@.len() == 23,
        "ExtendedStateRestore"@.len() == 20,
        "RestoreComputeSignature"@[7] != "RestoreGraphicSignature"@[7],
{
    reveal_strlit("Enabled");
    reveal_strlit("WorkingScale");
    reveal_strlit("ManualInputPolling");
    reveal_strlit("RestoreComputeSignature");
    reveal_strlit("RestoreGraphicSignature");
    reveal_strlit("ExtendedStateRestore");
    reveal_strlit("true");
    reveal_strlit("false");
    reveal_strlit("DlssNr");
    reveal_strlit("Hotfix");
    lemma_trim_is("Enabled"@);
    lemma_trim_is("WorkingScale"@);
    lemma_trim_is("ManualInputPolling"@);
    lemma_trim_is("RestoreComputeSignature"@);
    lemma_trim_is("RestoreGraphicSignature"@);
    lemma_trim_is("ExtendedStateRestore"@);
    lemma_trim_is("true"@);
    lemma_trim_is("false"@);
}

/// What an install wrote reads that way: neural rendering is on, the model
/// works at its scale, and the fixes for RE Engine are in place. A second
/// install changes nothing.
pub proof fn law_settings_settle(ini: Seq<char>, scale: Seq<char>, re_engine: bool)
    requires
        is_plain(scale),
    ensures
        ({
            let out = settings_text(ini, scale, re_engine);
            &&& ini_with(out, "DlssNr"@, "Enabled"@, "true"@) is None
            &&& ini_with(out, "DlssNr"@, "WorkingScale"@, scale) is None
            &&& re_engine ==> ini_with(out, "Hotfix"@, "ManualInputPolling"@, "true"@) is None
            &&& re_engine ==> ini_with(out, "Hotfix"@, "RestoreComputeSignature"@, "true"@) is None
            &&& re_engine ==> ini_with(
                out,
                "Hotfix"@,
                "RestoreGraphicSignature"@,
                "false"@,
            ) is None
            &&& re_engine ==> ini_with(out, "Hotfix"@, "ExtendedStateRestore"@, "false"@) is None
            &&& settings_text(out, scale, re_engine) == out
        }),
{
    lemma_words();
    let d = "DlssNr"@;
    let h = "Hotfix"@;
    let k1 = "Enabled"@;
    let k2 = "WorkingScale"@;
    let t = "true"@;
    let f = "false"@;
    let s1 = ini_set(ini, d, k1, t);
    lemma_set(ini, d, k1, t);
    let s2 = ini_set(s1, d, k2, scale);
    lemma_set(s1, d, k2, scale);
    lemma_kept(s1, d, k2, scale, d, k1, t);
    if re_engine {
        lemma_fixes(s2, scale);
    }
}

proof fn lemma_fixes(ini: Seq<char>, scale: Seq<char>)
    requires
        is_plain(scale),
        ini_with(ini, "DlssNr"@, "Enabled"@, "true"@) is None,
        ini_with(ini, "DlssNr"@, "WorkingScale"@, scale) is None,
    ensures
        ({
            let a = ini_set(ini, "Hotfix"@, "ManualInputPolling"@, "true"@);
            let b = ini_set(a, "Hotfix"@, "RestoreComputeSignature"@, "true"@);
            let c = ini_set(b, "Hotfix"@, "RestoreGraphicSignature"@, "false"@);
            let out = ini_set(c, "Hotfix"@, "ExtendedStateRestore"@, "false"@);
            &&& ini_with(out, "DlssNr"@, "Enabled"@, "true"@) is None
            &&& ini_with(out, "DlssNr"@, "WorkingScale"@, scale) is None
            &&& ini_with(out, "Hotfix"@, "ManualInputPolling"@, "true"@) is None
            &&& ini_with(out, "Hotfix"@, "RestoreComputeSignature"@, "true"@) is None
            &&& ini_with(out, "Hotfix"@, "RestoreGraphicSignature"@, "false"@) is None
            &&& ini_with(out, "Hotfix"@, "ExtendedStateRestore"@, "false"@) is None
        }),
{
    lemma_words();
    let d = "DlssNr"@;
    let h = "Hotfix"@;
    let k1 = "Enabled"@;
    let k2 = "WorkingScale"@;
    let k3 = "ManualInputPolling"@;
    let k4 = "RestoreComputeSignature"@;
    let k5 = "RestoreGraphicSignature"@;
    let k6 = "ExtendedStateRestore"@;
    let t = "true"@;
    let f = "false"@;
    let a = ini_set(ini, h, k3, t);
    lemma_set(ini, h, k3, t);
    lemma_kept(ini, h, k3, t, d, k1, t);
    lemma_kept(ini, h, k3, t, d, k2, scale);
    let b = ini_set(a, h, k4, t);
    lemma_set(a, h, k4, t);
    lemma_kept(a, h, k4, t, d, k1, t);
    lemma_kept(a, h, k4, t, d, k2, scale);
    lemma_kept(a, h, k4, t, h, k3, t);
    let c = ini_set(b, h, k5, f);
    lemma_set(b, h, k5, f);
    lemma_kept(b, h, k5, f, d, k1, t);
    lemma_kept(b, h, k5, f, d, k2, scale);
    lemma_kept(b, h, k5, f, h, k3, t);
    lemma_kept(b, h, k5, f, h, k4, t);
    lemma_set(c, h, k6, f);
    lemma_kept(c, h, k6, f, d, k1, t);
    lemma_kept(c, h, k6, f, d, k2, scale);
    lemma_kept(c, h, k6, f, h, k3, t);
    lemma_kept(c, h, k6, f, h, k4, t);
    lemma_kept(c, h, k6, f, h, k5, f);
}

/// A file that reads as an install would leave it is left as it is: no other key
/// is set, and those for RE Engine only there.
pub proof fn law_settled_settings_stay(ini: Seq<char>, scale: Seq<char>, re_engine: bool)
    requires
        ini_with(ini, "DlssNr"@, "Enabled"@, "true"@) is None,
        ini_with(ini, "DlssNr"@, "WorkingScale"@, scale) is None,
        re_engine ==> ini_with(ini, "Hotfix"@, "ManualInputPolling"@, "true"@) is None,
        re_engine ==> ini_with(ini, "Hotfix"@, "RestoreComputeSignature"@, "true"@) is None,
        re_engine ==> ini_with(ini, "Hotfix"@, "RestoreGraphicSignature"@, "false"@) is None,
        re_engine ==> ini_with(ini, "Hotfix"@, "ExtendedStateRestore"@, "false"@) is None,
    ensures
        settings_text(ini, scale, re_engine) == ini,
{
}

// ── which build, and when ──────────────────────────────────────────

/// The pre-SR build is taken exactly where the word `presr` asks for it, whatever
/// its case; anything else means Dagherbou's.
pub proof fn law_build_is_the_one_asked_for(source: Option<&str>)
    ensures
        ({
            let w = source->0@;
            let asked = source is Some && w.len() == 5 && (w[0] == 'p' || w[0] == 'P') && (w[1]
                == 'r' || w[1] == 'R') && (w[2] == 'e' || w[2] == 'E') && (w[3] == 's' || w[3]
                == 'S') && (w[4] == 'r' || w[4] == 'R');
            &&& asked ==> repo_of(source) == "wilsjo2/OptiScaler-DLSSNR-PreSR-Multipass"@
            &&& !asked ==> repo_of(source) == "Dagherbou/OptiScaler_DLSSNR"@
        }),
{
    reveal_strlit("presr");
    if source is Some {
        let w = source->0@;
        let p = "presr"@;
        if w.len() == 5 && (w[0] == 'p' || w[0] == 'P') && (w[1] == 'r' || w[1] == 'R') && (w[2]
            == 'e' || w[2] == 'E') && (w[3] == 's' || w[3] == 'S') && (w[4] == 'r' || w[4]
            == 'R') {
            assert(lower(w) =~= lower(p));
        } else if lower(w) == lower(p) {
            assert(lower(w).len() == 5);
            assert(lower(w)[0] == 'p' && lower(w)[1] == 'r' && lower(w)[2] == 'e' && lower(w)[3]
                == 's' && lower(w)[4] == 'r');
        }
    }
}

/// OptiScaler is fetched where it is not there, and refreshed where this tool
/// placed it and its release is not recorded or another one is out. A copy that
/// it did not place is left, and so is one whose newest release is not known.
pub proof fn law_own_copy_is_refreshed(
    l: Lang,
    present: bool,
    manifest: Option<Seq<char>>,
    latest: Option<Seq<char>>,
)
    ensures
        ({
            let f = refresh(l, present, manifest, latest);
            &&& f is Get <==> !present || manifest is Some && (recorded_tag(manifest->0) is None
                || latest is Some && recorded_tag(manifest->0) != latest)
            &&& !present ==> f == FetchView::Get(None)
            &&& present && f is Get ==> f->Get_0 is Some
        }),
{
}

// ── where the members go ───────────────────────────────────────────

/// A member of the release is taken unless it is a folder, names nothing, or
/// belongs to the interactive setup.
pub open spec fn is_taken(member: Seq<char>) -> bool {
    let rel = slashed(member);
    let parts = named_parts(rel);
    let name = lower(parts.last());
    &&& rel.len() == 0 || rel.last() != '/'
    &&& parts.len() > 0
    &&& name != lower("setup_windows.bat"@)
    &&& name != lower("setup_linux.sh"@)
    &&& !(parts.last().len() >= 2 && parts.last()[0] == '!' && parts.last()[1] == '!')
}

/// Where a member goes: `OptiScaler.dll` takes the place of `dxgi.dll`, anything
/// else keeps its path.
pub open spec fn goes_to(member: Seq<char>) -> Seq<char> {
    if lower(named_parts(slashed(member)).last()) == lower("OptiScaler.dll"@) {
        "dxgi.dll"@
    } else {
        clean(slashed(member))
    }
}

/// The placement of a member.
pub open spec fn placing(member: Seq<char>) -> Placed {
    Placed {
        member,
        dest: goes_to(member),
        settings: lower(named_parts(slashed(member)).last()) == lower("OptiScaler.ini"@),
    }
}

proof fn lemma_taken(member: Seq<char>)
    ensures
        is_installed(member) == is_taken(member),
        placement(member) == placing(member),
{
    reveal_strlit("!!");
    let name = named_parts(slashed(member)).last();
    if name.len() >= 2 && name[0] == '!' && name[1] == '!' {
        assert(name.subrange(0, 2) =~= "!!"@);
    }
    if starts_with(name, "!!"@) {
        assert(name.subrange(0, 2)[0] == '!' && name.subrange(0, 2)[1] == '!');
    }
}

/// Every member of the release that belongs to the engine is placed, the DLL as
/// `dxgi.dll`; no other member is.
pub proof fn law_members_go_where_they_belong(names: Seq<Seq<char>>)
    ensures
        forall|i: int|
            0 <= i < names.len() && is_taken(#[trigger] names[i]) ==> placements(names).contains(
                placing(names[i]),
            ),
        forall|k: int|
            0 <= k < placements(names).len() ==> ({
                let p = #[trigger] placements(names)[k];
                names.contains(p.member) && is_taken(p.member) && p == placing(p.member)
            }),
    decreases names.len(),
{
    if names.len() > 0 {
        let u = names.drop_last();
        let v = placements(u);
        let all = placements(names);
        law_members_go_where_they_belong(u);
        lemma_taken(names.last());
        assert forall|i: int|
            0 <= i < names.len() && is_taken(#[trigger] names[i]) implies all.contains(
            placing(names[i]),
        ) by {
            if i < u.len() {
                assert(u[i] == names[i]);
                let k = choose|k: int| 0 <= k < v.len() && v[k] == placing(names[i]);
                assert(all[k] == placing(names[i]));
            } else {
                assert(all[all.len() - 1] == placing(names[i]));
            }
        }
        assert forall|k: int| 0 <= k < all.len() implies ({
            let p = #[trigger] all[k];
            names.contains(p.member) && is_taken(p.member) && p == placing(p.member)
        }) by {
            if k < v.len() {
                assert(all[k] == v[k]);
                let j = choose|j: int| 0 <= j < u.len() && u[j] == v[k].member;
                assert(names[j] == v[k].member);
            } else {
                assert(names[names.len() - 1] == names.last());
            }
        }
    }
}

/// A settings file that is not there is written: the first that the release
/// holds for its path.
pub proof fn law_missing_settings_are_written(t: Tree, v: Seq<Placed>, k: int)
    requires
        0 <= k < v.len(),
        !t.has(v[k].dest),
    ensures
        writes(t.nocase, extraction(t, v), v[k].dest),
    decreases v.len(),
{
    let u = v.drop_last();
    let plan = extraction(t, u);
    let all = extraction(t, v);
    if k < u.len() {
        law_missing_settings_are_written(t, u, k);
        let i = choose|i: int|
            0 <= i < plan.len() && same_path(t.nocase, (#[trigger] plan[i]).dest, v[k].dest);
        assert(all[i] == plan[i]);
    } else if !(v[k].settings && writes(t.nocase, plan, v[k].dest)) {
        let e = ExtractView { member: v[k].member, dest: v[k].dest };
        assert(all[all.len() - 1] == e);
        lemma_same_path(t.nocase, v[k].dest);
        assert(same_path(t.nocase, all[all.len() - 1].dest, v[k].dest));
    } else {
        assert(all == plan);
    }
}

proof fn lemma_same_path(nocase: bool, p: Seq<char>)
    ensures
        same_path(nocase, p, p),
{
}

} // verus!
