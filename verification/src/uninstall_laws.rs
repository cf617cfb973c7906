//! What holds of every removal: what was asked for is gone, everything else
//! stays, and a second removal finds nothing.
use vstd::prelude::*;
use crate::folder::{below, child_name, fold, fold_char, one_part, same_path, File, Tree};
use crate::game::{
    BRIDGE_ADDON, DLSS5_ADDON, DLSSNR_DLL, DLSSNR_MARKER, DLSS_DLL, DLSS_MARKER, FEEDER_ADDON,
    FEEDER_ADDON32, FEEDER_MARKER, HOST_DIR, OPTI_MANIFEST, REFRAMEWORK_DLL, REFRAMEWORK_MARKER,
    RENODX_MANIFEST, RESHADE_MARKER, RESHADE_PROXY, UPSTREAM_ADDON,
};
use crate::ini::one_line;
use crate::install::need;
use crate::lang::{say, Lang};
use crate::lines::join;
use crate::message::fill;
use crate::opti::{dests, entries, is_entry, manifest_text, placements};
use crate::opti_laws::{law_manifest_reads_back, law_placements_stay_inside};
use crate::order::{in_order, law_sorted_is_in_order, sorted};
use crate::outside::{ascii, lowercase};
use crate::text::{
    contains, ends_with, lemma_trim_is, lower, lower_char, occurs_at, same_nocase, starts_with,
    text_less, trim,
};
use crate::uninstall::{
    addon_names, all_removed, at_most, drop_dir, entry_path, files_removed, foreign_addons,
    host_files, is_lumenite, is_renodx, is_reshade_file, lumenite_files, opti_removed,
    own_files, paths_of, reframework_files, renodx_files, reshade_files, reshade_removed,
    rest_removed, take_entries, take_file, take_files, targets, untouched, Sweep,
    BLUENOISE_PATH, FEEDER_FX_PATH, HEADER_PATH, HEADER_TEXT_PATH, HEADER_UI_PATH,
    HOST_ADDON_PATH, HOST_DLSSNR_MARKER, HOST_DLSSNR_PATH, HOST_DLSS_MARKER, HOST_DLSS_PATH,
    HOST_EXE_PATH, HOST_FEED_LOG, HOST_PRESET, HOST_PROXY_PATH, HOST_RESHADE_INI,
    HOST_RESHADE_LOG, HOST_RESHADE_MARKER, INCLUDE, KEPT_EN, KEPT_ZH, OLD_BRIDGE, SHADERS,
};

verus! {

// ── files that stay, files that go ─────────────────────────────────

proof fn lemma_same_path(nocase: bool, a: Seq<char>, b: Seq<char>, c: Seq<char>)
    ensures
        same_path(nocase, a, a),
        same_path(nocase, a, b) == same_path(nocase, b, a),
        same_path(nocase, a, b) && same_path(nocase, b, c) ==> same_path(nocase, a, c),
{
}

proof fn lemma_without(t: Tree, path: Seq<char>, f: File)
    ensures
        t.without(path).files.contains(f) <==> t.files.contains(f) && !same_path(
            t.nocase,
            f.path,
            path,
        ),
{
    let p = |e: File| !same_path(t.nocase, e.path, path);
    let r = t.files.filter(p);
    if t.files.contains(f) && p(f) {
        let i = choose|i: int| 0 <= i < t.files.len() && t.files[i] == f;
        t.files.lemma_filter_contains(p, i);
    }
    if r.contains(f) {
        let i = choose|i: int| 0 <= i < r.len() && r[i] == f;
        t.files.lemma_filter_pred(p, i);
        lemma_filtered(t.files, p, i);
    }
}

proof fn lemma_filtered(v: Seq<File>, p: spec_fn(File) -> bool, i: int)
    requires
        0 <= i < v.filter(p).len(),
    ensures
        v.contains(v.filter(p)[i]),
    decreases v.len(),
{
    reveal(Seq::filter);
    let u = v.drop_last();
    if i < u.filter(p).len() {
        lemma_filtered(u, p, i);
        let k = choose|k: int| 0 <= k < u.len() && u[k] == u.filter(p)[i];
        assert(v[k] == v.filter(p)[i]);
    } else {
        assert(v[v.len() - 1] == v.filter(p)[i]);
    }
}

/// A file of that path is there exactly when some file of the tree has it.
proof fn lemma_has(t: Tree, path: Seq<char>)
    ensures
        t.has(path) <==> exists|f: File|
            #[trigger] t.files.contains(f) && same_path(t.nocase, f.path, path),
{
    if t.has(path) {
        let i = choose|i: int|
            0 <= i < t.files.len() && same_path(t.nocase, (#[trigger] t.files[i]).path, path);
        assert(t.files.contains(t.files[i]));
    }
    if exists|f: File| #[trigger] t.files.contains(f) && same_path(t.nocase, f.path, path) {
        let f = choose|f: File| #[trigger] t.files.contains(f) && same_path(t.nocase, f.path, path);
        let i = choose|i: int| 0 <= i < t.files.len() && t.files[i] == f;
        assert(same_path(t.nocase, t.files[i].path, path));
    }
}

proof fn lemma_without_has(t: Tree, path: Seq<char>, q: Seq<char>)
    ensures
        t.without(path).has(q) <==> t.has(q) && !same_path(t.nocase, q, path),
{
    let w = t.without(path);
    lemma_has(t, q);
    lemma_has(w, q);
    if w.has(q) {
        let f = choose|f: File| #[trigger] w.files.contains(f) && same_path(w.nocase, f.path, q);
        lemma_without(t, path, f);
        lemma_same_path(t.nocase, q, f.path, path);
        lemma_same_path(t.nocase, f.path, q, path);
    }
    if t.has(q) && !same_path(t.nocase, q, path) {
        let f = choose|f: File| #[trigger] t.files.contains(f) && same_path(t.nocase, f.path, q);
        lemma_without(t, path, f);
        lemma_same_path(t.nocase, q, f.path, path);
        lemma_same_path(t.nocase, f.path, q, path);
        assert(w.files.contains(f));
    }
}

/// What can become of a tree: the rule on case stays, files and folders only
/// go, and every file whose path `gone` does not name stays.
spec fn shrinks(a: Tree, b: Tree, gone: spec_fn(Seq<char>) -> bool) -> bool {
    &&& b.nocase == a.nocase
    &&& forall|f: File| #[trigger] b.files.contains(f) ==> a.files.contains(f)
    &&& forall|f: File| #[trigger] a.files.contains(f) && !gone(f.path) ==> b.files.contains(f)
    &&& forall|d: Seq<char>| #[trigger] b.dirs.contains(d) ==> a.dirs.contains(d)
}

spec fn names(nocase: bool, paths: Seq<Seq<char>>) -> spec_fn(Seq<char>) -> bool {
    |p: Seq<char>|
        exists|i: int| 0 <= i < paths.len() && same_path(nocase, p, #[trigger] paths[i])
}

proof fn lemma_shrinks_trans(
    a: Tree,
    b: Tree,
    c: Tree,
    f: spec_fn(Seq<char>) -> bool,
    g: spec_fn(Seq<char>) -> bool,
    h: spec_fn(Seq<char>) -> bool,
)
    requires
        shrinks(a, b, f),
        shrinks(b, c, g),
        forall|p: Seq<char>| #[trigger] f(p) ==> h(p),
        forall|p: Seq<char>| #[trigger] g(p) ==> h(p),
    ensures
        shrinks(a, c, h),
{
    assert forall|x: File| #[trigger] a.files.contains(x) && !h(x.path) implies c.files.contains(
        x,
    ) by {
        assert(!f(x.path));
        assert(!g(x.path));
        assert(b.files.contains(x));
    }
}

proof fn lemma_take_file(s: Sweep, path: Seq<char>, shown: Seq<char>)
    ensures
        shrinks(
            s.tree,
            take_file(s, path, shown).tree,
            |p: Seq<char>| same_path(s.tree.nocase, p, path),
        ),
        path.len() > 0 ==> !take_file(s, path, shown).tree.has(path),
        take_file(s, path, shown).tree.dirs == s.tree.dirs,
{
    let r = take_file(s, path, shown);
    assert forall|f: File| #[trigger] r.tree.files.contains(f) implies s.tree.files.contains(f) by {
        lemma_without(s.tree, path, f);
    }
    assert forall|f: File|
        #[trigger] s.tree.files.contains(f) && !same_path(
            s.tree.nocase,
            f.path,
            path,
        ) implies r.tree.files.contains(f) by {
        lemma_without(s.tree, path, f);
    }
    lemma_without_has(s.tree, path, path);
}

proof fn lemma_take_files(s: Sweep, paths: Seq<Seq<char>>)
    ensures
        shrinks(s.tree, take_files(s, paths).tree, names(s.tree.nocase, paths)),
        take_files(s, paths).tree.dirs == s.tree.dirs,
    decreases paths.len(),
{
    let n = s.tree.nocase;
    if paths.len() > 0 {
        let q = paths.drop_last();
        let m = take_files(s, q);
        lemma_take_files(s, q);
        lemma_take_file(m, paths.last(), paths.last());
        let g = |p: Seq<char>| same_path(n, p, paths.last());
        let f = names(n, q);
        let h = names(n, paths);
        assert forall|p: Seq<char>| #[trigger] f(p) implies h(p) by {
            let i = choose|i: int| 0 <= i < q.len() && same_path(n, p, #[trigger] q[i]);
            assert(paths[i] == q[i]);
        }
        assert forall|p: Seq<char>| #[trigger] g(p) implies h(p) by {
            assert(same_path(n, p, paths[paths.len() - 1]));
        }
        lemma_shrinks_trans(s.tree, m.tree, take_files(s, paths).tree, f, g, h);
    }
}

/// The paths that a manifest has taken out.
spec fn entry_paths(nocase: bool, named: Seq<Seq<char>>) -> Seq<Seq<char>> {
    Seq::new(named.len(), |i: int| entry_path(nocase, named[i]))
}

proof fn lemma_take_entries(s: Sweep, named: Seq<Seq<char>>)
    ensures
        shrinks(
            s.tree,
            take_entries(s, named).tree,
            names(s.tree.nocase, entry_paths(s.tree.nocase, named)),
        ),
        take_entries(s, named).tree.dirs == s.tree.dirs,
    decreases named.len(),
{
    let n = s.tree.nocase;
    if named.len() > 0 {
        let q = named.drop_last();
        let m = take_entries(s, q);
        let last = entry_path(n, named.last());
        lemma_take_entries(s, q);
        lemma_take_file(m, last, named.last());
        let g = |p: Seq<char>| same_path(n, p, last);
        let all = entry_paths(n, named);
        let some = entry_paths(n, q);
        let f = names(n, some);
        let h = names(n, all);
        assert forall|p: Seq<char>| #[trigger] f(p) implies h(p) by {
            let i = choose|i: int| 0 <= i < some.len() && same_path(n, p, #[trigger] some[i]);
            assert(all[i] == some[i]);
        }
        assert forall|p: Seq<char>| #[trigger] g(p) implies h(p) by {
            assert(same_path(n, p, all[named.len() - 1]));
        }
        lemma_shrinks_trans(s.tree, m.tree, take_entries(s, named).tree, f, g, h);
    }
}

proof fn lemma_dirs_filtered(v: Seq<Seq<char>>, p: spec_fn(Seq<char>) -> bool, d: Seq<char>)
    requires
        v.filter(p).contains(d),
    ensures
        v.contains(d),
        p(d),
    decreases v.len(),
{
    reveal(Seq::filter);
    let i = choose|i: int| 0 <= i < v.filter(p).len() && v.filter(p)[i] == d;
    if v.len() > 0 {
        let u = v.drop_last();
        if i < u.filter(p).len() {
            assert(u.filter(p)[i] == d);
            lemma_dirs_filtered(u, p, d);
            let k = choose|k: int| 0 <= k < u.len() && u[k] == d;
            assert(v[k] == d);
        } else {
            assert(v[v.len() - 1] == d);
        }
    }
}

proof fn lemma_drop_dir(s: Sweep, dir: Seq<char>)
    ensures
        shrinks(s.tree, drop_dir(s, dir).tree, |p: Seq<char>| false),
        drop_dir(s, dir).tree.files == s.tree.files,
        drop_dir(s, dir).lines == s.lines,
{
    let r = drop_dir(s, dir);
    assert forall|d: Seq<char>| #[trigger] r.tree.dirs.contains(d) implies s.tree.dirs.contains(
        d,
    ) by {
        if r.tree.dirs != s.tree.dirs {
            lemma_dirs_filtered(
                s.tree.dirs,
                |e: Seq<char>| !same_path(s.tree.nocase, e, dir),
                d,
            );
        }
    }
}

/// What an OptiScaler removal takes out.
spec fn opti_paths(t: Tree) -> Seq<Seq<char>> {
    match t.text(OPTI_MANIFEST@) {
        Some(m) => entry_paths(t.nocase, entries(m)).push(OPTI_MANIFEST@),
        None => Seq::empty(),
    }
}

proof fn lemma_opti_removed(s: Sweep)
    ensures
        shrinks(s.tree, opti_removed(s).tree, names(s.tree.nocase, opti_paths(s.tree))),
        s.tree.text(OPTI_MANIFEST@) is Some ==> !opti_removed(s).tree.has(OPTI_MANIFEST@),
{
    let n = s.tree.nocase;
    if s.tree.text(OPTI_MANIFEST@) is Some {
        let m = s.tree.text(OPTI_MANIFEST@)->0;
        let a = take_entries(s, entries(m));
        let b1 = drop_dir(a, "OptiScaler/D3D12_OptiScaler"@);
        let b2 = drop_dir(b1, "OptiScaler"@);
        let b = drop_dir(b2, "Licenses"@);
        let none = |p: Seq<char>| false;
        let e = entry_paths(s.tree.nocase, entries(m));
        let all = opti_paths(s.tree);
        lemma_take_entries(s, entries(m));
        lemma_drop_dir(a, "OptiScaler/D3D12_OptiScaler"@);
        lemma_drop_dir(b1, "OptiScaler"@);
        lemma_drop_dir(b2, "Licenses"@);
        let f = names(n, e);
        let h = names(n, all);
        assert forall|p: Seq<char>| #[trigger] f(p) implies h(p) by {
            let i = choose|i: int| 0 <= i < e.len() && same_path(n, p, #[trigger] e[i]);
            assert(all[i] == e[i]);
        }
        lemma_shrinks_trans(s.tree, a.tree, b1.tree, f, none, h);
        lemma_shrinks_trans(s.tree, b1.tree, b2.tree, h, none, h);
        lemma_shrinks_trans(s.tree, b2.tree, b.tree, h, none, h);
        let c = b.tree.without(OPTI_MANIFEST@);
        let g = |p: Seq<char>| same_path(n, p, OPTI_MANIFEST@);
        assert(shrinks(b.tree, c, g)) by {
            assert forall|f: File| #[trigger] c.files.contains(f) implies b.tree.files.contains(
                f,
            ) by {
                lemma_without(b.tree, OPTI_MANIFEST@, f);
            }
            assert forall|f: File|
                #[trigger] b.tree.files.contains(f) && !g(f.path) implies c.files.contains(f) by {
                lemma_without(b.tree, OPTI_MANIFEST@, f);
            }
        }
        assert forall|p: Seq<char>| #[trigger] g(p) implies h(p) by {
            assert(same_path(n, p, all[all.len() - 1]));
        }
        lemma_shrinks_trans(s.tree, b.tree, c, h, g, h);
        lemma_without_has(b.tree, OPTI_MANIFEST@, OPTI_MANIFEST@);
    }
}

/// The removal names the path: as one of its targets, or in the manifest.
pub open spec fn is_named(t: Tree, path: Seq<char>) -> bool {
    ||| exists|i: int|
        0 <= i < targets(t).len() && same_path(t.nocase, path, #[trigger] targets(t)[i])
    ||| t.text(OPTI_MANIFEST@) matches Some(m) && in_manifest(t.nocase, m, path)
}

/// The manifest names the path, or is the file itself.
pub open spec fn in_manifest(nocase: bool, m: Seq<char>, path: Seq<char>) -> bool {
    ||| same_path(nocase, path, OPTI_MANIFEST@)
    ||| exists|i: int|
        0 <= i < entries(m).len() && same_path(
            nocase,
            path,
            entry_path(nocase, #[trigger] entries(m)[i]),
        )
}

proof fn lemma_files_removed(t: Tree)
    ensures
        shrinks(t, files_removed(t).tree, |p: Seq<char>| is_named(t, p)),
        shrinks(
            opti_removed(untouched(t)).tree,
            files_removed(t).tree,
            names(t.nocase, targets(t)),
        ),
{
    let n = t.nocase;
    let s = untouched(t);
    let a = opti_removed(s);
    let b = take_files(a, targets(t));
    let c = drop_dir(b, INCLUDE@);
    let h = |p: Seq<char>| is_named(t, p);
    let none = |p: Seq<char>| false;
    let o = names(n, opti_paths(t));
    let g = names(n, targets(t));
    lemma_opti_removed(s);
    lemma_take_files(a, targets(t));
    lemma_drop_dir(b, INCLUDE@);
    assert forall|p: Seq<char>| #[trigger] o(p) implies h(p) by {
        let all = opti_paths(t);
        let i = choose|i: int| 0 <= i < all.len() && same_path(n, p, #[trigger] all[i]);
        let m = t.text(OPTI_MANIFEST@)->0;
        if i < entries(m).len() {
            assert(all[i] == entry_path(n, entries(m)[i]));
        }
    }
    assert forall|p: Seq<char>| #[trigger] g(p) implies h(p) by {
        let i = choose|i: int|
            0 <= i < targets(t).len() && same_path(n, p, #[trigger] targets(t)[i]);
        assert(same_path(n, p, targets(t)[i]));
    }
    lemma_shrinks_trans(a.tree, b.tree, c.tree, g, none, g);
    lemma_shrinks_trans(t, a.tree, c.tree, o, g, h);
}

/// A file that Remove does not name stays, as it is.
pub proof fn law_other_files_stay(t: Tree, f: File)
    requires
        t.files.contains(f),
        !is_named(t, f.path),
    ensures
        files_removed(t).tree.files.contains(f),
{
    lemma_files_removed(t);
}

// ── what the targets look like ─────────────────────────────────────

proof fn lemma_in_sum(a: Seq<Seq<char>>, b: Seq<Seq<char>>, x: Seq<char>)
    ensures
        (a + b).contains(x) <==> a.contains(x) || b.contains(x),
{
    if a.contains(x) {
        let i = choose|i: int| 0 <= i < a.len() && a[i] == x;
        assert((a + b)[i] == x);
    }
    if b.contains(x) {
        let i = choose|i: int| 0 <= i < b.len() && b[i] == x;
        assert((a + b)[a.len() + i] == x);
    }
}

proof fn lemma_in_targets(t: Tree, x: Seq<char>)
    ensures
        targets(t).contains(x) <==> {
            ||| own_files().contains(x)
            ||| lumenite_files(t.nocase, t.files, SHADERS@, ".fx"@).contains(x)
            ||| lumenite_files(t.nocase, t.files, INCLUDE@, ".fxh"@).contains(x)
            ||| x == FEEDER_ADDON32@
            ||| host_files(t).contains(x)
            ||| renodx_files(t).contains(x)
            ||| reframework_files(t).contains(x)
        },
{
    let a = own_files();
    let b = lumenite_files(t.nocase, t.files, SHADERS@, ".fx"@);
    let c = lumenite_files(t.nocase, t.files, INCLUDE@, ".fxh"@);
    let e = seq![FEEDER_ADDON32@];
    let h = host_files(t);
    let r = renodx_files(t);
    let w = reframework_files(t);
    lemma_in_sum(a, b, x);
    lemma_in_sum(a + b, c, x);
    lemma_in_sum(a + b + c, e, x);
    lemma_in_sum(a + b + c + e, h, x);
    lemma_in_sum(a + b + c + e + h, r, x);
    lemma_in_sum(a + b + c + e + h + r, w, x);
    assert(e[0] == FEEDER_ADDON32@);
}

proof fn lemma_in_host(t: Tree, x: Seq<char>)
    ensures
        host_files(t).contains(x) <==> t.has_dir(HOST_DIR@) && {
            ||| x == HOST_EXE_PATH@
            ||| x == HOST_ADDON_PATH@
            ||| x == HOST_DLSSNR_PATH@
            ||| x == HOST_DLSSNR_MARKER@
            ||| x == HOST_DLSS_MARKER@
            ||| x == HOST_DLSS_PATH@ && t.has(HOST_DLSS_MARKER@)
            ||| x == HOST_PROXY_PATH@ && t.has(HOST_RESHADE_MARKER@)
            ||| x == HOST_RESHADE_MARKER@ && t.has(HOST_RESHADE_MARKER@)
            ||| x == HOST_RESHADE_INI@
            ||| x == HOST_RESHADE_LOG@
            ||| x == HOST_FEED_LOG@
            ||| x == HOST_PRESET@
        },
{
    if t.has_dir(HOST_DIR@) {
        let a = seq![
            HOST_EXE_PATH@,
            HOST_ADDON_PATH@,
            HOST_DLSSNR_PATH@,
            HOST_DLSSNR_MARKER@,
            HOST_DLSS_MARKER@,
        ];
        let b = need(t.has(HOST_DLSS_MARKER@), HOST_DLSS_PATH@);
        let c = if t.has(HOST_RESHADE_MARKER@) {
            seq![HOST_PROXY_PATH@, HOST_RESHADE_MARKER@]
        } else {
            Seq::empty()
        };
        let d = seq![HOST_RESHADE_INI@, HOST_RESHADE_LOG@, HOST_FEED_LOG@, HOST_PRESET@];
        assert(a[0] == HOST_EXE_PATH@ && a[1] == HOST_ADDON_PATH@ && a[2] == HOST_DLSSNR_PATH@
            && a[3] == HOST_DLSSNR_MARKER@ && a[4] == HOST_DLSS_MARKER@);
        if t.has(HOST_DLSS_MARKER@) {
            assert(b[0] == HOST_DLSS_PATH@);
        }
        if t.has(HOST_RESHADE_MARKER@) {
            assert(c[0] == HOST_PROXY_PATH@ && c[1] == HOST_RESHADE_MARKER@);
        }
        assert(d[0] == HOST_RESHADE_INI@ && d[1] == HOST_RESHADE_LOG@ && d[2] == HOST_FEED_LOG@
            && d[3] == HOST_PRESET@);
        lemma_in_sum(a, b, x);
        lemma_in_sum(a + b, c, x);
        lemma_in_sum(a + b + c, d, x);
    }
}

proof fn lemma_in_own(x: Seq<char>)
    ensures
        own_files().contains(x) <==> {
            ||| x == DLSS_MARKER@
            ||| x == DLSSNR_MARKER@
            ||| x == FEEDER_MARKER@
            ||| x == FEEDER_ADDON@
            ||| x == DLSS5_ADDON@
            ||| x == DLSSNR_DLL@
            ||| x == BRIDGE_ADDON@
            ||| x == UPSTREAM_ADDON@
            ||| x == OLD_BRIDGE@
            ||| x == FEEDER_FX_PATH@
            ||| x == BLUENOISE_PATH@
            ||| x == HEADER_PATH@
            ||| x == HEADER_UI_PATH@
            ||| x == HEADER_TEXT_PATH@
        },
{
    let o = own_files();
    assert(o[0] == DLSS_MARKER@ && o[1] == DLSSNR_MARKER@ && o[2] == FEEDER_MARKER@ && o[3]
        == FEEDER_ADDON@ && o[4] == DLSS5_ADDON@ && o[5] == DLSSNR_DLL@ && o[6] == BRIDGE_ADDON@
        && o[7] == UPSTREAM_ADDON@ && o[8] == OLD_BRIDGE@ && o[9] == FEEDER_FX_PATH@ && o[10]
        == BLUENOISE_PATH@ && o[11] == HEADER_PATH@ && o[12] == HEADER_UI_PATH@ && o[13]
        == HEADER_TEXT_PATH@);
}

/// The path is one of Lumenite's files in the folder.
spec fn is_effect(nocase: bool, path: Seq<char>, dir: Seq<char>, ext: Seq<char>) -> bool {
    match child_name(nocase, path, dir) {
        Some(name) => is_lumenite(lowercase(name), ext),
        None => false,
    }
}

proof fn lemma_in_lumenite(
    nocase: bool,
    files: Seq<File>,
    dir: Seq<char>,
    ext: Seq<char>,
    x: Seq<char>,
)
    ensures
        lumenite_files(nocase, files, dir, ext).contains(x) <==> exists|i: int|
            0 <= i < files.len() && (#[trigger] files[i]).path == x && is_effect(nocase, x, dir, ext),
    decreases files.len(),
{
    let v = lumenite_files(nocase, files, dir, ext);
    if files.len() > 0 {
        let u = files.drop_last();
        let w = lumenite_files(nocase, u, dir, ext);
        let p = files.last().path;
        lemma_in_lumenite(nocase, u, dir, ext, x);
        let hit = is_effect(nocase, p, dir, ext);
        if hit {
            lemma_in_sum(w, seq![p], x);
            assert(v =~= w + seq![p]);
            assert(seq![p][0] == p);
        }
        if w.contains(x) {
            let i = choose|i: int|
                0 <= i < u.len() && (#[trigger] u[i]).path == x && is_effect(nocase, x, dir, ext);
            assert(files[i] == u[i]);
        }
        if hit && p == x {
            assert(files[files.len() - 1].path == x);
        }
        if exists|i: int|
            0 <= i < files.len() && (#[trigger] files[i]).path == x && is_effect(nocase, x, dir, ext) {
            let i = choose|i: int|
                0 <= i < files.len() && (#[trigger] files[i]).path == x && is_effect(nocase, x, dir, ext);
            if i < u.len() {
                assert(u[i] == files[i]);
            }
        }
    }
}

/// A file beside the exe that is dgVoodoo's, the game's DLSS or the proxy: its
/// name is as long as no target is, and starts as no mod of RenoDX does.
spec fn is_short(path: Seq<char>) -> bool {
    &&& path.len() == 8 || path.len() == 13 || path.len() == 14
    &&& fold_char(path[0]) != 'r'
}

proof fn lemma_fold_len(a: Seq<char>)
    ensures
        fold(a).len() == a.len(),
{
}

/// The lengths of the paths that are taken out.
proof fn lemma_lengths(x: Seq<char>)
    requires
        x.len() == 8 || x.len() == 13 || x.len() == 14,
    ensures
        !own_files().contains(x),
        x != FEEDER_ADDON32@,
        x != HOST_EXE_PATH@,
        x != HOST_ADDON_PATH@,
        x != HOST_DLSSNR_PATH@,
        x != HOST_DLSSNR_MARKER@,
        x != HOST_DLSS_MARKER@,
        x != HOST_DLSS_PATH@,
        x != HOST_PROXY_PATH@,
        x != HOST_RESHADE_MARKER@,
        x != HOST_RESHADE_INI@,
        x != HOST_RESHADE_LOG@,
        x != HOST_FEED_LOG@,
        x != HOST_PRESET@,
        x != RENODX_MANIFEST@,
        x != REFRAMEWORK_DLL@,
        x != REFRAMEWORK_MARKER@,
        SHADERS@.len() > 14,
        INCLUDE@.len() > 14,
{
    lemma_in_own(x);
    reveal_strlit("nvngx_dlss.dll.dlss5oneclick");
    reveal_strlit("nvngx_dlssnr.dll.dlss5oneclick");
    reveal_strlit("dlss5-feed.dlss5oneclick");
    reveal_strlit("dlss5-feed.addon64");
    reveal_strlit("dlss5-feed.addon32");
    reveal_strlit("renodx-dlss5.addon64");
    reveal_strlit("nvngx_dlssnr.dll");
    reveal_strlit("dlss5-bridge.addon64");
    reveal_strlit("nvngx.dll.addon64");
    reveal_strlit("dlss5-dx11-bridge.addon64");
    reveal_strlit("reshade-shaders/Shaders/DLSS5_Feed.fx");
    reveal_strlit("reshade-shaders/Textures/lumenite_bluenoise256.png");
    reveal_strlit("reshade-shaders/Shaders/ReShade.fxh");
    reveal_strlit("reshade-shaders/Shaders/ReShadeUI.fxh");
    reveal_strlit("reshade-shaders/Shaders/DrawText.fxh");
    reveal_strlit("host64/dlss5-feed-host64.exe");
    reveal_strlit("host64/renodx-dlss5.addon64");
    reveal_strlit("host64/nvngx_dlssnr.dll");
    reveal_strlit("host64/nvngx_dlssnr.dll.dlss5oneclick");
    reveal_strlit("host64/nvngx_dlss.dll.dlss5oneclick");
    reveal_strlit("host64/nvngx_dlss.dll");
    reveal_strlit("host64/dxgi.dll");
    reveal_strlit("host64/dxgi.dll.dlss5oneclick");
    reveal_strlit("host64/ReShade.ini");
    reveal_strlit("host64/ReShade.log");
    reveal_strlit("host64/dlss5-feed-host.log");
    reveal_strlit("host64/ReShadePreset.ini");
    reveal_strlit(".dlss5oneclick-renodx-manifest");
    reveal_strlit("dinput8.dll");
    reveal_strlit("dinput8.dll.dlss5oneclick");
    reveal_strlit("reshade-shaders/Shaders");
    reveal_strlit("reshade-shaders/Shaders/include");
}

/// No target is the same as a short path.
proof fn lemma_short_is_no_target(t: Tree, path: Seq<char>)
    requires
        is_short(path),
    ensures
        forall|i: int|
            0 <= i < targets(t).len() ==> !same_path(t.nocase, path, #[trigger] targets(t)[i]),
{
    assert forall|i: int| 0 <= i < targets(t).len() implies !same_path(
        t.nocase,
        path,
        #[trigger] targets(t)[i],
    ) by {
        let x = targets(t)[i];
        if same_path(t.nocase, path, x) {
            lemma_fold_len(path);
            lemma_fold_len(x);
            assert(x.len() == path.len());
            assert(fold(x)[0] == fold_char(x[0]) && fold(path)[0] == fold_char(path[0]));
            assert(targets(t).contains(x));
            lemma_in_targets(t, x);
            lemma_lengths(x);
            lemma_in_host(t, x);
            lemma_in_lumenite(t.nocase, t.files, SHADERS@, ".fx"@, x);
            lemma_in_lumenite(t.nocase, t.files, INCLUDE@, ".fxh"@, x);
            lemma_in_renodx(t, x);
            lemma_in_reframework(t, x);
            if child_name(t.nocase, x, SHADERS@) is Some {
                assert(below(t.nocase, x, SHADERS@));
            }
            if child_name(t.nocase, x, INCLUDE@) is Some {
                assert(below(t.nocase, x, INCLUDE@));
            }
            if is_renodx(x) {
                reveal_strlit("renodx-");
                assert(x.subrange(0, 7)[0] == 'r');
                assert(x[0] == 'r');
            }
            assert(false);
        }
    }
}

proof fn lemma_in_renodx(t: Tree, x: Seq<char>)
    ensures
        renodx_files(t).contains(x) <==> t.text(RENODX_MANIFEST@) is Some && (x
            == RENODX_MANIFEST@ || x == trim(t.text(RENODX_MANIFEST@)->0) && is_renodx(x)),
{
    if let Some(name) = t.text(RENODX_MANIFEST@) {
        let a = need(is_renodx(trim(name)), trim(name));
        let b = seq![RENODX_MANIFEST@];
        assert(b[0] == RENODX_MANIFEST@);
        if is_renodx(trim(name)) {
            assert(a[0] == trim(name));
        }
        lemma_in_sum(a, b, x);
    }
}

proof fn lemma_in_reframework(t: Tree, x: Seq<char>)
    ensures
        reframework_files(t).contains(x) <==> t.has(REFRAMEWORK_MARKER@) && (x
            == REFRAMEWORK_DLL@ || x == REFRAMEWORK_MARKER@),
{
    if t.has(REFRAMEWORK_MARKER@) {
        let v = reframework_files(t);
        assert(v[0] == REFRAMEWORK_DLL@ && v[1] == REFRAMEWORK_MARKER@);
    }
}

// ── what is asked for is gone ──────────────────────────────────────

proof fn lemma_has_shrinks(a: Tree, b: Tree, g: spec_fn(Seq<char>) -> bool, p: Seq<char>)
    requires
        shrinks(a, b, g),
        b.has(p),
    ensures
        a.has(p),
{
    lemma_has(a, p);
    lemma_has(b, p);
    let f = choose|f: File| #[trigger] b.files.contains(f) && same_path(b.nocase, f.path, p);
    assert(a.files.contains(f));
}

proof fn lemma_dir_shrinks(a: Tree, b: Tree, g: spec_fn(Seq<char>) -> bool, d: Seq<char>)
    requires
        shrinks(a, b, g),
        b.has_dir(d),
    ensures
        a.has_dir(d),
{
    let i = choose|i: int| 0 <= i < b.dirs.len() && same_path(b.nocase, #[trigger] b.dirs[i], d);
    assert(b.dirs.contains(b.dirs[i]));
    let k = choose|k: int| 0 <= k < a.dirs.len() && a.dirs[k] == b.dirs[i];
    assert(same_path(a.nocase, a.dirs[k], d));
}

proof fn lemma_taken(s: Sweep, paths: Seq<Seq<char>>, i: int)
    requires
        0 <= i < paths.len(),
        paths[i].len() > 0,
    ensures
        !take_files(s, paths).tree.has(paths[i]),
    decreases paths.len(),
{
    let q = paths.drop_last();
    let m = take_files(s, q);
    lemma_take_file(m, paths.last(), paths.last());
    if i < q.len() {
        lemma_taken(s, q, i);
        assert(q[i] == paths[i]);
        if take_files(s, paths).tree.has(paths[i]) {
            lemma_has_shrinks(
                m.tree,
                take_files(s, paths).tree,
                |p: Seq<char>| same_path(m.tree.nocase, p, paths.last()),
                paths[i],
            );
        }
    }
}

proof fn lemma_same_files_has(a: Tree, b: Tree, p: Seq<char>)
    requires
        a.files == b.files,
        a.nocase == b.nocase,
    ensures
        a.has(p) == b.has(p),
        a.text(p) == b.text(p),
    decreases a.files.len(),
{
    if a.has(p) {
        let i = choose|i: int|
            0 <= i < a.files.len() && same_path(a.nocase, (#[trigger] a.files[i]).path, p);
        assert(same_path(b.nocase, b.files[i].path, p));
    }
    if b.has(p) {
        let i = choose|i: int|
            0 <= i < b.files.len() && same_path(b.nocase, (#[trigger] b.files[i]).path, p);
        assert(same_path(a.nocase, a.files[i].path, p));
    }
    if a.files.len() > 0 {
        lemma_same_files_has(
            Tree { files: a.files.skip(1), ..a },
            Tree { files: b.files.skip(1), ..b },
            p,
        );
    }
}

proof fn lemma_target_gone(t: Tree, x: Seq<char>)
    requires
        targets(t).contains(x),
        x.len() > 0,
    ensures
        !files_removed(t).tree.has(x),
{
    let i = choose|i: int| 0 <= i < targets(t).len() && targets(t)[i] == x;
    let b = take_files(opti_removed(untouched(t)), targets(t));
    lemma_taken(opti_removed(untouched(t)), targets(t), i);
    lemma_drop_dir(b, INCLUDE@);
    lemma_same_files_has(b.tree, files_removed(t).tree, x);
}

/// The paths that are taken out are no empty paths.
proof fn lemma_target_len(t: Tree, x: Seq<char>)
    requires
        targets(t).contains(x),
    ensures
        x.len() > 0,
{
    lemma_in_targets(t, x);
    lemma_in_own(x);
    lemma_in_host(t, x);
    lemma_in_renodx(t, x);
    lemma_in_reframework(t, x);
    lemma_in_lumenite(t.nocase, t.files, SHADERS@, ".fx"@, x);
    lemma_in_lumenite(t.nocase, t.files, INCLUDE@, ".fxh"@, x);
    if x.len() == 0 {
        reveal_strlit("renodx-");
        reveal_strlit("nvngx_dlss.dll");
        reveal_strlit("reshade-shaders/Shaders");
        reveal_strlit("reshade-shaders/Shaders/include");
        lemma_lengths("nvngx_dlss.dll"@);
        lemma_no_empty_target(x);
        assert(false);
    }
}

proof fn lemma_no_empty_target(x: Seq<char>)
    ensures
        own_files().contains(x) ==> x.len() > 0,
        FEEDER_ADDON32@.len() > 0,
        HOST_EXE_PATH@.len() > 0,
        HOST_ADDON_PATH@.len() > 0,
        HOST_DLSSNR_PATH@.len() > 0,
        HOST_DLSSNR_MARKER@.len() > 0,
        HOST_DLSS_MARKER@.len() > 0,
        HOST_DLSS_PATH@.len() > 0,
        HOST_PROXY_PATH@.len() > 0,
        HOST_RESHADE_MARKER@.len() > 0,
        HOST_RESHADE_INI@.len() > 0,
        HOST_RESHADE_LOG@.len() > 0,
        HOST_FEED_LOG@.len() > 0,
        HOST_PRESET@.len() > 0,
        RENODX_MANIFEST@.len() > 0,
        REFRAMEWORK_DLL@.len() > 0,
        REFRAMEWORK_MARKER@.len() > 0,
{
    lemma_in_own(x);
    reveal_strlit("nvngx_dlss.dll.dlss5oneclick");
    reveal_strlit("nvngx_dlssnr.dll.dlss5oneclick");
    reveal_strlit("dlss5-feed.dlss5oneclick");
    reveal_strlit("dlss5-feed.addon64");
    reveal_strlit("dlss5-feed.addon32");
    reveal_strlit("renodx-dlss5.addon64");
    reveal_strlit("nvngx_dlssnr.dll");
    reveal_strlit("dlss5-bridge.addon64");
    reveal_strlit("nvngx.dll.addon64");
    reveal_strlit("dlss5-dx11-bridge.addon64");
    reveal_strlit("reshade-shaders/Shaders/DLSS5_Feed.fx");
    reveal_strlit("reshade-shaders/Textures/lumenite_bluenoise256.png");
    reveal_strlit("reshade-shaders/Shaders/ReShade.fxh");
    reveal_strlit("reshade-shaders/Shaders/ReShadeUI.fxh");
    reveal_strlit("reshade-shaders/Shaders/DrawText.fxh");
    reveal_strlit("host64/dlss5-feed-host64.exe");
    reveal_strlit("host64/renodx-dlss5.addon64");
    reveal_strlit("host64/nvngx_dlssnr.dll");
    reveal_strlit("host64/nvngx_dlssnr.dll.dlss5oneclick");
    reveal_strlit("host64/nvngx_dlss.dll.dlss5oneclick");
    reveal_strlit("host64/nvngx_dlss.dll");
    reveal_strlit("host64/dxgi.dll");
    reveal_strlit("host64/dxgi.dll.dlss5oneclick");
    reveal_strlit("host64/ReShade.ini");
    reveal_strlit("host64/ReShade.log");
    reveal_strlit("host64/dlss5-feed-host.log");
    reveal_strlit("host64/ReShadePreset.ini");
    reveal_strlit(".dlss5oneclick-renodx-manifest");
    reveal_strlit("dinput8.dll");
    reveal_strlit("dinput8.dll.dlss5oneclick");
}

/// No file that Remove names as a target is left, nor the manifest where it was
/// read.
pub proof fn law_targets_are_gone(t: Tree)
    ensures
        forall|i: int|
            0 <= i < targets(t).len() ==> !files_removed(t).tree.has(#[trigger] targets(t)[i]),
        t.text(OPTI_MANIFEST@) is Some ==> !files_removed(t).tree.has(OPTI_MANIFEST@),
{
    assert forall|i: int| 0 <= i < targets(t).len() implies !files_removed(t).tree.has(
        #[trigger] targets(t)[i],
    ) by {
        assert(targets(t).contains(targets(t)[i]));
        lemma_target_len(t, targets(t)[i]);
        lemma_target_gone(t, targets(t)[i]);
    }
    if t.text(OPTI_MANIFEST@) is Some {
        lemma_opti_removed(untouched(t));
        lemma_files_removed(t);
        if files_removed(t).tree.has(OPTI_MANIFEST@) {
            lemma_has_shrinks(
                opti_removed(untouched(t)).tree,
                files_removed(t).tree,
                names(t.nocase, targets(t)),
                OPTI_MANIFEST@,
            );
        }
    }
}

// ── a second removal ───────────────────────────────────────────────

/// A text that is read belongs to a file of that path.
proof fn lemma_text_of(t: Tree, p: Seq<char>)
    ensures
        t.text(p) is Some ==> exists|f: File| #[trigger]
            t.files.contains(f) && same_path(t.nocase, f.path, p) && f.text == t.text(p),
    decreases t.files.len(),
{
    if t.text(p) is Some {
        if same_path(t.nocase, t.files[0].path, p) {
            assert(t.files.contains(t.files[0]));
        } else {
            let u = Tree { files: t.files.skip(1), ..t };
            lemma_text_of(u, p);
            let f = choose|f: File| #[trigger]
                u.files.contains(f) && same_path(u.nocase, f.path, p) && f.text == u.text(p);
            let i = choose|i: int| 0 <= i < u.files.len() && u.files[i] == f;
            assert(t.files[i + 1] == f);
            assert(t.files.contains(f));
            assert(t.text(p) == u.text(p));
        }
    }
}

/// In a folder without duplicates a file's text is what is read.
proof fn lemma_text_is(t: Tree, f: File, p: Seq<char>)
    requires
        t.wf(),
        t.files.contains(f),
        same_path(t.nocase, f.path, p),
    ensures
        t.text(p) == f.text,
    decreases t.files.len(),
{
    let i = choose|i: int| 0 <= i < t.files.len() && t.files[i] == f;
    if i > 0 {
        assert(!same_path(t.nocase, t.files[0].path, t.files[i].path));
        lemma_same_path(t.nocase, t.files[0].path, p, f.path);
        lemma_same_path(t.nocase, f.path, p, p);
        let u = Tree { files: t.files.skip(1), ..t };
        assert(u.files[i - 1] == f);
        assert forall|a: int, b: int|
            #![trigger u.files[a], u.files[b]]
            0 <= a < b < u.files.len() implies !same_path(
            u.nocase,
            u.files[a].path,
            u.files[b].path,
        ) by {
            assert(u.files[a] == t.files[a + 1] && u.files[b] == t.files[b + 1]);
        }
        lemma_text_is(u, f, p);
    }
}

/// What is read of a shrunken folder could be read before.
proof fn lemma_text_shrinks(a: Tree, b: Tree, g: spec_fn(Seq<char>) -> bool, p: Seq<char>)
    requires
        a.wf(),
        shrinks(a, b, g),
        b.text(p) is Some,
    ensures
        a.text(p) == b.text(p),
        b.has(p),
{
    lemma_text_of(b, p);
    let f = choose|f: File| #[trigger]
        b.files.contains(f) && same_path(b.nocase, f.path, p) && f.text == b.text(p);
    assert(a.files.contains(f));
    lemma_text_is(a, f, p);
    lemma_has(b, p);
}

proof fn lemma_nothing_to_take(s: Sweep, paths: Seq<Seq<char>>)
    requires
        forall|i: int| 0 <= i < paths.len() ==> !s.tree.has(#[trigger] paths[i]),
    ensures
        take_files(s, paths) == s,
    decreases paths.len(),
{
    if paths.len() > 0 {
        let q = paths.drop_last();
        assert forall|i: int| 0 <= i < q.len() implies !s.tree.has(#[trigger] q[i]) by {
            assert(q[i] == paths[i]);
        }
        lemma_nothing_to_take(s, q);
        assert(!s.tree.has(paths[paths.len() - 1]));
    }
}

/// Whatever would be taken out of what is left is not there.
proof fn lemma_no_second_target(t: Tree, x: Seq<char>)
    requires
        t.wf(),
        targets(files_removed(t).tree).contains(x),
    ensures
        !files_removed(t).tree.has(x),
{
    let u = files_removed(t).tree;
    let g = |p: Seq<char>| is_named(t, p);
    lemma_files_removed(t);
    lemma_in_targets(u, x);
    lemma_in_targets(t, x);
    lemma_in_targets(t, DLSS_MARKER@);
    lemma_in_targets(t, HOST_DLSS_MARKER@);
    lemma_in_targets(t, HOST_RESHADE_MARKER@);
    lemma_in_targets(t, REFRAMEWORK_MARKER@);
    lemma_in_targets(t, RENODX_MANIFEST@);
    lemma_in_own(DLSS_MARKER@);
    lemma_in_host(u, x);
    lemma_in_host(t, x);
    lemma_in_host(t, HOST_DLSS_MARKER@);
    lemma_in_host(t, HOST_RESHADE_MARKER@);
    lemma_in_renodx(u, x);
    lemma_in_renodx(t, RENODX_MANIFEST@);
    lemma_in_reframework(u, x);
    lemma_in_reframework(t, REFRAMEWORK_MARKER@);
    lemma_no_empty_target(x);
    lemma_target_len(u, x);
    reveal_strlit("nvngx_dlss.dll.dlss5oneclick");
    lemma_target_gone(t, DLSS_MARKER@);
    if u.has_dir(HOST_DIR@) {
        lemma_dir_shrinks(t, u, g, HOST_DIR@);
        lemma_target_gone(t, HOST_DLSS_MARKER@);
    }
    if u.has(HOST_RESHADE_MARKER@) && u.has_dir(HOST_DIR@) {
        lemma_has_shrinks(t, u, g, HOST_RESHADE_MARKER@);
        lemma_target_gone(t, HOST_RESHADE_MARKER@);
    }
    if u.has(REFRAMEWORK_MARKER@) {
        lemma_has_shrinks(t, u, g, REFRAMEWORK_MARKER@);
        lemma_target_gone(t, REFRAMEWORK_MARKER@);
    }
    if u.text(RENODX_MANIFEST@) is Some {
        lemma_text_shrinks(t, u, g, RENODX_MANIFEST@);
        lemma_target_gone(t, RENODX_MANIFEST@);
    }
    lemma_effect_again(t, x, SHADERS@, ".fx"@);
    lemma_effect_again(t, x, INCLUDE@, ".fxh"@);
    if targets(t).contains(x) {
        lemma_target_gone(t, x);
    }
}

/// An effect that is left was there before.
proof fn lemma_effect_again(t: Tree, x: Seq<char>, dir: Seq<char>, ext: Seq<char>)
    ensures
        ({
            let u = files_removed(t).tree;
            lumenite_files(u.nocase, u.files, dir, ext).contains(x) ==> lumenite_files(
                t.nocase,
                t.files,
                dir,
                ext,
            ).contains(x)
        }),
{
    let u = files_removed(t).tree;
    lemma_files_removed(t);
    lemma_in_lumenite(u.nocase, u.files, dir, ext, x);
    lemma_in_lumenite(t.nocase, t.files, dir, ext, x);
    if lumenite_files(u.nocase, u.files, dir, ext).contains(x) {
        let i = choose|i: int|
            0 <= i < u.files.len() && (#[trigger] u.files[i]).path == x && is_effect(
                u.nocase,
                x,
                dir,
                ext,
            );
        assert(u.files.contains(u.files[i]));
        let k = choose|k: int| 0 <= k < t.files.len() && t.files[k] == u.files[i];
        assert(t.files[k].path == x);
    }
}

proof fn lemma_dropped(s: Sweep, dir: Seq<char>)
    ensures
        drop_dir(drop_dir(s, dir), dir) == drop_dir(s, dir),
{
    let r = drop_dir(s, dir);
    if s.tree.has_dir(dir) && !s.tree.holds_in(dir) {
        if r.tree.has_dir(dir) {
            let i = choose|i: int|
                0 <= i < r.tree.dirs.len() && same_path(
                    r.tree.nocase,
                    #[trigger] r.tree.dirs[i],
                    dir,
                );
            assert(r.tree.dirs.contains(r.tree.dirs[i]));
            lemma_dirs_filtered(
                s.tree.dirs,
                |e: Seq<char>| !same_path(s.tree.nocase, e, dir),
                r.tree.dirs[i],
            );
        }
    }
}

/// Removing the files of an install a second time finds nothing to remove.
pub proof fn law_second_removal_finds_nothing(t: Tree)
    requires
        t.wf(),
    ensures
        files_removed(files_removed(t).tree) == untouched(files_removed(t).tree),
{
    let u = files_removed(t).tree;
    let s = untouched(u);
    lemma_files_removed(t);
    law_targets_are_gone(t);
    if u.text(OPTI_MANIFEST@) is Some {
        lemma_text_shrinks(t, u, |p: Seq<char>| is_named(t, p), OPTI_MANIFEST@);
    }
    assert(opti_removed(s) == s);
    assert forall|i: int| 0 <= i < targets(u).len() implies !s.tree.has(
        #[trigger] targets(u)[i],
    ) by {
        assert(targets(u).contains(targets(u)[i]));
        lemma_no_second_target(t, targets(u)[i]);
    }
    lemma_nothing_to_take(s, targets(u));
    let b = take_files(opti_removed(untouched(t)), targets(t));
    lemma_dropped(b, INCLUDE@);
    let d = drop_dir(b, INCLUDE@);
    assert(d.tree == u);
    assert(d.tree.has_dir(INCLUDE@) ==> d.tree.holds_in(INCLUDE@)) by {
        if d.tree.has_dir(INCLUDE@) && !d.tree.holds_in(INCLUDE@) {
            assert(drop_dir(d, INCLUDE@).ops.len() == d.ops.len() + 1);
        }
    }
}

// ── what is never taken out ────────────────────────────────────────

/// The path is one of dgVoodoo's two files beside the exe.
pub open spec fn is_dgvoodoo_file(nocase: bool, path: Seq<char>) -> bool {
    same_path(nocase, path, "d3d9.dll"@) || same_path(nocase, path, "dgVoodoo.conf"@)
}

/// The manifest, where there is one, does not name the path.
pub open spec fn not_in_manifest(t: Tree, path: Seq<char>) -> bool {
    t.text(OPTI_MANIFEST@) matches Some(m) ==> !in_manifest(t.nocase, m, path)
}

proof fn lemma_name_shapes(path: Seq<char>)
    ensures
        same_nocase(path, "d3d9.dll"@) ==> path.len() == 8 && lower(path)[0] == 'd' && lower(
            path,
        )[1] == '3',
        same_nocase(path, "dgVoodoo.conf"@) ==> path.len() == 13 && lower(path)[0] == 'd'
            && lower(path)[1] == 'g',
        same_nocase(path, RESHADE_PROXY@) ==> path.len() == 8 && lower(path)[0] == 'd' && lower(
            path,
        )[1] == 'x',
        same_nocase(path, DLSS_DLL@) ==> path.len() == 14 && lower(path)[0] == 'n',
        RESHADE_MARKER@.len() == 22,
{
    reveal_strlit("d3d9.dll");
    reveal_strlit("dgVoodoo.conf");
    reveal_strlit("dxgi.dll");
    reveal_strlit("nvngx_dlss.dll");
    reveal_strlit("dxgi.dll.dlss5oneclick");
    assert(lower(path).len() == path.len());
    assert(lower("d3d9.dll"@)[0] == 'd' && lower("d3d9.dll"@)[1] == '3');
    assert(lower("d3d9.dll"@).len() == 8);
    assert(lower("dgVoodoo.conf"@)[0] == 'd' && lower("dgVoodoo.conf"@)[1] == 'g');
    assert(lower("dgVoodoo.conf"@).len() == 13);
    assert(lower("dxgi.dll"@)[0] == 'd' && lower("dxgi.dll"@)[1] == 'x');
    assert(lower("dxgi.dll"@).len() == 8);
    assert(lower("nvngx_dlss.dll"@)[0] == 'n');
    assert(lower("nvngx_dlss.dll"@).len() == 14);
}

/// A path that is the same as an ASCII path is ASCII, and differs in case alone.
proof fn lemma_ascii(nocase: bool, a: Seq<char>, b: Seq<char>)
    requires
        same_path(nocase, a, b),
        ascii(b),
    ensures
        ascii(a),
        same_nocase(a, b),
{
    lemma_fold_len(a);
    lemma_fold_len(b);
    assert forall|i: int| 0 <= i < a.len() implies (#[trigger] a[i]) as int <= 127 && lower_char(
        a[i],
    ) == lower_char(b[i]) by {
        assert(b[i] as int <= 127);
        if nocase {
            assert(fold(a)[i] == fold(b)[i]);
        }
    }
    assert(lower(a) =~= lower(b));
}

/// None of ReShade's leftovers is a path that starts neither like `reshade` nor
/// like `dlss5-feed.`.
proof fn lemma_no_leftover(nocase: bool, files: Seq<File>, path: Seq<char>)
    requires
        ascii(path),
        path.len() >= 2,
        lower(path)[0] != 'r',
        lower(path)[0] != 'd' || lower(path)[1] != 'l',
    ensures
        forall|i: int|
            0 <= i < reshade_files(nocase, files).len() ==> !same_path(
                nocase,
                path,
                #[trigger] reshade_files(nocase, files)[i],
            ),
    decreases files.len(),
{
    if files.len() > 0 {
        let u = files.drop_last();
        lemma_no_leftover(nocase, u, path);
        let p = files.last().path;
        let v = reshade_files(nocase, files);
        let w = reshade_files(nocase, u);
        assert forall|i: int| 0 <= i < v.len() implies !same_path(
            nocase,
            path,
            #[trigger] v[i],
        ) by {
            if i < w.len() {
                assert(v[i] == w[i]);
            } else if same_path(nocase, path, p) {
                lemma_ascii(nocase, p, path);
                assert(lowercase(p) == lower(path));
                reveal_strlit("reshade");
                reveal_strlit("reshadepreset");
                reveal_strlit("dlss5-feed.");
                let n = lower(path);
                assert(is_reshade_file(n));
                if starts_with(n, "reshade"@) {
                    assert(n.subrange(0, 7)[0] == n[0]);
                } else if starts_with(n, "reshadepreset"@) {
                    assert(n.subrange(0, 13)[0] == n[0]);
                } else {
                    assert(n.subrange(0, 11)[0] == n[0]);
                    assert(n.subrange(0, 11)[1] == n[1]);
                }
                assert(false);
            }
        }
    }
}

proof fn lemma_rest_keeps(
    l: Lang,
    s: Sweep,
    exe_name: Seq<char>,
    exe_cleared: bool,
    host_cleared: bool,
)
    ensures
        rest_removed(l, s, exe_name, exe_cleared, host_cleared).tree.files == s.tree.files,
        rest_removed(l, s, exe_name, exe_cleared, host_cleared).tree.nocase == s.tree.nocase,
{
}

/// Removing ReShade keeps a file whose name is none of ReShade's.
proof fn lemma_reshade_keeps(l: Lang, s: Sweep, proxy_is_reshade: bool, f: File)
    requires
        s.tree.files.contains(f),
        ascii(f.path),
        f.path.len() >= 2,
        f.path.len() != 22,
        lower(f.path)[0] != 'r',
        lower(f.path)[0] != 'd' || lower(f.path)[1] != 'l',
        proxy_is_reshade ==> !same_path(s.tree.nocase, f.path, RESHADE_PROXY@),
    ensures
        reshade_removed(l, s, proxy_is_reshade).tree.files.contains(f),
{
    let n = s.tree.nocase;
    let a = if proxy_is_reshade {
        take_file(s, RESHADE_PROXY@, RESHADE_PROXY@)
    } else {
        s
    };
    lemma_take_file(s, RESHADE_PROXY@, RESHADE_PROXY@);
    assert(a.tree.files.contains(f));
    let b = take_file(a, RESHADE_MARKER@, RESHADE_MARKER@);
    lemma_take_file(a, RESHADE_MARKER@, RESHADE_MARKER@);
    lemma_name_shapes(f.path);
    assert(!same_path(n, f.path, RESHADE_MARKER@)) by {
        lemma_fold_len(f.path);
        lemma_fold_len(RESHADE_MARKER@);
    }
    assert(b.tree.files.contains(f));
    let paths = reshade_files(b.tree.nocase, b.tree.files);
    lemma_no_leftover(b.tree.nocase, b.tree.files, f.path);
    lemma_take_files(b, paths);
    assert(!names(n, paths)(f.path));
    assert(take_files(b, paths).tree.files.contains(f));
}

proof fn lemma_ascii_names()
    ensures
        ascii("d3d9.dll"@),
        ascii("dgVoodoo.conf"@),
        ascii(RESHADE_PROXY@),
        ascii(DLSS_DLL@),
{
    reveal_strlit("nvngx_dlss.dll");
    reveal_strlit("d3d9.dll");
    reveal_strlit("dgVoodoo.conf");
    reveal_strlit("dxgi.dll");
}

/// dgVoodoo's `d3d9.dll` and `dgVoodoo.conf` are never taken out, neither by
/// Remove nor by Remove incl. ReShade, unless an OptiScaler manifest names them.
pub proof fn law_dgvoodoo_stays(
    l: Lang,
    t: Tree,
    exe_name: Seq<char>,
    exe_cleared: bool,
    host_cleared: bool,
    proxy_is_reshade: bool,
    f: File,
)
    requires
        t.files.contains(f),
        is_dgvoodoo_file(t.nocase, f.path),
        not_in_manifest(t, f.path),
    ensures
        ({
            let s = rest_removed(l, files_removed(t), exe_name, exe_cleared, host_cleared);
            &&& s.tree.files.contains(f)
            &&& reshade_removed(l, s, proxy_is_reshade).tree.files.contains(f)
        }),
{
    let s = rest_removed(l, files_removed(t), exe_name, exe_cleared, host_cleared);
    lemma_ascii_names();
    if same_path(t.nocase, f.path, "d3d9.dll"@) {
        lemma_ascii(t.nocase, f.path, "d3d9.dll"@);
    } else {
        lemma_ascii(t.nocase, f.path, "dgVoodoo.conf"@);
    }
    lemma_name_shapes(f.path);
    assert(lower(f.path)[0] == lower_char(f.path[0]));
    lemma_short_is_no_target(t, f.path);
    law_other_files_stay(t, f);
    lemma_files_removed(t);
    lemma_rest_keeps(l, files_removed(t), exe_name, exe_cleared, host_cleared);
    if same_path(t.nocase, f.path, RESHADE_PROXY@) {
        lemma_ascii(t.nocase, f.path, RESHADE_PROXY@);
    }
    lemma_reshade_keeps(l, s, proxy_is_reshade, f);
}

/// The nvngx_dlss.dll beside the exe stays, marked or not, with Remove and with
/// Remove incl. ReShade, unless an OptiScaler manifest names it.
pub proof fn law_dlss_stays(
    l: Lang,
    t: Tree,
    exe_name: Seq<char>,
    exe_cleared: bool,
    host_cleared: bool,
    proxy_is_reshade: bool,
    f: File,
)
    requires
        t.files.contains(f),
        same_path(t.nocase, f.path, DLSS_DLL@),
        not_in_manifest(t, f.path),
    ensures
        ({
            let s = rest_removed(l, files_removed(t), exe_name, exe_cleared, host_cleared);
            &&& s.tree.files.contains(f)
            &&& reshade_removed(l, s, proxy_is_reshade).tree.files.contains(f)
        }),
{
    let s = rest_removed(l, files_removed(t), exe_name, exe_cleared, host_cleared);
    lemma_ascii_names();
    lemma_ascii(t.nocase, f.path, DLSS_DLL@);
    lemma_name_shapes(f.path);
    assert(lower(f.path)[0] == lower_char(f.path[0]));
    lemma_short_is_no_target(t, f.path);
    law_other_files_stay(t, f);
    lemma_files_removed(t);
    lemma_rest_keeps(l, files_removed(t), exe_name, exe_cleared, host_cleared);
    assert(!same_path(t.nocase, f.path, RESHADE_PROXY@)) by {
        reveal_strlit("dxgi.dll");
        lemma_fold_len(f.path);
        lemma_fold_len(RESHADE_PROXY@);
    }
    lemma_reshade_keeps(l, s, proxy_is_reshade, f);
}

/// Remove leaves `dxgi.dll` alone unless an OptiScaler manifest names it, and
/// Remove incl. ReShade takes it out only when it is ReShade's.
pub proof fn law_foreign_proxy_stays(
    l: Lang,
    t: Tree,
    exe_name: Seq<char>,
    exe_cleared: bool,
    host_cleared: bool,
    f: File,
)
    requires
        t.files.contains(f),
        same_path(t.nocase, f.path, RESHADE_PROXY@),
        not_in_manifest(t, f.path),
    ensures
        ({
            let s = rest_removed(l, files_removed(t), exe_name, exe_cleared, host_cleared);
            &&& s.tree.files.contains(f)
            &&& reshade_removed(l, s, false).tree.files.contains(f)
        }),
{
    let s = rest_removed(l, files_removed(t), exe_name, exe_cleared, host_cleared);
    lemma_ascii_names();
    lemma_ascii(t.nocase, f.path, RESHADE_PROXY@);
    lemma_name_shapes(f.path);
    assert(lower(f.path)[0] == lower_char(f.path[0]));
    lemma_short_is_no_target(t, f.path);
    law_other_files_stay(t, f);
    lemma_files_removed(t);
    lemma_rest_keeps(l, files_removed(t), exe_name, exe_cleared, host_cleared);
    lemma_reshade_keeps(l, s, false, f);
}

// ── an OptiScaler install and its removal ──────────────────────────

proof fn lemma_entry_taken(s: Sweep, named: Seq<Seq<char>>, i: int)
    requires
        0 <= i < named.len(),
        entry_path(s.tree.nocase, named[i]).len() > 0,
    ensures
        !take_entries(s, named).tree.has(entry_path(s.tree.nocase, named[i])),
    decreases named.len(),
{
    let q = named.drop_last();
    let m = take_entries(s, q);
    let n = s.tree.nocase;
    let last = entry_path(n, named.last());
    lemma_take_entries(s, q);
    lemma_take_file(m, last, named.last());
    if i < q.len() {
        assert(q[i] == named[i]);
        lemma_entry_taken(s, q, i);
        let r = take_entries(s, named);
        if r.tree.has(entry_path(n, named[i])) {
            lemma_has_shrinks(
                m.tree,
                r.tree,
                |p: Seq<char>| same_path(m.tree.nocase, p, last),
                entry_path(n, named[i]),
            );
        }
    }
}

/// Every file that the manifest names is gone. A line that names no file below
/// the folder (`..`, say, or a drive) takes nothing out.
pub proof fn law_manifest_files_are_gone(t: Tree, i: int)
    requires
        t.text(OPTI_MANIFEST@) is Some,
        0 <= i < entries(t.text(OPTI_MANIFEST@)->0).len(),
        entry_path(t.nocase, entries(t.text(OPTI_MANIFEST@)->0)[i]).len() > 0,
    ensures
        !files_removed(t).tree.has(
            entry_path(t.nocase, entries(t.text(OPTI_MANIFEST@)->0)[i]),
        ),
{
    let named = entries(t.text(OPTI_MANIFEST@)->0);
    let x = entry_path(t.nocase, named[i]);
    let s = untouched(t);
    let a = take_entries(s, named);
    let b1 = drop_dir(a, "OptiScaler/D3D12_OptiScaler"@);
    let b2 = drop_dir(b1, "OptiScaler"@);
    let b = drop_dir(b2, "Licenses"@);
    lemma_entry_taken(s, named, i);
    lemma_drop_dir(a, "OptiScaler/D3D12_OptiScaler"@);
    lemma_drop_dir(b1, "OptiScaler"@);
    lemma_drop_dir(b2, "Licenses"@);
    lemma_same_files_has(a.tree, b.tree, x);
    lemma_without_has(b.tree, OPTI_MANIFEST@, x);
    lemma_files_removed(t);
    if files_removed(t).tree.has(x) {
        lemma_has_shrinks(
            opti_removed(s).tree,
            files_removed(t).tree,
            names(t.nocase, targets(t)),
            x,
        );
    }
}

/// Remove undoes an OptiScaler install: every file that the install placed and
/// recorded is gone, whatever else the folder holds.
///
/// A member whose path starts with `#`, is blank, holds a line feed, or ends with
/// a carriage return before another, is recorded in a way that is not read back.
pub proof fn law_remove_undoes_an_opti_install(
    t: Tree,
    tag: Option<Seq<char>>,
    members: Seq<Seq<char>>,
    i: int,
)
    requires
        t.text(OPTI_MANIFEST@) == Some(manifest_text(tag, dests(placements(members)))),
        tag is Some ==> one_line(tag->0),
        forall|k: int|
            0 <= k < placements(members).len() ==> {
                &&& is_entry((#[trigger] placements(members)[k]).dest)
                &&& one_line(placements(members)[k].dest)
                &&& k < placements(members).len() - 1 ==> placements(members)[k].dest.last()
                    != '\r'
            },
        0 <= i < placements(members).len(),
    ensures
        !files_removed(t).tree.has(placements(members)[i].dest),
        !files_removed(t).tree.has(OPTI_MANIFEST@),
{
    let v = dests(placements(members));
    assert forall|k: int| 0 <= k < v.len() implies is_entry(#[trigger] v[k]) && one_line(v[k]) by {
        assert(v[k] == placements(members)[k].dest);
    }
    assert forall|k: int| 0 <= k < v.len() - 1 implies (#[trigger] v[k]).last() != '\r' by {
        assert(v[k] == placements(members)[k].dest);
    }
    law_manifest_reads_back(tag, v);
    law_placements_stay_inside(members, i);
    let x = placements(members)[i].dest;
    assert(v[i] == x);
    assert(!contains(x, "\\"@)) by {
        reveal_strlit("\\");
        if contains(x, "\\"@) {
            let k = choose|k: int| occurs_at(x, "\\"@, k);
            assert(x.subrange(k, k + 1)[0] == '\\');
        }
    }
    assert(entry_path(t.nocase, x) == x);
    assert(x.len() > 0) by {
        assert(is_entry(v[i]));
        if x.len() == 0 {
            lemma_trim_is(x);
        }
    }
    law_manifest_files_are_gone(t, i);
    law_targets_are_gone(t);
}

// ── ReShade and the add-ons that need it ───────────────────────────

/// A lower-case name is one of an add-on of ReShade.
pub open spec fn names_an_addon(name: Seq<char>) -> bool {
    ends_with(name, ".addon64"@) || ends_with(name, ".addon32"@)
}

proof fn lemma_addons(nocase: bool, paths: Seq<Seq<char>>, x: Seq<char>)
    ensures
        addon_names(nocase, paths).contains(x) <==> exists|i: int|
            0 <= i < paths.len() && one_part(#[trigger] paths[i]) && lowercase(paths[i]) == x
                && names_an_addon(x),
    decreases paths.len(),
{
    let v = addon_names(nocase, paths);
    if paths.len() > 0 {
        let q = paths.drop_last();
        let w = addon_names(nocase, q);
        let p = paths.last();
        lemma_addons(nocase, q, x);
        if w.contains(x) {
            let i = choose|i: int|
                0 <= i < q.len() && one_part(#[trigger] q[i]) && lowercase(q[i]) == x
                    && names_an_addon(x);
            assert(paths[i] == q[i]);
            let k = choose|k: int| 0 <= k < w.len() && w[k] == x;
            assert(v[k] == x);
        }
        if one_part(p) && names_an_addon(lowercase(p)) {
            assert(v[w.len() as int] == lowercase(p));
            assert(paths[paths.len() - 1] == p);
        }
        if v.contains(x) && !w.contains(x) {
            let k = choose|k: int| 0 <= k < v.len() && v[k] == x;
            if k < w.len() {
                assert(w[k] == x);
            }
            assert(paths[paths.len() - 1] == p);
        }
        if exists|i: int|
            0 <= i < paths.len() && one_part(#[trigger] paths[i]) && lowercase(paths[i]) == x
                && names_an_addon(x) {
            let i = choose|i: int|
                0 <= i < paths.len() && one_part(#[trigger] paths[i]) && lowercase(paths[i]) == x
                    && names_an_addon(x);
            if i < q.len() {
                assert(q[i] == paths[i]);
            }
        }
    }
}

/// What lies directly in the folder: a file or a folder of that name.
pub open spec fn lies_in(t: Tree, name: Seq<char>) -> bool {
    &&& forall|j: int| 0 <= j < name.len() ==> name[j] != '/'
    &&& (exists|i: int| 0 <= i < t.files.len() && (#[trigger] t.files[i]).path == name)
        || t.dirs.contains(name)
}

proof fn lemma_foreign(t: Tree, x: Seq<char>)
    ensures
        foreign_addons(t).contains(x) <==> exists|p: Seq<char>|
            #[trigger] lies_in(t, p) && lowercase(p) == x && names_an_addon(x),
{
    let a = addon_names(t.nocase, paths_of(t.files));
    let b = addon_names(t.nocase, t.dirs);
    lemma_in_sum(a, b, x);
    lemma_addons(t.nocase, paths_of(t.files), x);
    lemma_addons(t.nocase, t.dirs, x);
    let ps = paths_of(t.files);
    if a.contains(x) {
        let i = choose|i: int|
            0 <= i < ps.len() && one_part(#[trigger] ps[i]) && lowercase(ps[i]) == x
                && names_an_addon(x);
        assert(t.files[i].path == ps[i]);
        assert(lies_in(t, ps[i]));
    }
    if b.contains(x) {
        let i = choose|i: int|
            0 <= i < t.dirs.len() && one_part(#[trigger] t.dirs[i]) && lowercase(t.dirs[i]) == x
                && names_an_addon(x);
        assert(lies_in(t, t.dirs[i]));
    }
    if exists|p: Seq<char>| #[trigger] lies_in(t, p) && lowercase(p) == x && names_an_addon(x) {
        let p = choose|p: Seq<char>|
            #[trigger] lies_in(t, p) && lowercase(p) == x && names_an_addon(x);
        if t.dirs.contains(p) {
            let i = choose|i: int| 0 <= i < t.dirs.len() && t.dirs[i] == p;
            assert(one_part(t.dirs[i]));
        } else {
            let i = choose|i: int| 0 <= i < t.files.len() && (#[trigger] t.files[i]).path == p;
            assert(one_part(ps[i]));
        }
    }
}

/// While an add-on lies in the folder that Remove leaves, whatever its name
/// starts with, Remove incl. ReShade takes out nothing more: `dxgi.dll` and
/// every file of ReShade stay. It then gives a reason, which names such add-ons,
/// in order and no more than six; all of them where there are no more.
pub proof fn law_addon_keeps_reshade(
    l: Lang,
    t: Tree,
    exe_name: Seq<char>,
    exe_cleared: bool,
    host_cleared: bool,
    proxy_is_reshade: bool,
    name: Seq<char>,
)
    requires
        ({
            let s = rest_removed(l, files_removed(t), exe_name, exe_cleared, host_cleared);
            lies_in(s.tree, name)
        }),
        ends_with(lowercase(name), ".addon64"@) || ends_with(lowercase(name), ".addon32"@),
    ensures
        ({
            let s = rest_removed(l, files_removed(t), exe_name, exe_cleared, host_cleared);
            let all = all_removed(l, t, exe_name, exe_cleared, host_cleared, proxy_is_reshade);
            &&& all.0 == s
            &&& all.1 is Some
            &&& exists|v: Seq<Seq<char>>|
                all.1->0 == #[trigger] fill(say(l, KEPT_EN@, KEPT_ZH@), seq![join(v, ", "@)])
                    && 0 < v.len() <= 6 && in_order(v) && (forall|i: int|
                    0 <= i < v.len() ==> is_addon_in(s.tree, #[trigger] v[i])) && (v.len() < 6
                    ==> v.contains(lowercase(name)))
        }),
{
    let s = rest_removed(l, files_removed(t), exe_name, exe_cleared, host_cleared);
    let left = foreign_addons(s.tree);
    lemma_foreign(s.tree, lowercase(name));
    assert(left.contains(lowercase(name)));
    let o = sorted(left);
    let v = at_most(o, 6);
    law_sorted_is_in_order(left);
    lemma_sorted_members(left);
    assert(o.len() == left.len());
    assert forall|i: int| 0 <= i < v.len() implies is_addon_in(s.tree, #[trigger] v[i]) by {
        assert(v[i] == o[i]);
        assert(o.contains(o[i]));
        lemma_foreign(s.tree, o[i]);
    }
    assert(in_order(v)) by {
        assert forall|i: int, j: int| 0 <= i < j < v.len() implies !text_less(
            #[trigger] v[j],
            #[trigger] v[i],
        ) by {
            assert(!text_less(o[j], o[i]));
        }
    }
    assert(all_removed(l, t, exe_name, exe_cleared, host_cleared, proxy_is_reshade).1->0 == fill(
        say(l, KEPT_EN@, KEPT_ZH@),
        seq![join(v, ", "@)],
    ));
}

/// A lower-case name of an add-on that lies in the folder.
pub open spec fn is_addon_in(t: Tree, x: Seq<char>) -> bool {
    exists|p: Seq<char>| #[trigger] lies_in(t, p) && lowercase(p) == x && names_an_addon(x)
}

proof fn lemma_sorted_members(v: Seq<Seq<char>>)
    ensures
        forall|x: Seq<char>| #[trigger] sorted(v).contains(x) <==> v.contains(x),
        sorted(v).len() == v.len(),
{
    broadcast use vstd::seq_lib::group_to_multiset_ensures;

    law_sorted_is_in_order(v);
    assert forall|x: Seq<char>| #[trigger] sorted(v).contains(x) <==> v.contains(x) by {
        assert(sorted(v).contains(x) <==> sorted(v).to_multiset().count(x) > 0);
        assert(v.contains(x) <==> v.to_multiset().count(x) > 0);
    }
    assert(sorted(v).to_multiset().len() == sorted(v).len());
    assert(v.to_multiset().len() == v.len());
}

// ── Remove incl. ReShade ───────────────────────────────────────────

/// A file of ReShade or of the feeder that lies directly in the folder: the
/// inis, the presets and the logs.
pub open spec fn is_leftover(path: Seq<char>) -> bool {
    let n = lowercase(path);
    &&& forall|j: int| 0 <= j < path.len() ==> path[j] != '/'
    &&& {
        ||| starts_with(n, "reshade"@) && ends_with(n, ".ini"@)
        ||| starts_with(n, "reshade"@) && ends_with(n, ".log"@)
        ||| starts_with(n, "reshadepreset"@)
        ||| starts_with(n, "dlss5-feed."@)
    }
}

proof fn lemma_leftovers(nocase: bool, files: Seq<File>, x: Seq<char>)
    ensures
        reshade_files(nocase, files).contains(x) <==> exists|i: int|
            0 <= i < files.len() && (#[trigger] files[i]).path == x && is_leftover(x),
    decreases files.len(),
{
    let v = reshade_files(nocase, files);
    if files.len() > 0 {
        let q = files.drop_last();
        let w = reshade_files(nocase, q);
        let p = files.last().path;
        lemma_leftovers(nocase, q, x);
        let hit = is_leftover(p);
        assert(one_part(p) <==> forall|j: int| 0 <= j < p.len() ==> p[j] != '/');
        if hit {
            lemma_in_sum(w, seq![p], x);
            assert(v =~= w + seq![p]);
            assert(seq![p][0] == p);
        }
        if w.contains(x) {
            let i = choose|i: int|
                0 <= i < q.len() && (#[trigger] q[i]).path == x && is_leftover(x);
            assert(files[i] == q[i]);
        }
        if hit && p == x {
            assert(files[files.len() - 1].path == x);
        }
        if exists|i: int|
            0 <= i < files.len() && (#[trigger] files[i]).path == x && is_leftover(x) {
            let i = choose|i: int|
                0 <= i < files.len() && (#[trigger] files[i]).path == x && is_leftover(x);
            if i < q.len() {
                assert(q[i] == files[i]);
            }
        }
    }
}

/// Remove incl. ReShade, where no add-on is left: `dxgi.dll` goes exactly when it
/// is ReShade's, its marker goes, and so does every ini, preset and log of
/// ReShade and of the feeder that lies in the folder. Every other file that
/// Remove left stays, and there is no reason given.
pub proof fn law_reshade_goes_with_its_files(
    l: Lang,
    t: Tree,
    exe_name: Seq<char>,
    exe_cleared: bool,
    host_cleared: bool,
    proxy_is_reshade: bool,
    f: File,
)
    requires
        ({
            let s = rest_removed(l, files_removed(t), exe_name, exe_cleared, host_cleared);
            &&& s.tree.wf()
            &&& s.tree.files.contains(f)
            &&& forall|p: Seq<char>|
                #[trigger] lies_in(s.tree, p) ==> !ends_with(lowercase(p), ".addon64"@)
                    && !ends_with(lowercase(p), ".addon32"@)
        }),
    ensures
        ({
            let all = all_removed(l, t, exe_name, exe_cleared, host_cleared, proxy_is_reshade);
            let goes = {
                ||| proxy_is_reshade && same_path(t.nocase, f.path, "dxgi.dll"@)
                ||| same_path(t.nocase, f.path, "dxgi.dll.dlss5oneclick"@)
                ||| is_leftover(f.path)
            };
            &&& all.1 is None
            &&& all.0.tree.files.contains(f) <==> !goes
        }),
{
    let s = rest_removed(l, files_removed(t), exe_name, exe_cleared, host_cleared);
    let n = t.nocase;
    lemma_files_removed(t);
    lemma_rest_keeps(l, files_removed(t), exe_name, exe_cleared, host_cleared);
    assert(s.tree.nocase == n);
    let left = foreign_addons(s.tree);
    if left.len() > 0 {
        lemma_foreign(s.tree, left[0]);
        assert(left.contains(left[0]));
        assert(false);
    }
    let a = if proxy_is_reshade {
        take_file(s, RESHADE_PROXY@, RESHADE_PROXY@)
    } else {
        s
    };
    let b = take_file(a, RESHADE_MARKER@, RESHADE_MARKER@);
    let paths = reshade_files(b.tree.nocase, b.tree.files);
    let c = take_files(b, paths);
    reveal_strlit("dxgi.dll");
    reveal_strlit("dxgi.dll.dlss5oneclick");
    lemma_take_file(s, RESHADE_PROXY@, RESHADE_PROXY@);
    lemma_take_file(a, RESHADE_MARKER@, RESHADE_MARKER@);
    lemma_take_files(b, paths);
    let is_proxy = proxy_is_reshade && same_path(n, f.path, RESHADE_PROXY@);
    let is_marker = same_path(n, f.path, RESHADE_MARKER@);
    assert(a.tree.files.contains(f) <==> !is_proxy) by {
        if is_proxy && a.tree.files.contains(f) {
            lemma_has(a.tree, RESHADE_PROXY@);
            assert(false);
        }
    }
    assert(b.tree.files.contains(f) <==> !is_proxy && !is_marker) by {
        if is_marker && b.tree.files.contains(f) {
            lemma_has(b.tree, RESHADE_MARKER@);
            assert(false);
        }
    }
    if b.tree.files.contains(f) {
        lemma_leftovers(b.tree.nocase, b.tree.files, f.path);
        let i = choose|i: int| 0 <= i < b.tree.files.len() && b.tree.files[i] == f;
        if is_leftover(f.path) {
            assert(paths.contains(f.path));
            let k = choose|k: int| 0 <= k < paths.len() && paths[k] == f.path;
            assert(f.path.len() > 0) by {
                reveal_strlit("reshade");
                reveal_strlit("reshadepreset");
                reveal_strlit("dlss5-feed.");
                assert(ascii(f.path) ==> lowercase(f.path).len() == f.path.len());
                if f.path.len() == 0 {
                    assert(ascii(f.path));
                }
            }
            lemma_taken(b, paths, k);
            if c.tree.files.contains(f) {
                lemma_has(c.tree, f.path);
                lemma_same_path(n, f.path, f.path, f.path);
                assert(false);
            }
        } else if names(n, paths)(f.path) {
            let k = choose|k: int|
                0 <= k < paths.len() && same_path(n, f.path, #[trigger] paths[k]);
            assert(paths.contains(paths[k]));
            lemma_leftovers(b.tree.nocase, b.tree.files, paths[k]);
            let j = choose|j: int|
                0 <= j < b.tree.files.len() && (#[trigger] b.tree.files[j]).path == paths[k]
                    && is_leftover(paths[k]);
            let g = b.tree.files[j];
            assert(b.tree.files.contains(g));
            assert(s.tree.files.contains(g));
            let x = choose|x: int| 0 <= x < s.tree.files.len() && s.tree.files[x] == f;
            let y = choose|y: int| 0 <= y < s.tree.files.len() && s.tree.files[y] == g;
            lemma_same_path(n, f.path, g.path, f.path);
            assert(x == y);
            assert(false);
        }
    }
}

// ── what Remove takes out ──────────────────────────────────────────

/// A file of LumeniteFX in a folder, of the kind `ext`.
pub open spec fn is_lumenite_in(
    nocase: bool,
    path: Seq<char>,
    dir: Seq<char>,
    ext: Seq<char>,
) -> bool {
    let name = path.skip(dir.len() as int + 1);
    &&& path.len() > dir.len()
    &&& same_path(nocase, path.take(dir.len() as int), dir)
    &&& path[dir.len() as int] == '/'
    &&& forall|j: int| 0 <= j < name.len() ==> name[j] != '/'
    &&& starts_with(lowercase(name), "lumenite_"@)
    &&& ends_with(lowercase(name), ext)
}

/// The path of a file that this tool places in that folder: the components and
/// their markers, the effects with their headers and texture, everything of the
/// 64-bit helper, the RenoDX mod on record, and REFramework where its marker is.
/// Of the helper's folder, ReShade and nvngx_dlss.dll only where a marker is.
pub open spec fn is_placed(t: Tree, path: Seq<char>) -> bool {
    let is = |x: Seq<char>| same_path(t.nocase, path, x);
    ||| is("dlss5-feed.addon64"@) || is("dlss5-feed.addon32"@) || is("dlss5-feed.dlss5oneclick"@)
    ||| is("renodx-dlss5.addon64"@) || is("nvngx.dll.addon64"@)
    ||| is("dlss5-bridge.addon64"@) || is("dlss5-dx11-bridge.addon64"@)
    ||| is("nvngx_dlssnr.dll"@) || is("nvngx_dlssnr.dll.dlss5oneclick"@)
    ||| is("nvngx_dlss.dll.dlss5oneclick"@)
    ||| is("reshade-shaders/Shaders/DLSS5_Feed.fx"@)
    ||| is("reshade-shaders/Shaders/ReShade.fxh"@)
    ||| is("reshade-shaders/Shaders/ReShadeUI.fxh"@)
    ||| is("reshade-shaders/Shaders/DrawText.fxh"@)
    ||| is("reshade-shaders/Textures/lumenite_bluenoise256.png"@)
    ||| is_lumenite_in(t.nocase, path, "reshade-shaders/Shaders"@, ".fx"@)
    ||| is_lumenite_in(t.nocase, path, "reshade-shaders/Shaders/include"@, ".fxh"@)
    ||| t.has_dir("host64"@) && {
        ||| is("host64/dlss5-feed-host64.exe"@) || is("host64/renodx-dlss5.addon64"@)
        ||| is("host64/nvngx_dlssnr.dll"@) || is("host64/nvngx_dlssnr.dll.dlss5oneclick"@)
        ||| is("host64/nvngx_dlss.dll.dlss5oneclick"@)
        ||| is("host64/nvngx_dlss.dll"@) && t.has("host64/nvngx_dlss.dll.dlss5oneclick"@)
        ||| is("host64/dxgi.dll"@) && t.has("host64/dxgi.dll.dlss5oneclick"@)
        ||| is("host64/dxgi.dll.dlss5oneclick"@)
        ||| is("host64/ReShade.ini"@) || is("host64/ReShadePreset.ini"@)
        ||| is("host64/ReShade.log"@) || is("host64/dlss5-feed-host.log"@)
    }
    ||| t.text(".dlss5oneclick-renodx-manifest"@) matches Some(m) && {
        ||| is(".dlss5oneclick-renodx-manifest"@)
        ||| is(trim(m)) && starts_with(trim(m), "renodx-"@) && forall|j: int|
            0 <= j < trim(m).len() ==> trim(m)[j] != '/' && trim(m)[j] != '\\'
    }
    ||| t.has("dinput8.dll.dlss5oneclick"@) && (is("dinput8.dll"@) || is(
        "dinput8.dll.dlss5oneclick"@,
    ))
}

proof fn lemma_target_is_placed(t: Tree, f: File, x: Seq<char>)
    requires
        t.wf(),
        t.files.contains(f),
        targets(t).contains(x),
        same_path(t.nocase, f.path, x),
    ensures
        is_placed(t, f.path),
{
    reveal_strlit("reshade-shaders/Shaders");
    reveal_strlit("reshade-shaders/Shaders/include");
    lemma_in_targets(t, x);
    lemma_in_own(x);
    lemma_in_host(t, x);
    lemma_in_renodx(t, x);
    lemma_in_reframework(t, x);
    if lumenite_files(t.nocase, t.files, SHADERS@, ".fx"@).contains(x) {
        lemma_lumenite_placed(t, f, x, SHADERS@, ".fx"@);
    } else if lumenite_files(t.nocase, t.files, INCLUDE@, ".fxh"@).contains(x) {
        lemma_lumenite_placed(t, f, x, INCLUDE@, ".fxh"@);
    } else if host_files(t).contains(x) {
        lemma_marker_stands(t, f, x);
    }
}

/// A marker that is taken out is there.
proof fn lemma_marker_stands(t: Tree, f: File, x: Seq<char>)
    requires
        t.files.contains(f),
        same_path(t.nocase, f.path, x),
    ensures
        t.has(x),
{
    lemma_has(t, x);
}

proof fn lemma_lumenite_placed(t: Tree, f: File, x: Seq<char>, dir: Seq<char>, ext: Seq<char>)
    requires
        t.wf(),
        t.files.contains(f),
        lumenite_files(t.nocase, t.files, dir, ext).contains(x),
        same_path(t.nocase, f.path, x),
    ensures
        is_lumenite_in(t.nocase, f.path, dir, ext) || dir.len() == 0,
{
    lemma_in_lumenite(t.nocase, t.files, dir, ext, x);
    let i = choose|i: int|
        0 <= i < t.files.len() && (#[trigger] t.files[i]).path == x && is_effect(
            t.nocase,
            x,
            dir,
            ext,
        );
    let k = choose|k: int| 0 <= k < t.files.len() && t.files[k] == f;
    lemma_same_path(t.nocase, f.path, x, f.path);
    assert(t.files[i] == t.files[k]) by {
        assert(same_path(t.nocase, t.files[i].path, t.files[k].path));
        assert(same_path(t.nocase, t.files[k].path, t.files[i].path));
    }
    let name = f.path.skip(dir.len() as int + 1);
    assert(one_part(name) ==> forall|j: int| 0 <= j < name.len() ==> name[j] != '/');
}

proof fn lemma_placed_is_target(t: Tree, f: File)
    requires
        t.files.contains(f),
        is_placed(t, f.path),
    ensures
        exists|x: Seq<char>|
            #[trigger] targets(t).contains(x) && same_path(t.nocase, f.path, x),
{
    reveal_strlit("reshade-shaders/Shaders");
    reveal_strlit("reshade-shaders/Shaders/include");
    let n = t.nocase;
    let p = f.path;
    if is_lumenite_in(n, p, SHADERS@, ".fx"@) {
        lemma_placed_lumenite(t, f, SHADERS@, ".fx"@);
        lemma_in_targets(t, p);
        lemma_same_path(n, p, p, p);
    } else if is_lumenite_in(n, p, INCLUDE@, ".fxh"@) {
        lemma_placed_lumenite(t, f, INCLUDE@, ".fxh"@);
        lemma_in_targets(t, p);
        lemma_same_path(n, p, p, p);
    } else {
        lemma_has(t, HOST_RESHADE_MARKER@);
        assert forall|x: Seq<char>| #[trigger]
            same_path(n, p, x) implies t.has(x) by {
            lemma_has(t, x);
        }
        lemma_placed_name(t, p);
    }
}

proof fn lemma_placed_lumenite(t: Tree, f: File, dir: Seq<char>, ext: Seq<char>)
    requires
        t.files.contains(f),
        dir.len() > 0,
        is_lumenite_in(t.nocase, f.path, dir, ext),
    ensures
        lumenite_files(t.nocase, t.files, dir, ext).contains(f.path),
{
    lemma_in_lumenite(t.nocase, t.files, dir, ext, f.path);
    let k = choose|k: int| 0 <= k < t.files.len() && t.files[k] == f;
    let name = f.path.skip(dir.len() as int + 1);
    assert(one_part(name));
    assert(child_name(t.nocase, f.path, dir) == Some(name));
    assert(is_effect(t.nocase, t.files[k].path, dir, ext));
}

/// A path that is placed under a fixed name is that of a target.
proof fn lemma_placed_name(t: Tree, p: Seq<char>)
    requires
        is_placed(t, p),
        !is_lumenite_in(t.nocase, p, SHADERS@, ".fx"@),
        !is_lumenite_in(t.nocase, p, INCLUDE@, ".fxh"@),
        forall|x: Seq<char>| #[trigger] same_path(t.nocase, p, x) ==> t.has(x),
    ensures
        exists|x: Seq<char>| #[trigger] targets(t).contains(x) && same_path(t.nocase, p, x),
{
    assert forall|x: Seq<char>| #[trigger] same_path(t.nocase, p, x) implies {
        ||| targets(t).contains(x)
        ||| !own_files().contains(x) && x != FEEDER_ADDON32@ && !host_files(t).contains(x)
            && !renodx_files(t).contains(x) && !reframework_files(t).contains(x)
    } by {
        lemma_in_targets(t, x);
    }
    assert forall|x: Seq<char>| #[trigger] same_path(t.nocase, p, x) implies {
        &&& own_files().contains(x) <==> in_own(x)
        &&& host_files(t).contains(x) <==> in_host(t, x)
    } by {
        lemma_in_own(x);
        lemma_in_host(t, x);
    }
    assert forall|x: Seq<char>| #[trigger] same_path(t.nocase, p, x) implies {
        &&& renodx_files(t).contains(x) <==> t.text(RENODX_MANIFEST@) is Some && (x
            == RENODX_MANIFEST@ || x == trim(t.text(RENODX_MANIFEST@)->0) && is_renodx(x))
        &&& reframework_files(t).contains(x) <==> t.has(REFRAMEWORK_MARKER@) && (x
            == REFRAMEWORK_DLL@ || x == REFRAMEWORK_MARKER@)
    } by {
        lemma_in_renodx(t, x);
        lemma_in_reframework(t, x);
    }
}

spec fn in_own(x: Seq<char>) -> bool {
    ||| x == DLSS_MARKER@ || x == DLSSNR_MARKER@ || x == FEEDER_MARKER@ || x == FEEDER_ADDON@
    ||| x == DLSS5_ADDON@ || x == DLSSNR_DLL@ || x == BRIDGE_ADDON@ || x == UPSTREAM_ADDON@
    ||| x == OLD_BRIDGE@ || x == FEEDER_FX_PATH@ || x == BLUENOISE_PATH@ || x == HEADER_PATH@
    ||| x == HEADER_UI_PATH@ || x == HEADER_TEXT_PATH@
}

spec fn in_host(t: Tree, x: Seq<char>) -> bool {
    t.has_dir(HOST_DIR@) && {
        ||| x == HOST_EXE_PATH@ || x == HOST_ADDON_PATH@ || x == HOST_DLSSNR_PATH@
        ||| x == HOST_DLSSNR_MARKER@ || x == HOST_DLSS_MARKER@
        ||| x == HOST_DLSS_PATH@ && t.has(HOST_DLSS_MARKER@)
        ||| x == HOST_PROXY_PATH@ && t.has(HOST_RESHADE_MARKER@)
        ||| x == HOST_RESHADE_MARKER@ && t.has(HOST_RESHADE_MARKER@)
        ||| x == HOST_RESHADE_INI@ || x == HOST_RESHADE_LOG@ || x == HOST_FEED_LOG@
        ||| x == HOST_PRESET@
    }
}

/// Remove takes out what this tool places and what the manifest of an OptiScaler
/// install names, with the manifest, and leaves every other file as it is.
pub proof fn law_remove_takes_what_was_placed(t: Tree, f: File)
    requires
        t.wf(),
        t.files.contains(f),
        f.path.len() > 0,
    ensures
        files_removed(t).tree.files.contains(f) <==> !{
            ||| is_placed(t, f.path)
            ||| t.text(".dlss5oneclick-optiscaler-manifest"@) matches Some(m) && {
                ||| same_path(t.nocase, f.path, ".dlss5oneclick-optiscaler-manifest"@)
                ||| exists|i: int|
                    0 <= i < entries(m).len() && same_path(
                        t.nocase,
                        f.path,
                        entry_path(t.nocase, #[trigger] entries(m)[i]),
                    )
            }
        },
{
    let n = t.nocase;
    let u = files_removed(t).tree;
    lemma_files_removed(t);
    if is_placed(t, f.path) {
        lemma_placed_is_target(t, f);
        let x = choose|x: Seq<char>| #[trigger] targets(t).contains(x) && same_path(n, f.path, x);
        lemma_target_len(t, x);
        lemma_target_gone(t, x);
        if u.files.contains(f) {
            lemma_has(u, x);
            assert(false);
        }
    } else if is_named(t, f.path) {
        if exists|i: int| 0 <= i < targets(t).len() && same_path(n, f.path, #[trigger] targets(t)[i]) {
            let i = choose|i: int|
                0 <= i < targets(t).len() && same_path(n, f.path, #[trigger] targets(t)[i]);
            assert(targets(t).contains(targets(t)[i]));
            lemma_target_is_placed(t, f, targets(t)[i]);
        }
        let m = t.text(OPTI_MANIFEST@)->0;
        let x = if same_path(n, f.path, OPTI_MANIFEST@) {
            law_targets_are_gone(t);
            OPTI_MANIFEST@
        } else {
            let i = choose|i: int|
                0 <= i < entries(m).len() && same_path(
                    n,
                    f.path,
                    entry_path(n, #[trigger] entries(m)[i]),
                );
            lemma_fold_len(f.path);
            lemma_fold_len(entry_path(n, entries(m)[i]));
            law_manifest_files_are_gone(t, i);
            entry_path(n, entries(m)[i])
        };
        if u.files.contains(f) {
            lemma_has(u, x);
            assert(false);
        }
    } else {
        law_other_files_stay(t, f);
    }
}

} // verus!
