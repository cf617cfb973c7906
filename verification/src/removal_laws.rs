//! A removal does what it reports: its operations lead from the folder as it was
//! to the folder as it is told to be, and every file that goes is named.
use vstd::prelude::*;
use crate::folder::Tree;
use crate::game::OPTI_MANIFEST;
use crate::lang::Lang;
use crate::lines::join;
use crate::message::{fill, lemma_fill_one};
use crate::opti::entries;
use crate::order::{law_sorted_is_in_order, sorted};
use crate::uninstall::{
    all_removed, at_most, drop_dir, entry_path, files_removed, kept_text, opti_removed,
    reshade_files, reshade_removed, rest_removed, shaders_removed, take_entries, take_file, take_files, targets,
    untouched, Removed, Sweep, INCLUDE, KEPT_EN, KEPT_ZH, PREF_EN, PREF_ZH,
};

verus! {

/// The folder after one operation.
pub open spec fn after_op(t: Tree, o: Removed) -> Tree {
    match o {
        Removed::File(p) => t.without(p),
        Removed::Dir(p) => t.without_dir(p),
        Removed::Dirs(p) => t.without_dirs_in(p),
    }
}

/// The folder after some operations, one after the other.
pub open spec fn after_ops(t: Tree, v: Seq<Removed>) -> Tree
    decreases v.len(),
{
    if v.len() == 0 {
        t
    } else {
        after_op(after_ops(t, v.drop_last()), v.last())
    }
}

/// The line names the file: by its path, or as an entry that leads to it.
pub open spec fn names_file(nocase: bool, line: Seq<char>, path: Seq<char>) -> bool {
    line == path || entry_path(nocase, line) == path
}

/// Some line names the file.
pub open spec fn is_told(nocase: bool, lines: Seq<Seq<char>>, path: Seq<char>) -> bool {
    exists|j: int| 0 <= j < lines.len() && names_file(nocase, #[trigger] lines[j], path)
}

/// The operations of a removal that started from `t` lead to its folder, and every
/// file among them is named by a line.
pub open spec fn does_what_it_tells(t: Tree, s: Sweep) -> bool {
    &&& after_ops(t, s.ops) == s.tree
    &&& s.tree.nocase == t.nocase
    &&& forall|i: int|
        0 <= i < s.ops.len() ==> ((#[trigger] s.ops[i]) matches Removed::File(p) ==> is_told(
            t.nocase,
            s.lines,
            p,
        ))
}

/// One more operation, with lines added.
proof fn lemma_step(t: Tree, s: Sweep, o: Removed, lines: Seq<Seq<char>>, line: Seq<char>)
    requires
        does_what_it_tells(t, s),
        o matches Removed::File(p) ==> names_file(t.nocase, line, p),
        lines == s.lines.push(line) || lines == s.lines && !(o is File),
    ensures
        does_what_it_tells(
            t,
            Sweep { tree: after_op(s.tree, o), ops: s.ops.push(o), lines },
        ),
{
    let v = s.ops.push(o);
    assert(v.drop_last() =~= s.ops);
    assert(lines.take(s.lines.len() as int) =~= s.lines);
    assert forall|i: int| 0 <= i < v.len() implies ((#[trigger] v[i]) matches Removed::File(p)
        ==> is_told(t.nocase, lines, p)) by {
        if i < s.ops.len() {
            assert(v[i] == s.ops[i]);
            if let Removed::File(p) = v[i] {
                lemma_still_told(t.nocase, s.lines, lines, p);
            }
        } else if o is File {
            assert(names_file(t.nocase, lines[lines.len() - 1], o->File_0));
        }
    }
}

proof fn lemma_still_told(nocase: bool, a: Seq<Seq<char>>, b: Seq<Seq<char>>, path: Seq<char>)
    requires
        is_told(nocase, a, path),
        a.len() <= b.len(),
        b.take(a.len() as int) == a,
    ensures
        is_told(nocase, b, path),
{
    let j = choose|j: int| 0 <= j < a.len() && names_file(nocase, #[trigger] a[j], path);
    assert(b.take(a.len() as int)[j] == b[j]);
    assert(names_file(nocase, b[j], path));
}

/// More lines change nothing.
proof fn lemma_more_lines(t: Tree, s: Sweep, lines: Seq<Seq<char>>)
    requires
        does_what_it_tells(t, s),
        s.lines.len() <= lines.len(),
        lines.take(s.lines.len() as int) == s.lines,
    ensures
        does_what_it_tells(t, Sweep { lines, ..s }),
{
    assert forall|i: int| 0 <= i < s.ops.len() implies ((#[trigger] s.ops[i]) matches Removed::File(
        p,
    ) ==> is_told(t.nocase, lines, p)) by {
        if let Removed::File(p) = s.ops[i] {
            lemma_still_told(t.nocase, s.lines, lines, p);
        }
    }
}

proof fn lemma_take(t: Tree, s: Sweep, path: Seq<char>, shown: Seq<char>)
    requires
        does_what_it_tells(t, s),
        names_file(t.nocase, shown, path),
    ensures
        does_what_it_tells(t, take_file(s, path, shown)),
{
    let lines = s.lines.push(shown);
    lemma_step(t, s, Removed::File(path), lines, shown);
}

proof fn lemma_drop(t: Tree, s: Sweep, dir: Seq<char>)
    requires
        does_what_it_tells(t, s),
    ensures
        does_what_it_tells(t, drop_dir(s, dir)),
{
    lemma_step(t, s, Removed::Dir(dir), s.lines, dir);
}

proof fn lemma_take_all(t: Tree, s: Sweep, paths: Seq<Seq<char>>)
    requires
        does_what_it_tells(t, s),
    ensures
        does_what_it_tells(t, take_files(s, paths)),
    decreases paths.len(),
{
    if paths.len() > 0 {
        lemma_take_all(t, s, paths.drop_last());
        lemma_take(t, take_files(s, paths.drop_last()), paths.last(), paths.last());
    }
}

proof fn lemma_take_named(t: Tree, s: Sweep, named: Seq<Seq<char>>)
    requires
        does_what_it_tells(t, s),
    ensures
        does_what_it_tells(t, take_entries(s, named)),
    decreases named.len(),
{
    if named.len() > 0 {
        lemma_take_named(t, s, named.drop_last());
        lemma_take(
            t,
            take_entries(s, named.drop_last()),
            entry_path(s.tree.nocase, named.last()),
            named.last(),
        );
    }
}

proof fn lemma_opti(t: Tree, s: Sweep)
    requires
        does_what_it_tells(t, s),
    ensures
        does_what_it_tells(t, opti_removed(s)),
{
    if let Some(m) = s.tree.text(OPTI_MANIFEST@) {
        let a = take_entries(s, entries(m));
        lemma_take_named(t, s, entries(m));
        let b = drop_dir(a, "OptiScaler/D3D12_OptiScaler"@);
        lemma_drop(t, a, "OptiScaler/D3D12_OptiScaler"@);
        let c = drop_dir(b, "OptiScaler"@);
        lemma_drop(t, b, "OptiScaler"@);
        let d = drop_dir(c, "Licenses"@);
        lemma_drop(t, c, "Licenses"@);
        let lines = d.lines.push(OPTI_MANIFEST@);
        lemma_step(t, d, Removed::File(OPTI_MANIFEST@), lines, OPTI_MANIFEST@);
    }
}

/// Remove does what it tells: carried out one after the other, its operations
/// leave the folder that it describes, and every file that they take is named in
/// its lines.
pub proof fn law_remove_does_what_it_tells(
    l: Lang,
    t: Tree,
    exe_name: Seq<char>,
    exe_cleared: bool,
    host_cleared: bool,
)
    ensures
        does_what_it_tells(t, files_removed(t)),
        does_what_it_tells(
            t,
            rest_removed(l, files_removed(t), exe_name, exe_cleared, host_cleared),
        ),
{
    let a = untouched(t);
    lemma_opti(t, a);
    let b = opti_removed(a);
    lemma_take_all(t, b, targets(t));
    let c = take_files(b, targets(t));
    lemma_drop(t, c, INCLUDE@);
    lemma_rest(l, t, files_removed(t), exe_name, exe_cleared, host_cleared);
}

proof fn lemma_rest(
    l: Lang,
    t: Tree,
    s: Sweep,
    exe_name: Seq<char>,
    exe_cleared: bool,
    host_cleared: bool,
)
    requires
        does_what_it_tells(t, s),
    ensures
        does_what_it_tells(t, rest_removed(l, s, exe_name, exe_cleared, host_cleared)),
{
    let one = fill(crate::lang::say(l, PREF_EN@, PREF_ZH@), seq![exe_name]);
    let two = fill(crate::lang::say(l, PREF_EN@, PREF_ZH@), seq![crate::game::HOST_EXE@]);
    let lines = s.lines + crate::install::need(exe_cleared, one) + crate::install::need(
        host_cleared,
        two,
    );
    assert(lines.take(s.lines.len() as int) =~= s.lines);
    lemma_more_lines(t, s, lines);
    let p = Sweep { lines, ..s };
    let host = crate::game::HOST_DIR@;
    let told = lines.push(crate::uninstall::HOST_DIR_LINE@);
    lemma_step(t, p, Removed::Dir(host), told, crate::uninstall::HOST_DIR_LINE@);
}

proof fn lemma_reshade(l: Lang, t: Tree, s: Sweep, proxy_is_reshade: bool)
    requires
        does_what_it_tells(t, s),
    ensures
        does_what_it_tells(t, reshade_removed(l, s, proxy_is_reshade)),
{
    let proxy = crate::game::RESHADE_PROXY@;
    let marker = crate::game::RESHADE_MARKER@;
    lemma_take(t, s, proxy, proxy);
    let a = if proxy_is_reshade {
        take_file(s, proxy, proxy)
    } else {
        s
    };
    lemma_take(t, a, marker, marker);
    let b = take_file(a, marker, marker);
    let v = reshade_files(b.tree.nocase, b.tree.files);
    lemma_take_all(t, b, v);
    let c = take_files(b, v);
    let root = crate::uninstall::SHADER_ROOT@;
    let left = c.lines.push(
        crate::lang::say(l, crate::uninstall::LEFT_EN@, crate::uninstall::LEFT_ZH@),
    );
    assert(left.take(c.lines.len() as int) =~= c.lines);
    lemma_more_lines(t, c, left);
    let line = crate::uninstall::SHADER_ROOT_LINE@;
    let gone = c.lines.push(line);
    lemma_step(t, c, Removed::Dirs(root), gone, line);
    assert(reshade_removed(l, s, proxy_is_reshade) == shaders_removed(l, c));
}

/// Remove incl. ReShade does what it tells too.
pub proof fn law_full_remove_does_what_it_tells(
    l: Lang,
    t: Tree,
    exe_name: Seq<char>,
    exe_cleared: bool,
    host_cleared: bool,
    proxy_is_reshade: bool,
)
    ensures
        does_what_it_tells(
            t,
            all_removed(l, t, exe_name, exe_cleared, host_cleared, proxy_is_reshade).0,
        ),
{
    law_remove_does_what_it_tells(l, t, exe_name, exe_cleared, host_cleared);
    let s = rest_removed(l, files_removed(t), exe_name, exe_cleared, host_cleared);
    lemma_reshade(l, t, s, proxy_is_reshade);
}

/// A GPU preference that was cleared is told by the program's name, and only one
/// that was; `host64` is told where it goes.
pub proof fn law_cleared_preferences_are_told(
    l: Lang,
    s: Sweep,
    exe_name: Seq<char>,
    exe_cleared: bool,
    host_cleared: bool,
)
    ensures
        ({
            let r = rest_removed(l, s, exe_name, exe_cleared, host_cleared);
            let told = |name: Seq<char>|
                if l == Lang::En {
                    "Windows GPU preference for "@ + name
                } else {
                    name + " 的 Windows GPU 偏好"@
                };
            let goes = s.tree.has_dir("host64"@) && !s.tree.holds_in("host64"@);
            let host = "dlss5-feed-host64.exe"@;
            r.lines == s.lines + (if exe_cleared {
                seq![told(exe_name)]
            } else {
                Seq::empty()
            }) + (if host_cleared {
                seq![told(host)]
            } else {
                Seq::empty()
            }) + (if goes {
                seq!["host64/"@]
            } else {
                Seq::empty()
            })
        }),
{
    lemma_pref(l, exe_name);
    lemma_pref(l, "dlss5-feed-host64.exe"@);
    let r = rest_removed(l, s, exe_name, exe_cleared, host_cleared);
    let told = |name: Seq<char>|
        if l == Lang::En {
            "Windows GPU preference for "@ + name
        } else {
            name + " 的 Windows GPU 偏好"@
        };
    let goes = s.tree.has_dir("host64"@) && !s.tree.holds_in("host64"@);
    assert(r.lines =~= s.lines + (if exe_cleared {
        seq![told(exe_name)]
    } else {
        Seq::empty()
    }) + (if host_cleared {
        seq![told("dlss5-feed-host64.exe"@)]
    } else {
        Seq::empty()
    }) + (if goes {
        seq!["host64/"@]
    } else {
        Seq::empty()
    }));
}

proof fn lemma_pref(l: Lang, name: Seq<char>)
    ensures
        l == Lang::En ==> fill(PREF_EN@, seq![name]) == "Windows GPU preference for "@ + name,
        l == Lang::Zh ==> fill(PREF_ZH@, seq![name]) == name + " 的 Windows GPU 偏好"@,
{
    reveal_strlit("Windows GPU preference for {}");
    reveal_strlit("Windows GPU preference for ");
    reveal_strlit("{} 的 Windows GPU 偏好");
    reveal_strlit(" 的 Windows GPU 偏好");
    lemma_fill_one(PREF_EN@, name, 27);
    lemma_fill_one(PREF_ZH@, name, 0);
    assert(fill(PREF_EN@, seq![name]) =~= "Windows GPU preference for "@ + name);
    assert(fill(PREF_ZH@, seq![name]) =~= name + " 的 Windows GPU 偏好"@);
}

/// The reason why ReShade stays names the add-ons that need it in their order, the
/// first six where there are more.
pub proof fn law_needed_reshade_is_explained(
    l: Lang,
    foreign: Seq<Seq<char>>,
    names: Seq<Seq<char>>,
)
    requires
        names.len() == if foreign.len() < 6 {
            foreign.len()
        } else {
            6
        },
        forall|k: int| 0 <= k < names.len() ==> #[trigger] names[k] == sorted(foreign)[k],
    ensures
        l == Lang::En ==> kept_text(l, foreign)
            == "ReShade left in place: the game still has add-ons this tool did not install ("@
            + join(names, ", "@) + ")"@,
        l == Lang::Zh ==> kept_text(l, foreign)
            == "保留 ReShade：游戏仍有本工具未安装的附加组件（"@ + join(names, ", "@) + "）"@,
{
    broadcast use vstd::seq_lib::group_to_multiset_ensures;

    law_sorted_is_in_order(foreign);
    assert(sorted(foreign).to_multiset().len() == foreign.to_multiset().len());
    assert(at_most(sorted(foreign), 6) =~= names);
    let t = join(names, ", "@);
    if l == Lang::En {
        reveal_strlit(
            "ReShade left in place: the game still has add-ons this tool did not install ({})",
        );
        reveal_strlit(
            "ReShade left in place: the game still has add-ons this tool did not install (",
        );
        reveal_strlit(")");
        lemma_fill_one(KEPT_EN@, t, 77);
        assert(fill(KEPT_EN@, seq![t])
            =~= "ReShade left in place: the game still has add-ons this tool did not install ("@ + t
            + ")"@);
    } else {
        reveal_strlit("保留 ReShade：游戏仍有本工具未安装的附加组件（{}）");
        reveal_strlit("保留 ReShade：游戏仍有本工具未安装的附加组件（");
        reveal_strlit("）");
        lemma_fill_one(KEPT_ZH@, t, 27);
        assert(fill(KEPT_ZH@, seq![t]) =~= "保留 ReShade：游戏仍有本工具未安装的附加组件（"@ + t
            + "）"@);
    }
}

} // verus!
