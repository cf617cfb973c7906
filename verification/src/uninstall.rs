//! Remove: what is taken out of a game folder, in which order, and what is
//! reported of it.
use vstd::prelude::*;
use crate::folder::{child_name, child_of, File, Folder, Tree};
use crate::game::{
    BRIDGE_ADDON, DLSS5_ADDON, DLSSNR_DLL, DLSSNR_MARKER, DLSS_MARKER, FEEDER_ADDON,
    FEEDER_ADDON32, FEEDER_MARKER, HOST_DIR, HOST_EXE, OPTI_MANIFEST, REFRAMEWORK_DLL,
    REFRAMEWORK_MARKER, RENODX_MANIFEST, RESHADE_MARKER, RESHADE_PROXY, UPSTREAM_ADDON,
};
use crate::install::need;
use crate::lang::{say, tr, Lang};
use crate::lines::{
    join, joined, lemma_rows_push, lemma_texts_push, split, split_at_chars, strings,
};
use crate::message::{fill, fill1, said};
use crate::opti::{entries, manifest_entries};
use crate::order::{sort, sorted};
use crate::outside::lowercase;
use crate::paths::{clean, cleaned};
use crate::text::{
    begins, chars, contains, copied, ends, ends_with, equals, holds, opt_text, rows, starts_with,
    string, texts, trim, trimmed,
};

verus! {

pub const SHADERS: &'static str = "reshade-shaders/Shaders";

pub const INCLUDE: &'static str = "reshade-shaders/Shaders/include";

pub const SHADER_ROOT: &'static str = "reshade-shaders";

pub const FEEDER_FX_PATH: &'static str = "reshade-shaders/Shaders/DLSS5_Feed.fx";

pub const BLUENOISE_PATH: &'static str = "reshade-shaders/Textures/lumenite_bluenoise256.png";

pub const HEADER_PATH: &'static str = "reshade-shaders/Shaders/ReShade.fxh";

pub const HEADER_UI_PATH: &'static str = "reshade-shaders/Shaders/ReShadeUI.fxh";

pub const HEADER_TEXT_PATH: &'static str = "reshade-shaders/Shaders/DrawText.fxh";

/// The bridge under the name of its first releases.
pub const OLD_BRIDGE: &'static str = "dlss5-dx11-bridge.addon64";

pub const HOST_EXE_PATH: &'static str = "host64/dlss5-feed-host64.exe";

pub const HOST_ADDON_PATH: &'static str = "host64/renodx-dlss5.addon64";

pub const HOST_DLSSNR_PATH: &'static str = "host64/nvngx_dlssnr.dll";

pub const HOST_DLSSNR_MARKER: &'static str = "host64/nvngx_dlssnr.dll.dlss5oneclick";

pub const HOST_DLSS_MARKER: &'static str = "host64/nvngx_dlss.dll.dlss5oneclick";

pub const HOST_DLSS_PATH: &'static str = "host64/nvngx_dlss.dll";

pub const HOST_PROXY_PATH: &'static str = "host64/dxgi.dll";

pub const HOST_RESHADE_MARKER: &'static str = "host64/dxgi.dll.dlss5oneclick";

pub const HOST_RESHADE_INI: &'static str = "host64/ReShade.ini";

pub const HOST_RESHADE_LOG: &'static str = "host64/ReShade.log";

pub const HOST_FEED_LOG: &'static str = "host64/dlss5-feed-host.log";

pub const HOST_PRESET: &'static str = "host64/ReShadePreset.ini";

// ── what is taken out ──────────────────────────────────────────────

/// One removal.
#[derive(Debug)]
pub enum Op {
    /// A file.
    File(String),
    /// An empty folder.
    Dir(String),
    /// A folder with the empty folders in it.
    Dirs(String),
}

/// An [`Op`] as characters.
pub enum Removed {
    File(Seq<char>),
    Dir(Seq<char>),
    Dirs(Seq<char>),
}

impl View for Op {
    type V = Removed;

    open spec fn view(&self) -> Removed {
        match self {
            Op::File(p) => Removed::File(p@),
            Op::Dir(p) => Removed::Dir(p@),
            Op::Dirs(p) => Removed::Dirs(p@),
        }
    }
}

pub open spec fn ops(v: Seq<Op>) -> Seq<Removed> {
    Seq::new(v.len(), |i: int| v[i]@)
}

/// A removal that is under way: the folder as it then is, what was removed in
/// which order, and the lines to report.
#[derive(Debug)]
pub struct Removal {
    pub folder: Folder,
    pub ops: Vec<Op>,
    pub removed: Vec<String>,
}

/// A [`Removal`] as values.
pub struct Sweep {
    pub tree: Tree,
    pub ops: Seq<Removed>,
    pub lines: Seq<Seq<char>>,
}

impl View for Removal {
    type V = Sweep;

    open spec fn view(&self) -> Sweep {
        Sweep { tree: self.folder@, ops: ops(self.ops@), lines: texts(self.removed@) }
    }
}

/// Nothing is removed yet.
pub open spec fn untouched(t: Tree) -> Sweep {
    Sweep { tree: t, ops: Seq::empty(), lines: Seq::empty() }
}

/// The file `path` taken out where it is there, and reported as `shown`.
pub open spec fn take_file(s: Sweep, path: Seq<char>, shown: Seq<char>) -> Sweep {
    if path.len() > 0 && s.tree.has(path) {
        Sweep {
            tree: s.tree.without(path),
            ops: s.ops.push(Removed::File(path)),
            lines: s.lines.push(shown),
        }
    } else {
        s
    }
}

/// Some files taken out, one after the other.
pub open spec fn take_files(s: Sweep, paths: Seq<Seq<char>>) -> Sweep
    decreases paths.len(),
{
    if paths.len() == 0 {
        s
    } else {
        take_file(take_files(s, paths.drop_last()), paths.last(), paths.last())
    }
}

/// The folder taken out where it is there and empty.
pub open spec fn drop_dir(s: Sweep, dir: Seq<char>) -> Sweep {
    if s.tree.has_dir(dir) && !s.tree.holds_in(dir) {
        Sweep { tree: s.tree.without_dir(dir), ops: s.ops.push(Removed::Dir(dir)), ..s }
    } else {
        s
    }
}

// ── an OptiScaler install ──────────────────────────────────────────

/// Where a path leads, part by part: `.` and an empty part stay, `..` goes one
/// folder up. `None` where it leads out of the folder, or names a drive.
pub open spec fn walked(parts: Seq<Seq<char>>) -> Option<Seq<Seq<char>>>
    decreases parts.len(),
{
    if parts.len() == 0 {
        Some(Seq::empty())
    } else {
        match walked(parts.drop_last()) {
            None => None,
            Some(v) => if parts.last().len() == 0 || parts.last() == "."@ {
                Some(v)
            } else if contains(parts.last(), ":"@) {
                None
            } else if parts.last() == ".."@ {
                if v.len() == 0 {
                    None
                } else {
                    Some(v.drop_last())
                }
            } else {
                Some(v.push(parts.last()))
            },
        }
    }
}

/// The path below the folder that a path with backslashes leads to; empty where
/// there is none: it starts at a root, is written as a folder, or leads out.
pub open spec fn backslash_path(path: Seq<char>) -> Seq<char> {
    if starts_with(path, "\\"@) || contains(path, "/\\"@) || ends_with(path, "\\"@) {
        Seq::empty()
    } else {
        match walked(split(path, '/', '\\')) {
            Some(v) => join(v, "/"@),
            None => Seq::empty(),
        }
    }
}

/// The path that a manifest names, made of the parts between its slashes that
/// name something. A system that ignores case reads the backslashes in a part as
/// separators too.
pub open spec fn entry_path(nocase: bool, entry: Seq<char>) -> Seq<char> {
    if nocase && contains(clean(entry), "\\"@) {
        backslash_path(clean(entry))
    } else {
        clean(entry)
    }
}

/// The files that a manifest names taken out, each reported as it stands there.
pub open spec fn take_entries(s: Sweep, named: Seq<Seq<char>>) -> Sweep
    decreases named.len(),
{
    if named.len() == 0 {
        s
    } else {
        take_file(
            take_entries(s, named.drop_last()),
            entry_path(s.tree.nocase, named.last()),
            named.last(),
        )
    }
}

/// An OptiScaler install recorded in the manifest taken out, with the folders
/// that the archive created where they are empty then, and the manifest.
pub open spec fn opti_removed(s: Sweep) -> Sweep {
    match s.tree.text(OPTI_MANIFEST@) {
        None => s,
        Some(m) => {
            let a = take_entries(s, entries(m));
            let b = drop_dir(
                drop_dir(drop_dir(a, "OptiScaler/D3D12_OptiScaler"@), "OptiScaler"@),
                "Licenses"@,
            );
            Sweep {
                tree: b.tree.without(OPTI_MANIFEST@),
                ops: b.ops.push(Removed::File(OPTI_MANIFEST@)),
                lines: b.lines.push(OPTI_MANIFEST@),
            }
        },
    }
}

// ── the files that this tool places ────────────────────────────────

/// A lower-case file name is one of Lumenite's, of the kind `ext`.
pub open spec fn is_lumenite(name: Seq<char>, ext: Seq<char>) -> bool {
    starts_with(name, "lumenite_"@) && ends_with(name, ext)
}

/// Lumenite's files in a folder.
pub open spec fn lumenite_files(
    nocase: bool,
    files: Seq<File>,
    dir: Seq<char>,
    ext: Seq<char>,
) -> Seq<Seq<char>>
    decreases files.len(),
{
    if files.len() == 0 {
        Seq::empty()
    } else {
        let v = lumenite_files(nocase, files.drop_last(), dir, ext);
        match child_name(nocase, files.last().path, dir) {
            Some(name) => if is_lumenite(lowercase(name), ext) {
                v.push(files.last().path)
            } else {
                v
            },
            None => v,
        }
    }
}

/// Files that are always this tool's.
pub open spec fn own_files() -> Seq<Seq<char>> {
    seq![
        DLSS_MARKER@,
        DLSSNR_MARKER@,
        FEEDER_MARKER@,
        FEEDER_ADDON@,
        DLSS5_ADDON@,
        DLSSNR_DLL@,
        BRIDGE_ADDON@,
        UPSTREAM_ADDON@,
        OLD_BRIDGE@,
        FEEDER_FX_PATH@,
        BLUENOISE_PATH@,
        HEADER_PATH@,
        HEADER_UI_PATH@,
        HEADER_TEXT_PATH@,
    ]
}

/// The 32-bit layout: everything in `host64`. The model and ReShade only where
/// a marker says that this tool placed them.
pub open spec fn host_files(t: Tree) -> Seq<Seq<char>> {
    if t.has_dir(HOST_DIR@) {
        seq![
            HOST_EXE_PATH@,
            HOST_ADDON_PATH@,
            HOST_DLSSNR_PATH@,
            HOST_DLSSNR_MARKER@,
            HOST_DLSS_MARKER@,
        ] + need(t.has(HOST_DLSS_MARKER@), HOST_DLSS_PATH@) + (if t.has(HOST_RESHADE_MARKER@) {
            seq![HOST_PROXY_PATH@, HOST_RESHADE_MARKER@]
        } else {
            Seq::empty()
        }) + seq![HOST_RESHADE_INI@, HOST_RESHADE_LOG@, HOST_FEED_LOG@, HOST_PRESET@]
    } else {
        Seq::empty()
    }
}

/// A recorded RenoDX mod: a bare file name of that project's.
pub open spec fn is_renodx(name: Seq<char>) -> bool {
    starts_with(name, "renodx-"@) && forall|j: int|
        0 <= j < name.len() ==> name[j] != '/' && name[j] != '\\'
}

/// The RenoDX mod that was recorded, and the record.
pub open spec fn renodx_files(t: Tree) -> Seq<Seq<char>> {
    match t.text(RENODX_MANIFEST@) {
        Some(name) => need(is_renodx(trim(name)), trim(name)) + seq![RENODX_MANIFEST@],
        None => Seq::empty(),
    }
}

/// REFramework, where a marker says that this tool placed it.
pub open spec fn reframework_files(t: Tree) -> Seq<Seq<char>> {
    if t.has(REFRAMEWORK_MARKER@) {
        seq![REFRAMEWORK_DLL@, REFRAMEWORK_MARKER@]
    } else {
        Seq::empty()
    }
}

/// The files that Remove takes out, in their order: everything this tool
/// places except ReShade itself and nvngx_dlss.dll.
pub open spec fn targets(t: Tree) -> Seq<Seq<char>> {
    own_files() + lumenite_files(t.nocase, t.files, SHADERS@, ".fx"@) + lumenite_files(
        t.nocase,
        t.files,
        INCLUDE@,
        ".fxh"@,
    ) + seq![FEEDER_ADDON32@] + host_files(t) + renodx_files(t) + reframework_files(t)
}

/// The files of an install taken out: OptiScaler's first, then the targets that
/// the folder had before that.
pub open spec fn files_removed(t: Tree) -> Sweep {
    drop_dir(take_files(opti_removed(untouched(t)), targets(t)), INCLUDE@)
}

pub const PREF_EN: &'static str = "Windows GPU preference for {}";

pub const PREF_ZH: &'static str = "{} 的 Windows GPU 偏好";

pub const HOST_DIR_LINE: &'static str = "host64/";

/// What comes after the files: the Windows GPU preferences that were cleared,
/// and the `host64` folder where it is empty.
pub open spec fn rest_removed(
    l: Lang,
    s: Sweep,
    exe_name: Seq<char>,
    exe_cleared: bool,
    host_cleared: bool,
) -> Sweep {
    let p = Sweep {
        lines: s.lines + need(exe_cleared, fill(say(l, PREF_EN@, PREF_ZH@), seq![exe_name]))
            + need(host_cleared, fill(say(l, PREF_EN@, PREF_ZH@), seq![HOST_EXE@])),
        ..s
    };
    if p.tree.has_dir(HOST_DIR@) && !p.tree.holds_in(HOST_DIR@) {
        Sweep {
            tree: p.tree.without_dir(HOST_DIR@),
            ops: p.ops.push(Removed::Dir(HOST_DIR@)),
            lines: p.lines.push(HOST_DIR_LINE@),
        }
    } else {
        p
    }
}

// ── ReShade itself ─────────────────────────────────────────────────

/// A lower-case file name is an add-on's.
pub open spec fn is_addon(name: Seq<char>) -> bool {
    ends_with(name, ".addon64"@) || ends_with(name, ".addon32"@)
}

/// The lower-case names of the add-ons among some paths of the game folder.
pub open spec fn addon_names(nocase: bool, paths: Seq<Seq<char>>) -> Seq<Seq<char>>
    decreases paths.len(),
{
    if paths.len() == 0 {
        Seq::empty()
    } else {
        let v = addon_names(nocase, paths.drop_last());
        match child_name(nocase, paths.last(), Seq::empty()) {
            Some(name) => if is_addon(lowercase(name)) {
                v.push(lowercase(name))
            } else {
                v
            },
            None => v,
        }
    }
}

pub open spec fn paths_of(files: Seq<File>) -> Seq<Seq<char>> {
    Seq::new(files.len(), |i: int| files[i].path)
}

/// The add-ons that are left, which this tool did not install.
pub open spec fn foreign_addons(t: Tree) -> Seq<Seq<char>> {
    addon_names(t.nocase, paths_of(t.files)) + addon_names(t.nocase, t.dirs)
}

pub open spec fn at_most(v: Seq<Seq<char>>, n: int) -> Seq<Seq<char>> {
    if v.len() > n {
        v.take(n)
    } else {
        v
    }
}

pub const KEPT_EN: &'static str =
    "ReShade left in place: the game still has add-ons this tool did not install ({})";

pub const KEPT_ZH: &'static str = "保留 ReShade：游戏仍有本工具未安装的附加组件（{}）";

/// Why ReShade stays, naming six of the add-ons at most.
pub open spec fn kept_text(l: Lang, foreign: Seq<Seq<char>>) -> Seq<char> {
    fill(say(l, KEPT_EN@, KEPT_ZH@), seq![join(at_most(sorted(foreign), 6), ", "@)])
}

/// A lower-case file name is one that ReShade or the feeder leaves behind.
pub open spec fn is_reshade_file(name: Seq<char>) -> bool {
    ||| starts_with(name, "reshade"@) && (ends_with(name, ".ini"@) || ends_with(name, ".log"@))
    ||| starts_with(name, "reshadepreset"@)
    ||| starts_with(name, "dlss5-feed."@)
}

/// Those files of the game folder.
pub open spec fn reshade_files(nocase: bool, files: Seq<File>) -> Seq<Seq<char>>
    decreases files.len(),
{
    if files.len() == 0 {
        Seq::empty()
    } else {
        let v = reshade_files(nocase, files.drop_last());
        match child_name(nocase, files.last().path, Seq::empty()) {
            Some(name) => if is_reshade_file(lowercase(name)) {
                v.push(files.last().path)
            } else {
                v
            },
            None => v,
        }
    }
}

pub const LEFT_EN: &'static str = "reshade-shaders/ (left: shaders this tool did not install)";

pub const LEFT_ZH: &'static str = "reshade-shaders/（保留：本工具未安装的着色器）";

pub const SHADER_ROOT_LINE: &'static str = "reshade-shaders/";

/// The shader folder taken out, unless a file is left in it.
pub open spec fn shaders_removed(l: Lang, s: Sweep) -> Sweep {
    if !s.tree.has_dir(SHADER_ROOT@) {
        s
    } else if s.tree.holds_file_in(SHADER_ROOT@) {
        Sweep { lines: s.lines.push(say(l, LEFT_EN@, LEFT_ZH@)), ..s }
    } else {
        Sweep {
            tree: s.tree.without_dirs_in(SHADER_ROOT@),
            ops: s.ops.push(Removed::Dirs(SHADER_ROOT@)),
            lines: s.lines.push(SHADER_ROOT_LINE@),
        }
    }
}

/// ReShade taken out: `dxgi.dll` only when it verifiably is a ReShade DLL.
pub open spec fn reshade_removed(l: Lang, s: Sweep, proxy_is_reshade: bool) -> Sweep {
    let a = if proxy_is_reshade {
        take_file(s, RESHADE_PROXY@, RESHADE_PROXY@)
    } else {
        s
    };
    let b = take_file(a, RESHADE_MARKER@, RESHADE_MARKER@);
    shaders_removed(l, take_files(b, reshade_files(b.tree.nocase, b.tree.files)))
}

// ── the executable side ────────────────────────────────────────────

fn put_op(v: &mut Vec<Op>, o: Op)
    ensures
        ops(final(v)@) == ops(old(v)@).push(o@),
{
    v.push(o);
    assert(ops(v@) =~= ops(old(v)@).push(o@));
}

fn put_line(v: &mut Vec<String>, s: String)
    ensures
        texts(final(v)@) == texts(old(v)@).push(s@),
{
    proof {
        lemma_texts_push(v@, s);
    }
    v.push(s);
}

fn take(r: &mut Removal, path: &str, shown: &str)
    ensures
        final(r)@ == take_file(old(r)@, path@, shown@),
{
    if chars(path).len() > 0 && r.folder.is_file(path) {
        r.folder.remove_file(path);
        put_op(&mut r.ops, Op::File(path.to_owned()));
        put_line(&mut r.removed, shown.to_owned());
    }
}

fn take_all(r: &mut Removal, paths: &Vec<String>)
    ensures
        final(r)@ == take_files(old(r)@, texts(paths@)),
{
    let ghost all = texts(paths@);
    let ghost start = r@;
    let mut i: usize = 0;
    assert(all.take(0) =~= Seq::empty());
    while i < paths.len()
        invariant
            i <= paths@.len(),
            all == texts(paths@),
            r@ == take_files(start, all.take(i as int)),
        decreases paths@.len() - i,
    {
        proof {
            assert(all.take(i + 1).drop_last() =~= all.take(i as int));
            assert(all.take(i + 1).last() == paths@[i as int]@);
        }
        take(r, paths[i].as_str(), paths[i].as_str());
        i = i + 1;
    }
    assert(all.take(all.len() as int) =~= all);
}

fn drop_empty(r: &mut Removal, dir: &str)
    ensures
        final(r)@ == drop_dir(old(r)@, dir@),
{
    if r.folder.is_dir(dir) && !r.folder.holds_in_dir(dir) {
        r.folder.remove_dir(dir);
        put_op(&mut r.ops, Op::Dir(dir.to_owned()));
    }
}

fn walk(parts: &Vec<Vec<char>>) -> (r: Option<Vec<Vec<char>>>)
    ensures
        match r {
            Some(v) => walked(rows(parts@)) == Some(rows(v@)),
            None => walked(rows(parts@)) is None,
        },
{
    let ghost all = rows(parts@);
    let mut out: Vec<Vec<char>> = Vec::new();
    let mut lost: bool = false;
    let mut i: usize = 0;
    assert(all.take(0) =~= Seq::empty());
    assert(rows(out@) =~= Seq::empty());
    while i < parts.len()
        invariant
            i <= parts@.len(),
            all == rows(parts@),
            lost ==> walked(all.take(i as int)) is None,
            !lost ==> walked(all.take(i as int)) == Some(rows(out@)),
        decreases parts@.len() - i,
    {
        let p = parts[i].as_slice();
        proof {
            assert(all.take(i + 1).drop_last() =~= all.take(i as int));
            assert(all.take(i + 1).last() == p@);
        }
        if lost || p.len() == 0 || equals(p, ".") {
        } else if holds(p, ":") {
            lost = true;
        } else if equals(p, "..") {
            let ghost was = rows(out@);
            assert(was.len() == out@.len());
            if out.len() == 0 {
                lost = true;
            } else {
                out.pop();
                assert(rows(out@) =~= was.drop_last());
            }
        } else {
            let c = copied(p);
            proof {
                lemma_rows_push(out@, c);
            }
            out.push(c);
        }
        i = i + 1;
    }
    assert(all.take(all.len() as int) =~= all);
    if lost {
        None
    } else {
        Some(out)
    }
}

fn path_of_entry(nocase: bool, entry: &str) -> (r: String)
    ensures
        r@ == entry_path(nocase, entry@),
{
    let path = cleaned(entry);
    if !nocase {
        return path;
    }
    let cs = chars(path.as_str());
    let t = cs.as_slice();
    if !holds(t, "\\") {
        return path;
    }
    if begins(t, "\\") || holds(t, "/\\") || ends(t, "\\") {
        return String::new();
    }
    let parts = split_at_chars(t, '/', '\\');
    match walk(&parts) {
        Some(v) => {
            let names = strings(&v);
            joined(&names, "/")
        },
        None => String::new(),
    }
}

/// Remove an OptiScaler install recorded in the manifest.
pub fn uninstall_opti(r: &mut Removal)
    ensures
        final(r)@ == opti_removed(old(r)@),
{
    let manifest = match r.folder.read(OPTI_MANIFEST) {
        Some(m) => m,
        None => {
            return ;
        },
    };
    let named = manifest_entries(manifest.as_str());
    let nocase = r.folder.nocase;
    let ghost all = texts(named@);
    let ghost start = r@;
    let mut i: usize = 0;
    assert(all.take(0) =~= Seq::empty());
    while i < named.len()
        invariant
            i <= named@.len(),
            all == texts(named@),
            nocase == start.tree.nocase,
            r@ == take_entries(start, all.take(i as int)),
        decreases named@.len() - i,
    {
        proof {
            assert(all.take(i + 1).drop_last() =~= all.take(i as int));
            assert(all.take(i + 1).last() == named@[i as int]@);
        }
        let path = path_of_entry(nocase, named[i].as_str());
        take(r, path.as_str(), named[i].as_str());
        i = i + 1;
    }
    assert(all.take(all.len() as int) =~= all);
    drop_empty(r, "OptiScaler/D3D12_OptiScaler");
    drop_empty(r, "OptiScaler");
    drop_empty(r, "Licenses");
    r.folder.remove_file(OPTI_MANIFEST);
    put_op(&mut r.ops, Op::File(OPTI_MANIFEST.to_owned()));
    put_line(&mut r.removed, OPTI_MANIFEST.to_owned());
}

/// A lower-case file name is one of Lumenite's, of the kind `ext`.
pub fn lumenite_name(name: &str, ext: &str) -> (r: bool)
    ensures
        r == is_lumenite(name@, ext@),
{
    let cs = chars(name);
    begins(cs.as_slice(), "lumenite_") && ends(cs.as_slice(), ext)
}

fn put_lumenite(v: &mut Vec<String>, folder: &Folder, dir: &str, ext: &str)
    ensures
        texts(final(v)@) == texts(old(v)@) + lumenite_files(
            folder.nocase,
            folder@.files,
            dir@,
            ext@,
        ),
{
    let ghost before = texts(v@);
    let ghost all = folder@.files;
    let mut i: usize = 0;
    assert(all.take(0) =~= Seq::empty());
    assert(before + lumenite_files(folder.nocase, all.take(0), dir@, ext@) =~= before);
    while i < folder.files.len()
        invariant
            i <= folder.files@.len(),
            all == folder@.files,
            texts(v@) == before + lumenite_files(
                folder.nocase,
                all.take(i as int),
                dir@,
                ext@,
            ),
        decreases folder.files@.len() - i,
    {
        let path = folder.files[i].path.as_str();
        proof {
            assert(all.take(i + 1).drop_last() =~= all.take(i as int));
            assert(all.take(i + 1).last() == folder.files@[i as int]@);
        }
        let ghost done = lumenite_files(folder.nocase, all.take(i as int), dir@, ext@);
        if let Some(n) = child_of(folder.nocase, path, dir) {
            let name = string(n.as_slice());
            let low = name.as_str().to_lowercase();
            if lumenite_name(low.as_str(), ext) {
                put_line(v, path.to_owned());
                assert((before + done).push(path@) =~= before + done.push(path@));
            }
        }
        i = i + 1;
    }
    assert(all.take(all.len() as int) =~= all);
}

fn put_all(v: &mut Vec<String>, more: Vec<String>)
    ensures
        texts(final(v)@) == texts(old(v)@) + texts(more@),
{
    let ghost before = texts(v@);
    let ghost all = texts(more@);
    let mut i: usize = 0;
    assert(before + all.take(0) =~= before);
    while i < more.len()
        invariant
            i <= more@.len(),
            all == texts(more@),
            texts(v@) == before + all.take(i as int),
        decreases more@.len() - i,
    {
        put_line(v, more[i].as_str().to_owned());
        assert((before + all.take(i as int)).push(more@[i as int]@) =~= before + all.take(i + 1));
        i = i + 1;
    }
    assert(all.take(all.len() as int) =~= all);
}

fn host_targets(folder: &Folder) -> (r: Vec<String>)
    ensures
        texts(r@) == host_files(folder@),
{
    let mut v: Vec<String> = Vec::new();
    if folder.is_dir(HOST_DIR) {
        v.push(HOST_EXE_PATH.to_owned());
        v.push(HOST_ADDON_PATH.to_owned());
        v.push(HOST_DLSSNR_PATH.to_owned());
        v.push(HOST_DLSSNR_MARKER.to_owned());
        v.push(HOST_DLSS_MARKER.to_owned());
        if folder.is_file(HOST_DLSS_MARKER) {
            v.push(HOST_DLSS_PATH.to_owned());
        }
        if folder.is_file(HOST_RESHADE_MARKER) {
            v.push(HOST_PROXY_PATH.to_owned());
            v.push(HOST_RESHADE_MARKER.to_owned());
        }
        v.push(HOST_RESHADE_INI.to_owned());
        v.push(HOST_RESHADE_LOG.to_owned());
        v.push(HOST_FEED_LOG.to_owned());
        v.push(HOST_PRESET.to_owned());
    }
    assert(texts(v@) =~= host_files(folder@));
    v
}

/// A recorded RenoDX mod: a bare file name of that project's.
fn renodx(name: &[char]) -> (r: bool)
    ensures
        r == is_renodx(name@),
{
    let mut i: usize = 0;
    while i < name.len()
        invariant
            i <= name@.len(),
            forall|j: int| 0 <= j < i ==> name@[j] != '/' && name@[j] != '\\',
        decreases name@.len() - i,
    {
        let c = name[i];
        if c == '/' || c == '\\' {
            assert(!is_renodx(name@)) by {
                assert(name@[i as int] == c);
            }
            return false;
        }
        i = i + 1;
    }
    begins(name, "renodx-")
}

fn renodx_targets(folder: &Folder) -> (r: Vec<String>)
    ensures
        texts(r@) == renodx_files(folder@),
{
    let mut v: Vec<String> = Vec::new();
    if let Some(text) = folder.read(RENODX_MANIFEST) {
        let cs = chars(text.as_str());
        let name = trimmed(cs.as_slice());
        if renodx(name) {
            v.push(string(name));
        }
        v.push(RENODX_MANIFEST.to_owned());
    }
    assert(texts(v@) =~= renodx_files(folder@));
    v
}

/// The files that Remove takes out, in their order.
pub fn uninstall_targets(folder: &Folder) -> (r: Vec<String>)
    ensures
        texts(r@) == targets(folder@),
{
    let mut v: Vec<String> = vec![
        DLSS_MARKER.to_owned(),
        DLSSNR_MARKER.to_owned(),
        FEEDER_MARKER.to_owned(),
        FEEDER_ADDON.to_owned(),
        DLSS5_ADDON.to_owned(),
        DLSSNR_DLL.to_owned(),
        BRIDGE_ADDON.to_owned(),
        UPSTREAM_ADDON.to_owned(),
        OLD_BRIDGE.to_owned(),
        FEEDER_FX_PATH.to_owned(),
        BLUENOISE_PATH.to_owned(),
        HEADER_PATH.to_owned(),
        HEADER_UI_PATH.to_owned(),
        HEADER_TEXT_PATH.to_owned(),
    ];
    assert(texts(v@) =~= own_files());
    put_lumenite(&mut v, folder, SHADERS, ".fx");
    put_lumenite(&mut v, folder, INCLUDE, ".fxh");
    let ghost b = texts(v@);
    v.push(FEEDER_ADDON32.to_owned());
    assert(texts(v@) =~= b + seq![FEEDER_ADDON32@]);
    put_all(&mut v, host_targets(folder));
    put_all(&mut v, renodx_targets(folder));
    let ghost c = texts(v@);
    if folder.is_file(REFRAMEWORK_MARKER) {
        v.push(REFRAMEWORK_DLL.to_owned());
        v.push(REFRAMEWORK_MARKER.to_owned());
    }
    assert(texts(v@) =~= c + reframework_files(folder@));
    v
}

/// The files of an install taken out of a folder.
pub fn uninstall_files(folder: Folder) -> (r: Removal)
    ensures
        r@ == files_removed(folder@),
{
    let paths = uninstall_targets(&folder);
    let ghost t = folder@;
    let mut r = Removal { folder, ops: Vec::new(), removed: Vec::new() };
    assert(ops(r.ops@) =~= Seq::empty());
    assert(texts(r.removed@) =~= Seq::empty());
    assert(r@ == untouched(t));
    uninstall_opti(&mut r);
    take_all(&mut r, &paths);
    drop_empty(&mut r, INCLUDE);
    r
}

/// The end of a removal: the Windows GPU preference this tool wrote goes too,
/// but only when it is still exactly what was written (a user's own choice is
/// left alone); `exe_cleared` and `host_cleared` tell whether it was.
pub fn uninstall_rest(
    l: Lang,
    removal: Removal,
    exe_name: &str,
    exe_cleared: bool,
    host_cleared: bool,
) -> (r: Removal)
    ensures
        r@ == rest_removed(l, removal@, exe_name@, exe_cleared, host_cleared),
{
    let mut r = removal;
    let ghost before = texts(r.removed@);
    let ghost a = need(exe_cleared, fill(say(l, PREF_EN@, PREF_ZH@), seq![exe_name@]));
    if exe_cleared {
        r.removed.push(fill1(tr(l, PREF_EN, PREF_ZH), exe_name));
    }
    assert(texts(r.removed@) =~= before + a);
    if host_cleared {
        r.removed.push(fill1(tr(l, PREF_EN, PREF_ZH), HOST_EXE));
    }
    assert(texts(r.removed@) =~= before + a + need(
        host_cleared,
        fill(say(l, PREF_EN@, PREF_ZH@), seq![HOST_EXE@]),
    ));
    if r.folder.is_dir(HOST_DIR) && !r.folder.holds_in_dir(HOST_DIR) {
        r.folder.remove_dir(HOST_DIR);
        put_op(&mut r.ops, Op::Dir(HOST_DIR.to_owned()));
        put_line(&mut r.removed, HOST_DIR_LINE.to_owned());
    }
    r
}

/// Remove everything this tool places except ReShade itself and nvngx_dlss.dll.
pub fn uninstall(
    l: Lang,
    folder: Folder,
    exe_name: &str,
    exe_cleared: bool,
    host_cleared: bool,
) -> (r: Removal)
    ensures
        r@ == rest_removed(l, files_removed(folder@), exe_name@, exe_cleared, host_cleared),
{
    let files = uninstall_files(folder);
    uninstall_rest(l, files, exe_name, exe_cleared, host_cleared)
}

/// Remove incl. ReShade: what Remove leaves, and ReShade taken out of that unless
/// an add-on is left that needs it; then the reason why it stays.
pub open spec fn all_removed(
    l: Lang,
    t: Tree,
    exe_name: Seq<char>,
    exe_cleared: bool,
    host_cleared: bool,
    proxy_is_reshade: bool,
) -> (Sweep, Option<Seq<char>>) {
    let s = rest_removed(l, files_removed(t), exe_name, exe_cleared, host_cleared);
    let left = foreign_addons(s.tree);
    if left.len() > 0 {
        (s, Some(kept_text(l, left)))
    } else {
        (reshade_removed(l, s, proxy_is_reshade), None)
    }
}

fn put_addon(v: &mut Vec<String>, nocase: bool, path: &str)
    ensures
        texts(final(v)@) == match child_name(nocase, path@, Seq::empty()) {
            Some(name) => if is_addon(lowercase(name)) {
                texts(old(v)@).push(lowercase(name))
            } else {
                texts(old(v)@)
            },
            None => texts(old(v)@),
        },
{
    proof {
        reveal_strlit("");
        assert(""@ =~= Seq::empty());
    }
    if let Some(n) = child_of(nocase, path, "") {
        let name = string(n.as_slice());
        let low = name.as_str().to_lowercase();
        if addon_name(low.as_str()) {
            put_line(v, low);
        }
    }
}

/// A lower-case file name is an add-on's.
pub fn addon_name(name: &str) -> (r: bool)
    ensures
        r == is_addon(name@),
{
    let cs = chars(name);
    ends(cs.as_slice(), ".addon64") || ends(cs.as_slice(), ".addon32")
}

fn foreign(folder: &Folder) -> (r: Vec<String>)
    ensures
        texts(r@) == foreign_addons(folder@),
{
    let mut v: Vec<String> = Vec::new();
    let ghost paths = paths_of(folder@.files);
    let mut i: usize = 0;
    assert(paths.take(0) =~= Seq::empty());
    assert(texts(v@) =~= Seq::empty());
    while i < folder.files.len()
        invariant
            i <= folder.files@.len(),
            paths == paths_of(folder@.files),
            texts(v@) == addon_names(folder.nocase, paths.take(i as int)),
        decreases folder.files@.len() - i,
    {
        proof {
            assert(paths.take(i + 1).drop_last() =~= paths.take(i as int));
            assert(paths.take(i + 1).last() == folder.files@[i as int].path@);
        }
        put_addon(&mut v, folder.nocase, folder.files[i].path.as_str());
        i = i + 1;
    }
    assert(paths.take(paths.len() as int) =~= paths);
    let ghost a = texts(v@);
    let ghost dirs = texts(folder.dirs@);
    let mut w: Vec<String> = Vec::new();
    let mut k: usize = 0;
    assert(dirs.take(0) =~= Seq::empty());
    assert(texts(w@) =~= Seq::empty());
    while k < folder.dirs.len()
        invariant
            k <= folder.dirs@.len(),
            dirs == texts(folder.dirs@),
            texts(w@) == addon_names(folder.nocase, dirs.take(k as int)),
        decreases folder.dirs@.len() - k,
    {
        proof {
            assert(dirs.take(k + 1).drop_last() =~= dirs.take(k as int));
            assert(dirs.take(k + 1).last() == folder.dirs@[k as int]@);
        }
        put_addon(&mut w, folder.nocase, folder.dirs[k].as_str());
        k = k + 1;
    }
    assert(dirs.take(dirs.len() as int) =~= dirs);
    put_all(&mut v, w);
    v
}

fn first_of(v: Vec<String>, n: usize) -> (r: Vec<String>)
    ensures
        texts(r@) == at_most(texts(v@), n as int),
{
    let ghost all = texts(v@);
    let mut out: Vec<String> = Vec::new();
    let mut i: usize = 0;
    assert(texts(out@) =~= all.take(0));
    while i < v.len() && i < n
        invariant
            i <= v@.len(),
            i <= n,
            all == texts(v@),
            texts(out@) == all.take(i as int),
        decreases v@.len() - i,
    {
        let ghost before = texts(out@);
        put_line(&mut out, v[i].as_str().to_owned());
        assert(before.push(v@[i as int]@) =~= all.take(i + 1));
        i = i + 1;
    }
    assert(texts(out@) =~= at_most(all, n as int));
    out
}

/// A lower-case file name is one that ReShade or the feeder leaves behind.
pub fn reshade_file_name(name: &str) -> (r: bool)
    ensures
        r == is_reshade_file(name@),
{
    let cs = chars(name);
    let n = cs.as_slice();
    (begins(n, "reshade") && (ends(n, ".ini") || ends(n, ".log"))) || begins(n, "reshadepreset")
        || begins(n, "dlss5-feed.")
}

fn left_behind(folder: &Folder) -> (r: Vec<String>)
    ensures
        texts(r@) == reshade_files(folder.nocase, folder@.files),
{
    let mut v: Vec<String> = Vec::new();
    let ghost all = folder@.files;
    let mut i: usize = 0;
    proof {
        reveal_strlit("");
        assert(""@ =~= Seq::empty());
    }
    assert(all.take(0) =~= Seq::empty());
    assert(texts(v@) =~= Seq::empty());
    while i < folder.files.len()
        invariant
            i <= folder.files@.len(),
            all == folder@.files,
            ""@ == Seq::<char>::empty(),
            texts(v@) == reshade_files(folder.nocase, all.take(i as int)),
        decreases folder.files@.len() - i,
    {
        let path = folder.files[i].path.as_str();
        proof {
            assert(all.take(i + 1).drop_last() =~= all.take(i as int));
            assert(all.take(i + 1).last() == folder.files@[i as int]@);
        }
        if let Some(n) = child_of(folder.nocase, path, "") {
            let name = string(n.as_slice());
            let low = name.as_str().to_lowercase();
            if reshade_file_name(low.as_str()) {
                put_line(&mut v, path.to_owned());
            }
        }
        i = i + 1;
    }
    assert(all.take(all.len() as int) =~= all);
    v
}

/// ReShade itself (`dxgi.dll` + ini/logs), after the files of the install.
///
/// Refuses only when a foreign `.addon64`/`.addon32` remains — those need
/// ReShade to load. Leftover shaders under `reshade-shaders` (common on older
/// packs, e.g. Gothic 3) do not block removal. Returns `kept_reason` as well;
/// it is `Some` when ReShade was left.
pub fn uninstall_reshade(l: Lang, removal: Removal, proxy_is_reshade: bool) -> (r: (
    Removal,
    Option<String>,
))
    ensures
        ({
            let left = foreign_addons(removal@.tree);
            &&& r.1 is Some <==> left.len() > 0
            &&& r.1 matches Some(t) ==> t@ == kept_text(l, left) && r.0@ == removal@
            &&& r.1 is None ==> r.0@ == reshade_removed(l, removal@, proxy_is_reshade)
        }),
{
    let mut r = removal;
    let left = foreign(&r.folder);
    assert(texts(left@).len() == left@.len());
    if left.len() > 0 {
        let some = first_of(sort(&left), 6);
        let names = joined(&some, ", ");
        return (r, Some(fill1(tr(l, KEPT_EN, KEPT_ZH), names.as_str())));
    }
    if proxy_is_reshade {
        take(&mut r, RESHADE_PROXY, RESHADE_PROXY);
    }
    take(&mut r, RESHADE_MARKER, RESHADE_MARKER);
    let files = left_behind(&r.folder);
    take_all(&mut r, &files);
    if r.folder.is_dir(SHADER_ROOT) {
        if r.folder.holds_file(SHADER_ROOT) {
            put_line(&mut r.removed, said(l, LEFT_EN, LEFT_ZH));
        } else {
            r.folder.remove_dirs_in(SHADER_ROOT);
            put_op(&mut r.ops, Op::Dirs(SHADER_ROOT.to_owned()));
            put_line(&mut r.removed, SHADER_ROOT_LINE.to_owned());
        }
    }
    (r, None)
}

/// `uninstall`, then ReShade itself (`dxgi.dll` + ini/logs).
///
/// This tool always installs ReShade as `dxgi.dll`, never as `d3d9.dll`, and
/// never deletes dgVoodoo's `d3d9.dll` / `dgVoodoo.conf`. `dxgi.dll` is only
/// deleted when it verifiably is a ReShade DLL. Returns `(removal, kept_reason)`;
/// `kept_reason` is `Some` when ReShade was left.
pub fn uninstall_all(
    l: Lang,
    folder: Folder,
    exe_name: &str,
    exe_cleared: bool,
    host_cleared: bool,
    proxy_is_reshade: bool,
) -> (r: (Removal, Option<String>))
    ensures
        ({
            let s = rest_removed(l, files_removed(folder@), exe_name@, exe_cleared, host_cleared);
            let left = foreign_addons(s.tree);
            &&& r.1 is Some <==> left.len() > 0
            &&& r.1 matches Some(t) ==> t@ == kept_text(l, left) && r.0@ == s
            &&& r.1 is None ==> r.0@ == reshade_removed(l, s, proxy_is_reshade)
        }),
        (r.0@, opt_text(r.1)) == all_removed(
            l,
            folder@,
            exe_name@,
            exe_cleared,
            host_cleared,
            proxy_is_reshade,
        ),
{
    let r = uninstall(l, folder, exe_name, exe_cleared, host_cleared);
    uninstall_reshade(l, r, proxy_is_reshade)
}

} // verus!
