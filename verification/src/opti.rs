//! The OptiScaler engine: which fork is installed, when an installed copy is
//! refreshed, where the members of the release go, and the manifest that
//! records them for Remove.
use vstd::prelude::*;
use crate::archive::{
    extracts, members, unpack, unpacked, zip_names, Extract, ExtractView, Unpacked,
};
use crate::folder::{is_same_path, same_path, Folder, Tree};
use crate::game::{OPTI_MANIFEST, RESHADE_PROXY};
use crate::ini::{ini_loading, ini_with, set_dlss_nr_enabled, set_ini_key, set_load_reshade};
use crate::lang::{say, tr, Lang};
use crate::lines::{first_line, join, joined, lemma_first_line, lines, lines_of};
use crate::message::{fill, fill1, fill2, said};
use crate::paths::{clean, cleaned, named_parts, named_parts_of, slashed};
use crate::text::{
    begins, chars, equal_nocase, equals, opt_str, opt_text, replaced_char, rows, same, same_nocase,
    starts_with, string, texts, trim, trimmed,
};

verus! {

pub const OPTI_REPO: &'static str = "Dagherbou/OptiScaler_DLSSNR";

/// wilsjo2's fork: the neural pass runs before super resolution instead of
/// after it, with 1-3 configurable passes. Same zip layout as Dagherbou's, so
/// it installs through the same step.
pub const OPTI_PRESR_REPO: &'static str = "wilsjo2/OptiScaler-DLSSNR-PreSR-Multipass";

/// Which OptiScaler build to install; unset means Dagherbou's.
pub const OPTI_SOURCE_ENV: &'static str = "DLSS5ONECLICK_OPTI_SOURCE";

pub const OPTI_INI: &'static str = "OptiScaler.ini";

pub const RESHADE64: &'static str = "ReShade64.dll";

/// Fraction of the frame the DLSS 5 model works at, as OptiScaler's
/// `[DlssNr] WorkingScale` wants it. Set through the UI; `1.0` when unset.
pub const WORKING_SCALE_ENV: &'static str = "DLSS5ONECLICK_WORKING_SCALE";

// ── which fork ─────────────────────────────────────────────────────

/// The pre-SR fork is asked for; `source` is the value of the environment
/// variable.
pub open spec fn wants_presr(source: Option<&str>) -> bool {
    source is Some && same_nocase(source->0@, "presr"@)
}

pub open spec fn repo_of(source: Option<&str>) -> Seq<char> {
    if wants_presr(source) {
        OPTI_PRESR_REPO@
    } else {
        OPTI_REPO@
    }
}

/// True when the pre-SR multipass fork was asked for.
pub fn opti_presr(source: Option<&str>) -> (r: bool)
    ensures
        r == wants_presr(source),
{
    match source {
        Some(v) => equal_nocase(chars(v).as_slice(), "presr"),
        None => false,
    }
}

pub fn opti_repo(source: Option<&str>) -> (r: &'static str)
    ensures
        r@ == repo_of(source),
{
    if opti_presr(source) {
        OPTI_PRESR_REPO
    } else {
        OPTI_REPO
    }
}

pub const RELEASES_URL: &'static str = "https://api.github.com/repos/{}/releases";

pub fn opti_releases_url(source: Option<&str>) -> (r: String)
    ensures
        r@ == fill(RELEASES_URL@, seq![repo_of(source)]),
{
    fill1(RELEASES_URL, opti_repo(source))
}

// ── the manifest ───────────────────────────────────────────────────

pub open spec fn is_tag_line(t: Seq<char>) -> bool {
    starts_with(t, "# tag "@)
}

/// The release tag recorded in a manifest, from its `# tag v…` header. A
/// manifest written before this was recorded has none.
pub open spec fn recorded_tag(manifest: Seq<char>) -> Option<Seq<char>> {
    match first_line(lines(manifest), |t: Seq<char>| is_tag_line(t)) {
        Some(t) => Some(trim(t.skip("# tag "@.len() as int))),
        None => None,
    }
}

/// The manifest for the files `installed`, with the tag where it is known.
pub open spec fn manifest_text(tag: Option<Seq<char>>, installed: Seq<Seq<char>>) -> Seq<char> {
    (match tag {
        Some(t) => "# tag "@ + t + "\n"@,
        None => Seq::empty(),
    }) + join(installed, "\n"@)
}

/// The line of a manifest names a file.
pub open spec fn is_entry(t: Seq<char>) -> bool {
    trim(t).len() > 0 && t[0] != '#'
}

/// The files that a manifest names.
pub open spec fn entries(manifest: Seq<char>) -> Seq<Seq<char>> {
    lines(manifest).filter(|t: Seq<char>| is_entry(t))
}

/// The release tag recorded in a manifest.
pub fn manifest_tag(manifest: &str) -> (r: Option<String>)
    ensures
        opt_text(r) == recorded_tag(manifest@),
{
    let cs = chars(manifest);
    let ls = lines_of(cs.as_slice());
    let ghost all = rows(ls@);
    let ghost f = |t: Seq<char>| is_tag_line(t);
    let mut i: usize = 0;
    assert(all.take(0) =~= Seq::empty());
    while i < ls.len()
        invariant
            i <= ls@.len(),
            all == rows(ls@),
            all == lines(manifest@),
            f == (|t: Seq<char>| is_tag_line(t)),
            first_line(all.take(i as int), f) is None,
        decreases ls@.len() - i,
    {
        let t = ls[i].as_slice();
        proof {
            assert(all.take(i + 1).drop_last() =~= all.take(i as int));
            assert(all.take(i + 1).last() == t@);
        }
        if begins(t, "# tag ") {
            proof {
                lemma_first_line(all, f, i + 1);
                reveal_strlit("# tag ");
            }
            let tail = vstd::slice::slice_subrange(t, 6, t.len());
            assert(tail@ =~= t@.skip(6));
            return Some(string(trimmed(tail)));
        }
        i = i + 1;
    }
    assert(all.take(all.len() as int) =~= all);
    None
}

/// The manifest for the files `installed`, with the tag where it is known.
pub fn manifest(tag: Option<&str>, installed: &Vec<String>) -> (r: String)
    ensures
        r@ == manifest_text(
            match tag {
                Some(t) => Some(t@),
                None => None,
            },
            texts(installed@),
        ),
{
    let mut out = String::new();
    if let Some(t) = tag {
        out.append("# tag ");
        out.append(t);
        out.append("\n");
    }
    let files = joined(installed, "\n");
    out.append(files.as_str());
    proof {
        reveal_strlit("# tag ");
        reveal_strlit("\n");
        assert(out@ =~= manifest_text(
            match tag {
                Some(t) => Some(t@),
                None => None,
            },
            texts(installed@),
        ));
    }
    out
}

/// The files that a manifest names, as they stand in it.
pub fn manifest_entries(manifest: &str) -> (r: Vec<String>)
    ensures
        texts(r@) == entries(manifest@),
{
    let cs = chars(manifest);
    let ls = lines_of(cs.as_slice());
    let ghost all = rows(ls@);
    let ghost f = |t: Seq<char>| is_entry(t);
    let mut out: Vec<String> = Vec::new();
    let mut i: usize = 0;
    proof {
        reveal(Seq::filter);
        assert(all.take(0).filter(f) =~= Seq::empty());
        assert(texts(out@) =~= Seq::empty());
    }
    while i < ls.len()
        invariant
            i <= ls@.len(),
            all == rows(ls@),
            all == lines(manifest@),
            f == (|t: Seq<char>| is_entry(t)),
            texts(out@) == all.take(i as int).filter(f),
        decreases ls@.len() - i,
    {
        let t = ls[i].as_slice();
        proof {
            reveal(Seq::filter);
            assert(all.take(i + 1).drop_last() =~= all.take(i as int));
            assert(all.take(i + 1).last() == t@);
            if t@.len() == 0 {
                assert(trim(t@) =~= Seq::empty());
            }
        }
        if t.len() > 0 && trimmed(t).len() > 0 && t[0] != '#' {
            let s = string(t);
            proof {
                crate::lines::lemma_texts_push(out@, s);
            }
            out.push(s);
        }
        i = i + 1;
    }
    assert(all.take(all.len() as int) =~= all);
    out
}

// ── when an installed copy is refreshed ────────────────────────────

pub const TAKEN_EN: &'static str =
    "ReShade is installed as dxgi.dll in this game; OptiScaler needs that name. \
             Run Remove (or Remove incl. ReShade) first, then install with the OptiScaler engine.";

pub const TAKEN_ZH: &'static str =
    "此游戏中 ReShade 已安装为 dxgi.dll；OptiScaler 需要占用这个名字。请先执行「卸载」（或「卸载（含 ReShade）」），再用 OptiScaler 引擎安装。";

pub const FOREIGN_EN: &'static str = "OptiScaler present (not placed by this tool, left as is)";

pub const FOREIGN_ZH: &'static str = "已存在 OptiScaler（非本工具放置，保持原样）";

pub const CURRENT_EN: &'static str = "OptiScaler already current ({})";

pub const CURRENT_ZH: &'static str = "OptiScaler 已是最新（{}）";

pub const NEWER_EN: &'static str = "OptiScaler {} is out, {} available";

pub const NEWER_ZH: &'static str = "OptiScaler {} 已过时，{} 可用";

pub const UNCHECKED_EN: &'static str = "OptiScaler present (could not check for a newer one)";

pub const UNCHECKED_ZH: &'static str = "已存在 OptiScaler（无法检查新版本）";

pub const UNRECORDED_EN: &'static str = "OptiScaler version not recorded, refreshing";

pub const UNRECORDED_ZH: &'static str = "未记录 OptiScaler 版本，正在刷新";

/// What becomes of a component: it is left as it is, which the line says, or it
/// is fetched, which a message may announce.
#[derive(Debug)]
pub enum Fetch {
    Leave(String),
    Get(Option<String>),
}

/// A [`Fetch`], its texts as characters.
pub enum FetchView {
    Leave(Seq<char>),
    Get(Option<Seq<char>>),
}

impl View for Fetch {
    type V = FetchView;

    open spec fn view(&self) -> FetchView {
        match self {
            Fetch::Leave(t) => FetchView::Leave(t@),
            Fetch::Get(m) => FetchView::Get(opt_text(*m)),
        }
    }
}

/// A copy that this tool placed is refreshed when upstream moves on, and one it
/// did not place is never touched. A manifest without a tag is ours, from
/// before the tag was recorded.
pub open spec fn refresh(
    l: Lang,
    present: bool,
    manifest: Option<Seq<char>>,
    latest: Option<Seq<char>>,
) -> FetchView {
    if !present {
        FetchView::Get(None)
    } else {
        match manifest {
            None => FetchView::Leave(say(l, FOREIGN_EN@, FOREIGN_ZH@)),
            Some(m) => match (recorded_tag(m), latest) {
                (Some(a), Some(b)) => if a == b {
                    FetchView::Leave(fill(say(l, CURRENT_EN@, CURRENT_ZH@), seq![a]))
                } else {
                    FetchView::Get(Some(fill(say(l, NEWER_EN@, NEWER_ZH@), seq![a, b])))
                },
                (Some(_), None) => FetchView::Leave(say(l, UNCHECKED_EN@, UNCHECKED_ZH@)),
                (None, _) => FetchView::Get(Some(say(l, UNRECORDED_EN@, UNRECORDED_ZH@))),
            },
        }
    }
}

/// Whether OptiScaler is fetched; `present` tells that it is installed,
/// `reshade_there` that dxgi.dll is ReShade's.
pub fn opti_fetch(
    l: Lang,
    reshade_there: bool,
    present: bool,
    manifest: Option<&str>,
    latest: Option<&str>,
) -> (r: Result<Fetch, String>)
    ensures
        r is Err <==> reshade_there,
        r matches Err(e) ==> e@ == say(l, TAKEN_EN@, TAKEN_ZH@),
        r matches Ok(f) ==> f@ == refresh(
            l,
            present,
            opt_str(manifest),
            opt_str(latest),
        ),
{
    if reshade_there {
        return Err(said(l, TAKEN_EN, TAKEN_ZH));
    }
    if !present {
        return Ok(Fetch::Get(None));
    }
    let m = match manifest {
        Some(m) => m,
        None => {
            return Ok(Fetch::Leave(said(l, FOREIGN_EN, FOREIGN_ZH)));
        },
    };
    match (manifest_tag(m), latest) {
        (Some(a), Some(b)) => {
            if same(a.as_str(), b) {
                Ok(Fetch::Leave(fill1(tr(l, CURRENT_EN, CURRENT_ZH), a.as_str())))
            } else {
                Ok(Fetch::Get(Some(fill2(tr(l, NEWER_EN, NEWER_ZH), a.as_str(), b))))
            }
        },
        (Some(_), None) => Ok(Fetch::Leave(said(l, UNCHECKED_EN, UNCHECKED_ZH))),
        (None, _) => Ok(Fetch::Get(Some(said(l, UNRECORDED_EN, UNRECORDED_ZH)))),
    }
}

// ── where the members of the release go ────────────────────────────

/// A member of the release and the path that it is written to. A settings file
/// that is already there is kept: it carries the user's choices.
#[derive(Debug)]
pub struct Placement {
    pub member: String,
    pub dest: String,
    pub settings: bool,
}

/// A [`Placement`], its texts as characters.
pub struct Placed {
    pub member: Seq<char>,
    pub dest: Seq<char>,
    pub settings: bool,
}

impl View for Placement {
    type V = Placed;

    open spec fn view(&self) -> Placed {
        Placed { member: self.member@, dest: self.dest@, settings: self.settings }
    }
}

pub open spec fn placed(v: Seq<Placement>) -> Seq<Placed> {
    Seq::new(v.len(), |i: int| v[i]@)
}

/// The interactive setup script and its banner file are not needed: the
/// renaming it performs is done here.
pub open spec fn is_setup(name: Seq<char>) -> bool {
    same_nocase(name, "setup_windows.bat"@) || same_nocase(name, "setup_linux.sh"@) || starts_with(
        name,
        "!!"@,
    )
}

/// The member is a file that is installed.
pub open spec fn is_installed(member: Seq<char>) -> bool {
    let rel = slashed(member);
    &&& !(rel.len() > 0 && rel.last() == '/')
    &&& named_parts(rel).len() > 0
    &&& !is_setup(named_parts(rel).last())
}

/// Where an installed member goes: `OptiScaler.dll` as `dxgi.dll`, everything
/// else under its own path.
pub open spec fn placement(member: Seq<char>) -> Placed {
    let rel = slashed(member);
    let name = named_parts(rel).last();
    Placed {
        member,
        dest: if same_nocase(name, "OptiScaler.dll"@) {
            RESHADE_PROXY@
        } else {
            clean(rel)
        },
        settings: same_nocase(name, OPTI_INI@),
    }
}

/// The placements of the members `names`, in their order.
pub open spec fn placements(names: Seq<Seq<char>>) -> Seq<Placed>
    decreases names.len(),
{
    if names.len() == 0 {
        Seq::empty()
    } else if is_installed(names.last()) {
        placements(names.drop_last()).push(placement(names.last()))
    } else {
        placements(names.drop_last())
    }
}

/// The paths that are written.
pub open spec fn dests(v: Seq<Placed>) -> Seq<Seq<char>> {
    Seq::new(v.len(), |i: int| v[i].dest)
}

fn place(member: &str) -> (r: Option<Placement>)
    ensures
        match r {
            Some(p) => is_installed(member@) && p@ == placement(member@),
            None => !is_installed(member@),
        },
{
    let cs = chars(member);
    let rel = replaced_char(cs.as_slice(), '\\', '/');
    let n: usize = rel.len();
    if n > 0 && rel[n - 1] == '/' {
        return None;
    }
    let parts = named_parts_of(rel.as_slice());
    assert(rows(parts@).len() == parts@.len());
    if parts.len() == 0 {
        return None;
    }
    let name = parts[parts.len() - 1].as_slice();
    assert(rows(parts@).last() == name@);
    if equal_nocase(name, "setup_windows.bat") || equal_nocase(name, "setup_linux.sh") || begins(
        name,
        "!!",
    ) {
        return None;
    }
    let dest = if equal_nocase(name, "OptiScaler.dll") {
        RESHADE_PROXY.to_owned()
    } else {
        let path = string(rel.as_slice());
        cleaned(path.as_str())
    };
    let settings = equal_nocase(name, OPTI_INI);
    Some(Placement { member: member.to_owned(), dest, settings })
}

/// Where the members of an OptiScaler release go, in the order of the archive.
pub fn opti_placements(names: &Vec<String>) -> (r: Vec<Placement>)
    ensures
        placed(r@) == placements(texts(names@)),
{
    let mut out: Vec<Placement> = Vec::new();
    let ghost all = texts(names@);
    let mut i: usize = 0;
    assert(all.take(0) =~= Seq::empty());
    assert(placed(out@) =~= Seq::empty());
    while i < names.len()
        invariant
            i <= names@.len(),
            all == texts(names@),
            placed(out@) == placements(all.take(i as int)),
        decreases names@.len() - i,
    {
        proof {
            assert(all.take(i + 1).drop_last() =~= all.take(i as int));
            assert(all.take(i + 1).last() == names@[i as int]@);
        }
        if let Some(p) = place(names[i].as_str()) {
            let ghost before = placed(out@);
            out.push(p);
            assert(placed(out@) =~= before.push(p@));
        }
        i = i + 1;
    }
    assert(all.take(all.len() as int) =~= all);
    out
}

pub const NO_DLL_EN: &'static str =
    "the OptiScaler release had no OptiScaler.dll — layout changed upstream";

pub const NO_DLL_ZH: &'static str = "该 OptiScaler 版本中没有 OptiScaler.dll —— 上游布局已变化";

/// What an install leaves on record: the manifest, and the lines to report.
#[derive(Debug)]
pub struct OptiRecord {
    pub manifest: String,
    pub installed: Vec<String>,
}

/// The record of an install, which is refused where nothing became `dxgi.dll`.
pub fn opti_record(l: Lang, placed_files: &Vec<Placement>, latest: Option<&str>) -> (r: Result<
    OptiRecord,
    String,
>)
    ensures
        r is Ok <==> dests(placed(placed_files@)).contains(RESHADE_PROXY@),
        r matches Err(e) ==> e@ == say(l, NO_DLL_EN@, NO_DLL_ZH@),
        r matches Ok(k) ==> k.manifest@ == manifest_text(
            opt_str(latest),
            dests(placed(placed_files@)),
        ) && texts(k.installed@) == dests(placed(placed_files@)).push(OPTI_MANIFEST@),
{
    let ghost want = dests(placed(placed_files@));
    let mut installed: Vec<String> = Vec::new();
    let mut found = false;
    let mut i: usize = 0;
    assert(texts(installed@) =~= want.take(0));
    while i < placed_files.len()
        invariant
            i <= placed_files@.len(),
            want == dests(placed(placed_files@)),
            texts(installed@) == want.take(i as int),
            found == exists|j: int| 0 <= j < i && #[trigger] want[j] == RESHADE_PROXY@,
        decreases placed_files@.len() - i,
    {
        let d = placed_files[i].dest.as_str().to_owned();
        assert(want[i as int] == d@);
        if same(d.as_str(), RESHADE_PROXY) {
            found = true;
        }
        proof {
            crate::lines::lemma_texts_push(installed@, d);
            assert(want.take(i + 1) =~= want.take(i as int).push(d@));
        }
        installed.push(d);
        i = i + 1;
    }
    assert(want.take(want.len() as int) =~= want);
    if !found {
        assert(!want.contains(RESHADE_PROXY@)) by {
            if want.contains(RESHADE_PROXY@) {
                let j = choose|j: int| 0 <= j < want.len() && want[j] == RESHADE_PROXY@;
                assert(want[j] == RESHADE_PROXY@);
            }
        }
        return Err(said(l, NO_DLL_EN, NO_DLL_ZH));
    }
    let text = manifest(latest, &installed);
    let own = OPTI_MANIFEST.to_owned();
    proof {
        crate::lines::lemma_texts_push(installed@, own);
    }
    installed.push(own);
    Ok(OptiRecord { manifest: text, installed })
}

/// A file of that path is written by the plan.
pub open spec fn writes(nocase: bool, plan: Seq<ExtractView>, path: Seq<char>) -> bool {
    exists|i: int| 0 <= i < plan.len() && same_path(nocase, (#[trigger] plan[i]).dest, path)
}

/// What is extracted into a folder. A refresh must not overwrite the settings
/// file. It carries the user's choices -- upscaler, frame generation,
/// LoadReshade -- and replacing it silently turns them all back to auto.
pub open spec fn extraction(t: Tree, v: Seq<Placed>) -> Seq<ExtractView>
    decreases v.len(),
{
    if v.len() == 0 {
        Seq::empty()
    } else {
        let plan = extraction(t, v.drop_last());
        let p = v.last();
        if p.settings && (t.has(p.dest) || writes(t.nocase, plan, p.dest)) {
            plan
        } else {
            plan.push(ExtractView { member: p.member, dest: p.dest })
        }
    }
}

fn is_written(nocase: bool, plan: &Vec<Extract>, path: &str) -> (r: bool)
    ensures
        r == writes(nocase, extracts(plan@), path@),
{
    let want = chars(path);
    let ghost all = extracts(plan@);
    let mut i: usize = 0;
    while i < plan.len()
        invariant
            i <= plan@.len(),
            all == extracts(plan@),
            want@ == path@,
            forall|j: int| 0 <= j < i ==> !same_path(nocase, (#[trigger] all[j]).dest, path@),
        decreases plan@.len() - i,
    {
        let d = chars(plan[i].dest.as_str());
        assert(all[i as int].dest == d@);
        if is_same_path(nocase, d.as_slice(), want.as_slice()) {
            return true;
        }
        i = i + 1;
    }
    false
}

/// What is extracted into a folder, settings that are there kept.
pub fn opti_extraction(folder: &Folder, v: &Vec<Placement>) -> (r: Vec<Extract>)
    ensures
        extracts(r@) == extraction(folder@, placed(v@)),
{
    let ghost all = placed(v@);
    let mut plan: Vec<Extract> = Vec::new();
    let mut i: usize = 0;
    assert(all.take(0) =~= Seq::empty());
    assert(extracts(plan@) =~= Seq::empty());
    while i < v.len()
        invariant
            i <= v@.len(),
            all == placed(v@),
            extracts(plan@) == extraction(folder@, all.take(i as int)),
        decreases v@.len() - i,
    {
        let p = &v[i];
        proof {
            assert(all.take(i + 1).drop_last() =~= all.take(i as int));
            assert(all.take(i + 1).last() == p@);
        }
        let keep = p.settings && (folder.is_file(p.dest.as_str()) || is_written(
            folder.nocase,
            &plan,
            p.dest.as_str(),
        ));
        if !keep {
            let e = Extract {
                member: p.member.as_str().to_owned(),
                dest: p.dest.as_str().to_owned(),
            };
            let ghost was = extracts(plan@);
            plan.push(e);
            assert(extracts(plan@) =~= was.push(e@));
        }
        i = i + 1;
    }
    assert(all.take(all.len() as int) =~= all);
    plan
}

pub const OPTI_ZIP_EN: &'static str = "OptiScaler download is not a valid zip";

pub const OPTI_ZIP_ZH: &'static str = "OptiScaler 下载内容不是有效的 zip";

/// An install of OptiScaler: the files to write, and what is on record once
/// all of them are written.
#[derive(Debug)]
pub struct OptiStep {
    pub files: Unpacked,
    pub record: Result<OptiRecord, String>,
}

/// Installs OptiScaler from a download of the release `latest` into a folder.
pub fn step_opti(l: Lang, archive: &[u8], folder: &Folder, latest: Option<&str>) -> (r: Result<
    OptiStep,
    String,
>)
    ensures
        r is Ok <==> zip_names(archive@) is Some,
        r matches Err(e) ==> e@ == say(l, OPTI_ZIP_EN@, OPTI_ZIP_ZH@),
        r matches Ok(s) ==> {
            let v = placements(zip_names(archive@)->0);
            &&& s.files@ == unpacked(archive@, extraction(folder@, v))
            &&& s.record is Ok <==> dests(v).contains(RESHADE_PROXY@)
            &&& s.record matches Ok(k) ==> k.manifest@ == manifest_text(opt_str(latest), dests(v))
                && texts(k.installed@) == dests(v).push(OPTI_MANIFEST@)
            &&& s.record matches Err(e) ==> e@ == say(l, NO_DLL_EN@, NO_DLL_ZH@)
        },
{
    let names = match members(archive, tr(l, OPTI_ZIP_EN, OPTI_ZIP_ZH)) {
        Ok(v) => v,
        Err(e) => {
            return Err(e);
        },
    };
    let v = opti_placements(&names);
    let plan = opti_extraction(folder, &v);
    let record = opti_record(l, &v, latest);
    Ok(OptiStep { files: unpack(archive, &plan), record })
}

// ── the settings ───────────────────────────────────────────────────

/// `ini` with `key=value` under `[section]`.
pub open spec fn ini_set(
    ini: Seq<char>,
    section: Seq<char>,
    key: Seq<char>,
    value: Seq<char>,
) -> Seq<char> {
    match ini_with(ini, section, key, value) {
        Some(t) => t,
        None => ini,
    }
}

/// The settings that an install writes: neural rendering on, and the
/// resolution that the model works at. RE Engine trips its own scheduler
/// assertion unless the compute root signature is put back, and fights
/// REFramework over WndProc unless input is polled; the graphics-side restores
/// must stay off there.
pub open spec fn settings_text(ini: Seq<char>, scale: Seq<char>, re_engine: bool) -> Seq<char> {
    let on = ini_set(
        ini_set(ini, "DlssNr"@, "Enabled"@, "true"@),
        "DlssNr"@,
        "WorkingScale"@,
        scale,
    );
    if re_engine {
        ini_set(
            ini_set(
                ini_set(
                    ini_set(on, "Hotfix"@, "ManualInputPolling"@, "true"@),
                    "Hotfix"@,
                    "RestoreComputeSignature"@,
                    "true"@,
                ),
                "Hotfix"@,
                "RestoreGraphicSignature"@,
                "false"@,
            ),
            "Hotfix"@,
            "ExtendedStateRestore"@,
            "false"@,
        )
    } else {
        on
    }
}

fn set_key(ini: String, section: &str, key: &str, value: &str) -> (r: String)
    ensures
        r@ == ini_set(ini@, section@, key@, value@),
{
    match set_ini_key(ini.as_str(), section, key, value) {
        Some(t) => t,
        None => ini,
    }
}

/// `OptiScaler.ini` as an install leaves it. OptiScaler ships DLSS Neural
/// Rendering off, and its overlay toggle lives only in memory; the frame stays
/// full size and only the model's own work is done at `scale`.
pub fn opti_settings(ini: &str, scale: &str, re_engine: bool) -> (r: String)
    ensures
        r@ == settings_text(ini@, scale@, re_engine),
{
    let first = match set_dlss_nr_enabled(ini) {
        Some(t) => t,
        None => ini.to_owned(),
    };
    let on = set_key(first, "DlssNr", "WorkingScale", scale);
    if re_engine {
        let a = set_key(on, "Hotfix", "ManualInputPolling", "true");
        let b = set_key(a, "Hotfix", "RestoreComputeSignature", "true");
        let c = set_key(b, "Hotfix", "RestoreGraphicSignature", "false");
        set_key(c, "Hotfix", "ExtendedStateRestore", "false")
    } else {
        on
    }
}

// ── ReShade beside OptiScaler ──────────────────────────────────────

pub const NO_INI_EN: &'static str = "{} not found — install the OptiScaler engine first";

pub const NO_INI_ZH: &'static str = "{} 未找到 —— 请先安装 OptiScaler 引擎";

pub const LOADS_RESHADE: &'static str = "{}: LoadReshade=true";

/// The manifest with `ReShade64.dll` in it, so that Remove takes it out with
/// the engine; `None` where it is already there.
pub open spec fn with_reshade(manifest: Seq<char>) -> Option<Seq<char>> {
    if lines(manifest).contains(RESHADE64@) {
        None
    } else if manifest.len() > 0 && manifest.last() != '\n' {
        Some(manifest + "\n"@ + RESHADE64@)
    } else {
        Some(manifest + RESHADE64@)
    }
}

pub fn record_reshade(manifest: &str) -> (r: Option<String>)
    ensures
        opt_text(r) == with_reshade(manifest@),
{
    let cs = chars(manifest);
    let ls = lines_of(cs.as_slice());
    let ghost all = lines(manifest@);
    let mut i: usize = 0;
    while i < ls.len()
        invariant
            i <= ls@.len(),
            rows(ls@) == all,
            all == lines(manifest@),
            forall|j: int| 0 <= j < i ==> #[trigger] all[j] != RESHADE64@,
        decreases ls@.len() - i,
    {
        assert(all[i as int] == ls@[i as int]@);
        if equals(ls[i].as_slice(), RESHADE64) {
            return None;
        }
        i = i + 1;
    }
    assert(rows(ls@).len() == ls@.len());
    let mut out = manifest.to_owned();
    let n: usize = cs.len();
    if n > 0 && cs[n - 1] != '\n' {
        out.append("\n");
    }
    out.append(RESHADE64);
    Some(out)
}

/// What is done to load ReShade from OptiScaler.
#[derive(Debug)]
pub struct ReShadeLoad {
    /// `OptiScaler.ini`, where it changes.
    pub ini: Option<String>,
    /// What was done, for the log.
    pub done: Vec<String>,
}

/// ReShade beside OptiScaler, the way OptiScaler.ini documents it: the ReShade
/// DLL as `ReShade64.dll` next to the exe and `[Plugins] LoadReshade=true`, so
/// OptiScaler (which holds dxgi.dll) loads it and ReShade add-ons still work.
/// `placed_dll` tells that the DLL had to be placed.
pub fn reshade_via_opti(l: Lang, ini: Option<&str>, placed_dll: bool) -> (r: Result<
    ReShadeLoad,
    String,
>)
    ensures
        r is Ok <==> ini is Some,
        r matches Err(e) ==> e@ == fill(say(l, NO_INI_EN@, NO_INI_ZH@), seq![OPTI_INI@]),
        r matches Ok(k) ==> opt_text(k.ini) == ini_loading(ini->0@) && texts(k.done@) == (
        if placed_dll {
            seq![RESHADE64@]
        } else {
            Seq::empty()
        }) + (if ini_loading(ini->0@) is Some {
            seq![fill(LOADS_RESHADE@, seq![OPTI_INI@])]
        } else {
            Seq::empty()
        }),
{
    let text = match ini {
        Some(t) => t,
        None => {
            return Err(fill1(tr(l, NO_INI_EN, NO_INI_ZH), OPTI_INI));
        },
    };
    let mut done: Vec<String> = Vec::new();
    if placed_dll {
        done.push(RESHADE64.to_owned());
    }
    let new = set_load_reshade(text);
    if new.is_some() {
        done.push(fill1(LOADS_RESHADE, OPTI_INI));
    }
    assert(texts(done@) =~= (if placed_dll {
        seq![RESHADE64@]
    } else {
        Seq::empty()
    }) + (if ini_loading(ini->0@) is Some {
        seq![fill(LOADS_RESHADE@, seq![OPTI_INI@])]
    } else {
        Seq::empty()
    }));
    Ok(ReShadeLoad { ini: new, done })
}

} // verus!
