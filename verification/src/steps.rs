//! What each install step decides: whether a component is fetched or left as it
//! is, which members of an archive are taken, where they go, and what is
//! reported.
use vstd::prelude::*;
use vstd::utf8::encode_utf8;
use crate::archive::{
    content_in, extracts, members, same_size, unpack, unpack_one, unpacked, written, zip_content,
    zip_names, zip_size, Extract, ExtractView, Unpacked, UnpackedView, Written, WrittenView,
};
use crate::game::{
    FEEDER_ADDON, FEEDER_ADDON32, FEEDER_FX, FEEDER_MARKER, HEADER, HEADER_TEXT, HEADER_UI,
    HOST_DIR, HOST_EXE, RESHADE_PROXY,
};
use crate::install::{need, IN_FOLDER};
use crate::lang::{say, tr, Lang};
use crate::lines::{first_line, lemma_first_line, lemma_texts_push};
use crate::message::{fill, fill1, fill2, fill3, said};
use crate::opti::{Fetch, FetchView};
use crate::outside::{is_match, regex_match};
use crate::paths::{file_name, slashed, slashed_file_name};
use crate::releases::{is_prerelease_tag, tag_is_prerelease};
use crate::text::{
    chars, equal_nocase, equals, find, find_from, lemma_rfind_from, occurs_at, opt_str, opt_text,
    rfind, same_nocase, string, text_after_last, texts, trim, trimmed,
};
use crate::uninstall::{INCLUDE, SHADERS};

verus! {

// ── members of an archive ──────────────────────────────────────────

/// The first member of that file name, slashes and backslashes alike.
pub open spec fn first_named(members: Seq<Seq<char>>, want: Seq<char>) -> Option<Seq<char>> {
    first_line(members, |m: Seq<char>| same_nocase(file_name(slashed(m)), want))
}

/// The first member of that file name, after slashes alone.
pub open spec fn first_ending(members: Seq<Seq<char>>, want: Seq<char>) -> Option<Seq<char>> {
    first_line(members, |m: Seq<char>| same_nocase(file_name(m), want))
}

pub fn pick(members: &Vec<String>, want: &str) -> (r: Option<String>)
    ensures
        opt_text(r) == first_named(texts(members@), want@),
{
    let ghost all = texts(members@);
    let ghost f = |m: Seq<char>| same_nocase(file_name(slashed(m)), want@);
    let mut i: usize = 0;
    assert(all.take(0) =~= Seq::empty());
    while i < members.len()
        invariant
            i <= members@.len(),
            all == texts(members@),
            f == (|m: Seq<char>| same_nocase(file_name(slashed(m)), want@)),
            first_line(all.take(i as int), f) is None,
        decreases members@.len() - i,
    {
        proof {
            assert(all.take(i + 1).drop_last() =~= all.take(i as int));
            assert(all.take(i + 1).last() == members@[i as int]@);
        }
        let name = slashed_file_name(members[i].as_str());
        if equal_nocase(name.as_slice(), want) {
            proof {
                lemma_first_line(all, f, i + 1);
            }
            return Some(members[i].as_str().to_owned());
        }
        i = i + 1;
    }
    assert(all.take(all.len() as int) =~= all);
    None
}

pub fn pick_ending(members: &Vec<String>, want: &str) -> (r: Option<String>)
    ensures
        opt_text(r) == first_ending(texts(members@), want@),
{
    let ghost all = texts(members@);
    let ghost f = |m: Seq<char>| same_nocase(file_name(m), want@);
    let mut i: usize = 0;
    assert(all.take(0) =~= Seq::empty());
    while i < members.len()
        invariant
            i <= members@.len(),
            all == texts(members@),
            f == (|m: Seq<char>| same_nocase(file_name(m), want@)),
            first_line(all.take(i as int), f) is None,
        decreases members@.len() - i,
    {
        proof {
            assert(all.take(i + 1).drop_last() =~= all.take(i as int));
            assert(all.take(i + 1).last() == members@[i as int]@);
        }
        let cs = chars(members[i].as_str());
        if equal_nocase(text_after_last(cs.as_slice(), "/"), want) {
            proof {
                lemma_first_line(all, f, i + 1);
            }
            return Some(members[i].as_str().to_owned());
        }
        i = i + 1;
    }
    assert(all.take(all.len() as int) =~= all);
    None
}

pub const NOT_IN_ZIP_EN: &'static str = "{} does not contain {}";

pub const NOT_IN_ZIP_ZH: &'static str = "{} 中不包含 {}";

pub const NOT_A_ZIP_EN: &'static str = "{} is not a valid zip";

pub const NOT_A_ZIP_ZH: &'static str = "{} 不是有效的 zip";

/// The member to extract from an archive that is wanted for one file; `shown`
/// is the archive's name for the error.
pub fn single_member(l: Lang, shown: &str, members: &Vec<String>, member_name: &str) -> (r: Result<
    String,
    String,
>)
    ensures
        r is Ok <==> first_ending(texts(members@), member_name@) is Some,
        r matches Ok(m) ==> first_ending(texts(members@), member_name@) == Some(m@),
        r matches Err(e) ==> e@ == fill(
            say(l, NOT_IN_ZIP_EN@, NOT_IN_ZIP_ZH@),
            seq![shown@, member_name@],
        ),
{
    match pick_ending(members, member_name) {
        Some(m) => Ok(m),
        None => Err(fill2(tr(l, NOT_IN_ZIP_EN, NOT_IN_ZIP_ZH), shown, member_name)),
    }
}

/// Extracts the one file that an archive is wanted for, as `dest`.
pub fn install_single_from_zip(
    l: Lang,
    shown: &str,
    archive: &[u8],
    member_name: &str,
    dest: &str,
) -> (r: Result<Unpacked, String>)
    ensures
        ({
            let hit = if zip_names(archive@) is Some {
                first_ending(zip_names(archive@)->0, member_name@)
            } else {
                None
            };
            &&& r is Ok <==> hit is Some
            &&& r matches Ok(u) ==> u@ == unpacked(
                archive@,
                seq![ExtractView { member: hit->0, dest: dest@ }],
            )
            &&& r matches Err(e) ==> e@ == (if zip_names(archive@) is None {
                fill(say(l, NOT_A_ZIP_EN@, NOT_A_ZIP_ZH@), seq![shown@])
            } else {
                fill(say(l, NOT_IN_ZIP_EN@, NOT_IN_ZIP_ZH@), seq![shown@, member_name@])
            })
        }),
{
    let refusal = fill1(tr(l, NOT_A_ZIP_EN, NOT_A_ZIP_ZH), shown);
    let names = match members(archive, refusal.as_str()) {
        Ok(v) => v,
        Err(e) => {
            return Err(e);
        },
    };
    match single_member(l, shown, &names, member_name) {
        Ok(m) => Ok(unpack_one(archive, m, dest)),
        Err(e) => Err(e),
    }
}

// ── a component with a marker ──────────────────────────────────────

/// A copy that this tool placed is refreshed when another version is out; one
/// without a marker is left alone, and so is one of the version that is out.
pub open spec fn by_marker(
    present: bool,
    marker: Option<Seq<char>>,
    version: Seq<char>,
    current: Seq<char>,
    newer: Seq<char>,
    foreign: Seq<char>,
) -> FetchView {
    if !present {
        FetchView::Get(None)
    } else {
        match marker {
            Some(m) => if trim(m) == version {
                FetchView::Leave(current)
            } else {
                FetchView::Get(Some(newer))
            },
            None => FetchView::Leave(foreign),
        }
    }
}

pub fn marker_fetch(
    present: bool,
    marker: Option<&str>,
    version: &str,
    current: String,
    newer: String,
    foreign: String,
) -> (r: Fetch)
    ensures
        r@ == by_marker(
            present,
            opt_str(marker),
            version@,
            current@,
            newer@,
            foreign@,
        ),
{
    if !present {
        return Fetch::Get(None);
    }
    match marker {
        Some(m) => {
            let cs = chars(m);
            if equals(trimmed(cs.as_slice()), version) {
                Fetch::Leave(current)
            } else {
                Fetch::Get(Some(newer))
            }
        },
        None => Fetch::Leave(foreign),
    }
}

// ── ReShade ────────────────────────────────────────────────────────

pub const NOT_RESHADE_EN: &'static str =
    "{} exists but is not ReShade (DXVK, Special K, another injector?). Remove it first.";

pub const NOT_RESHADE_ZH: &'static str =
    "{} 已存在但不是 ReShade（DXVK、Special K 或其它注入器？）。请先移除它。";

/// What a game is refused with whose `dxgi.dll` is not ReShade's.
pub open spec fn proxy_refusal(l: Lang, reshade: bool, proxy_there: bool) -> Option<Seq<char>> {
    if !reshade && proxy_there {
        Some(fill(say(l, NOT_RESHADE_EN@, NOT_RESHADE_ZH@), seq![RESHADE_PROXY@]))
    } else {
        None
    }
}

/// Refuses a game whose `dxgi.dll` is not ReShade's.
pub fn reshade_allowed(l: Lang, reshade: bool, proxy_there: bool) -> (r: Result<(), String>)
    ensures
        r is Ok <==> reshade || !proxy_there,
        r matches Err(e) ==> e@ == fill(
            say(l, NOT_RESHADE_EN@, NOT_RESHADE_ZH@),
            seq![RESHADE_PROXY@],
        ),
        r is Ok <==> proxy_refusal(l, reshade, proxy_there) is None,
        r matches Err(e) ==> proxy_refusal(l, reshade, proxy_there) == Some(e@),
{
    if !reshade && proxy_there {
        Err(fill1(tr(l, NOT_RESHADE_EN, NOT_RESHADE_ZH), RESHADE_PROXY))
    } else {
        Ok(())
    }
}

pub const RS_CURRENT_EN: &'static str = "ReShade already current ({})";

pub const RS_CURRENT_ZH: &'static str = "ReShade 已是最新（{}）";

pub const RS_NEWER_EN: &'static str = "ReShade {} is out, refreshing";

pub const RS_NEWER_ZH: &'static str = "ReShade {} 已过时，正在刷新";

pub const RS_FOREIGN_EN: &'static str = "ReShade present (not placed by this tool, left as is)";

pub const RS_FOREIGN_ZH: &'static str = "已存在 ReShade（非本工具放置，保持原样）";

/// Whether ReShade is fetched for the game. Only a copy this tool placed is
/// refreshed; a user's own ReShade stays.
pub fn step_reshade(l: Lang, present: bool, marker: Option<&str>, version: &str) -> (r: Fetch)
    ensures
        r@ == by_marker(
            present,
            opt_str(marker),
            version@,
            fill(say(l, RS_CURRENT_EN@, RS_CURRENT_ZH@), seq![version@]),
            fill(say(l, RS_NEWER_EN@, RS_NEWER_ZH@), seq![version@]),
            say(l, RS_FOREIGN_EN@, RS_FOREIGN_ZH@),
        ),
{
    marker_fetch(
        present,
        marker,
        version,
        fill1(tr(l, RS_CURRENT_EN, RS_CURRENT_ZH), version),
        fill1(tr(l, RS_NEWER_EN, RS_NEWER_ZH), version),
        said(l, RS_FOREIGN_EN, RS_FOREIGN_ZH),
    )
}

pub const HOST_CURRENT_EN: &'static str = "host64/dxgi.dll already current ({})";

pub const HOST_CURRENT_ZH: &'static str = "host64/dxgi.dll 已是最新（{}）";

pub const HOST_NEWER_EN: &'static str = "host64 ReShade {} is out, refreshing";

pub const HOST_NEWER_ZH: &'static str = "host64 ReShade {} 已过时，正在刷新";

pub const HOST_FOREIGN_EN: &'static str = "host64/dxgi.dll present (not placed by this tool)";

pub const HOST_FOREIGN_ZH: &'static str = "已存在 host64/dxgi.dll（非本工具放置）";

/// 32-bit games: the helper process needs its own 64-bit ReShade as
/// `host64\dxgi.dll`. Same marker/refresh rule as the in-game copy.
pub fn step_host_reshade(l: Lang, present: bool, marker: Option<&str>, version: &str) -> (r: Fetch)
    ensures
        r@ == by_marker(
            present,
            opt_str(marker),
            version@,
            fill(say(l, HOST_CURRENT_EN@, HOST_CURRENT_ZH@), seq![version@]),
            fill(say(l, HOST_NEWER_EN@, HOST_NEWER_ZH@), seq![version@]),
            say(l, HOST_FOREIGN_EN@, HOST_FOREIGN_ZH@),
        ),
{
    marker_fetch(
        present,
        marker,
        version,
        fill1(tr(l, HOST_CURRENT_EN, HOST_CURRENT_ZH), version),
        fill1(tr(l, HOST_NEWER_EN, HOST_NEWER_ZH), version),
        said(l, HOST_FOREIGN_EN, HOST_FOREIGN_ZH),
    )
}

/// The line for the helper's ReShade.
pub fn host_reshade_line() -> (r: String)
    ensures
        r@ == fill(IN_FOLDER@, seq![HOST_DIR@, RESHADE_PROXY@]),
{
    fill2(IN_FOLDER, HOST_DIR, RESHADE_PROXY)
}

pub const SETUP_NAME: &'static str = "ReShade_Setup_{}_Addon.exe";

/// The file name that the installer is downloaded as.
pub fn setup_name(version: &str) -> (r: String)
    ensures
        r@ == fill(SETUP_NAME@, seq![version@]),
{
    fill1(SETUP_NAME, version)
}

pub const NO_SETUP_ZIP_EN: &'static str = "ReShade installer has no readable archive";

pub const NO_SETUP_ZIP_ZH: &'static str = "ReShade 安装器没有可读取的归档";

/// The DLL of the game's bitness.
pub open spec fn reshade_member(bitness: u8) -> Seq<char> {
    if bitness == 64 {
        "ReShade64.dll"@
    } else {
        "ReShade32.dll"@
    }
}

pub fn reshade_dll(bitness: u8) -> (r: &'static str)
    ensures
        r@ == reshade_member(bitness),
{
    if bitness == 64 {
        "ReShade64.dll"
    } else {
        "ReShade32.dll"
    }
}

/// Extracts ReShade's DLL from its installer, an executable with an archive
/// behind it; `shown` is the installer's name for the error.
pub fn install_reshade_from_setup(
    l: Lang,
    shown: &str,
    setup: &[u8],
    bitness: u8,
    dest_name: &str,
) -> (r: Result<Written, String>)
    ensures
        r is Ok <==> zip_names(setup@) is Some && zip_content(setup@, reshade_member(bitness)) is Some,
        r matches Ok(w) ==> w.dest@ == dest_name@ && zip_content(setup@, reshade_member(bitness))
            == Some(w.bytes@),
        r matches Err(e) ==> e@ == (if zip_names(setup@) is None {
            say(l, NO_SETUP_ZIP_EN@, NO_SETUP_ZIP_ZH@)
        } else {
            fill(say(l, NOT_IN_ZIP_EN@, NOT_IN_ZIP_ZH@), seq![shown@, reshade_member(bitness)])
        }),
{
    if let Err(e) = members(setup, tr(l, NO_SETUP_ZIP_EN, NO_SETUP_ZIP_ZH)) {
        return Err(e);
    }
    let dll = reshade_dll(bitness);
    match content_in(setup, dll) {
        Some(bytes) => Ok(Written { dest: dest_name.to_owned(), bytes }),
        None => Err(fill2(tr(l, NOT_IN_ZIP_EN, NOT_IN_ZIP_ZH), shown, dll)),
    }
}

// ── shader headers ─────────────────────────────────────────────────

pub const RESHADE_SHADERS_RAW: &'static str =
    "https://raw.githubusercontent.com/crosire/reshade-shaders/slim/Shaders/";

pub const SHADER_FILE: &'static str = "reshade-shaders/Shaders/{}";

/// A file to download and the path that it is written to, which is also the
/// line to report.
#[derive(Debug)]
pub struct Download {
    pub url: String,
    pub dest: String,
}

/// A [`Download`] as characters.
pub struct DownloadView {
    pub url: Seq<char>,
    pub dest: Seq<char>,
}

impl View for Download {
    type V = DownloadView;

    open spec fn view(&self) -> DownloadView {
        DownloadView { url: self.url@, dest: self.dest@ }
    }
}

pub open spec fn downloads(v: Seq<Download>) -> Seq<DownloadView> {
    Seq::new(v.len(), |i: int| v[i]@)
}

pub open spec fn header_download(there: bool, name: Seq<char>) -> Seq<DownloadView> {
    if there {
        Seq::empty()
    } else {
        seq![
            DownloadView { url: RESHADE_SHADERS_RAW@ + name, dest: fill(SHADER_FILE@, seq![name]) },
        ]
    }
}

fn put_header(v: &mut Vec<Download>, there: bool, name: &str)
    ensures
        downloads(final(v)@) == downloads(old(v)@) + header_download(there, name@),
{
    if !there {
        let mut url = RESHADE_SHADERS_RAW.to_owned();
        url.append(name);
        v.push(Download { url, dest: fill1(SHADER_FILE, name) });
    }
    assert(downloads(v@) =~= downloads(old(v)@) + header_download(there, name@));
}

/// The shader headers that a game lacks.
pub open spec fn header_downloads(header: bool, header_ui: bool, header_text: bool) -> Seq<
    DownloadView,
> {
    header_download(header, HEADER@) + header_download(header_ui, HEADER_UI@) + header_download(
        header_text,
        HEADER_TEXT@,
    )
}

/// The shader headers to fetch: those that are not there. The setup exe only
/// carries the DLLs.
pub fn step_headers(header: bool, header_ui: bool, header_text: bool) -> (r: Vec<Download>)
    ensures
        downloads(r@) == header_download(header, HEADER@) + header_download(header_ui, HEADER_UI@)
            + header_download(header_text, HEADER_TEXT@),
        downloads(r@) == header_downloads(header, header_ui, header_text),
{
    let mut v: Vec<Download> = Vec::new();
    put_header(&mut v, header, HEADER);
    assert(downloads(v@) =~= header_download(header, HEADER@));
    put_header(&mut v, header_ui, HEADER_UI);
    put_header(&mut v, header_text, HEADER_TEXT);
    v
}

// ── DLSS5-Feeder ───────────────────────────────────────────────────

pub const FEEDER_REPO: &'static str = "jlrouzies-fr/DLSS5-Feeder";

pub const NO_FEEDER_EN: &'static str = "no DLSS5-Feeder release found";

pub const NO_FEEDER_ZH: &'static str = "未找到 DLSS5-Feeder 版本";

/// The tag that is taken, where there is one.
pub open spec fn taken_tag(latest: Option<Seq<char>>, tags: Seq<Seq<char>>) -> Option<Seq<char>> {
    if latest is Some {
        latest
    } else if tags.len() > 0 {
        Some(tags[0])
    } else {
        None
    }
}

/// The tag to install: what upstream marks as the latest release, or else the
/// first tag of the releases page.
pub fn feeder_tag(l: Lang, latest: Option<String>, tags: &Vec<String>) -> (r: Result<
    String,
    String,
>)
    ensures
        r is Ok <==> latest is Some || tags@.len() > 0,
        r matches Ok(t) ==> t@ == (if latest is Some {
            latest->0@
        } else {
            tags@[0]@
        }),
        r matches Err(e) ==> e@ == say(l, NO_FEEDER_EN@, NO_FEEDER_ZH@),
        r is Ok <==> taken_tag(opt_text(latest), texts(tags@)) is Some,
        r matches Ok(t) ==> taken_tag(opt_text(latest), texts(tags@)) == Some(t@),
{
    match latest {
        Some(t) => Ok(t),
        None => if tags.len() > 0 {
            Ok(tags[0].as_str().to_owned())
        } else {
            Err(said(l, NO_FEEDER_EN, NO_FEEDER_ZH))
        },
    }
}

pub const NO_MEMBER_EN: &'static str = "DLSS5-Feeder {} has no {}";

pub const NO_MEMBER_ZH: &'static str = "DLSS5-Feeder {} 中没有 {}";

pub open spec fn feeder_addon(is_32: bool) -> Seq<char> {
    if is_32 {
        FEEDER_ADDON32@
    } else {
        FEEDER_ADDON@
    }
}

/// The members of a release to extract: the add-on, the effect, and for a
/// 32-bit game the 64-bit helper, which must come from the same zip.
#[derive(Debug)]
pub struct FeederMembers {
    pub addon: String,
    pub fx: String,
    pub host: Option<String>,
}

/// [`FeederMembers`] as characters.
pub struct FeederMembersView {
    pub addon: Seq<char>,
    pub fx: Seq<char>,
    pub host: Option<Seq<char>>,
}

impl View for FeederMembers {
    type V = FeederMembersView;

    open spec fn view(&self) -> FeederMembersView {
        FeederMembersView { addon: self.addon@, fx: self.fx@, host: opt_text(self.host) }
    }
}

/// The members that a release is installed from.
pub open spec fn feeder_chosen(names: Seq<Seq<char>>, is_32: bool) -> FeederMembersView {
    FeederMembersView {
        addon: first_named(names, feeder_addon(is_32))->0,
        fx: first_named(names, FEEDER_FX@)->0,
        host: if is_32 {
            first_named(names, HOST_EXE@)
        } else {
            None
        },
    }
}

/// What the release lacks, in the order it is looked for.
pub open spec fn feeder_lacks(members: Seq<Seq<char>>, is_32: bool) -> Option<Seq<char>> {
    if first_named(members, feeder_addon(is_32)) is None {
        Some(feeder_addon(is_32))
    } else if first_named(members, FEEDER_FX@) is None {
        Some(FEEDER_FX@)
    } else if is_32 && first_named(members, HOST_EXE@) is None {
        Some(HOST_EXE@)
    } else {
        None
    }
}

pub fn feeder_members(l: Lang, members: &Vec<String>, is_32: bool, tag: &str) -> (r: Result<
    FeederMembers,
    String,
>)
    ensures
        r is Ok <==> feeder_lacks(texts(members@), is_32) is None,
        r matches Ok(m) ==> m@ == feeder_chosen(texts(members@), is_32),
        r matches Err(e) ==> e@ == fill(
            say(l, NO_MEMBER_EN@, NO_MEMBER_ZH@),
            seq![tag@, feeder_lacks(texts(members@), is_32)->0],
        ),
{
    let name = if is_32 {
        FEEDER_ADDON32
    } else {
        FEEDER_ADDON
    };
    let addon = match pick(members, name) {
        Some(m) => m,
        None => {
            return Err(fill2(tr(l, NO_MEMBER_EN, NO_MEMBER_ZH), tag, name));
        },
    };
    let fx = match pick(members, FEEDER_FX) {
        Some(m) => m,
        None => {
            return Err(fill2(tr(l, NO_MEMBER_EN, NO_MEMBER_ZH), tag, FEEDER_FX));
        },
    };
    if !is_32 {
        return Ok(FeederMembers { addon, fx, host: None });
    }
    match pick(members, HOST_EXE) {
        Some(m) => Ok(FeederMembers { addon, fx, host: Some(m) }),
        None => Err(fill2(tr(l, NO_MEMBER_EN, NO_MEMBER_ZH), tag, HOST_EXE)),
    }
}

pub const BETA_EN: &'static str = " (beta)";

pub const BETA_ZH: &'static str = "（测试版）";

pub const FEEDER_CURRENT_EN: &'static str = "DLSS5-Feeder already current ({}{})";

pub const FEEDER_CURRENT_ZH: &'static str = "DLSS5-Feeder 已是最新（{}{}）";

pub const TAGGED: &'static str = "{} ({}{})";

/// A beta is never installed silently: the name is reported.
pub open spec fn beta_note(l: Lang, tag: Seq<char>) -> Seq<char> {
    if tag_is_prerelease(tag) {
        say(l, BETA_EN@, BETA_ZH@)
    } else {
        Seq::empty()
    }
}

pub open spec fn feeder_lines(l: Lang, is_32: bool, tag: Seq<char>) -> Seq<Seq<char>> {
    seq![fill(TAGGED@, seq![feeder_addon(is_32), tag, beta_note(l, tag)])] + need(
        is_32,
        fill(
            TAGGED@,
            seq![fill(IN_FOLDER@, seq![HOST_DIR@, HOST_EXE@]), tag, beta_note(l, tag)],
        ),
    ) + seq![fill(SHADER_FILE@, seq![FEEDER_FX@])]
}

/// Where the members go: the add-on into the game folder, the helper into
/// `host64`, the effect to the shaders.
pub open spec fn feeder_plan(m: FeederMembersView, is_32: bool) -> Seq<ExtractView> {
    seq![ExtractView { member: m.addon, dest: feeder_addon(is_32) }] + (match m.host {
        Some(h) => seq![
            ExtractView { member: h, dest: fill(IN_FOLDER@, seq![HOST_DIR@, HOST_EXE@]) },
        ],
        None => Seq::empty(),
    }) + seq![ExtractView { member: m.fx, dest: fill(SHADER_FILE@, seq![FEEDER_FX@]) }]
}

fn feeder_extracts(m: FeederMembers, is_32: bool) -> (r: Vec<Extract>)
    ensures
        extracts(r@) == feeder_plan(m@, is_32),
{
    let ghost all = feeder_plan(m@, is_32);
    let name = if is_32 {
        FEEDER_ADDON32
    } else {
        FEEDER_ADDON
    };
    let mut v: Vec<Extract> = vec![Extract { member: m.addon, dest: name.to_owned() }];
    if let Some(h) = m.host {
        v.push(Extract { member: h, dest: fill2(IN_FOLDER, HOST_DIR, HOST_EXE) });
    }
    v.push(Extract { member: m.fx, dest: fill1(SHADER_FILE, FEEDER_FX) });
    assert(extracts(v@) =~= all);
    v
}

/// What is extracted, with the marker that records the release: it is written
/// once the add-on is there, whatever becomes of the members after that.
pub open spec fn marked(u: UnpackedView, tag: Seq<char>) -> UnpackedView {
    if u.files.len() == 0 {
        u
    } else {
        UnpackedView {
            files: u.files.insert(
                1,
                WrittenView { dest: FEEDER_MARKER@, bytes: encode_utf8(tag) },
            ),
            ..u
        }
    }
}

fn with_marker(u: Unpacked, tag: &str) -> (r: Unpacked)
    ensures
        r@ == marked(u@, tag@),
{
    let mut u = u;
    let ghost was = u@;
    if u.files.len() > 0 {
        let m = Written { dest: FEEDER_MARKER.to_owned(), bytes: tag.as_bytes_vec() };
        u.files.insert(1, m);
        assert(written(u.files@) =~= was.files.insert(1, m@));
    }
    u
}

/// What the feeder step does: nothing, which the line says, or write the members
/// and the marker, which the lines report.
#[derive(Debug)]
pub enum FeederStep {
    Current(String),
    Place { files: Unpacked, lines: Vec<String> },
}

pub const FEEDER_ZIP_EN: &'static str = "DLSS5-Feeder download is not a valid zip";

pub const FEEDER_ZIP_ZH: &'static str = "DLSS5-Feeder 下载内容不是有效的 zip";

/// What is wrong with a release, if anything.
pub open spec fn feeder_refusal(
    l: Lang,
    archive: Seq<u8>,
    is_32: bool,
    tag: Seq<char>,
) -> Option<Seq<char>> {
    match zip_names(archive) {
        None => Some(say(l, FEEDER_ZIP_EN@, FEEDER_ZIP_ZH@)),
        Some(names) => match feeder_lacks(names, is_32) {
            Some(name) => Some(fill(say(l, NO_MEMBER_EN@, NO_MEMBER_ZH@), seq![tag, name])),
            None => None,
        },
    }
}

/// The installed Feeder is that of the release: the add-on, and the helper of a
/// 32-bit game, have the sizes of their members.
pub open spec fn feeder_current(
    archive: Seq<u8>,
    m: FeederMembersView,
    addon_len: Option<u64>,
    host_len: Option<u64>,
) -> bool {
    &&& addon_len is Some
    &&& addon_len == zip_size(archive, m.addon)
    &&& m.host is Some ==> host_len is Some && host_len == zip_size(archive, m.host->0)
}

fn beta(l: Lang, tag: &str) -> (r: String)
    ensures
        r@ == beta_note(l, tag@),
{
    if is_prerelease_tag(tag) {
        said(l, BETA_EN, BETA_ZH)
    } else {
        let none = String::new();
        assert(none@ =~= Seq::empty());
        none
    }
}

/// Installs the Feeder from a release. `present` tells that one is installed,
/// `addon_len` and `host_len` are the sizes of its add-on and its helper.
pub fn step_feeder(
    l: Lang,
    archive: &[u8],
    is_32: bool,
    present: bool,
    tag: &str,
    addon_len: Option<u64>,
    host_len: Option<u64>,
) -> (r: Result<FeederStep, String>)
    ensures
        ({
            let refusal = feeder_refusal(l, archive@, is_32, tag@);
            let m = feeder_chosen(zip_names(archive@)->0, is_32);
            &&& r is Ok <==> refusal is None
            &&& r matches Err(e) ==> refusal == Some(e@)
            &&& r matches Ok(FeederStep::Current(t)) ==> present && feeder_current(
                archive@,
                m,
                addon_len,
                host_len,
            ) && t@ == fill(
                say(l, FEEDER_CURRENT_EN@, FEEDER_CURRENT_ZH@),
                seq![tag@, beta_note(l, tag@)],
            )
            &&& r matches Ok(FeederStep::Place { files, lines }) ==> !(present && feeder_current(
                archive@,
                m,
                addon_len,
                host_len,
            )) && files@ == marked(unpacked(archive@, feeder_plan(m, is_32)), tag@) && texts(
                lines@,
            ) == feeder_lines(l, is_32, tag@)
        }),
{
    let names = match members(archive, tr(l, FEEDER_ZIP_EN, FEEDER_ZIP_ZH)) {
        Ok(v) => v,
        Err(e) => {
            return Err(e);
        },
    };
    let m = match feeder_members(l, &names, is_32, tag) {
        Ok(m) => m,
        Err(e) => {
            return Err(e);
        },
    };
    let note = beta(l, tag);
    let host_same = match &m.host {
        Some(h) => same_size(archive, h.as_str(), host_len),
        None => true,
    };
    if present && host_same && same_size(archive, m.addon.as_str(), addon_len) {
        return Ok(
            FeederStep::Current(
                fill2(tr(l, FEEDER_CURRENT_EN, FEEDER_CURRENT_ZH), tag, note.as_str()),
            ),
        );
    }
    let name = if is_32 {
        FEEDER_ADDON32
    } else {
        FEEDER_ADDON
    };
    let mut lines: Vec<String> = vec![fill3(TAGGED, name, tag, note.as_str())];
    if is_32 {
        let host = fill2(IN_FOLDER, HOST_DIR, HOST_EXE);
        lines.push(fill3(TAGGED, host.as_str(), tag, note.as_str()));
    }
    lines.push(fill1(SHADER_FILE, FEEDER_FX));
    assert(texts(lines@) =~= feeder_lines(l, is_32, tag@));
    let plan = feeder_extracts(m, is_32);
    Ok(FeederStep::Place { files: with_marker(unpack(archive, &plan), tag), lines })
}

/// What of a Feeder that is left over is removed.
pub open spec fn left_over(addon_there: bool, fx_there: bool) -> Seq<Seq<char>> {
    need(addon_there, FEEDER_ADDON@) + need(fx_there, fill(SHADER_FILE@, seq![FEEDER_FX@]))
}

/// What a Feeder that is left over from an earlier install leaves: the paths
/// that are removed, in their order.
pub fn step_feeder_cleanup(addon_there: bool, fx_there: bool) -> (r: Vec<String>)
    ensures
        texts(r@) == need(addon_there, FEEDER_ADDON@) + need(
            fx_there,
            fill(SHADER_FILE@, seq![FEEDER_FX@]),
        ),
        texts(r@) == left_over(addon_there, fx_there),
{
    let mut v: Vec<String> = Vec::new();
    if addon_there {
        v.push(FEEDER_ADDON.to_owned());
    }
    if fx_there {
        v.push(fill1(SHADER_FILE, FEEDER_FX));
    }
    assert(texts(v@) =~= need(addon_there, FEEDER_ADDON@) + need(
        fx_there,
        fill(SHADER_FILE@, seq![FEEDER_FX@]),
    ));
    v
}

// ── the Vulkan kit ─────────────────────────────────────────────────

pub const VULKAN_SETUP_TXT: &'static str = "\
DLSS5oneclick — Vulkan Feeder kit (manual finish)
================================================
This tool does NOT register ReShade as a Vulkan layer (that is why full
Install is refused). Files copied here still need ReShade's own setup.

1. Run ReShade Setup → select this game exe → choose Vulkan → Addon support.
2. In ReShade.ini next to the exe, under [ADDON]:
     AddonPath=<this folder>
3. Ensure dlss5-feed.addon64 and reshade-shaders/Shaders/DLSS5_Feed.fx are here
   (already copied by «Copy Vulkan Feeder kit»).
4. Also place a neural consumer (renodx-dlss5.addon64 + nvngx_dlssnr.dll) as for
   a 64-bit D3D game, or use Deep Fried Chicken per Feeder docs.
5. If dlss5-feed.log reports missing interop entry points, start the game via
   run-with-feed-layer.bat from the DLSS5-Feeder repo layer/ folder.

Do not expect dxgi.dll from this tool to load under Vulkan.
";

pub const VULKAN_NOTE: &'static str = "VULKAN-SETUP.txt";

pub const WITH_TAG: &'static str = "{} ({})";

/// The kit for a manual Vulkan ReShade: the files to write, the note to write
/// after them, and the lines to report.
#[derive(Debug)]
pub struct VulkanKit {
    pub files: Unpacked,
    pub note: &'static str,
    pub lines: Vec<String>,
}

/// Official Feeder add-on + FX from a release zip, and the setup note.
pub fn copy_vulkan_feeder_kit_from_zip(l: Lang, archive: &[u8], tag: &str) -> (r: Result<
    VulkanKit,
    String,
>)
    ensures
        ({
            let refusal = feeder_refusal(l, archive@, false, tag@);
            &&& r is Ok <==> refusal is None
            &&& r matches Err(e) ==> refusal == Some(e@)
            &&& r matches Ok(k) ==> {
                &&& k.files@ == unpacked(
                    archive@,
                    feeder_plan(feeder_chosen(zip_names(archive@)->0, false), false),
                )
                &&& k.note@ == VULKAN_SETUP_TXT@
                &&& texts(k.lines@) == seq![
                    fill(WITH_TAG@, seq![FEEDER_ADDON@, tag@]),
                    fill(SHADER_FILE@, seq![FEEDER_FX@]),
                    VULKAN_NOTE@,
                ]
            }
        }),
{
    let names = match members(archive, tr(l, FEEDER_ZIP_EN, FEEDER_ZIP_ZH)) {
        Ok(v) => v,
        Err(e) => {
            return Err(e);
        },
    };
    match feeder_members(l, &names, false, tag) {
        Ok(m) => {
            let lines: Vec<String> = vec![
                fill2(WITH_TAG, FEEDER_ADDON, tag),
                fill1(SHADER_FILE, FEEDER_FX),
                VULKAN_NOTE.to_owned(),
            ];
            assert(texts(lines@) =~= seq![
                fill(WITH_TAG@, seq![FEEDER_ADDON@, tag@]),
                fill(SHADER_FILE@, seq![FEEDER_FX@]),
                VULKAN_NOTE@,
            ]);
            let plan = feeder_extracts(m, false);
            Ok(VulkanKit { files: unpack(archive, &plan), note: VULKAN_SETUP_TXT, lines })
        },
        Err(e) => Err(e),
    }
}

// ── LumeniteFX ─────────────────────────────────────────────────────

pub const LUMENITE_ZIP: &'static str =
    "https://codeload.github.com/umar-afzaal/LumeniteFX/zip/refs/heads/mainline";

pub const FX_PATTERN: &'static str = r"(?i)/Shaders/lumenite_[^/]+\.fx$";

pub const FXH_PATTERN: &'static str = r"(?i)/Shaders/include/[^/]+\.fxh$";

pub const PNG_PATTERN: &'static str = r"(?i)/Textures/lumenite_bluenoise256\.png$";

/// The members that a pattern matches, in their order.
pub open spec fn matching(members: Seq<Seq<char>>, pattern: Seq<char>) -> Seq<Seq<char>> {
    members.filter(|m: Seq<char>| regex_match(pattern, m) == Some(true))
}

/// The members below a folder, under their file names.
pub open spec fn placed_in(members: Seq<Seq<char>>, dir: Seq<char>) -> Seq<ExtractView> {
    Seq::new(
        members.len(),
        |i: int|
            ExtractView {
                member: members[i],
                dest: fill(IN_FOLDER@, seq![dir, file_name(members[i])]),
            },
    )
}

pub const LAYOUT_EN: &'static str =
    "LumeniteFX archive layout changed; shaders or texture not found";

pub const LAYOUT_ZH: &'static str = "LumeniteFX 归档布局已变化；未找到着色器或纹理";

pub const TEXTURES: &'static str = "reshade-shaders/Textures";

/// The members that a pattern matches.
pub fn members_matching(members: &Vec<String>, pattern: &str) -> (r: Vec<String>)
    ensures
        texts(r@) == matching(texts(members@), pattern@),
{
    let ghost all = texts(members@);
    let ghost f = |m: Seq<char>| regex_match(pattern@, m) == Some(true);
    let mut out: Vec<String> = Vec::new();
    let mut i: usize = 0;
    proof {
        reveal(Seq::filter);
        assert(all.take(0).filter(f) =~= Seq::empty());
        assert(texts(out@) =~= Seq::empty());
    }
    while i < members.len()
        invariant
            i <= members@.len(),
            all == texts(members@),
            f == (|m: Seq<char>| regex_match(pattern@, m) == Some(true)),
            texts(out@) == all.take(i as int).filter(f),
        decreases members@.len() - i,
    {
        proof {
            reveal(Seq::filter);
            assert(all.take(i + 1).drop_last() =~= all.take(i as int));
            assert(all.take(i + 1).last() == members@[i as int]@);
        }
        let hit = match is_match(pattern, members[i].as_str()) {
            Some(b) => b,
            None => false,
        };
        if hit {
            let m = members[i].as_str().to_owned();
            proof {
                lemma_texts_push(out@, m);
            }
            out.push(m);
        }
        i = i + 1;
    }
    assert(all.take(all.len() as int) =~= all);
    out
}

fn put_extracts(out: &mut Vec<Extract>, members: &Vec<String>, dir: &str)
    ensures
        extracts(final(out)@) == extracts(old(out)@) + placed_in(texts(members@), dir@),
{
    let ghost before = extracts(out@);
    let ghost all = placed_in(texts(members@), dir@);
    let mut i: usize = 0;
    assert(before + all.take(0) =~= before);
    while i < members.len()
        invariant
            i <= members@.len(),
            all == placed_in(texts(members@), dir@),
            extracts(out@) == before + all.take(i as int),
        decreases members@.len() - i,
    {
        let cs = chars(members[i].as_str());
        let name = string(text_after_last(cs.as_slice(), "/"));
        let e = Extract {
            member: members[i].as_str().to_owned(),
            dest: fill2(IN_FOLDER, dir, name.as_str()),
        };
        let ghost was = extracts(out@);
        out.push(e);
        proof {
            assert(extracts(out@) =~= was.push(e@));
            assert(all[i as int] == e@);
            assert((before + all.take(i as int)).push(e@) =~= before + all.take(i + 1));
        }
        i = i + 1;
    }
    assert(all.take(all.len() as int) =~= all);
}

/// What LumeniteFX installs, from the members of the archive that are shaders,
/// includes and the texture.
pub fn lumenite_layout(
    l: Lang,
    fx: &Vec<String>,
    fxh: &Vec<String>,
    png: &Vec<String>,
) -> (r: Result<Vec<Extract>, String>)
    ensures
        r is Ok <==> fx@.len() > 0 && png@.len() > 0,
        r matches Ok(v) ==> extracts(v@) == placed_in(
            texts(fx@),
            SHADERS@,
        ) + placed_in(texts(fxh@), INCLUDE@) + placed_in(
            texts(png@),
            TEXTURES@,
        ),
        r matches Err(e) ==> e@ == say(l, LAYOUT_EN@, LAYOUT_ZH@),
{
    if fx.len() == 0 || png.len() == 0 {
        return Err(said(l, LAYOUT_EN, LAYOUT_ZH));
    }
    let mut v: Vec<Extract> = Vec::new();
    put_extracts(&mut v, fx, SHADERS);
    assert(extracts(v@) =~= placed_in(texts(fx@), SHADERS@));
    put_extracts(&mut v, fxh, INCLUDE);
    put_extracts(&mut v, png, TEXTURES);
    Ok(v)
}

/// The plan for LumeniteFX, from the members of its archive. Paths in the
/// archive do not matter beyond the patterns: only file names are taken over.
pub open spec fn lumenite_plan(names: Seq<Seq<char>>) -> Seq<ExtractView> {
    placed_in(matching(names, FX_PATTERN@), SHADERS@) + placed_in(
        matching(names, FXH_PATTERN@),
        INCLUDE@,
    ) + placed_in(matching(names, PNG_PATTERN@), TEXTURES@)
}

pub open spec fn lumenite_refusal(l: Lang, archive: Seq<u8>) -> Option<Seq<char>> {
    match zip_names(archive) {
        None => Some(say(l, LUMENITE_NOT_ZIP_EN@, LUMENITE_NOT_ZIP_ZH@)),
        Some(names) => if matching(names, FX_PATTERN@).len() == 0 || matching(
            names,
            PNG_PATTERN@,
        ).len() == 0 {
            Some(say(l, LAYOUT_EN@, LAYOUT_ZH@))
        } else {
            None
        },
    }
}

pub const LUMENITE_NOT_ZIP_EN: &'static str = "LumeniteFX download is not a valid zip";

pub const LUMENITE_NOT_ZIP_ZH: &'static str = "LumeniteFX 下载内容不是有效的 zip";

/// Installs LumeniteFX from its archive. The paths of the files are also the
/// lines to report.
pub fn install_lumenite_from_zip(l: Lang, archive: &[u8]) -> (r: Result<Unpacked, String>)
    ensures
        r is Ok <==> lumenite_refusal(l, archive@) is None,
        r matches Ok(u) ==> u@ == unpacked(archive@, lumenite_plan(zip_names(archive@)->0)),
        r matches Err(e) ==> lumenite_refusal(l, archive@) == Some(e@),
{
    let names = match members(archive, tr(l, LUMENITE_NOT_ZIP_EN, LUMENITE_NOT_ZIP_ZH)) {
        Ok(v) => v,
        Err(e) => {
            return Err(e);
        },
    };
    let fx = members_matching(&names, FX_PATTERN);
    let fxh = members_matching(&names, FXH_PATTERN);
    let png = members_matching(&names, PNG_PATTERN);
    assert(texts(fx@).len() == fx@.len() && texts(png@).len() == png@.len());
    match lumenite_layout(l, &fx, &fxh, &png) {
        Ok(plan) => Ok(unpack(archive, &plan)),
        Err(e) => Err(e),
    }
}

// ── laws ───────────────────────────────────────────────────────────

/// Only a copy that this tool placed is ever refreshed, and only for another
/// version than the one on record; a missing one is always fetched.
pub proof fn law_only_marked_copies_are_refreshed(
    present: bool,
    marker: Option<Seq<char>>,
    version: Seq<char>,
    current: Seq<char>,
    newer: Seq<char>,
    foreign: Seq<char>,
)
    ensures
        ({
            let f = by_marker(present, marker, version, current, newer, foreign);
            &&& f is Get <==> !present || marker is Some && trim(marker->0) != version
            &&& present && marker is None ==> f == FetchView::Leave(foreign)
        }),
{
}

/// What follows the last slash holds none.
proof fn lemma_file_name(path: Seq<char>)
    ensures
        forall|j: int| 0 <= j < file_name(path).len() ==> file_name(path)[j] != '/',
{
    reveal_strlit("/");
    let p = "/"@;
    lemma_rfind_from(path, p, path.len() - 1);
    let k: int = match rfind(path, p) {
        Some(i) => i + 1,
        None => 0,
    };
    assert(file_name(path) =~= path.skip(k));
    assert forall|j: int| 0 <= j < file_name(path).len() implies file_name(path)[j] != '/' by {
        if path[k + j] == '/' {
            assert(path.subrange(k + j, k + j + 1) =~= p);
            assert(occurs_at(path, p, k + j));
        }
    }
}

/// Joining a folder and a name.
pub proof fn lemma_in_folder(dir: Seq<char>, name: Seq<char>)
    ensures
        fill(IN_FOLDER@, seq![dir, name]) == dir + "/"@ + name,
{
    reveal_strlit("{}/{}");
    reveal_strlit("{}");
    reveal_strlit("/");
    let t = IN_FOLDER@;
    let h = "{}"@;
    assert(t.subrange(0, 2) =~= h);
    assert(occurs_at(t, h, 0));
    let u = t.skip(2);
    assert(u[0] == '/');
    assert(u.subrange(1, 3) =~= h);
    assert(occurs_at(u, h, 1));
    assert(!occurs_at(u, h, 0)) by {
        if occurs_at(u, h, 0) {
            assert(u.subrange(0, 2)[0] == '{');
        }
    }
    reveal_with_fuel(find_from, 3);
    assert(find(t, h) == Some(0int));
    assert(find(u, h) == Some(1int));
    let args = seq![dir, name];
    assert(args.skip(1) =~= seq![name]);
    assert(seq![name].skip(1) =~= Seq::empty());
    assert(fill(u.skip(3), Seq::empty()) == u.skip(3));
    assert(u.skip(3) =~= Seq::empty());
    assert(u.take(1) =~= "/"@);
    assert(fill(u, seq![name]) =~= "/"@ + name);
    assert(t.take(0) =~= Seq::empty());
    assert(fill(t, args) =~= dir + ("/"@ + name));
    assert(dir + ("/"@ + name) =~= dir + "/"@ + name);
}

/// Whatever the paths in the archive: LumeniteFX is written to its three folders
/// alone, each file under a name without a slash.
pub proof fn law_lumenite_stays_in_its_folders(names: Seq<Seq<char>>, i: int)
    requires
        0 <= i < lumenite_plan(names).len(),
    ensures
        ({
            let e = lumenite_plan(names)[i];
            let name = file_name(e.member);
            &&& forall|j: int| 0 <= j < name.len() ==> name[j] != '/'
            &&& e.dest == SHADERS@ + "/"@ + name || e.dest == INCLUDE@ + "/"@ + name || e.dest
                == TEXTURES@ + "/"@ + name
        }),
{
    let e = lumenite_plan(names)[i];
    let a = placed_in(matching(names, FX_PATTERN@), SHADERS@);
    let b = placed_in(matching(names, FXH_PATTERN@), INCLUDE@);
    let c = placed_in(matching(names, PNG_PATTERN@), TEXTURES@);
    let name = file_name(e.member);
    lemma_file_name(e.member);
    lemma_in_folder(SHADERS@, name);
    lemma_in_folder(INCLUDE@, name);
    lemma_in_folder(TEXTURES@, name);
    if i < a.len() {
        assert(e == a[i]);
    } else if i < a.len() + b.len() {
        assert(e == b[i - a.len()]);
    } else {
        assert(e == c[i - a.len() - b.len()]);
    }
}

} // verus!
