//! The steps that place what runs the DLSS 5 model: the RenoDX add-on with its
//! models, the bridge, Neural Upstream, and what they need beside them.
use vstd::prelude::*;
use crate::archive::{
    members, same_size, unpack_one, unpacked, zip_names, zip_size, ExtractView, Unpacked,
};
use crate::game::{
    GameStatus, Mode, DLSS5_ADDON, DLSSNR_DLL, DLSSNR_MARKER, DLSS_DLL, DLSS_MARKER, HOST_DIR,
    REFRAMEWORK_DLL, UPSTREAM_ADDON,
};
use crate::install::{need, IN_FOLDER};
use crate::lang::{say, tr, Lang};
use crate::message::{fill, fill1, fill2, said};
use crate::number::{parse_unsigned, parsed_unsigned};
use crate::opti::{Fetch, FetchView};
use crate::steps::{by_marker, first_ending, marker_fetch, pick_ending, WITH_TAG};
use crate::text::{chars, opt_str, opt_text, texts};

verus! {

pub const BRIDGE_DOWNLOAD: &'static str =
    "https://github.com/NIGos/dlss5-bridge/releases/latest/download/dlss5-bridge.addon64";

/// matiasLombo/neural-upstream: the neural consumer that runs the network at the
/// game's render resolution instead of at output resolution, replacing the
/// RenoDX DLSS 5 add-on rather than joining it.
pub const UPSTREAM_DOWNLOAD: &'static str =
    "https://github.com/matiasLombo/neural-upstream/releases/latest/download/nvngx.dll.addon64";

pub const REFRAMEWORK_ZIP: &'static str =
    "https://github.com/praydog/REFramework-nightly/releases/latest/download/REFramework.zip";

// ── the add-on and its models ──────────────────────────────────────

/// A piece of the DLSS 5 add-on: the prefix of its release tags, its file,
/// whether it is there, the marker that records what this tool placed, and
/// whether an installed copy is compared with the download instead.
#[derive(Debug, Clone, Copy)]
pub struct Piece {
    pub prefix: &'static str,
    pub file: &'static str,
    pub present: bool,
    pub marker: Option<&'static str>,
    pub compared: bool,
}

/// A [`Piece`] as characters.
pub struct PieceView {
    pub prefix: Seq<char>,
    pub file: Seq<char>,
    pub present: bool,
    pub marker: Option<Seq<char>>,
    pub compared: bool,
}

impl View for Piece {
    type V = PieceView;

    open spec fn view(&self) -> PieceView {
        PieceView {
            prefix: self.prefix@,
            file: self.file@,
            present: self.present,
            marker: opt_str(self.marker),
            compared: self.compared,
        }
    }
}

/// The DLSS 5 add-on of a game.
pub open spec fn addon_piece(st: GameStatus) -> PieceView {
    PieceView {
        prefix: "renodx-dlss5-"@,
        file: DLSS5_ADDON@,
        present: false,
        marker: None,
        compared: st.dlss5_addon,
    }
}

/// The DLSS 5 model of a game.
pub open spec fn model_piece(st: GameStatus) -> PieceView {
    PieceView {
        prefix: "dlssnr-"@,
        file: DLSSNR_DLL@,
        present: st.dlssnr,
        marker: Some(DLSSNR_MARKER@),
        compared: false,
    }
}

/// The DLSS library of a game.
pub open spec fn dlss_piece(st: GameStatus) -> PieceView {
    PieceView {
        prefix: "dlss-"@,
        file: DLSS_DLL@,
        present: st.dlss || st.mode == Mode::Native,
        marker: Some(DLSS_MARKER@),
        compared: false,
    }
}

/// The pieces, in the order in which they are looked up. The add-on is
/// compared by its (small) zip, the two NVIDIA DLLs by the release tag recorded
/// when this tool placed them. A game with its own DLSS keeps its own
/// nvngx_dlss.dll.
pub fn dlss5_pieces(st: &GameStatus) -> (r: [Piece; 3])
    ensures
        r[0].prefix@ == "renodx-dlss5-"@ && r[0].file@ == DLSS5_ADDON@,
        !r[0].present && r[0].marker is None && r[0].compared == st.dlss5_addon,
        r[1].prefix@ == "dlssnr-"@ && r[1].file@ == DLSSNR_DLL@,
        r[1].present == st.dlssnr && opt_str(r[1].marker) == Some(DLSSNR_MARKER@),
        !r[1].compared && !r[2].compared,
        r[2].prefix@ == "dlss-"@ && r[2].file@ == DLSS_DLL@,
        r[2].present == (st.dlss || st.mode == Mode::Native) && opt_str(r[2].marker) == Some(
            DLSS_MARKER@,
        ),
        r[0]@ == addon_piece(*st),
        r[1]@ == model_piece(*st),
        r[2]@ == dlss_piece(*st),
{
    [
        Piece {
            prefix: "renodx-dlss5-",
            file: DLSS5_ADDON,
            present: false,
            marker: None,
            compared: st.dlss5_addon,
        },
        Piece {
            prefix: "dlssnr-",
            file: DLSSNR_DLL,
            present: st.dlssnr,
            marker: Some(DLSSNR_MARKER),
            compared: false,
        },
        Piece {
            prefix: "dlss-",
            file: DLSS_DLL,
            present: st.dlss || st.mode == Mode::Native,
            marker: Some(DLSS_MARKER),
            compared: false,
        },
    ]
}

pub const PIECE_CURRENT_EN: &'static str = "{} already current ({})";

pub const PIECE_CURRENT_ZH: &'static str = "{} 已是最新（{}）";

pub const PIECE_NEWER_EN: &'static str = "{}: {} is out, refreshing";

pub const PIECE_NEWER_ZH: &'static str = "{}：{} 已过时，正在刷新";

pub const PIECE_FOREIGN_EN: &'static str = "{} present (not placed by this tool)";

pub const PIECE_FOREIGN_ZH: &'static str = "已存在 {}（非本工具放置）";

pub open spec fn piece_current(l: Lang, file: Seq<char>, tag: Seq<char>) -> Seq<char> {
    fill(say(l, PIECE_CURRENT_EN@, PIECE_CURRENT_ZH@), seq![file, tag])
}

/// Whether a piece is fetched; `recorded` is the text of its marker, where it
/// has one. A DLL without a marker is the game's or the user's and is left
/// alone.
pub fn step_dlss5(l: Lang, piece: &Piece, recorded: Option<&str>, tag: &str) -> (r: Fetch)
    ensures
        r@ == by_marker(
            piece.present,
            opt_str(recorded),
            tag@,
            piece_current(l, piece.file@, tag@),
            fill(say(l, PIECE_NEWER_EN@, PIECE_NEWER_ZH@), seq![piece.file@, tag@]),
            fill(say(l, PIECE_FOREIGN_EN@, PIECE_FOREIGN_ZH@), seq![piece.file@]),
        ),
{
    marker_fetch(
        piece.present,
        recorded,
        tag,
        fill2(tr(l, PIECE_CURRENT_EN, PIECE_CURRENT_ZH), piece.file, tag),
        fill2(tr(l, PIECE_NEWER_EN, PIECE_NEWER_ZH), piece.file, tag),
        fill1(tr(l, PIECE_FOREIGN_EN, PIECE_FOREIGN_ZH), piece.file),
    )
}

pub const ADDON_ZIP_EN: &'static str = "DLSS 5 add-on download is not a valid zip";

pub const ADDON_ZIP_ZH: &'static str = "DLSS 5 附加组件下载内容不是有效的 zip";

/// The installed add-on is that of its zip: the member of its name has the size
/// of the installed file.
pub open spec fn addon_same(names: Seq<Seq<char>>, archive: Seq<u8>, local: Option<u64>) -> bool {
    match first_ending(names, DLSS5_ADDON@) {
        Some(m) => local is Some && local == zip_size(archive, m),
        None => false,
    }
}

/// An add-on of size `local` that is compared is left as it is where its zip
/// holds the same; the line then says so.
pub fn addon_current(
    l: Lang,
    archive: &[u8],
    compared: bool,
    local: Option<u64>,
    tag: &str,
) -> (r: Result<Option<String>, String>)
    ensures
        r is Err <==> compared && zip_names(archive@) is None,
        r matches Err(e) ==> e@ == say(l, ADDON_ZIP_EN@, ADDON_ZIP_ZH@),
        r matches Ok(line) ==> opt_text(line) == (if compared && addon_same(
            zip_names(archive@)->0,
            archive@,
            local,
        ) {
            Some(piece_current(l, DLSS5_ADDON@, tag@))
        } else {
            None
        }),
{
    if !compared {
        return Ok(None);
    }
    let names = match members(archive, tr(l, ADDON_ZIP_EN, ADDON_ZIP_ZH)) {
        Ok(v) => v,
        Err(e) => {
            return Err(e);
        },
    };
    let same = match pick_ending(&names, DLSS5_ADDON) {
        Some(m) => same_size(archive, m.as_str(), local),
        None => false,
    };
    if same {
        Ok(Some(fill2(tr(l, PIECE_CURRENT_EN, PIECE_CURRENT_ZH), DLSS5_ADDON, tag)))
    } else {
        Ok(None)
    }
}

/// The line for a piece that was placed.
pub open spec fn piece_text(is_32: bool, file: Seq<char>, tag: Seq<char>) -> Seq<char> {
    fill(
        WITH_TAG@,
        seq![
            if is_32 {
                fill(IN_FOLDER@, seq![HOST_DIR@, file])
            } else {
                file
            },
            tag,
        ],
    )
}

/// The line for a piece that was placed; a 32-bit game has it in `host64`.
pub fn piece_line(is_32: bool, file: &str, tag: &str) -> (r: String)
    ensures
        r@ == fill(
            WITH_TAG@,
            seq![
                if is_32 {
                    fill(IN_FOLDER@, seq![HOST_DIR@, file@])
                } else {
                    file@
                },
                tag@,
            ],
        ),
        r@ == piece_text(is_32, file@, tag@),
{
    if is_32 {
        let path = fill2(IN_FOLDER, HOST_DIR, file);
        fill2(WITH_TAG, path.as_str(), tag)
    } else {
        fill2(WITH_TAG, file, tag)
    }
}

/// The OptiScaler engine and Neural Upstream: just the model DLL beside them.
pub fn step_dlssnr_only(present: bool, recorded: Option<&str>, tag: &str) -> (r: Fetch)
    ensures
        r@ == by_marker(
            present,
            opt_str(recorded),
            tag@,
            fill(PIECE_CURRENT_EN@, seq![DLSSNR_DLL@, tag@]),
            fill(PIECE_NEWER_EN@, seq![DLSSNR_DLL@, tag@]),
            fill(PIECE_FOREIGN_EN@, seq![DLSSNR_DLL@]),
        ),
{
    marker_fetch(
        present,
        recorded,
        tag,
        fill2(PIECE_CURRENT_EN, DLSSNR_DLL, tag),
        fill2(PIECE_NEWER_EN, DLSSNR_DLL, tag),
        fill1(PIECE_FOREIGN_EN, DLSSNR_DLL),
    )
}

// ── components without a version in their name ─────────────────────

/// What was learned of the published file's size.
#[derive(Debug, Clone, Copy, PartialEq, Eq, Structural)]
pub enum RemoteSize {
    Known(u64),
    NotGiven,
    Failed,
}

/// An existing copy is refreshed whenever the published file differs in size.
pub open spec fn by_size(
    present: bool,
    local: u64,
    remote: RemoteSize,
    changed: Seq<char>,
    current: Seq<char>,
    unchecked: Seq<char>,
) -> FetchView {
    if !present {
        FetchView::Get(None)
    } else {
        match remote {
            RemoteSize::Known(n) => if n != local {
                FetchView::Get(Some(changed))
            } else {
                FetchView::Leave(current)
            },
            RemoteSize::NotGiven => FetchView::Leave(current),
            RemoteSize::Failed => FetchView::Leave(unchecked),
        }
    }
}

fn size_fetch(
    present: bool,
    local: u64,
    remote: RemoteSize,
    changed: String,
    current: String,
    unchecked: String,
) -> (r: Fetch)
    ensures
        r@ == by_size(present, local, remote, changed@, current@, unchecked@),
{
    if !present {
        return Fetch::Get(None);
    }
    match remote {
        RemoteSize::Known(n) => if n != local {
            Fetch::Get(Some(changed))
        } else {
            Fetch::Leave(current)
        },
        RemoteSize::NotGiven => Fetch::Leave(current),
        RemoteSize::Failed => Fetch::Leave(unchecked),
    }
}

pub const BRIDGE_CHANGED_EN: &'static str = "dlss5-bridge changed upstream, refreshing";

pub const BRIDGE_CHANGED_ZH: &'static str = "dlss5-bridge 上游已更新，正在刷新";

pub const BRIDGE_CURRENT_EN: &'static str = "dlss5-bridge.addon64 already current";

pub const BRIDGE_CURRENT_ZH: &'static str = "dlss5-bridge.addon64 已是最新";

pub const BRIDGE_UNCHECKED_EN: &'static str =
    "dlss5-bridge.addon64 present (could not check for a newer one)";

pub const BRIDGE_UNCHECKED_ZH: &'static str = "已存在 dlss5-bridge.addon64（无法检查新版本）";

/// Whether the DX11 bridge is fetched.
pub fn step_bridge(l: Lang, present: bool, local: u64, remote: RemoteSize) -> (r: Fetch)
    ensures
        r@ == by_size(
            present,
            local,
            remote,
            say(l, BRIDGE_CHANGED_EN@, BRIDGE_CHANGED_ZH@),
            say(l, BRIDGE_CURRENT_EN@, BRIDGE_CURRENT_ZH@),
            say(l, BRIDGE_UNCHECKED_EN@, BRIDGE_UNCHECKED_ZH@),
        ),
{
    size_fetch(
        present,
        local,
        remote,
        said(l, BRIDGE_CHANGED_EN, BRIDGE_CHANGED_ZH),
        said(l, BRIDGE_CURRENT_EN, BRIDGE_CURRENT_ZH),
        said(l, BRIDGE_UNCHECKED_EN, BRIDGE_UNCHECKED_ZH),
    )
}

pub const UP_CHANGED_EN: &'static str = "neural-upstream changed upstream, refreshing";

pub const UP_CHANGED_ZH: &'static str = "neural-upstream 上游已更新，正在刷新";

pub const UP_CURRENT_EN: &'static str = "{} already current";

pub const UP_CURRENT_ZH: &'static str = "{} 已是最新";

pub const UP_UNCHECKED_EN: &'static str = "{} present (could not check for a newer one)";

pub const UP_UNCHECKED_ZH: &'static str = "已存在 {}（无法检查新版本）";

/// Whether Neural Upstream is fetched.
pub fn step_upstream(l: Lang, present: bool, local: u64, remote: RemoteSize) -> (r: Fetch)
    ensures
        r@ == by_size(
            present,
            local,
            remote,
            say(l, UP_CHANGED_EN@, UP_CHANGED_ZH@),
            fill(say(l, UP_CURRENT_EN@, UP_CURRENT_ZH@), seq![UPSTREAM_ADDON@]),
            fill(say(l, UP_UNCHECKED_EN@, UP_UNCHECKED_ZH@), seq![UPSTREAM_ADDON@]),
        ),
{
    size_fetch(
        present,
        local,
        remote,
        said(l, UP_CHANGED_EN, UP_CHANGED_ZH),
        fill1(tr(l, UP_CURRENT_EN, UP_CURRENT_ZH), UPSTREAM_ADDON),
        fill1(tr(l, UP_UNCHECKED_EN, UP_UNCHECKED_ZH), UPSTREAM_ADDON),
    )
}

/// Which neural-upstream strength preset to seed; 0 leaves the overlay's own.
pub const UPSTREAM_PRESET_ENV: &'static str = "DLSS5ONECLICK_UPSTREAM_PRESET";

/// A strength preset of neural-upstream.
#[derive(Debug)]
pub struct UpstreamPreset {
    pub name: String,
    pub id: u8,
}

/// The first preset of that id.
pub open spec fn preset_at(presets: Seq<UpstreamPreset>, id: nat) -> Option<int>
    decreases presets.len(),
{
    if presets.len() == 0 {
        None
    } else {
        match preset_at(presets.drop_last(), id) {
            Some(i) => Some(i),
            None => if presets.last().id == id {
                Some(presets.len() - 1)
            } else {
                None
            },
        }
    }
}

/// The preset that was asked for, where there is one of that id; otherwise 0.
pub open spec fn chosen_preset(asked: Option<Seq<char>>, presets: Seq<UpstreamPreset>) -> nat {
    match asked {
        Some(t) => match parse_unsigned(t, u8::MAX as nat) {
            Some(n) => if preset_at(presets, n) is Some {
                n
            } else {
                0
            },
            None => 0,
        },
        None => 0,
    }
}

fn find_preset(presets: &Vec<UpstreamPreset>, id: u8) -> (r: Option<usize>)
    ensures
        match r {
            Some(i) => i < presets@.len() && preset_at(presets@, id as nat) == Some(i as int)
                && presets@[i as int].id == id,
            None => preset_at(presets@, id as nat) is None,
        },
{
    let mut i: usize = 0;
    assert(presets@.take(0) =~= Seq::empty());
    while i < presets.len()
        invariant
            i <= presets@.len(),
            preset_at(presets@.take(i as int), id as nat) is None,
        decreases presets@.len() - i,
    {
        proof {
            assert(presets@.take(i + 1).drop_last() =~= presets@.take(i as int));
            assert(presets@.take(i + 1).last() == presets@[i as int]);
        }
        if presets[i].id == id {
            proof {
                lemma_preset_at(presets@, id as nat, i + 1);
            }
            return Some(i);
        }
        i = i + 1;
    }
    assert(presets@.take(presets@.len() as int) =~= presets@);
    None
}

proof fn lemma_preset_at(v: Seq<UpstreamPreset>, id: nat, k: int)
    requires
        0 <= k <= v.len(),
        preset_at(v.take(k), id) is Some,
    ensures
        preset_at(v, id) == preset_at(v.take(k), id),
    decreases v.len() - k,
{
    if k < v.len() {
        assert(v.take(k + 1).drop_last() =~= v.take(k));
        lemma_preset_at(v, id, k + 1);
    } else {
        assert(v.take(k) =~= v);
    }
}

/// The preset to seed: what the environment variable asks for, where there is a
/// preset of that id.
pub fn upstream_preset(asked: Option<&str>, presets: &Vec<UpstreamPreset>) -> (r: u8)
    ensures
        r == chosen_preset(opt_str(asked), presets@),
{
    match asked {
        Some(t) => {
            let cs = chars(t);
            match parsed_unsigned(cs.as_slice(), u8::MAX as u64) {
                Some(n) => if find_preset(presets, n as u8).is_some() {
                    n as u8
                } else {
                    0
                },
                None => 0,
            }
        },
        None => 0,
    }
}

pub const UP_PRESET_EN: &'static str = "neural-upstream preset: {}";

pub const UP_PRESET_ZH: &'static str = "neural-upstream 预设：{}";

/// The lines for Neural Upstream with a preset.
pub open spec fn placed_upstream(l: Lang, preset: u8, presets: Seq<UpstreamPreset>) -> Seq<
    Seq<char>,
> {
    seq![UPSTREAM_ADDON@] + (match preset_at(presets, preset as nat) {
        Some(i) => need(
            preset != 0,
            fill(say(l, UP_PRESET_EN@, UP_PRESET_ZH@), seq![presets[i].name@]),
        ),
        None => Seq::empty(),
    })
}

/// The lines for Neural Upstream once it is placed. The add-on reads its
/// strength from ReShade.ini at startup, so a preset other than 0 is named.
pub fn upstream_lines(l: Lang, preset: u8, presets: &Vec<UpstreamPreset>) -> (r: Vec<String>)
    ensures
        texts(r@) == seq![UPSTREAM_ADDON@] + (match preset_at(presets@, preset as nat) {
            Some(i) => need(
                preset != 0,
                fill(say(l, UP_PRESET_EN@, UP_PRESET_ZH@), seq![presets@[i].name@]),
            ),
            None => Seq::empty(),
        }),
        texts(r@) == placed_upstream(l, preset, presets@),
{
    let mut v: Vec<String> = vec![UPSTREAM_ADDON.to_owned()];
    if preset != 0 {
        if let Some(i) = find_preset(presets, preset) {
            v.push(fill1(tr(l, UP_PRESET_EN, UP_PRESET_ZH), presets[i].name.as_str()));
        }
    }
    assert(texts(v@) =~= seq![UPSTREAM_ADDON@] + (match preset_at(presets@, preset as nat) {
        Some(i) => need(
            preset != 0,
            fill(say(l, UP_PRESET_EN@, UP_PRESET_ZH@), seq![presets@[i].name@]),
        ),
        None => Seq::empty(),
    }));
    v
}

// ── REFramework and RenoDX ─────────────────────────────────────────

pub const NO_REF_EN: &'static str = "REFramework.zip has no {}";

pub const NO_REF_ZH: &'static str = "REFramework.zip 中没有 {}";

pub const REF_ZIP_EN: &'static str = "REFramework download is not a valid zip";

pub const REF_ZIP_ZH: &'static str = "REFramework 下载内容不是有效的 zip";

/// The one DLL that is taken from praydog's monolithic nightly, which detects
/// the RE Engine game at runtime.
pub fn reframework_member(l: Lang, members: &Vec<String>) -> (r: Result<String, String>)
    ensures
        r is Ok <==> first_ending(texts(members@), REFRAMEWORK_DLL@) is Some,
        r matches Ok(m) ==> first_ending(texts(members@), REFRAMEWORK_DLL@) == Some(m@),
        r matches Err(e) ==> e@ == fill(say(l, NO_REF_EN@, NO_REF_ZH@), seq![REFRAMEWORK_DLL@]),
{
    match pick_ending(members, REFRAMEWORK_DLL) {
        Some(m) => Ok(m),
        None => Err(fill1(tr(l, NO_REF_EN, NO_REF_ZH), REFRAMEWORK_DLL)),
    }
}

/// Installs REFramework from its download.
pub fn step_reframework(l: Lang, archive: &[u8]) -> (r: Result<Unpacked, String>)
    ensures
        ({
            let hit = if zip_names(archive@) is Some {
                first_ending(zip_names(archive@)->0, REFRAMEWORK_DLL@)
            } else {
                None
            };
            &&& r is Ok <==> hit is Some
            &&& r matches Ok(u) ==> u@ == unpacked(
                archive@,
                seq![ExtractView { member: hit->0, dest: REFRAMEWORK_DLL@ }],
            )
            &&& r matches Err(e) ==> e@ == (if zip_names(archive@) is None {
                say(l, REF_ZIP_EN@, REF_ZIP_ZH@)
            } else {
                fill(say(l, NO_REF_EN@, NO_REF_ZH@), seq![REFRAMEWORK_DLL@])
            })
        }),
{
    let names = match members(archive, tr(l, REF_ZIP_EN, REF_ZIP_ZH)) {
        Ok(v) => v,
        Err(e) => {
            return Err(e);
        },
    };
    match reframework_member(l, &names) {
        Ok(m) => Ok(unpack_one(archive, m, REFRAMEWORK_DLL)),
        Err(e) => Err(e),
    }
}

pub const NO_MOD_EN: &'static str = "no RenoDX mod is published for this game";

pub const NO_MOD_ZH: &'static str = "此游戏没有发布 RenoDX 模组";

/// Why there is no RenoDX mod to install.
pub fn no_renodx_mod(l: Lang) -> (r: &'static str)
    ensures
        r@ == say(l, NO_MOD_EN@, NO_MOD_ZH@),
{
    tr(l, NO_MOD_EN, NO_MOD_ZH)
}

} // verus!
