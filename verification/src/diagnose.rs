//! Read the logs a session leaves behind and say why neural rendering is or is
//! not running. Answers the commonest report ("I enabled it, nothing changed")
//! without a round trip: everything needed is already in `ReShade.log` and,
//! on the Feeder path, `dlss5-feed.log` next to the game exe.
use vstd::prelude::*;
use vstd::slice::slice_subrange;
use crate::diagnose_text::{
    ADVICE_DRIVER_EN, ADVICE_DRIVER_ZH, ADVICE_FEEDER_EN, ADVICE_FEEDER_ZH, BESIDE_EN,
    BESIDE_ZH, BRIDGE_OK_EN, BRIDGE_OK_ZH, BRIDGE_STOPPED_EN, BRIDGE_STOPPED_ZH, COMPILER_EN,
    COMPILER_ZH, CRASHED_EN, CRASHED_ZH, DELIVERED_EN, DELIVERED_ZH, ENTRY_EN, ENTRY_ZH,
    FEED_READY_EN, FEED_READY_ZH, FEED_STOPPED_EN, FEED_STOPPED_ZH, FX_MISSING_EN,
    FX_MISSING_ZH, GAME_PLACE_EN, GAME_PLACE_ZH, HOST_PLACE_EN, HOST_PLACE_ZH, HOST_READY_EN,
    HOST_READY_ZH, HYBRID_EN, HYBRID_ZH, IN_HOST_EN, IN_HOST_ZH, LOADED_EN, LOADED_ZH,
    LOAD_FAILED_EN, LOAD_FAILED_ZH, MODEL_EN, MODEL_ZH, NEVER_EN, NEVER_ZH, NO_BRIDGE_EN,
    NO_BRIDGE_ZH, NO_CALL_EN, NO_CALL_ZH, NO_FEED_LOG_EN, NO_FEED_LOG_ZH, NO_HOST_FEED_LOG_EN,
    NO_HOST_FEED_LOG_ZH, NO_HOST_LOG_EN, NO_HOST_LOG_ZH, NO_LOG_EN, NO_LOG_ZH, NO_PROVIDER_EN,
    NO_PROVIDER_ZH, OLD_COMPILER_EN, OLD_COMPILER_ZH, OLD_FEEDER_EN, OLD_FEEDER_ZH,
    OTHER_EXE_EN, OTHER_EXE_ZH, RAN_EN, RAN_ZH, REDIST_EN, REDIST_HERE_EN, REDIST_HERE_ZH,
    REDIST_NONE_EN, REDIST_NONE_ZH, REDIST_ZH, REFUSED_EN, REFUSED_ZH, REGISTERED_EN,
    REGISTERED_ZH, SAW_DLSS_EN, SAW_DLSS_ZH, STRAY_FEEDER_EN, STRAY_FEEDER_ZH, TOGGLED_OFF_EN,
    TOGGLED_OFF_ZH, TOGGLED_ON_EN, TOGGLED_ON_ZH, UNAVAILABLE_EN, UNAVAILABLE_ZH, UNSIGNED_EN,
    UNSIGNED_ZH, WINE_EN, WINE_ZH, WORK_REFUSED_EN, WORK_REFUSED_ZH, ZERO_VECTORS_EN,
    ZERO_VECTORS_ZH,
};
use crate::game::{Api, GameStatus, Mode};
use crate::lang::{say, tr, Lang};
use crate::lines::{
    first_line, first_with, first_with_either, join, joined, last_line, last_with, lines, lines_of,
    split, split_at_chars, words, words_of,
};
use crate::message::{fill, fill1, fill2, fill3, said};
use crate::ngx::{build_text, describe, healthy, model_build, ngx_healthy, system_text, NgxSystem};
use crate::number::{naturals, numbers_before, numbers_less, parse_unsigned, parsed_unsigned};
use crate::text::{
    after, after_last, before, begins, chars, contains, equal, equals, head, head_of, holds,
    is_digit, lower, lowered, opt_text, rest, rest_of, rows, starts_with, string, text_after,
    text_after_last, text_before, texts, trim, trim_end_of, trimmed, trimmed_end_of,
};

verus! {

#[derive(Debug, Clone, Copy, PartialEq, Eq, Structural)]
pub enum Level {
    Good,
    Warn,
    Bad,
}

#[derive(Debug, Clone)]
pub struct Finding {
    pub level: Level,
    pub text: String,
}

/// A finding, its text as characters.
pub struct Note {
    pub level: Level,
    pub text: Seq<char>,
}

pub open spec fn note(f: Finding) -> Note {
    Note { level: f.level, text: f.text@ }
}

pub open spec fn notes(v: Seq<Finding>) -> Seq<Note> {
    Seq::new(v.len(), |i: int| note(v[i]))
}

/// `ReShade.log` and `ReShade2.log` of a folder.
#[derive(Debug, Clone)]
pub struct Logs {
    pub reshade: Option<String>,
    pub reshade2: Option<String>,
}

/// What a session left behind in the game folder, and what the system says.
/// A file that is not there, or is no text, is `None`.
#[derive(Debug, Clone)]
pub struct Session {
    /// The logs of ReShade beside the exe, and in `host64`.
    pub game_logs: Logs,
    pub host_logs: Logs,
    /// A `d3dcompiler_47.dll` beside the exe, and its version.
    pub compiler: bool,
    pub compiler_version: Option<String>,
    /// The DLSS 5 model beside the exe, and beside the add-on.
    pub model: bool,
    pub model_version: Option<String>,
    pub consumer_model: bool,
    pub consumer_model_version: Option<String>,
    pub bridge_log: Option<String>,
    /// The `D3D12Core.dll` in force, and its version.
    pub redist: Option<String>,
    pub redist_version: Option<String>,
    pub feed_log: Option<String>,
    /// `dlss5-feed-host.log` of the 64-bit helper.
    pub host_log: Option<String>,
    /// Graphics cards of more than one vendor, and their names.
    pub hybrid: bool,
    pub adapters: Vec<String>,
    /// Windows prefers the high-performance card for the game, for the helper.
    pub game_prefers: bool,
    pub host_prefers: bool,
    pub ngx: NgxSystem,
}

/// Newest Feeder known at build time; only used to nudge users off stale copies.
pub const CURRENT_FEEDER: &'static str = "0.12.0";

// ── what is looked for in a log ────────────────────────────────────

/// The first line of a log that holds all three texts.
pub open spec fn line_holding3(
    log: Seq<char>,
    a: Seq<char>,
    b: Seq<char>,
    c: Seq<char>,
) -> Option<Seq<char>> {
    first_line(lines(log), |t: Seq<char>| contains(t, a) && contains(t, b) && contains(t, c))
}

pub open spec fn line_holding2(log: Seq<char>, a: Seq<char>, b: Seq<char>) -> Option<Seq<char>> {
    line_holding3(log, a, b, b)
}

pub open spec fn line_holding(log: Seq<char>, a: Seq<char>) -> Option<Seq<char>> {
    line_holding3(log, a, a, a)
}

pub open spec fn line_holding_either(log: Seq<char>, a: Seq<char>, b: Seq<char>) -> Option<
    Seq<char>,
> {
    first_line(lines(log), |t: Seq<char>| contains(t, a) || contains(t, b))
}

pub open spec fn last_line_holding(log: Seq<char>, a: Seq<char>) -> Option<Seq<char>> {
    last_line(lines(log), |t: Seq<char>| contains(t, a))
}

pub open spec fn or_text(o: Option<Seq<char>>, d: Seq<char>) -> Seq<char> {
    match o {
        Some(t) => t,
        None => d,
    }
}

// ── file names and versions ────────────────────────────────────────

/// The parts of a Windows path that name something. In a verbatim path a `.` is
/// a part.
pub open spec fn path_parts(parts: Seq<Seq<char>>, verbatim: bool) -> Seq<Seq<char>> {
    parts.filter(|p: Seq<char>| p.len() > 0 && (verbatim || p != "."@))
}

/// The path is verbatim: `\\?\`, and only backslashes stand between its parts.
pub open spec fn is_verbatim(path: Seq<char>) -> bool {
    starts_with(path, r"\\?\"@)
}

/// The path starts with a server and a share, or with a device: `\\server\share`
/// or `\\.\device`.
pub open spec fn has_share(parts: Seq<Seq<char>>) -> bool {
    &&& parts.len() >= 4
    &&& parts[0].len() == 0 && parts[1].len() == 0
    &&& parts[2] == "."@ || parts[2].len() > 0 && parts[3].len() > 0
}

/// The parts without the first `n`.
pub open spec fn parts_from(parts: Seq<Seq<char>>, n: int) -> Seq<Seq<char>> {
    if parts.len() <= n {
        Seq::empty()
    } else {
        parts.skip(n)
    }
}

/// What stands between the separators of a Windows path, behind its prefix: a
/// drive, a server and share, a device, or one of these in a verbatim path.
pub open spec fn parts_behind_prefix(path: Seq<char>) -> Seq<Seq<char>> {
    if is_verbatim(path) {
        let v = split(path.skip(4), '\\', '\\');
        if v.len() > 1 && v[0] == "UNC"@ {
            parts_from(v, 3)
        } else {
            parts_from(v, 1)
        }
    } else if has_share(split(path, '\\', '/')) {
        parts_from(split(path, '\\', '/'), 4)
    } else {
        split(without_drive(path), '\\', '/')
    }
}

/// The path without its drive.
pub open spec fn without_drive(path: Seq<char>) -> Seq<char> {
    if path.len() >= 2 && path[1] == ':' && ('a' <= path[0] <= 'z' || 'A' <= path[0] <= 'Z') {
        path.skip(2)
    } else {
        path
    }
}

/// The file name that a Windows path ends with.
pub open spec fn path_file_name(path: Seq<char>) -> Option<Seq<char>> {
    let p = path_parts(parts_behind_prefix(path), is_verbatim(path));
    if p.len() > 0 && p.last() != ".."@ && p.last() != "."@ {
        Some(p.last())
    } else {
        None
    }
}

/// The exe named in the line `… loaded from '…dxgi.dll' into 'C:\…\game.exe' …`.
pub open spec fn host_exe(log: Seq<char>) -> Option<Seq<char>> {
    match line_holding2(log, "loaded from"@, " into "@) {
        Some(line) => match after(line, " into "@) {
            Some(t) => match rest(before(t, " into "@), '\'') {
                Some(q) => path_file_name(head(q, '\'')),
                None => None,
            },
            None => None,
        },
        None => None,
    }
}

/// A version as numbers; a part that is none counts as zero.
pub open spec fn version_numbers(v: Seq<char>) -> Seq<nat> {
    Seq::new(
        split(v, '.', '-').len(),
        |i: int|
            match parse_unsigned(split(v, '.', '-')[i], u64::MAX as nat) {
                Some(n) => n,
                None => 0,
            },
    )
}

/// The first word that starts with `p`.
pub open spec fn word_starting(ws: Seq<Seq<char>>, p: Seq<char>) -> int
    decreases ws.len(),
{
    if ws.len() == 0 || starts_with(ws[0], p) {
        0
    } else {
        1 + word_starting(ws.skip(1), p)
    }
}

/// The version in the first line of the feeder's log:
/// `HH:MM:SS.mmm  dlss5-feed 0.12.0 (built ...) attached.`
pub open spec fn feed_version(log: Seq<char>) -> Option<Seq<char>> {
    if lines(log).len() == 0 {
        None
    } else {
        let ws = words(lines(log)[0]);
        let i = word_starting(ws, "dlss5-feed"@);
        if i + 1 < ws.len() && ws[i + 1].len() > 0 && is_digit(ws[i + 1][0]) {
            Some(ws[i + 1])
        } else {
            None
        }
    }
}

// ── the findings ───────────────────────────────────────────────────

/// One finding where `c` holds, none otherwise.
pub open spec fn when(c: bool, level: Level, text: Seq<char>) -> Seq<Note> {
    if c {
        seq![Note { level, text }]
    } else {
        Seq::empty()
    }
}

/// The logs of the ReShade that runs the add-on: beside the exe of a 64-bit
/// game, in `host64` of a 32-bit one.
pub open spec fn session_logs(st: GameStatus, s: Session) -> Logs {
    if st.is_32() {
        s.host_logs
    } else {
        s.game_logs
    }
}

/// The log of the ReShade that runs the add-on.
pub open spec fn session_log(st: GameStatus, s: Session) -> Option<Seq<char>> {
    match session_logs(st, s).reshade {
        Some(t) => Some(t@),
        None => opt_text(session_logs(st, s).reshade2),
    }
}

/// Wine and Proton substitute their own d3dcompiler_47.dll, whose HLSL
/// compiler is vkd3d-shader. It does not implement every attribute ReShade
/// emits, and says so in its own words.
pub open spec fn wine_hlsl(st: GameStatus, s: Session) -> bool {
    session_log(st, s) is Some && contains(session_log(st, s)->0, "not yet implemented feature"@)
}

pub const NO_VERSION_EN: &'static str = "unknown";

pub const NO_VERSION_ZH: &'static str = "未知";

/// A game-shipped HLSL compiler shadowing the system one. The add-on compiles
/// its NR pass at cs_5_1. A d3dcompiler_47.dll that ships with the game is
/// loaded in preference to System32's, and an old one does not know that
/// target.
pub open spec fn compiler_notes(l: Lang, st: GameStatus, s: Session) -> Seq<Note> {
    when(
        s.compiler && !wine_hlsl(st, s),
        Level::Warn,
        fill(
            say(l, COMPILER_EN@, COMPILER_ZH@),
            seq![or_text(opt_text(s.compiler_version), say(l, NO_VERSION_EN@, NO_VERSION_ZH@))],
        ),
    )
}

/// Which neural model is installed. Two builds of nvngx_dlssnr.dll are in
/// circulation and only the version resource separates them.
pub open spec fn model_notes(l: Lang, st: GameStatus, s: Session) -> Seq<Note> {
    let version = if s.model {
        opt_text(s.model_version)
    } else if s.consumer_model {
        opt_text(s.consumer_model_version)
    } else {
        None
    };
    let place = if s.model || !st.is_32() {
        say(l, BESIDE_EN@, BESIDE_ZH@)
    } else {
        say(l, IN_HOST_EN@, IN_HOST_ZH@)
    };
    match version {
        Some(v) => when(
            true,
            Level::Good,
            fill(say(l, MODEL_EN@, MODEL_ZH@), seq![place, v, build_text(l, v)]),
        ),
        None => Seq::empty(),
    }
}

pub open spec fn no_log_note(l: Lang, st: GameStatus) -> Note {
    Note {
        level: Level::Bad,
        text: if st.is_32() {
            say(l, NO_HOST_LOG_EN@, NO_HOST_LOG_ZH@)
        } else {
            say(l, NO_LOG_EN@, NO_LOG_ZH@)
        },
    }
}

/// What the error code of a refused add-on means.
pub open spec fn code_meaning(l: Lang, code: Seq<char>) -> Seq<char> {
    if trim(code) == "2148073478"@ {
        say(l, UNSIGNED_EN@, UNSIGNED_ZH@)
    } else if trim(code) == "1114"@ {
        say(l, ENTRY_EN@, ENTRY_ZH@)
    } else {
        Seq::empty()
    }
}

/// Whether ReShade loaded, and whether the add-on did.
pub open spec fn addon_note(l: Lang, st: GameStatus, rs: Seq<char>) -> Note {
    match line_holding2(rs, "Failed to load add-on"@, "renodx-dlss5"@) {
        Some(line) => {
            let code = trim_end_of(after_last(line, "error code "@), '!', '!');
            Note {
                level: Level::Bad,
                text: fill(
                    say(l, LOAD_FAILED_EN@, LOAD_FAILED_ZH@),
                    seq![code, code_meaning(l, code)],
                ),
            }
        },
        None => if contains(rs, "DLSS 5 Neural Rendering"@) {
            Note { level: Level::Good, text: say(l, REGISTERED_EN@, REGISTERED_ZH@) }
        } else {
            Note {
                level: Level::Bad,
                text: fill(
                    say(l, NEVER_EN@, NEVER_ZH@),
                    seq![
                        if st.is_32() {
                            say(l, HOST_PLACE_EN@, HOST_PLACE_ZH@)
                        } else {
                            say(l, GAME_PLACE_EN@, GAME_PLACE_ZH@)
                        },
                    ],
                ),
            }
        },
    }
}

/// The last known state of the F6 toggle.
pub open spec fn toggle_notes(l: Lang, rs: Seq<char>) -> Seq<Note> {
    if contains(rs, "NR toggled ON"@) && !contains(rs, "NR toggled OFF"@) {
        when(true, Level::Good, say(l, TOGGLED_ON_EN@, TOGGLED_ON_ZH@))
    } else {
        when(
            contains(rs, "NR toggled OFF"@),
            Level::Warn,
            say(l, TOGGLED_OFF_EN@, TOGGLED_OFF_ZH@),
        )
    }
}

/// Whether the model ran. The add-on hooks NVSDK_NGX_D3D12_*: a game whose DLSS
/// runs on D3D11 calls the D3D11 entry points, which it never sees, so "no
/// create" is expected until the bridge is installed.
pub open spec fn model_ran_notes(l: Lang, st: GameStatus, rs: Seq<char>) -> Seq<Note> {
    if contains(rs, "inline feature 18 evaluation succeeded"@) {
        when(true, Level::Good, say(l, RAN_EN@, RAN_ZH@))
    } else if contains(rs, "feature=1 (DLSS/DLAA)"@) {
        when(true, Level::Warn, say(l, SAW_DLSS_EN@, SAW_DLSS_ZH@))
    } else if st.mode == Mode::Native {
        when(st.feeder, Level::Warn, say(l, STRAY_FEEDER_EN@, STRAY_FEEDER_ZH@)) + when(
            true,
            Level::Bad,
            if st.api == Api::Dx11 && !st.bridge {
                say(l, NO_BRIDGE_EN@, NO_BRIDGE_ZH@)
            } else {
                say(l, NO_CALL_EN@, NO_CALL_ZH@)
            },
        )
    } else {
        Seq::empty()
    }
}

/// Effects that did not compile: in Wine's own compiler, or in one that is too
/// old for the DLSS 5 pass.
pub open spec fn effect_notes(l: Lang, st: GameStatus, s: Session, rs: Seq<char>) -> Seq<Note> {
    when(
        wine_hlsl(st, s),
        Level::Bad,
        fill(
            say(l, WINE_EN@, WINE_ZH@),
            seq![trim(or_text(line_holding(rs, "not yet implemented feature"@), Seq::empty()))],
        ),
    ) + (match line_holding_either(rs, "X3506"@, "unrecognized compiler target"@) {
        Some(line) => when(
            true,
            Level::Bad,
            fill(say(l, OLD_COMPILER_EN@, OLD_COMPILER_ZH@), seq![trim(line)]),
        ),
        None => Seq::empty(),
    })
}

/// A game with more than one executable can be installed for one and played
/// through another: ReShade loads, everything looks right, nothing is hooked.
pub open spec fn other_exe_notes(l: Lang, st: GameStatus, rs: Seq<char>) -> Seq<Note> {
    match (host_exe(rs), opt_text(st.exe_name)) {
        (Some(loaded), Some(ours)) => when(
            !st.is_32() && lower(ours) != lower(loaded),
            Level::Warn,
            fill(say(l, OTHER_EXE_EN@, OTHER_EXE_ZH@), seq![loaded, ours, loaded]),
        ),
        _ => Seq::empty(),
    }
}

/// Where the D3D12 redistributable is decides what the user can do.
pub open spec fn redist_text(l: Lang, s: Session) -> Seq<char> {
    match s.redist {
        Some(p) => fill(
            say(l, REDIST_HERE_EN@, REDIST_HERE_ZH@),
            seq![p@, or_text(opt_text(s.redist_version), say(l, NO_VERSION_EN@, NO_VERSION_ZH@))],
        ),
        None => say(l, REDIST_NONE_EN@, REDIST_NONE_ZH@),
    }
}

/// The DX11 bridge (native DLSS on D3D11).
pub open spec fn bridge_notes(l: Lang, s: Session) -> Seq<Note> {
    match opt_text(s.bridge_log) {
        Some(bl) => (match last_line_holding(bl, "stopped:"@) {
            Some(line) => when(
                true,
                Level::Bad,
                fill(say(l, BRIDGE_STOPPED_EN@, BRIDGE_STOPPED_ZH@), seq![trim(line)]),
            ),
            None => Seq::empty(),
        }) + (match line_holding(bl, "D3D12CreateDevice failed 0x887E0003"@) {
            Some(line) => when(
                true,
                Level::Bad,
                fill(say(l, REDIST_EN@, REDIST_ZH@), seq![trim(line), redist_text(l, s)]),
            ),
            None => when(
                contains(bl, "frames:"@) && !contains(bl, "session failed"@),
                Level::Good,
                say(l, BRIDGE_OK_EN@, BRIDGE_OK_ZH@),
            ),
        }),
        None => Seq::empty(),
    }
}

pub const HIGH_NOTE_EN: &'static str =
    ", though the preference is already set to high performance for that exe";

pub const HIGH_NOTE_ZH: &'static str = "，尽管该 exe 的偏好已设为高性能";

/// `NVSDK_NGX_*_Init -> 0xBAD00001` in a log: NGX itself refused. Adds what the
/// system says about NGX Core, which is the usual cause on capable hardware.
/// On a hybrid machine a process started on the iGPU gets exactly this error,
/// because NGX does not exist there; `prefers` tells whether Windows prefers
/// the high-performance card for the process.
pub open spec fn refusal_notes(l: Lang, log: Seq<char>, prefers: bool, s: Session) -> Seq<Note> {
    match line_holding3(log, "NVSDK_NGX"@, "Init"@, "0xBAD00001"@) {
        Some(line) => when(
            s.hybrid,
            Level::Bad,
            fill(
                say(l, HYBRID_EN@, HYBRID_ZH@),
                seq![
                    join(texts(s.adapters@), ", "@),
                    if prefers {
                        say(l, HIGH_NOTE_EN@, HIGH_NOTE_ZH@)
                    } else {
                        Seq::empty()
                    },
                ],
            ),
        ) + when(
            true,
            Level::Bad,
            fill(
                say(l, REFUSED_EN@, REFUSED_ZH@),
                seq![
                    trim(line),
                    system_text(l, s.ngx),
                    if ngx_healthy(s.ngx) {
                        say(l, ADVICE_FEEDER_EN@, ADVICE_FEEDER_ZH@)
                    } else {
                        say(l, ADVICE_DRIVER_EN@, ADVICE_DRIVER_ZH@)
                    },
                ],
            ),
        ),
        None => Seq::empty(),
    }
}

/// What the feeder built. The first effects line of a session always says
/// "none": effects are not compiled yet. Only the last one describes the
/// running state.
pub open spec fn feed_state_notes(l: Lang, fd: Seq<char>) -> Seq<Note> {
    when(contains(fd, "feature ready"@), Level::Good, say(l, FEED_READY_EN@, FEED_READY_ZH@)) + when(
        contains(fd, "frame"@) && contains(fd, "delivered"@),
        Level::Good,
        say(l, DELIVERED_EN@, DELIVERED_ZH@),
    ) + when(
        contains(fd, "technique MISSING"@) && !contains(fd, "technique found"@),
        Level::Bad,
        say(l, FX_MISSING_EN@, FX_MISSING_ZH@),
    ) + when(
        contains(
            or_text(last_line_holding(fd, "[feed] effects:"@), Seq::empty()),
            "-> none (not installed)"@,
        ),
        Level::Bad,
        say(l, NO_PROVIDER_EN@, NO_PROVIDER_ZH@),
    )
}

/// 32-bit games: the work happens in `host64`, and its own log names the reason.
pub open spec fn helper_notes(l: Lang, st: GameStatus, s: Session) -> Seq<Note> {
    match opt_text(s.host_log) {
        Some(hl) => when(
            contains(hl, "feature ready"@),
            Level::Good,
            say(l, HOST_READY_EN@, HOST_READY_ZH@),
        ) + refusal_notes(l, hl, s.host_prefers, s),
        None => when(
            st.is_32(),
            Level::Warn,
            say(l, NO_HOST_FEED_LOG_EN@, NO_HOST_FEED_LOG_ZH@),
        ),
    }
}

pub open spec fn old_feeder_notes(l: Lang, fd: Seq<char>) -> Seq<Note> {
    match feed_version(fd) {
        Some(v) => when(
            numbers_less(version_numbers(v), version_numbers(CURRENT_FEEDER@)),
            Level::Warn,
            fill(say(l, OLD_FEEDER_EN@, OLD_FEEDER_ZH@), seq![v, CURRENT_FEEDER@]),
        ),
        None => Seq::empty(),
    }
}

pub const BELOW_FULL_EN: &'static str = "below 100%";

pub const BELOW_FULL_ZH: &'static str = "低于 100%";

/// The share of the frame that a build names.
pub open spec fn work_share(l: Lang, fd: Seq<char>) -> Seq<char> {
    match line_holding(fd, "work resolution ("@) {
        Some(line) => head(
            before(after(line, "work resolution ("@)->0, "work resolution ("@),
            ')',
        ),
        None => say(l, BELOW_FULL_EN@, BELOW_FULL_ZH@),
    }
}

/// Some games refuse the reduced work-resolution path: three failed builds stop
/// the feed, and nothing downstream then happens, which reads like the add-on
/// is broken rather than one setting being wrong.
pub open spec fn work_refused_notes(l: Lang, fd: Seq<char>) -> Seq<Note> {
    when(
        contains(fd, "work-resolution staging SRV failed"@),
        Level::Bad,
        fill(say(l, WORK_REFUSED_EN@, WORK_REFUSED_ZH@), seq![work_share(l, fd)]),
    )
}

pub open spec fn feed_stopped_notes(l: Lang, fd: Seq<char>) -> Seq<Note> {
    when(
        contains(fd, "stopped:"@),
        Level::Bad,
        fill(
            say(l, FEED_STOPPED_EN@, FEED_STOPPED_ZH@),
            seq![trim(or_text(last_line_holding(fd, "stopped:"@), Seq::empty()))],
        ),
    )
}

/// What went wrong in the feeder.
pub open spec fn feed_fault_notes(l: Lang, fd: Seq<char>) -> Seq<Note> {
    when(
        contains(fd, "MV probe"@) && contains(fd, "0% non-zero"@),
        Level::Bad,
        say(l, ZERO_VECTORS_EN@, ZERO_VECTORS_ZH@),
    ) + when(
        contains(fd, "DLSS super sampling is not available"@),
        Level::Bad,
        say(l, UNAVAILABLE_EN@, UNAVAILABLE_ZH@),
    ) + work_refused_notes(l, fd) + feed_stopped_notes(l, fd) + when(
        contains(fd, "CRASH RECORDED"@),
        Level::Warn,
        say(l, CRASHED_EN@, CRASHED_ZH@),
    )
}

/// The Feeder side (games without DLSS).
pub open spec fn feeder_notes(l: Lang, st: GameStatus, s: Session) -> Seq<Note> {
    if st.mode == Mode::Feeder {
        match opt_text(s.feed_log) {
            None => when(true, Level::Bad, say(l, NO_FEED_LOG_EN@, NO_FEED_LOG_ZH@)),
            Some(fd) => feed_state_notes(l, fd) + refusal_notes(l, fd, s.game_prefers, s)
                + helper_notes(l, st, s) + old_feeder_notes(l, fd) + feed_fault_notes(l, fd),
        }
    } else {
        Seq::empty()
    }
}

/// The findings of a session, in reading order. The DLSS 5 add-on runs under
/// the ReShade whose log the session carries; without that log nothing more
/// can be said.
pub open spec fn diagnosis(l: Lang, st: GameStatus, s: Session) -> Seq<Note> {
    compiler_notes(l, st, s) + model_notes(l, st, s) + (match session_log(st, s) {
        None => seq![no_log_note(l, st)],
        Some(rs) => when(
            contains(rs, "Initializing crosire's ReShade"@),
            Level::Good,
            say(l, LOADED_EN@, LOADED_ZH@),
        ).push(addon_note(l, st, rs)) + toggle_notes(l, rs) + model_ran_notes(l, st, rs)
            + effect_notes(l, st, s, rs) + other_exe_notes(l, st, rs) + bridge_notes(l, s)
            + feeder_notes(l, st, s),
    })
}

// ── the executable side ────────────────────────────────────────────

fn push(out: &mut Vec<Finding>, level: Level, text: String)
    ensures
        notes(final(out)@) == notes(old(out)@) + when(true, level, text@),
        notes(final(out)@) == notes(old(out)@).push(Note { level, text: text@ }),
{
    out.push(Finding { level, text });
    assert(notes(out@) =~= notes(old(out)@).push(Note { level, text: text@ }));
    assert(notes(out@) =~= notes(old(out)@) + when(true, level, text@));
}

/// Adds a finding whose text takes no argument, where `c` holds.
fn push_when(out: &mut Vec<Finding>, c: bool, level: Level, l: Lang, en: &str, zh: &str)
    ensures
        notes(final(out)@) == notes(old(out)@) + when(c, level, say(l, en@, zh@)),
{
    if c {
        push(out, level, said(l, en, zh));
    } else {
        assert(notes(out@) =~= notes(old(out)@) + when(c, level, say(l, en@, zh@)));
    }
}

proof fn lemma_sum5(
    b: Seq<Note>,
    v: Seq<Note>,
    w: Seq<Note>,
    x: Seq<Note>,
    y: Seq<Note>,
    z: Seq<Note>,
)
    ensures
        b + v + w + x + y + z == b + (v + w + x + y + z),
{
    assert(b + v + w + x + y + z =~= b + (v + w + x + y + z));
}

proof fn lemma_sum3(b: Seq<Note>, v: Seq<Note>, w: Seq<Note>, x: Seq<Note>)
    ensures
        b + v + w + x == b + (v + w + x),
{
    assert(b + v + w + x =~= b + (v + w + x));
}

proof fn lemma_sum_push(b: Seq<Note>, v: Seq<Note>, n: Note)
    ensures
        (b + v).push(n) == b + v.push(n),
{
    assert((b + v).push(n) =~= b + v.push(n));
}

/// The logs of the ReShade that runs the add-on.
pub fn logs_of<'a>(st: &GameStatus, s: &'a Session) -> (r: &'a Logs)
    ensures
        *r == session_logs(*st, *s),
{
    if st.is32() {
        &s.host_logs
    } else {
        &s.game_logs
    }
}

fn version_or_unknown(l: Lang, v: &Option<String>) -> (r: String)
    ensures
        r@ == or_text(opt_text(*v), say(l, NO_VERSION_EN@, NO_VERSION_ZH@)),
{
    match v {
        Some(t) => t.as_str().to_owned(),
        None => said(l, NO_VERSION_EN, NO_VERSION_ZH),
    }
}

/// The last part from `from` on that names something.
fn last_name(parts: &Vec<Vec<char>>, from: usize, verbatim: bool) -> (r: Option<Vec<char>>)
    ensures
        ({
            let p = path_parts(parts_from(rows(parts@), from as int), verbatim);
            match r {
                Some(n) => p.len() > 0 && p.last() == n@,
                None => p.len() == 0,
            }
        }),
{
    let ghost all = rows(parts@);
    let ghost f = |p: Seq<char>| p.len() > 0 && (verbatim || p != "."@);
    let ghost v = parts_from(all, from as int);
    let mut last: Option<Vec<char>> = None;
    proof {
        reveal(Seq::filter);
        assert(v.take(0).filter(f) =~= Seq::empty());
        assert(Seq::<Seq<char>>::empty().filter(f) =~= Seq::empty());
    }
    if parts.len() <= from {
        return None;
    }
    let mut i: usize = from;
    while i < parts.len()
        invariant
            from <= i <= parts@.len(),
            all == rows(parts@),
            v == all.skip(from as int),
            f == (|p: Seq<char>| p.len() > 0 && (verbatim || p != "."@)),
            match last {
                Some(t) => v.take(i - from).filter(f).len() > 0 && v.take(i - from).filter(
                    f,
                ).last() == t@,
                None => v.take(i - from).filter(f).len() == 0,
            },
        decreases parts@.len() - i,
    {
        let p = parts[i].as_slice();
        proof {
            reveal(Seq::filter);
            assert(v.take(i - from + 1).drop_last() =~= v.take(i - from));
            assert(v.take(i - from + 1).last() == p@);
        }
        if p.len() > 0 && (verbatim || !equals(p, ".")) {
            last = Some(crate::text::copied(p));
        }
        i = i + 1;
    }
    assert(v.take(v.len() as int) =~= v);
    last
}

fn path_file_name_of(path: &[char]) -> (r: Option<Vec<char>>)
    ensures
        match r {
            Some(n) => path_file_name(path@) == Some(n@),
            None => path_file_name(path@) is None,
        },
{
    let n: usize = path.len();
    let verbatim = begins(path, r"\\?\");
    let last = if verbatim {
        proof {
            reveal_strlit(r"\\?\");
        }
        let body = slice_subrange(path, 4, n);
        assert(body@ =~= path@.skip(4));
        let parts = split_at_chars(body, '\\', '\\');
        assert(rows(parts@).len() == parts@.len());
        let share = parts.len() > 1 && equals(parts[0].as_slice(), "UNC");
        last_name(
            &parts,
            if share {
                3
            } else {
                1
            },
            true,
        )
    } else {
        let parts = split_at_chars(path, '\\', '/');
        assert(rows(parts@).len() == parts@.len());
        if parts.len() >= 4 && parts[0].len() == 0 && parts[1].len() == 0 && (equals(
            parts[2].as_slice(),
            ".",
        ) || (parts[2].len() > 0 && parts[3].len() > 0)) {
            assert(has_share(rows(parts@)));
            last_name(&parts, 4, false)
        } else {
            assert(!has_share(rows(parts@)));
            let body = if n >= 2 && path[1] == ':' && ('a' <= path[0] && path[0] <= 'z' || 'A'
                <= path[0] && path[0] <= 'Z') {
                slice_subrange(path, 2, n)
            } else {
                path
            };
            assert(body@ =~= without_drive(path@));
            let rest = split_at_chars(body, '\\', '/');
            proof {
                let v = rows(rest@);
                crate::lines::lemma_split_len(body@, '\\', '/');
                assert(v.skip(0) =~= v);
            }
            last_name(&rest, 0, false)
        }
    };
    match last {
        Some(t) => if equals(t.as_slice(), "..") || equals(t.as_slice(), ".") {
            None
        } else {
            Some(t)
        },
        None => None,
    }
}

fn opt_string(o: Option<Vec<char>>) -> (r: Option<String>)
    ensures
        match o {
            Some(t) => r is Some && r->0@ == t@,
            None => r is None,
        },
{
    match o {
        Some(t) => Some(string(t.as_slice())),
        None => None,
    }
}

/// The exe ReShade actually loaded into, from its first line:
/// `... loaded from '...dxgi.dll' into 'C:\...bg3_dx11.exe' (0x...)`.
pub fn reshade_host_exe(log: &str) -> (r: Option<String>)
    ensures
        opt_text(r) == host_exe(log@),
{
    let cs = chars(log);
    let ls = lines_of(cs.as_slice());
    match first_with(&ls, "loaded from", " into ", " into ") {
        Some(line) => match text_after(line, " into ") {
            Some(t) => match rest_of(text_before(t, " into "), '\'') {
                Some(q) => opt_string(path_file_name_of(head_of(q, '\''))),
                None => None,
            },
            None => None,
        },
        None => None,
    }
}

/// A version as numbers, to be ordered by.
pub fn version_key(v: &str) -> (r: Vec<u64>)
    ensures
        naturals(r@) == version_numbers(v@),
{
    let cs = chars(v);
    let parts = split_at_chars(cs.as_slice(), '.', '-');
    let ghost all = split(v@, '.', '-');
    let mut out: Vec<u64> = Vec::new();
    let mut i: usize = 0;
    assert(rows(parts@).len() == parts@.len());
    while i < parts.len()
        invariant
            i <= parts@.len(),
            all == rows(parts@),
            all == split(v@, '.', '-'),
            out@.len() == i,
            forall|j: int| 0 <= j < i ==> #[trigger] out@[j] == version_numbers(v@)[j],
        decreases parts@.len() - i,
    {
        assert(all[i as int] == parts@[i as int]@);
        let n: u64 = match parsed_unsigned(parts[i].as_slice(), u64::MAX) {
            Some(n) => n,
            None => 0,
        };
        out.push(n);
        i = i + 1;
    }
    assert(naturals(out@) =~= version_numbers(v@));
    out
}

fn feed_version_of(log: &[char]) -> (r: Option<Vec<char>>)
    ensures
        match r {
            Some(v) => feed_version(log@) == Some(v@),
            None => feed_version(log@) is None,
        },
{
    let ls = lines_of(log);
    assert(rows(ls@).len() == ls@.len());
    if ls.len() == 0 {
        return None;
    }
    assert(rows(ls@)[0] == ls@[0]@);
    let ws = words_of(ls[0].as_slice());
    let ghost all = rows(ws@);
    let n: usize = ws.len();
    let mut i: usize = 0;
    assert(all.skip(0) =~= all);
    while i < n && !begins(ws[i].as_slice(), "dlss5-feed")
        invariant
            i <= n,
            n == ws@.len(),
            all == rows(ws@),
            word_starting(all, "dlss5-feed"@) == i + word_starting(
                all.skip(i as int),
                "dlss5-feed"@,
            ),
        decreases n - i,
    {
        proof {
            assert(all.skip(i as int)[0] == ws@[i as int]@);
            assert(all.skip(i as int).skip(1) =~= all.skip(i + 1));
        }
        i = i + 1;
    }
    proof {
        if i < n {
            assert(all.skip(i as int)[0] == ws@[i as int]@);
        }
    }
    if i < n && i + 1 < n {
        let w = ws[i + 1].as_slice();
        assert(all[i + 1] == w@);
        if w.len() > 0 && '0' <= w[0] && w[0] <= '9' {
            return Some(crate::text::copied(w));
        }
    }
    None
}

fn compiler_findings(l: Lang, st: &GameStatus, s: &Session, wine: bool, out: &mut Vec<Finding>)
    requires
        wine == wine_hlsl(*st, *s),
    ensures
        notes(final(out)@) == notes(old(out)@) + compiler_notes(l, *st, *s),
{
    if s.compiler && !wine {
        let ver = version_or_unknown(l, &s.compiler_version);
        push(out, Level::Warn, fill1(tr(l, COMPILER_EN, COMPILER_ZH), ver.as_str()));
    } else {
        assert(notes(out@) =~= notes(old(out)@) + compiler_notes(l, *st, *s));
    }
}

fn model_findings(l: Lang, st: &GameStatus, s: &Session, out: &mut Vec<Finding>)
    ensures
        notes(final(out)@) == notes(old(out)@) + model_notes(l, *st, *s),
{
    let version: &Option<String> = if s.model {
        &s.model_version
    } else if s.consumer_model {
        &s.consumer_model_version
    } else {
        &None
    };
    match version {
        Some(v) => {
            let place = if s.model || !st.is32() {
                tr(l, BESIDE_EN, BESIDE_ZH)
            } else {
                tr(l, IN_HOST_EN, IN_HOST_ZH)
            };
            let build = model_build(l, v.as_str());
            push(out, Level::Good, fill3(tr(l, MODEL_EN, MODEL_ZH), place, v.as_str(), build));
        },
        None => {
            assert(notes(out@) =~= notes(old(out)@) + model_notes(l, *st, *s));
        },
    }
}

fn addon_finding(
    l: Lang,
    st: &GameStatus,
    rs: &[char],
    ls: &Vec<Vec<char>>,
    out: &mut Vec<Finding>,
)
    requires
        rows(ls@) == lines(rs@),
    ensures
        notes(final(out)@) == notes(old(out)@).push(addon_note(l, *st, rs@)),
{
    match first_with(ls, "Failed to load add-on", "renodx-dlss5", "renodx-dlss5") {
        Some(line) => {
            let code = trimmed_end_of(text_after_last(line, "error code "), '!', '!');
            let t = trimmed(code);
            let extra = if equals(t, "2148073478") {
                said(l, UNSIGNED_EN, UNSIGNED_ZH)
            } else if equals(t, "1114") {
                said(l, ENTRY_EN, ENTRY_ZH)
            } else {
                let none = String::new();
                assert(none@ =~= Seq::empty());
                none
            };
            let code_text = string(code);
            push(
                out,
                Level::Bad,
                fill2(tr(l, LOAD_FAILED_EN, LOAD_FAILED_ZH), code_text.as_str(), extra.as_str()),
            );
        },
        None => if holds(rs, "DLSS 5 Neural Rendering") {
            push(out, Level::Good, said(l, REGISTERED_EN, REGISTERED_ZH));
        } else {
            let place = if st.is32() {
                tr(l, HOST_PLACE_EN, HOST_PLACE_ZH)
            } else {
                tr(l, GAME_PLACE_EN, GAME_PLACE_ZH)
            };
            push(out, Level::Bad, fill1(tr(l, NEVER_EN, NEVER_ZH), place));
        },
    }
}

fn toggle_findings(l: Lang, rs: &[char], out: &mut Vec<Finding>)
    ensures
        notes(final(out)@) == notes(old(out)@) + toggle_notes(l, rs@),
{
    let off = holds(rs, "NR toggled OFF");
    if holds(rs, "NR toggled ON") && !off {
        push(out, Level::Good, said(l, TOGGLED_ON_EN, TOGGLED_ON_ZH));
    } else {
        push_when(out, off, Level::Warn, l, TOGGLED_OFF_EN, TOGGLED_OFF_ZH);
    }
}

fn model_ran_findings(l: Lang, st: &GameStatus, rs: &[char], out: &mut Vec<Finding>)
    ensures
        notes(final(out)@) == notes(old(out)@) + model_ran_notes(l, *st, rs@),
{
    let ghost before = notes(out@);
    if holds(rs, "inline feature 18 evaluation succeeded") {
        push(out, Level::Good, said(l, RAN_EN, RAN_ZH));
    } else if holds(rs, "feature=1 (DLSS/DLAA)") {
        push(out, Level::Warn, said(l, SAW_DLSS_EN, SAW_DLSS_ZH));
    } else if st.mode == Mode::Native {
        if st.feeder {
            push(out, Level::Warn, said(l, STRAY_FEEDER_EN, STRAY_FEEDER_ZH));
        } else {
            assert(before + when(
                false,
                Level::Warn,
                say(l, STRAY_FEEDER_EN@, STRAY_FEEDER_ZH@),
            ) =~= before);
        }
        if st.api == Api::Dx11 && !st.bridge {
            push(out, Level::Bad, said(l, NO_BRIDGE_EN, NO_BRIDGE_ZH));
        } else {
            push(out, Level::Bad, said(l, NO_CALL_EN, NO_CALL_ZH));
        }
        assert(notes(out@) =~= before + model_ran_notes(l, *st, rs@));
    } else {
        assert(notes(out@) =~= before + model_ran_notes(l, *st, rs@));
    }
}

fn effect_findings(
    l: Lang,
    st: &GameStatus,
    s: &Session,
    wine: bool,
    rs: &[char],
    ls: &Vec<Vec<char>>,
    out: &mut Vec<Finding>,
)
    requires
        rows(ls@) == lines(rs@),
        wine == wine_hlsl(*st, *s),
    ensures
        notes(final(out)@) == notes(old(out)@) + effect_notes(l, *st, *s, rs@),
{
    let ghost before = notes(out@);
    if wine {
        let line = match first_with(
            ls,
            "not yet implemented feature",
            "not yet implemented feature",
            "not yet implemented feature",
        ) {
            Some(t) => string(trimmed(t)),
            None => {
                let none = String::new();
                assert(none@ =~= trim(Seq::empty()));
                none
            },
        };
        push(out, Level::Bad, fill1(tr(l, WINE_EN, WINE_ZH), line.as_str()));
    }
    let ghost mid = notes(out@);
    match first_with_either(ls, "X3506", "unrecognized compiler target") {
        Some(line) => {
            let t = string(trimmed(line));
            push(out, Level::Bad, fill1(tr(l, OLD_COMPILER_EN, OLD_COMPILER_ZH), t.as_str()));
        },
        None => {
            assert(notes(out@) =~= mid + Seq::<Note>::empty());
        },
    }
    assert(notes(out@) =~= before + effect_notes(l, *st, *s, rs@));
}

fn other_exe_findings(l: Lang, st: &GameStatus, rs: &str, out: &mut Vec<Finding>)
    ensures
        notes(final(out)@) == notes(old(out)@) + other_exe_notes(l, *st, rs@),
{
    match (reshade_host_exe(rs), &st.exe_name) {
        (Some(loaded), Some(ours)) => {
            let a = chars(loaded.as_str());
            let b = chars(ours.as_str());
            let (x, y) = (lowered(a.as_slice()), lowered(b.as_slice()));
            if !st.is32() && !equal(y.as_slice(), x.as_slice()) {
                push(
                    out,
                    Level::Warn,
                    fill3(
                        tr(l, OTHER_EXE_EN, OTHER_EXE_ZH),
                        loaded.as_str(),
                        ours.as_str(),
                        loaded.as_str(),
                    ),
                );
            } else {
                assert(notes(out@) =~= notes(old(out)@) + other_exe_notes(l, *st, rs@));
            }
        },
        _ => {
            assert(notes(out@) =~= notes(old(out)@) + other_exe_notes(l, *st, rs@));
        },
    }
}

fn redist_message(l: Lang, s: &Session) -> (r: String)
    ensures
        r@ == redist_text(l, *s),
{
    match &s.redist {
        Some(p) => {
            let ver = version_or_unknown(l, &s.redist_version);
            fill2(tr(l, REDIST_HERE_EN, REDIST_HERE_ZH), p.as_str(), ver.as_str())
        },
        None => said(l, REDIST_NONE_EN, REDIST_NONE_ZH),
    }
}

fn bridge_findings(l: Lang, s: &Session, out: &mut Vec<Finding>)
    ensures
        notes(final(out)@) == notes(old(out)@) + bridge_notes(l, *s),
{
    let ghost before = notes(out@);
    match &s.bridge_log {
        Some(log) => {
            let bl = chars(log.as_str());
            let ls = lines_of(bl.as_slice());
            match last_with(&ls, "stopped:") {
                Some(line) => {
                    let t = string(trimmed(line));
                    push(
                        out,
                        Level::Bad,
                        fill1(tr(l, BRIDGE_STOPPED_EN, BRIDGE_STOPPED_ZH), t.as_str()),
                    );
                },
                None => {
                    assert(notes(out@) =~= before + Seq::<Note>::empty());
                },
            }
            match first_with(
                &ls,
                "D3D12CreateDevice failed 0x887E0003",
                "D3D12CreateDevice failed 0x887E0003",
                "D3D12CreateDevice failed 0x887E0003",
            ) {
                Some(line) => {
                    let t = string(trimmed(line));
                    let place = redist_message(l, s);
                    push(
                        out,
                        Level::Bad,
                        fill2(tr(l, REDIST_EN, REDIST_ZH), t.as_str(), place.as_str()),
                    );
                },
                None => {
                    let good = holds(bl.as_slice(), "frames:") && !holds(
                        bl.as_slice(),
                        "session failed",
                    );
                    push_when(out, good, Level::Good, l, BRIDGE_OK_EN, BRIDGE_OK_ZH);
                },
            }
            assert(notes(out@) =~= before + bridge_notes(l, *s));
        },
        None => {
            assert(notes(out@) =~= before + bridge_notes(l, *s));
        },
    }
}

/// `NVSDK_NGX_*_Init -> 0xBAD00001` in a log: NGX itself refused. `prefers`
/// tells whether Windows prefers the high-performance card for the process.
pub fn ngx_init_failure_for(
    l: Lang,
    log: &str,
    prefers: bool,
    s: &Session,
    out: &mut Vec<Finding>,
)
    ensures
        notes(final(out)@) == notes(old(out)@) + refusal_notes(l, log@, prefers, *s),
{
    let ghost before = notes(out@);
    let cs = chars(log);
    let ls = lines_of(cs.as_slice());
    match first_with(&ls, "NVSDK_NGX", "Init", "0xBAD00001") {
        Some(line) => {
            if s.hybrid {
                let names = joined(&s.adapters, ", ");
                let set = if prefers {
                    said(l, HIGH_NOTE_EN, HIGH_NOTE_ZH)
                } else {
                    let none = String::new();
                    assert(none@ =~= Seq::empty());
                    none
                };
                push(
                    out,
                    Level::Bad,
                    fill2(tr(l, HYBRID_EN, HYBRID_ZH), names.as_str(), set.as_str()),
                );
            }
            let system = describe(l, &s.ngx);
            let advice = if healthy(&s.ngx) {
                tr(l, ADVICE_FEEDER_EN, ADVICE_FEEDER_ZH)
            } else {
                tr(l, ADVICE_DRIVER_EN, ADVICE_DRIVER_ZH)
            };
            let t = string(trimmed(line));
            push(
                out,
                Level::Bad,
                fill3(tr(l, REFUSED_EN, REFUSED_ZH), t.as_str(), system.as_str(), advice),
            );
            assert(notes(out@) =~= before + refusal_notes(l, log@, prefers, *s));
        },
        None => {
            assert(notes(out@) =~= before + refusal_notes(l, log@, prefers, *s));
        },
    }
}

fn feed_state_findings(l: Lang, fd: &[char], ls: &Vec<Vec<char>>, out: &mut Vec<Finding>)
    requires
        rows(ls@) == lines(fd@),
    ensures
        notes(final(out)@) == notes(old(out)@) + feed_state_notes(l, fd@),
{
    let ghost before = notes(out@);
    push_when(out, holds(fd, "feature ready"), Level::Good, l, FEED_READY_EN, FEED_READY_ZH);
    let delivered = holds(fd, "frame") && holds(fd, "delivered");
    push_when(out, delivered, Level::Good, l, DELIVERED_EN, DELIVERED_ZH);
    let missing = holds(fd, "technique MISSING") && !holds(fd, "technique found");
    push_when(out, missing, Level::Bad, l, FX_MISSING_EN, FX_MISSING_ZH);
    let none = match last_with(ls, "[feed] effects:") {
        Some(t) => holds(t, "-> none (not installed)"),
        None => {
            let empty: Vec<char> = Vec::new();
            assert(empty@ =~= Seq::empty());
            holds(empty.as_slice(), "-> none (not installed)")
        },
    };
    push_when(out, none, Level::Bad, l, NO_PROVIDER_EN, NO_PROVIDER_ZH);
    assert(notes(out@) =~= before + feed_state_notes(l, fd@));
}

fn helper_findings(l: Lang, st: &GameStatus, s: &Session, out: &mut Vec<Finding>)
    ensures
        notes(final(out)@) == notes(old(out)@) + helper_notes(l, *st, *s),
{
    let ghost before = notes(out@);
    match &s.host_log {
        Some(log) => {
            let hl = chars(log.as_str());
            let ready = holds(hl.as_slice(), "feature ready");
            push_when(out, ready, Level::Good, l, HOST_READY_EN, HOST_READY_ZH);
            ngx_init_failure_for(l, log.as_str(), s.host_prefers, s, out);
            assert(notes(out@) =~= before + helper_notes(l, *st, *s));
        },
        None => {
            push_when(out, st.is32(), Level::Warn, l, NO_HOST_FEED_LOG_EN, NO_HOST_FEED_LOG_ZH);
        },
    }
}

fn old_feeder_findings(l: Lang, fd: &[char], out: &mut Vec<Finding>)
    ensures
        notes(final(out)@) == notes(old(out)@) + old_feeder_notes(l, fd@),
{
    match feed_version_of(fd) {
        Some(v) => {
            let ver = string(v.as_slice());
            let have = version_key(ver.as_str());
            let want = version_key(CURRENT_FEEDER);
            if numbers_before(&have, &want) {
                push(
                    out,
                    Level::Warn,
                    fill2(tr(l, OLD_FEEDER_EN, OLD_FEEDER_ZH), ver.as_str(), CURRENT_FEEDER),
                );
            } else {
                assert(notes(out@) =~= notes(old(out)@) + old_feeder_notes(l, fd@));
            }
        },
        None => {
            assert(notes(out@) =~= notes(old(out)@) + old_feeder_notes(l, fd@));
        },
    }
}

fn work_share_of(l: Lang, ls: &Vec<Vec<char>>, Ghost(fd): Ghost<Seq<char>>) -> (r: String)
    requires
        rows(ls@) == lines(fd),
    ensures
        r@ == work_share(l, fd),
{
    match first_with(ls, "work resolution (", "work resolution (", "work resolution (") {
        Some(line) => {
            proof {
                lemma_found_line(
                    lines(fd),
                    |t: Seq<char>|
                        contains(t, "work resolution ("@) && contains(t, "work resolution ("@)
                            && contains(t, "work resolution ("@),
                );
            }
            match text_after(line, "work resolution (") {
                Some(t) => string(head_of(text_before(t, "work resolution ("), ')')),
                None => {
                    proof {
                        crate::text::lemma_find(line@, "work resolution ("@);
                    }
                    said(l, BELOW_FULL_EN, BELOW_FULL_ZH)
                },
            }
        },
        None => said(l, BELOW_FULL_EN, BELOW_FULL_ZH),
    }
}

/// The line that was looked for is of the kind that was looked for.
proof fn lemma_found_line(ls: Seq<Seq<char>>, f: spec_fn(Seq<char>) -> bool)
    ensures
        first_line(ls, f) matches Some(t) ==> f(t),
    decreases ls.len(),
{
    if ls.len() > 0 {
        lemma_found_line(ls.drop_last(), f);
    }
}

fn feed_fault_findings(l: Lang, fd: &[char], ls: &Vec<Vec<char>>, out: &mut Vec<Finding>)
    requires
        rows(ls@) == lines(fd@),
    ensures
        notes(final(out)@) == notes(old(out)@) + feed_fault_notes(l, fd@),
{
    let ghost before = notes(out@);
    let zero = holds(fd, "MV probe") && holds(fd, "0% non-zero");
    push_when(out, zero, Level::Bad, l, ZERO_VECTORS_EN, ZERO_VECTORS_ZH);
    let unavailable = holds(fd, "DLSS super sampling is not available");
    push_when(out, unavailable, Level::Bad, l, UNAVAILABLE_EN, UNAVAILABLE_ZH);
    work_refused_findings(l, fd, ls, out);
    feed_stopped_findings(l, fd, ls, out);
    let crashed = holds(fd, "CRASH RECORDED");
    push_when(out, crashed, Level::Warn, l, CRASHED_EN, CRASHED_ZH);
    proof {
        lemma_sum5(
            before,
            when(zero, Level::Bad, say(l, ZERO_VECTORS_EN@, ZERO_VECTORS_ZH@)),
            when(unavailable, Level::Bad, say(l, UNAVAILABLE_EN@, UNAVAILABLE_ZH@)),
            work_refused_notes(l, fd@),
            feed_stopped_notes(l, fd@),
            when(crashed, Level::Warn, say(l, CRASHED_EN@, CRASHED_ZH@)),
        );
    }
}

fn work_refused_findings(l: Lang, fd: &[char], ls: &Vec<Vec<char>>, out: &mut Vec<Finding>)
    requires
        rows(ls@) == lines(fd@),
    ensures
        notes(final(out)@) == notes(old(out)@) + work_refused_notes(l, fd@),
{
    if holds(fd, "work-resolution staging SRV failed") {
        let share = work_share_of(l, ls, Ghost(fd@));
        push(out, Level::Bad, fill1(tr(l, WORK_REFUSED_EN, WORK_REFUSED_ZH), share.as_str()));
    } else {
        assert(notes(out@) =~= notes(old(out)@) + work_refused_notes(l, fd@));
    }
}

fn feed_stopped_findings(l: Lang, fd: &[char], ls: &Vec<Vec<char>>, out: &mut Vec<Finding>)
    requires
        rows(ls@) == lines(fd@),
    ensures
        notes(final(out)@) == notes(old(out)@) + feed_stopped_notes(l, fd@),
{
    if holds(fd, "stopped:") {
        let line = match last_with(ls, "stopped:") {
            Some(t) => string(trimmed(t)),
            None => {
                let none = String::new();
                assert(none@ =~= trim(Seq::empty()));
                none
            },
        };
        push(out, Level::Bad, fill1(tr(l, FEED_STOPPED_EN, FEED_STOPPED_ZH), line.as_str()));
    } else {
        assert(notes(out@) =~= notes(old(out)@) + feed_stopped_notes(l, fd@));
    }
}

fn feeder_findings(l: Lang, st: &GameStatus, s: &Session, out: &mut Vec<Finding>)
    ensures
        notes(final(out)@) == notes(old(out)@) + feeder_notes(l, *st, *s),
{
    let ghost before = notes(out@);
    if st.mode == Mode::Feeder {
        match &s.feed_log {
            None => {
                push(out, Level::Bad, said(l, NO_FEED_LOG_EN, NO_FEED_LOG_ZH));
            },
            Some(log) => {
                let fd = chars(log.as_str());
                let ls = lines_of(fd.as_slice());
                feed_state_findings(l, fd.as_slice(), &ls, out);
                ngx_init_failure_for(l, log.as_str(), s.game_prefers, s, out);
                helper_findings(l, st, s, out);
                old_feeder_findings(l, fd.as_slice(), out);
                feed_fault_findings(l, fd.as_slice(), &ls, out);
                proof {
                    lemma_sum5(
                        before,
                        feed_state_notes(l, fd@),
                        refusal_notes(l, fd@, s.game_prefers, *s),
                        helper_notes(l, *st, *s),
                        old_feeder_notes(l, fd@),
                        feed_fault_notes(l, fd@),
                    );
                }
            },
        }
    } else {
        assert(notes(out@) =~= before + feeder_notes(l, *st, *s));
    }
}

/// Findings for a game folder, in reading order.
pub fn diagnose(l: Lang, st: &GameStatus, s: &Session) -> (r: Vec<Finding>)
    ensures
        notes(r@) == diagnosis(l, *st, *s),
{
    let mut out: Vec<Finding> = Vec::new();
    let logs = logs_of(st, s);
    let log: &Option<String> = match &logs.reshade {
        Some(_) => &logs.reshade,
        None => &logs.reshade2,
    };
    assert(opt_text(*log) == session_log(*st, *s));
    let wine = match log {
        Some(t) => holds(chars(t.as_str()).as_slice(), "not yet implemented feature"),
        None => false,
    };
    assert(notes(out@) =~= Seq::empty());
    compiler_findings(l, st, s, wine, &mut out);
    assert(notes(out@) =~= compiler_notes(l, *st, *s));
    model_findings(l, st, s, &mut out);
    let ghost first = notes(out@);
    let text = match log {
        Some(t) => t,
        None => {
            if st.is32() {
                push(&mut out, Level::Bad, said(l, NO_HOST_LOG_EN, NO_HOST_LOG_ZH));
            } else {
                push(&mut out, Level::Bad, said(l, NO_LOG_EN, NO_LOG_ZH));
            }
            assert(notes(out@) =~= first + seq![no_log_note(l, *st)]);
            return out;
        },
    };
    let rs = chars(text.as_str());
    let ls = lines_of(rs.as_slice());
    let loaded = holds(rs.as_slice(), "Initializing crosire's ReShade");
    push_when(&mut out, loaded, Level::Good, l, LOADED_EN, LOADED_ZH);
    addon_finding(l, st, rs.as_slice(), &ls, &mut out);
    toggle_findings(l, rs.as_slice(), &mut out);
    model_ran_findings(l, st, rs.as_slice(), &mut out);
    effect_findings(l, st, s, wine, rs.as_slice(), &ls, &mut out);
    other_exe_findings(l, st, text.as_str(), &mut out);
    bridge_findings(l, s, &mut out);
    feeder_findings(l, st, s, &mut out);
    proof {
        let opening = when(loaded, Level::Good, say(l, LOADED_EN@, LOADED_ZH@));
        let head = opening.push(addon_note(l, *st, rs@));
        let (t, m, e) = (
            toggle_notes(l, rs@),
            model_ran_notes(l, *st, rs@),
            effect_notes(l, *st, *s, rs@),
        );
        lemma_sum_push(first, opening, addon_note(l, *st, rs@));
        lemma_sum5(first, head, t, m, e, other_exe_notes(l, *st, rs@));
        lemma_sum3(
            first,
            head + t + m + e + other_exe_notes(l, *st, rs@),
            bridge_notes(l, *s),
            feeder_notes(l, *st, *s),
        );
    }
    out
}

/// The findings for a game that could be inspected, or why it could not.
pub fn run(l: Lang, inspected: Result<GameStatus, String>, s: &Session) -> (r: Result<
    Vec<Finding>,
    String,
>)
    ensures
        match inspected {
            Ok(st) => r is Ok && notes(r->Ok_0@) == diagnosis(l, st, *s),
            Err(e) => r is Err && r->Err_0@ == e@,
        },
{
    match inspected {
        Ok(st) => Ok(diagnose(l, &st, s)),
        Err(e) => Err(e),
    }
}

// ── laws ───────────────────────────────────────────────────────────

proof fn lemma_contains_sum(a: Seq<Note>, b: Seq<Note>, n: Note)
    requires
        a.contains(n) || b.contains(n),
    ensures
        (a + b).contains(n),
{
    if a.contains(n) {
        let k = choose|k: int| 0 <= k < a.len() && a[k] == n;
        assert((a + b)[k] == n);
    } else {
        let k = choose|k: int| 0 <= k < b.len() && b[k] == n;
        assert((a + b)[a.len() + k] == n);
    }
}

/// What is said of a session that has a ReShade log, part by part.
proof fn lemma_parts(l: Lang, st: GameStatus, s: Session, n: Note)
    requires
        session_log(st, s) is Some,
        ({
            let rs = session_log(st, s)->0;
            n == addon_note(l, st, rs) || effect_notes(l, st, s, rs).contains(n) || feeder_notes(
                l,
                st,
                s,
            ).contains(n)
        }),
    ensures
        diagnosis(l, st, s).contains(n),
{
    let rs = session_log(st, s)->0;
    let a = when(
        contains(rs, "Initializing crosire's ReShade"@),
        Level::Good,
        say(l, LOADED_EN@, LOADED_ZH@),
    ).push(addon_note(l, st, rs));
    assert(a.last() == addon_note(l, st, rs));
    assert(a[a.len() - 1] == addon_note(l, st, rs));
    let b = a + toggle_notes(l, rs);
    let c = b + model_ran_notes(l, st, rs);
    let d = c + effect_notes(l, st, s, rs);
    let e = d + other_exe_notes(l, st, rs);
    let f = e + bridge_notes(l, s);
    let g = f + feeder_notes(l, st, s);
    if n == addon_note(l, st, rs) {
        assert(a.contains(n));
        lemma_contains_sum(a, toggle_notes(l, rs), n);
        lemma_contains_sum(b, model_ran_notes(l, st, rs), n);
        lemma_contains_sum(c, effect_notes(l, st, s, rs), n);
    }
    if n == addon_note(l, st, rs) || effect_notes(l, st, s, rs).contains(n) {
        lemma_contains_sum(c, effect_notes(l, st, s, rs), n);
        lemma_contains_sum(d, other_exe_notes(l, st, rs), n);
        lemma_contains_sum(e, bridge_notes(l, s), n);
    }
    lemma_contains_sum(f, feeder_notes(l, st, s), n);
    lemma_contains_sum(compiler_notes(l, st, s) + model_notes(l, st, s), g, n);
}

/// Two sessions differ in nothing but their ReShade logs, and not in those that
/// count.
spec fn same_but_idle_logs(st: GameStatus, a: Session, b: Session) -> bool {
    &&& session_logs(st, a) == session_logs(st, b)
    &&& b == (Session { game_logs: b.game_logs, host_logs: b.host_logs, ..a })
}

proof fn lemma_same_refusals(
    l: Lang,
    st: GameStatus,
    log: Seq<char>,
    p: bool,
    a: Session,
    b: Session,
)
    requires
        same_but_idle_logs(st, a, b),
    ensures
        refusal_notes(l, log, p, a) == refusal_notes(l, log, p, b),
{
}

proof fn lemma_same_feeder(l: Lang, st: GameStatus, a: Session, b: Session)
    requires
        same_but_idle_logs(st, a, b),
    ensures
        feeder_notes(l, st, a) == feeder_notes(l, st, b),
{
    assert(helper_notes(l, st, a) == helper_notes(l, st, b)) by {
        if let Some(hl) = opt_text(a.host_log) {
            lemma_same_refusals(l, st, hl, a.host_prefers, a, b);
        }
    }
    if let Some(fd) = opt_text(a.feed_log) {
        lemma_same_refusals(l, st, fd, a.game_prefers, a, b);
    }
}

proof fn lemma_same_effects(l: Lang, st: GameStatus, a: Session, b: Session, rs: Seq<char>)
    requires
        same_but_idle_logs(st, a, b),
    ensures
        compiler_notes(l, st, a) == compiler_notes(l, st, b),
        effect_notes(l, st, a, rs) == effect_notes(l, st, b, rs),
{
}

proof fn lemma_same_models(l: Lang, st: GameStatus, a: Session, b: Session)
    requires
        same_but_idle_logs(st, a, b),
    ensures
        model_notes(l, st, a) == model_notes(l, st, b),
{
}

proof fn lemma_same_bridge(l: Lang, st: GameStatus, a: Session, b: Session)
    requires
        same_but_idle_logs(st, a, b),
    ensures
        bridge_notes(l, a) == bridge_notes(l, b),
{
}

proof fn lemma_same_diagnosis(l: Lang, st: GameStatus, a: Session, b: Session)
    requires
        same_but_idle_logs(st, a, b),
    ensures
        diagnosis(l, st, a) == diagnosis(l, st, b),
{
    let rs = match session_log(st, a) {
        Some(rs) => rs,
        None => Seq::empty(),
    };
    lemma_same_effects(l, st, a, b, rs);
    lemma_same_models(l, st, a, b);
    lemma_same_bridge(l, st, a, b);
    lemma_same_feeder(l, st, a, b);
    assert(session_log(st, a) == session_log(st, b));
}

/// For a 32-bit game only the ReShade logs in `host64` count: whatever those
/// beside the exe hold, and whether they are there, the findings are the same.
pub proof fn law_host_log_alone_counts(l: Lang, st: GameStatus, a: Session, b: Session)
    requires
        st.is_32(),
        b == (Session { game_logs: b.game_logs, ..a }),
    ensures
        diagnosis(l, st, a) == diagnosis(l, st, b),
{
    lemma_same_diagnosis(l, st, a, b);
}

/// For a 64-bit game only the ReShade logs beside the exe count.
pub proof fn law_game_log_alone_counts(l: Lang, st: GameStatus, a: Session, b: Session)
    requires
        !st.is_32(),
        b == (Session { host_logs: b.host_logs, ..a }),
    ensures
        diagnosis(l, st, a) == diagnosis(l, st, b),
{
    lemma_same_diagnosis(l, st, a, b);
}

/// Without a ReShade log the diagnosis ends with that, and it is fatal.
pub proof fn law_no_log_is_fatal(l: Lang, st: GameStatus, s: Session)
    requires
        session_log(st, s) is None,
    ensures
        diagnosis(l, st, s).last() == no_log_note(l, st),
        no_log_note(l, st).level == Level::Bad,
        diagnosis(l, st, s).len() <= 3,
{
}

/// Where ReShade ran, the add-on is always judged: it failed to load, it is
/// registered, or it never was. So there is always a finding.
pub proof fn law_addon_is_always_judged(l: Lang, st: GameStatus, s: Session)
    ensures
        session_log(st, s) matches Some(rs) ==> diagnosis(l, st, s).contains(addon_note(l, st, rs)),
        diagnosis(l, st, s).len() > 0,
{
    match session_log(st, s) {
        Some(rs) => {
            lemma_parts(l, st, s, addon_note(l, st, rs));
        },
        None => {
            assert(diagnosis(l, st, s).len() > 0);
        },
    }
}

/// Under Wine the failed compile is named and the advice to rename the game's
/// compiler is not given: Wine's own DLL would take its place.
pub proof fn law_wine_is_named(l: Lang, st: GameStatus, s: Session)
    requires
        wine_hlsl(st, s),
    ensures
        compiler_notes(l, st, s).len() == 0,
        exists|i: int|
            0 <= i < diagnosis(l, st, s).len() && (#[trigger] diagnosis(l, st, s)[i]).level
                == Level::Bad && diagnosis(l, st, s)[i].text == fill(
                say(l, WINE_EN@, WINE_ZH@),
                seq![
                    trim(
                        or_text(
                            line_holding(session_log(st, s)->0, "not yet implemented feature"@),
                            Seq::empty(),
                        ),
                    ),
                ],
            ),
{
    let rs = session_log(st, s)->0;
    let n = Note {
        level: Level::Bad,
        text: fill(
            say(l, WINE_EN@, WINE_ZH@),
            seq![trim(or_text(line_holding(rs, "not yet implemented feature"@), Seq::empty()))],
        ),
    };
    assert(effect_notes(l, st, s, rs)[0] == n);
    lemma_parts(l, st, s, n);
    let k = choose|k: int| 0 <= k < diagnosis(l, st, s).len() && diagnosis(l, st, s)[k] == n;
    assert(diagnosis(l, st, s)[k].level == Level::Bad);
}

/// A work resolution that the game refused is reported with the share of the
/// frame that the feeder's log names.
pub proof fn law_refused_work_resolution_is_reported(l: Lang, st: GameStatus, s: Session)
    requires
        session_log(st, s) is Some,
        st.mode == Mode::Feeder,
        opt_text(s.feed_log) is Some,
        contains(opt_text(s.feed_log)->0, "work-resolution staging SRV failed"@),
    ensures
        diagnosis(l, st, s).contains(
            Note {
                level: Level::Bad,
                text: fill(
                    say(l, WORK_REFUSED_EN@, WORK_REFUSED_ZH@),
                    seq![work_share(l, opt_text(s.feed_log)->0)],
                ),
            },
        ),
{
    let fd = opt_text(s.feed_log)->0;
    let n = Note {
        level: Level::Bad,
        text: fill(say(l, WORK_REFUSED_EN@, WORK_REFUSED_ZH@), seq![work_share(l, fd)]),
    };
    let a = when(
        contains(fd, "MV probe"@) && contains(fd, "0% non-zero"@),
        Level::Bad,
        say(l, ZERO_VECTORS_EN@, ZERO_VECTORS_ZH@),
    ) + when(
        contains(fd, "DLSS super sampling is not available"@),
        Level::Bad,
        say(l, UNAVAILABLE_EN@, UNAVAILABLE_ZH@),
    );
    assert(work_refused_notes(l, fd)[0] == n);
    lemma_contains_sum(a, work_refused_notes(l, fd), n);
    lemma_contains_sum(a + work_refused_notes(l, fd), feed_stopped_notes(l, fd), n);
    lemma_contains_sum(
        a + work_refused_notes(l, fd) + feed_stopped_notes(l, fd),
        when(contains(fd, "CRASH RECORDED"@), Level::Warn, say(l, CRASHED_EN@, CRASHED_ZH@)),
        n,
    );
    lemma_contains_sum(
        feed_state_notes(l, fd) + refusal_notes(l, fd, s.game_prefers, s) + helper_notes(l, st, s)
            + old_feeder_notes(l, fd),
        feed_fault_notes(l, fd),
        n,
    );
    lemma_parts(l, st, s, n);
}

} // verus!
