//! The last steps: the feeder's configuration, the lines of the config step,
//! and which GPU Windows starts the process on.
use vstd::prelude::*;
use crate::game::{Mode, RESHADE_INI, RESHADE_PRESET};
use crate::install::need;
use crate::lang::{say, tr, Lang};
use crate::message::{fill, fill1, fill2, lemma_fill_one, lemma_fill_two, said};
use crate::number::{decimal, signed_decimal};
use crate::quality_preset::{
    cfg_text, feeder_cfg_text, law_cfg_reads_back, Quality, ResolvedQuality,
};
use crate::text::{chars, contains, holds, opt_str, texts};

verus! {

pub const REFUSED_MARK: &'static str = "work-resolution staging SRV failed";

/// The feeder's log shows that the game refused a reduced work resolution.
pub open spec fn refused(log: Option<Seq<char>>) -> bool {
    log is Some && contains(log->0, REFUSED_MARK@)
}

/// True when this game has already refused a reduced work resolution; `log` is
/// the text of `dlss5-feed.log`.
///
/// Some games cannot create the staging SRV for the smaller image at any size
/// below full — Dying Light fails identically at 90% and 85% and works at 100%.
/// The feed retries three times and stops, before any DLSS create, so the whole
/// install goes quiet and nothing on screen says why.
pub fn work_resolution_refused(log: Option<&str>) -> (r: bool)
    ensures
        r == refused(opt_str(log)),
{
    match log {
        Some(t) => holds(chars(t).as_slice(), REFUSED_MARK),
        None => false,
    }
}

pub const HELD_EN: &'static str =
    "{} - work_resolution held at 100% (this game refused a smaller one)";

pub const HELD_ZH: &'static str = "{} - work_resolution 保持在 100%（此游戏拒绝更小的值）";

/// A quality that seeds a reduced work resolution would put a game that refused
/// one straight back into the failure it just came out of, every install.
pub open spec fn held(l: Lang, q: Quality, refuses: bool) -> Quality {
    if q.work_resolution < 100 && refuses {
        Quality {
            work_resolution: 100,
            work_upscale: 0,
            summary: fill(say(l, HELD_EN@, HELD_ZH@), seq![q.summary]),
            ..q
        }
    } else {
        q
    }
}

/// The quality that is written for a game.
pub fn held_quality(l: Lang, q: &ResolvedQuality, log: Option<&str>) -> (r: ResolvedQuality)
    ensures
        r@ == held(l, q@, refused(opt_str(log))),
{
    let mut r = q.copy();
    if r.work_resolution < 100 && work_resolution_refused(log) {
        r.work_resolution = 100;
        r.work_upscale = 0;
        r.summary = fill1(tr(l, HELD_EN, HELD_ZH), r.summary.as_str());
    }
    r
}

/// The text of `dlss5-feed.cfg`, before the overlay defaults of the settings.
pub fn write_feeder_cfg(l: Lang, q: &ResolvedQuality, log: Option<&str>) -> (r: String)
    ensures
        r@ == cfg_text(held(l, q@, refused(opt_str(log)))),
{
    let h = held_quality(l, q, log);
    feeder_cfg_text(&h)
}

pub const FEED_CFG: &'static str = "dlss5-feed.cfg";

pub const HELD_LINE_EN: &'static str =
    "work_resolution held at 100%: this game's log shows it refused a smaller one";

pub const HELD_LINE_ZH: &'static str =
    "work_resolution 保持在 100%：此游戏的日志显示它拒绝了更小的值";

/// The lines of the config step. A game with DLSS of its own gets ReShade.ini
/// alone; `patch` is the line of the shader patch, where there is one.
pub open spec fn config_text(
    l: Lang,
    mode: Mode,
    work_resolution: i32,
    refuses: bool,
    patch: Option<Seq<char>>,
) -> Seq<Seq<char>> {
    if mode == Mode::Native {
        seq![RESHADE_INI@]
    } else {
        seq![RESHADE_INI@, RESHADE_PRESET@, FEED_CFG@] + need(
            work_resolution < 100 && refuses,
            say(l, HELD_LINE_EN@, HELD_LINE_ZH@),
        ) + (match patch {
            Some(t) => seq![t],
            None => Seq::empty(),
        })
    }
}

pub fn step_config(
    l: Lang,
    mode: Mode,
    q: &ResolvedQuality,
    log: Option<&str>,
    patch: Option<&str>,
) -> (r: Vec<String>)
    ensures
        texts(r@) == config_text(
            l,
            mode,
            q.work_resolution,
            refused(opt_str(log)),
            opt_str(patch),
        ),
{
    let mut v: Vec<String> = vec![RESHADE_INI.to_owned()];
    if mode != Mode::Native {
        v.push(RESHADE_PRESET.to_owned());
        v.push(FEED_CFG.to_owned());
        if q.work_resolution < 100 && work_resolution_refused(log) {
            v.push(said(l, HELD_LINE_EN, HELD_LINE_ZH));
        }
        if let Some(t) = patch {
            v.push(t.to_owned());
        }
    }
    assert(texts(v@) =~= config_text(
        l,
        mode,
        q.work_resolution,
        refused(opt_str(log)),
        opt_str(patch),
    ));
    v
}

// ── which GPU Windows starts the process on ────────────────────────

/// A program whose preference is set.
#[derive(Debug, Clone, Copy, PartialEq, Eq, Structural)]
pub enum PrefTarget {
    Game,
    Host,
}

/// The programs whose preference is set: those of the game and, for a 32-bit
/// one, of its 64-bit helper that are there; none where there is nothing to
/// choose from.
pub open spec fn pref_programs(
    hybrid: bool,
    is_32: bool,
    exe_there: bool,
    host_there: bool,
) -> Seq<PrefTarget> {
    let game = if hybrid && exe_there {
        seq![PrefTarget::Game]
    } else {
        Seq::empty()
    };
    if hybrid && is_32 && host_there {
        game.push(PrefTarget::Host)
    } else {
        game
    }
}

/// The programs whose preference is set. `hybrid` tells that the machine has
/// graphics cards of more than one vendor.
pub fn pref_targets(hybrid: bool, is_32: bool, exe_there: bool, host_there: bool) -> (r: Vec<
    PrefTarget,
>)
    ensures
        r@ == pref_programs(hybrid, is_32, exe_there, host_there),
{
    let mut v: Vec<PrefTarget> = Vec::new();
    if hybrid && exe_there {
        v.push(PrefTarget::Game);
    }
    if hybrid && is_32 && host_there {
        v.push(PrefTarget::Host);
    }
    v
}

/// What came of setting the preference for a program.
#[derive(Debug)]
pub enum Preference {
    Changed,
    Already,
    Failed(String),
}

pub const PREF_SET_EN: &'static str = "{}: Windows GPU preference set to high performance";

pub const PREF_SET_ZH: &'static str = "{}：已将 Windows GPU 偏好设为高性能";

pub const PREF_ALREADY_EN: &'static str = "{}: already set to the high-performance GPU";

pub const PREF_ALREADY_ZH: &'static str = "{}：已设为高性能 GPU";

pub const PREF_FAILED_EN: &'static str = "{}: could not set the GPU preference ({})";

pub const PREF_FAILED_ZH: &'static str = "{}：无法设置 GPU 偏好（{}）";

/// The line for a program and what came of it.
pub open spec fn pref_text(l: Lang, name: Seq<char>, outcome: Preference) -> Seq<char> {
    match outcome {
        Preference::Changed => fill(say(l, PREF_SET_EN@, PREF_SET_ZH@), seq![name]),
        Preference::Already => fill(say(l, PREF_ALREADY_EN@, PREF_ALREADY_ZH@), seq![name]),
        Preference::Failed(e) => fill(say(l, PREF_FAILED_EN@, PREF_FAILED_ZH@), seq![name, e@]),
    }
}

/// The line for a program. On a hybrid machine Windows may start the game (or
/// the 32-bit helper) on the iGPU, where NGX does not exist and
/// `NVSDK_NGX_D3D12_Init` answers `0xBAD00001`.
pub fn step_gpu_pref(l: Lang, name: &str, outcome: &Preference) -> (r: String)
    ensures
        r@ == match outcome {
            Preference::Changed => fill(say(l, PREF_SET_EN@, PREF_SET_ZH@), seq![name@]),
            Preference::Already => fill(
                say(l, PREF_ALREADY_EN@, PREF_ALREADY_ZH@),
                seq![name@],
            ),
            Preference::Failed(e) => fill(
                say(l, PREF_FAILED_EN@, PREF_FAILED_ZH@),
                seq![name@, e@],
            ),
        },
        r@ == pref_text(l, name@, *outcome),
{
    match outcome {
        Preference::Changed => fill1(tr(l, PREF_SET_EN, PREF_SET_ZH), name),
        Preference::Already => fill1(tr(l, PREF_ALREADY_EN, PREF_ALREADY_ZH), name),
        Preference::Failed(e) => fill2(tr(l, PREF_FAILED_EN, PREF_FAILED_ZH), name, e.as_str()),
    }
}

// ── laws ───────────────────────────────────────────────────────────

/// A game that refused a smaller work resolution is written the full size,
/// without an upscaler, whatever the quality; every other setting is kept.
pub proof fn law_refused_resolution_is_not_written_again(l: Lang, q: Quality)
    ensures
        held(l, q, true).work_resolution >= 100,
        q.work_resolution < 100 ==> held(l, q, true).work_upscale == 0,
        held(l, held(l, q, true), true) == held(l, q, true),
        held(l, q, false) == q,
        held(l, q, true) == (Quality {
            work_resolution: held(l, q, true).work_resolution,
            work_upscale: held(l, q, true).work_upscale,
            summary: held(l, q, true).summary,
            ..q
        }),
{
}

/// Where the feeder's log shows that the game refused a smaller work resolution,
/// the file that is written says the full size and no upscaler; where it does
/// not, or the quality asks for the full size anyway, the quality as it is.
pub proof fn law_refusal_is_written(l: Lang, q: Quality, log: Seq<char>)
    ensures
        ({
            let written = cfg_text(held(l, q, refused(Some(log))));
            let refuses = contains(log, "work-resolution staging SRV failed"@);
            &&& refuses && q.work_resolution < 100 ==> contains(
                written,
                "\nwork_resolution="@ + "100"@ + seq!['\n'],
            ) && contains(written, "\nwork_upscale="@ + "0"@ + seq!['\n'])
            &&& !refuses || q.work_resolution >= 100 ==> written == cfg_text(q)
        }),
        cfg_text(held(l, q, refused(None))) == cfg_text(q),
{
    let h = held(l, q, true);
    law_cfg_reads_back(h);
    reveal_strlit("100");
    reveal_strlit("0");
    reveal_with_fuel(decimal, 4);
    assert(signed_decimal(100) =~= "100"@) by {
        assert(decimal(1) =~= seq!['1']);
        assert(decimal(10) =~= seq!['1', '0']);
        assert(decimal(100) =~= seq!['1', '0', '0']);
    }
    assert(signed_decimal(0) =~= "0"@);
}

/// What the config step reports: the inis that it wrote and, on the feeder path,
/// the preset and the feeder's configuration, then that the resolution was held.
pub proof fn law_config_reports_what_it_wrote(
    l: Lang,
    mode: Mode,
    work_resolution: i32,
    log: Seq<char>,
    patch: Option<Seq<char>>,
)
    ensures
        ({
            let v = config_text(l, mode, work_resolution, refused(Some(log)), patch);
            let held = contains(log, "work-resolution staging SRV failed"@) && work_resolution
                < 100;
            &&& v[0] == "ReShade.ini"@
            &&& mode == Mode::Native ==> v.len() == 1
            &&& mode == Mode::Feeder ==> {
                &&& v[1] == "ReShadePreset.ini"@
                &&& v[2] == "dlss5-feed.cfg"@
                &&& held ==> v[3] == say(l, HELD_LINE_EN@, HELD_LINE_ZH@)
                &&& patch matches Some(t) ==> v.last() == t
                &&& v.len() == 3 + (if held {
                    1int
                } else {
                    0
                }) + (if patch is Some {
                    1int
                } else {
                    0
                })
            }
        }),
{
}

/// The preference is set for the game's exe and, for a 32-bit game, for its
/// helper, where they are there; and for nothing on a machine with one vendor.
pub proof fn law_preference_is_set_for_what_runs(
    hybrid: bool,
    is_32: bool,
    exe_there: bool,
    host_there: bool,
)
    ensures
        ({
            let v = pref_programs(hybrid, is_32, exe_there, host_there);
            &&& v.contains(PrefTarget::Game) <==> hybrid && exe_there
            &&& v.contains(PrefTarget::Host) <==> hybrid && is_32 && host_there
            &&& v.no_duplicates()
            &&& v.len() == 2 ==> v[0] == PrefTarget::Game
        }),
{
    let v = pref_programs(hybrid, is_32, exe_there, host_there);
    if hybrid && exe_there {
        assert(v[0] == PrefTarget::Game);
    }
    if hybrid && is_32 && host_there {
        assert(v[v.len() - 1] == PrefTarget::Host);
    }
}

/// What came of a program's preference is told under its name, a failure with its
/// cause.
pub proof fn law_preference_is_told(name: Seq<char>, outcome: Preference)
    ensures
        ({
            let t = pref_text(Lang::En, name, outcome);
            &&& outcome is Changed ==> t == name
                + ": Windows GPU preference set to high performance"@
            &&& outcome is Already ==> t == name + ": already set to the high-performance GPU"@
            &&& outcome matches Preference::Failed(e) ==> t == name
                + ": could not set the GPU preference ("@ + e@ + ")"@
        }),
{
    match outcome {
        Preference::Changed => {
            reveal_strlit("{}: Windows GPU preference set to high performance");
            reveal_strlit(": Windows GPU preference set to high performance");
            lemma_fill_one(PREF_SET_EN@, name, 0);
            assert(fill(PREF_SET_EN@, seq![name]) =~= name
                + ": Windows GPU preference set to high performance"@);
        },
        Preference::Already => {
            reveal_strlit("{}: already set to the high-performance GPU");
            reveal_strlit(": already set to the high-performance GPU");
            lemma_fill_one(PREF_ALREADY_EN@, name, 0);
            assert(fill(PREF_ALREADY_EN@, seq![name]) =~= name
                + ": already set to the high-performance GPU"@);
        },
        Preference::Failed(e) => {
            reveal_strlit("{}: could not set the GPU preference ({})");
            reveal_strlit(": could not set the GPU preference (");
            reveal_strlit(")");
            lemma_fill_two(PREF_FAILED_EN@, name, e@, 0, 38);
            assert(fill(PREF_FAILED_EN@, seq![name, e@]) =~= name
                + ": could not set the GPU preference ("@ + e@ + ")"@);
        },
    }
}

} // verus!
