//! An install as a whole: whether it can start, what runs in which order, what
//! is reported of each step, and whether its result is complete.
use vstd::prelude::*;
use crate::game::{
    Api, GameStatus, Mode, DLSSNR_DLL, DLSS_DLL, FEEDER_ADDON, FEEDER_ADDON32, FEEDER_FX, HOST_DIR,
    HOST_EXE, RESHADE_PROXY,
};
use crate::gpu::Tier;
use crate::lang::{say, tr, Lang};
use crate::lines::{join, joined};
use crate::message::{fill, fill1, fill2, said};
use crate::opti::{manifest_tag, recorded_tag};
use crate::plan::{actions, all_named, plan, plan_with, Engine, Step};
use crate::quality_preset::{resolve, resolved, QualityChoice, QualityOverrides, ResolvedQuality};
use crate::releases::{behind, is_behind, law_newer_is_an_order, newer};
use crate::text::{chars, opt_text, string, texts, trim, trimmed};

verus! {

// ── files that must be there ───────────────────────────────────────

pub const RESHADE_FILE_EN: &'static str = "{} (ReShade)";

pub const RESHADE_FILE_ZH: &'static str = "{}（ReShade）";

pub const HEADERS_FILE_EN: &'static str = "reshade-shaders/Shaders headers (ReShade.fxh…)";

pub const HEADERS_FILE_ZH: &'static str = "reshade-shaders/Shaders 头文件（ReShade.fxh…）";

pub const FEEDER_FILES: &'static str = "{} / {}";

pub const LUMENITE_FILES_EN: &'static str = "LumeniteFX shaders";

pub const LUMENITE_FILES_ZH: &'static str = "LumeniteFX 着色器";

pub const CONSUMER_EN: &'static str = "DLSS 5 neural consumer add-on";

pub const CONSUMER_ZH: &'static str = "DLSS 5 神经消费者附加组件";

pub const BRIDGE_FILE_EN: &'static str = "dx11 bridge add-on";

pub const BRIDGE_FILE_ZH: &'static str = "dx11 桥接附加组件";

pub const IN_FOLDER: &'static str = "{}/{}";

/// One text where `c` holds, none otherwise.
pub open spec fn need(c: bool, text: Seq<char>) -> Seq<Seq<char>> {
    if c {
        seq![text]
    } else {
        Seq::empty()
    }
}

pub open spec fn reshade_file(l: Lang) -> Seq<char> {
    fill(say(l, RESHADE_FILE_EN@, RESHADE_FILE_ZH@), seq![RESHADE_PROXY@])
}

pub open spec fn feeder_files(st: GameStatus) -> Seq<char> {
    fill(
        FEEDER_FILES@,
        seq![
            if st.is_32() {
                FEEDER_ADDON32@
            } else {
                FEEDER_ADDON@
            },
            FEEDER_FX@,
        ],
    )
}

/// What a game on the feeder path lacks.
pub open spec fn feeder_missing(l: Lang, st: GameStatus) -> Seq<Seq<char>> {
    need(!st.reshade, reshade_file(l)) + need(
        !st.headers,
        say(l, HEADERS_FILE_EN@, HEADERS_FILE_ZH@),
    ) + need(
        !st.feeder,
        feeder_files(st),
    ) + need(!st.lumenite, say(l, LUMENITE_FILES_EN@, LUMENITE_FILES_ZH@)) + need(
        !st.dlss5_addon && !st.upstream,
        say(l, CONSUMER_EN@, CONSUMER_ZH@),
    ) + need(!st.dlssnr, DLSSNR_DLL@) + need(!st.dlss, DLSS_DLL@) + need(
        st.is_32() && !st.host_exe,
        fill(IN_FOLDER@, seq![HOST_DIR@, HOST_EXE@]),
    ) + need(st.is_32() && !st.host_reshade, fill(IN_FOLDER@, seq![HOST_DIR@, RESHADE_PROXY@]))
}

/// What a game with DLSS of its own lacks.
pub open spec fn native_missing(l: Lang, st: GameStatus) -> Seq<Seq<char>> {
    if st.opti {
        need(!st.dlssnr, DLSSNR_DLL@)
    } else {
        need(!st.reshade, reshade_file(l)) + need(
            !(st.dlss5_addon || st.upstream),
            say(l, CONSUMER_EN@, CONSUMER_ZH@),
        ) + need(!st.dlssnr, DLSSNR_DLL@) + need(
            st.wants_bridge() && !st.bridge,
            say(l, BRIDGE_FILE_EN@, BRIDGE_FILE_ZH@),
        )
    }
}

pub open spec fn missing(l: Lang, st: GameStatus) -> Seq<Seq<char>> {
    match st.mode {
        Mode::Feeder => feeder_missing(l, st),
        Mode::Native => native_missing(l, st),
    }
}

fn put_need(out: &mut Vec<String>, c: bool, text: String)
    ensures
        texts(final(out)@) == texts(old(out)@) + need(c, text@),
{
    if c {
        out.push(text);
    }
    assert(texts(out@) =~= texts(old(out)@) + need(c, text@));
}

/// Files that must exist after a successful Feeder/Native install.
/// Used so the UI never says "Everything is in place" on a partial copy.
pub fn missing_install_files(l: Lang, st: &GameStatus) -> (r: Vec<String>)
    ensures
        texts(r@) == missing(l, *st),
{
    let mut out: Vec<String> = Vec::new();
    let proxy = fill1(tr(l, RESHADE_FILE_EN, RESHADE_FILE_ZH), RESHADE_PROXY);
    assert(texts(out@) =~= Seq::empty());
    match st.mode {
        Mode::Feeder => {
            let addon = if st.is32() {
                FEEDER_ADDON32
            } else {
                FEEDER_ADDON
            };
            put_need(&mut out, !st.reshade, proxy);
            assert(texts(out@) =~= need(!st.reshade, reshade_file(l)));
            put_need(&mut out, !st.headers, said(l, HEADERS_FILE_EN, HEADERS_FILE_ZH));
            put_need(&mut out, !st.feeder, fill2(FEEDER_FILES, addon, FEEDER_FX));
            put_need(&mut out, !st.lumenite, said(l, LUMENITE_FILES_EN, LUMENITE_FILES_ZH));
            put_need(
                &mut out,
                !st.dlss5_addon && !st.upstream,
                said(l, CONSUMER_EN, CONSUMER_ZH),
            );
            put_need(&mut out, !st.dlssnr, DLSSNR_DLL.to_owned());
            put_need(&mut out, !st.dlss, DLSS_DLL.to_owned());
            put_need(
                &mut out,
                st.is32() && !st.host_exe,
                fill2(IN_FOLDER, HOST_DIR, HOST_EXE),
            );
            put_need(
                &mut out,
                st.is32() && !st.host_reshade,
                fill2(IN_FOLDER, HOST_DIR, RESHADE_PROXY),
            );
        },
        Mode::Native => {
            if st.opti {
                put_need(&mut out, !st.dlssnr, DLSSNR_DLL.to_owned());
                assert(texts(out@) =~= native_missing(l, *st));
            } else {
                put_need(&mut out, !st.reshade, proxy);
                assert(texts(out@) =~= need(!st.reshade, reshade_file(l)));
                put_need(
                    &mut out,
                    !(st.dlss5_addon || st.upstream),
                    said(l, CONSUMER_EN, CONSUMER_ZH),
                );
                put_need(&mut out, !st.dlssnr, DLSSNR_DLL.to_owned());
                put_need(
                    &mut out,
                    st.needs_bridge() && !st.bridge,
                    said(l, BRIDGE_FILE_EN, BRIDGE_FILE_ZH),
                );
            }
        },
    }
    out
}

// ── components that are behind ─────────────────────────────────────

/// The newest release of every component, fetched once and compared against
/// what each game has recorded. Empty fields mean "could not check".
#[derive(Debug, Clone, Default)]
pub struct Latest {
    pub reshade: Option<String>,
    pub feeder: Option<String>,
    pub opti: Option<String>,
    pub dlss: Option<String>,
    pub dlssnr: Option<String>,
}

/// What this tool recorded in a game folder: the texts of its markers and of
/// the OptiScaler manifest. A component with no marker was not placed by it.
#[derive(Debug)]
pub struct Recorded {
    pub reshade: Option<String>,
    pub feeder: Option<String>,
    pub dlss: Option<String>,
    pub dlssnr: Option<String>,
    pub opti_manifest: Option<String>,
}

pub const STALE: &'static str = " → ";

pub const UNKNOWN_EN: &'static str = "unknown version";

pub const UNKNOWN_ZH: &'static str = "未知版本";

pub open spec fn stale_line(name: Seq<char>, have: Seq<char>, want: Seq<char>) -> Seq<char> {
    name + " "@ + have + STALE@ + want
}

/// A component whose recorded version is behind the newest one.
pub open spec fn stale_one(
    name: Seq<char>,
    have: Option<Seq<char>>,
    want: Option<Seq<char>>,
) -> Seq<Seq<char>> {
    match (have, want) {
        (Some(h), Some(w)) => need(behind(trim(h), trim(w)), stale_line(name, trim(h), w)),
        _ => Seq::empty(),
    }
}

/// OptiScaler, whose version stands in its manifest. One that was installed
/// before the version was recorded cannot be compared: an Install settles it
/// either way.
pub open spec fn stale_opti(
    l: Lang,
    manifest: Option<Seq<char>>,
    want: Option<Seq<char>>,
) -> Seq<Seq<char>> {
    match (manifest, want) {
        (Some(m), Some(w)) => match recorded_tag(m) {
            Some(have) => stale_one("OptiScaler"@, Some(have), Some(w)),
            None => seq![stale_line("OptiScaler"@, say(l, UNKNOWN_EN@, UNKNOWN_ZH@), w)],
        },
        _ => Seq::empty(),
    }
}

pub open spec fn stale(l: Lang, rec: Recorded, latest: Latest) -> Seq<Seq<char>> {
    stale_one("ReShade"@, opt_text(rec.reshade), opt_text(latest.reshade)) + stale_one(
        "DLSS5-Feeder"@,
        opt_text(rec.feeder),
        opt_text(latest.feeder),
    ) + stale_one("nvngx_dlss.dll"@, opt_text(rec.dlss), opt_text(latest.dlss)) + stale_one(
        "nvngx_dlssnr.dll"@,
        opt_text(rec.dlssnr),
        opt_text(latest.dlssnr),
    ) + stale_opti(l, opt_text(rec.opti_manifest), opt_text(latest.opti))
}

fn stale_text(name: &str, have: &str, want: &str) -> (r: String)
    ensures
        r@ == stale_line(name@, have@, want@),
{
    let mut t = name.to_owned();
    t.append(" ");
    t.append(have);
    t.append(STALE);
    t.append(want);
    t
}

fn put_stale(out: &mut Vec<String>, name: &str, have: &Option<String>, want: &Option<String>)
    ensures
        texts(final(out)@) == texts(old(out)@) + stale_one(
            name@,
            opt_text(*have),
            opt_text(*want),
        ),
{
    if let (Some(h), Some(w)) = (have, want) {
        let a = chars(h.as_str());
        let b = chars(w.as_str());
        let shown = string(trimmed(a.as_slice()));
        let newest = string(trimmed(b.as_slice()));
        if is_behind(shown.as_str(), newest.as_str()) {
            out.push(stale_text(name, shown.as_str(), w.as_str()));
        }
    }
    assert(texts(out@) =~= texts(old(out)@) + stale_one(name@, opt_text(*have), opt_text(*want)));
}

/// Components this tool placed whose recorded version is behind `latest`. A
/// component with no marker was not placed by this tool and is never reported,
/// so a user's own ReShade never shows up as "out of date".
pub fn stale_components(l: Lang, rec: &Recorded, latest: &Latest) -> (r: Vec<String>)
    ensures
        texts(r@) == stale(l, *rec, *latest),
{
    let mut out: Vec<String> = Vec::new();
    put_stale(&mut out, "ReShade", &rec.reshade, &latest.reshade);
    assert(texts(out@) =~= stale_one("ReShade"@, opt_text(rec.reshade), opt_text(latest.reshade)));
    put_stale(&mut out, "DLSS5-Feeder", &rec.feeder, &latest.feeder);
    put_stale(&mut out, "nvngx_dlss.dll", &rec.dlss, &latest.dlss);
    put_stale(&mut out, "nvngx_dlssnr.dll", &rec.dlssnr, &latest.dlssnr);
    let ghost before = texts(out@);
    if let (Some(m), Some(want)) = (&rec.opti_manifest, &latest.opti) {
        let tag = manifest_tag(m.as_str());
        if tag.is_some() {
            put_stale(&mut out, "OptiScaler", &tag, &latest.opti);
        } else {
            out.push(stale_text("OptiScaler", tr(l, UNKNOWN_EN, UNKNOWN_ZH), want.as_str()));
            assert(texts(out@) =~= before + stale_opti(
                l,
                opt_text(rec.opti_manifest),
                opt_text(latest.opti),
            ));
        }
    } else {
        assert(texts(out@) =~= before + stale_opti(
            l,
            opt_text(rec.opti_manifest),
            opt_text(latest.opti),
        ));
    }
    out
}

// ── whether an install can start ───────────────────────────────────

/// Quality seed for an install.
#[derive(Debug, Clone, Copy, PartialEq, Eq, Structural)]
pub struct InstallOpts {
    pub quality: QualityChoice,
    pub overrides: QualityOverrides,
}

pub const UPSTREAM_NEEDS_EN: &'static str =
    "Neural Upstream runs the network on the colour buffer the game hands its own DLSS, so it needs a game with DLSS of its own on the ReShade engine. This game has none - use the stable ReShade add-on.";

pub const UPSTREAM_NEEDS_ZH: &'static str =
    "神经上游在网络运行于游戏交给自身 DLSS 的色彩缓冲上，因此需要游戏在 ReShade 引擎上自带 DLSS。此游戏没有 —— 请使用稳定版 ReShade 附加组件。";

pub const OPTI_64_EN: &'static str =
    "The OptiScaler engine is 64-bit only; a 32-bit game takes the Feeder path.";

pub const OPTI_64_ZH: &'static str = "OptiScaler 引擎仅支持 64 位；32 位游戏请走 Feeder 路径。";

pub const OPTI_NEEDS_EN: &'static str =
    "The OptiScaler engine needs a game with its own DLSS (its Neural Rendering pass \
             reads the inputs the game hands to DLSS). This game has none — use the ReShade engine.";

pub const OPTI_NEEDS_ZH: &'static str =
    "OptiScaler 引擎需要游戏自带 DLSS（其神经渲染通道读取游戏交给 DLSS 的输入）。此游戏没有 —— 请使用 ReShade 引擎。";

/// Why an install cannot start; `None` where it can.
pub open spec fn refusal(l: Lang, st: GameStatus, engine: Engine, upstream: bool) -> Option<
    Seq<char>,
> {
    if st.problems@.len() > 0 {
        Some(join(texts(st.problems@), "\n"@))
    } else if engine == Engine::ReShade && st.reshade_problem is Some {
        opt_text(st.reshade_problem)
    } else if upstream && (engine != Engine::ReShade || st.mode != Mode::Native) {
        Some(say(l, UPSTREAM_NEEDS_EN@, UPSTREAM_NEEDS_ZH@))
    } else if engine == Engine::Opti && st.is_32() {
        Some(say(l, OPTI_64_EN@, OPTI_64_ZH@))
    } else if engine == Engine::Opti && st.mode == Mode::Feeder {
        Some(say(l, OPTI_NEEDS_EN@, OPTI_NEEDS_ZH@))
    } else {
        None
    }
}

fn gate(l: Lang, st: &GameStatus, engine: Engine, upstream: bool) -> (r: Option<String>)
    ensures
        opt_text(r) == refusal(l, *st, engine, upstream),
{
    if st.problems.len() > 0 {
        return Some(joined(&st.problems, "\n"));
    }
    if engine == Engine::ReShade {
        if let Some(p) = &st.reshade_problem {
            return Some(p.as_str().to_owned());
        }
    }
    if upstream && (engine != Engine::ReShade || st.mode != Mode::Native) {
        return Some(said(l, UPSTREAM_NEEDS_EN, UPSTREAM_NEEDS_ZH));
    }
    if engine == Engine::Opti && st.is32() {
        return Some(said(l, OPTI_64_EN, OPTI_64_ZH));
    }
    if engine == Engine::Opti && st.mode == Mode::Feeder {
        return Some(said(l, OPTI_NEEDS_EN, OPTI_NEEDS_ZH));
    }
    None
}

// ── an install that runs ───────────────────────────────────────────

#[derive(Debug, Clone, Copy, PartialEq, Eq, Structural)]
pub enum StepState {
    Start,
    Done,
    Error,
}

/// What is reported of a step: which of how many, its name, and how it stands.
#[derive(Debug)]
pub struct Notice {
    pub index: usize,
    pub total: usize,
    pub title: &'static str,
    pub state: StepState,
    pub detail: String,
}

/// An install that runs: its steps, how many of them are done and what each
/// placed, and the quality that the config step writes.
#[derive(Debug)]
pub struct Install {
    pub steps: Vec<Step>,
    pub results: Vec<(String, Vec<String>)>,
    pub quality: Option<ResolvedQuality>,
}

/// A result as texts.
pub open spec fn result_text(p: (String, Vec<String>)) -> (Seq<char>, Seq<Seq<char>>) {
    (p.0@, texts(p.1@))
}

pub open spec fn result_texts(v: Seq<(String, Vec<String>)>) -> Seq<(Seq<char>, Seq<Seq<char>>)> {
    Seq::new(v.len(), |i: int| result_text(v[i]))
}

pub const PRESENT_EN: &'static str = "already present";

pub const PRESENT_ZH: &'static str = "已存在";

/// What is shown of the files that a step placed.
pub open spec fn detail(l: Lang, files: Seq<Seq<char>>) -> Seq<char> {
    if files.len() == 0 {
        say(l, PRESENT_EN@, PRESENT_ZH@)
    } else {
        join(files, ", "@)
    }
}

pub const INCOMPLETE_EN: &'static str =
    "Install finished but files are missing: {}. Not reporting success.";

pub const INCOMPLETE_ZH: &'static str = "安装完成但文件缺失：{}。不报告成功。";

/// The error of an install whose steps are done; `None` where it is complete.
pub open spec fn finish_error(l: Lang, st: GameStatus) -> Option<Seq<char>> {
    if missing(l, st).len() == 0 {
        None
    } else {
        Some(
            fill(
                say(l, INCOMPLETE_EN@, INCOMPLETE_ZH@),
                seq![join(missing(l, st), ", "@)],
            ),
        )
    }
}

/// The error of an install whose step `title` failed.
pub open spec fn step_error(title: Seq<char>, message: Seq<char>) -> Seq<char> {
    title + ": "@ + message
}

/// The quality that is left after a step: none once a step has failed.
pub open spec fn quality_left(
    state: StepState,
    quality: Option<ResolvedQuality>,
) -> Option<ResolvedQuality> {
    if state == StepState::Error {
        None
    } else {
        quality
    }
}

impl Install {
    /// Every finished step has a result, under its name.
    pub open spec fn wf(self, l: Lang) -> bool {
        &&& self.results@.len() <= self.steps@.len()
        &&& forall|i: int|
            0 <= i < self.results@.len() ==> (#[trigger] self.results@[i]).0@
                == self.steps@[i].shown(l)
    }

    /// A step is left to run.
    pub open spec fn running(self) -> bool {
        self.results@.len() < self.steps@.len()
    }

    /// The step that runs next.
    pub open spec fn at(self) -> Step {
        self.steps@[self.results@.len() as int]
    }

    /// The step to run next, and what is reported as it starts; `None` when
    /// all are done.
    pub fn next_step(&self, l: Lang) -> (r: Option<(Step, Notice)>)
        requires
            self.wf(l),
        ensures
            r is Some <==> self.running(),
            r matches Some(p) ==> {
                &&& p.0 == self.at()
                &&& p.1.index == self.results@.len()
                &&& p.1.total == self.steps@.len()
                &&& p.1.title@ == self.at().shown(l)
                &&& p.1.state == StepState::Start
                &&& p.1.detail@.len() == 0
            },
    {
        let i: usize = self.results.len();
        if i >= self.steps.len() {
            return None;
        }
        let step = self.steps[i];
        Some(
            (
                step,
                Notice {
                    index: i,
                    total: self.steps.len(),
                    title: step.title(l),
                    state: StepState::Start,
                    detail: String::new(),
                },
            ),
        )
    }

    /// The running step has placed `files`: it is done, and the next one runs.
    pub fn step_done(&mut self, l: Lang, files: Vec<String>) -> (r: Notice)
        requires
            old(self).wf(l),
            old(self).running(),
        ensures
            final(self).wf(l),
            final(self).steps == old(self).steps,
            final(self).quality == old(self).quality,
            final(self).quality == quality_left(r.state, old(self).quality),
            result_texts(final(self).results@) == result_texts(old(self).results@).push(
                (old(self).at().shown(l), texts(files@)),
            ),
            r.index == old(self).results@.len(),
            r.total == old(self).steps@.len(),
            r.title@ == old(self).at().shown(l),
            r.state == StepState::Done,
            r.detail@ == detail(l, texts(files@)),
    {
        let i: usize = self.results.len();
        let title = self.steps[i].title(l);
        assert(texts(files@).len() == files@.len());
        let shown = if files.len() == 0 {
            said(l, PRESENT_EN, PRESENT_ZH)
        } else {
            joined(&files, ", ")
        };
        let ghost before = self.results@;
        self.results.push((title.to_owned(), files));
        proof {
            let now = self.results@;
            assert(result_texts(now) =~= result_texts(before).push(result_text(now.last())));
            assert forall|k: int| 0 <= k < now.len() implies (#[trigger] now[k]).0@
                == self.steps@[k].shown(l) by {
                if k < before.len() {
                    assert(now[k] == before[k]);
                }
            }
        }
        Notice { index: i, total: self.steps.len(), title, state: StepState::Done, detail: shown }
    }

    /// The running step has failed with `message`: what is reported, and the
    /// error of the install. The quality is forgotten.
    pub fn step_failed(&mut self, l: Lang, message: &str) -> (r: (Notice, String))
        requires
            old(self).wf(l),
            old(self).running(),
        ensures
            final(self).steps == old(self).steps,
            final(self).results == old(self).results,
            final(self).quality is None,
            r.0.index == old(self).results@.len(),
            r.0.total == old(self).steps@.len(),
            r.0.title@ == old(self).at().shown(l),
            r.0.state == StepState::Error,
            r.0.detail@ == message@,
            r.1@ == old(self).at().shown(l) + ": "@ + message@,
            r.1@ == step_error(old(self).at().shown(l), message@),
            final(self).quality == quality_left(r.0.state, old(self).quality),
    {
        let i: usize = self.results.len();
        let title = self.steps[i].title(l);
        self.quality = None;
        let mut error = title.to_owned();
        error.append(": ");
        error.append(message);
        (
            Notice {
                index: i,
                total: self.steps.len(),
                title,
                state: StepState::Error,
                detail: message.to_owned(),
            },
            error,
        )
    }

    /// All steps are done. A hollow "success" is refused when critical files
    /// are missing; `st` is the game as it is now.
    pub fn finish(self, l: Lang, st: &GameStatus) -> (r: Result<
        Vec<(String, Vec<String>)>,
        String,
    >)
        requires
            self.wf(l),
            !self.running(),
        ensures
            r is Ok <==> missing(l, *st).len() == 0,
            r matches Ok(v) ==> v@ == self.results@,
            r matches Err(e) ==> e@ == fill(
                say(l, INCOMPLETE_EN@, INCOMPLETE_ZH@),
                seq![join(missing(l, *st), ", "@)],
            ),
            r is Err <==> finish_error(l, *st) is Some,
            r matches Err(e) ==> finish_error(l, *st) == Some(e@),
    {
        let lacks = missing_install_files(l, st);
        assert(texts(lacks@).len() == lacks@.len());
        if lacks.len() > 0 {
            let names = joined(&lacks, ", ");
            return Err(fill1(tr(l, INCOMPLETE_EN, INCOMPLETE_ZH), names.as_str()));
        }
        Ok(self.results)
    }
}

/// The install of a game: refused where it cannot start, otherwise its steps
/// and its quality. `best` is the class of the machine's best card.
pub fn run_all_with(
    l: Lang,
    st: &GameStatus,
    engine: Engine,
    with_renodx: bool,
    upstream: bool,
    opts: InstallOpts,
    best: Option<Tier>,
) -> (r: Result<Install, String>)
    ensures
        r is Err <==> refusal(l, *st, engine, upstream) is Some,
        r matches Err(e) ==> Some(e@) == refusal(l, *st, engine, upstream),
        r matches Ok(i) ==> {
            &&& i.wf(l)
            &&& i.running()
            &&& i.results@.len() == 0
            &&& actions(i.steps@) == plan(*st, engine, with_renodx, upstream)
            &&& all_named(i.steps@)
            &&& i.quality is Some
            &&& i.quality->0@ == resolved(l, opts.quality, *st, best, opts.overrides)
        },
{
    if let Some(e) = gate(l, st, engine, upstream) {
        return Err(e);
    }
    let quality = resolve(l, opts.quality, st, best, &opts.overrides);
    let steps = plan_with(st, engine, with_renodx, upstream);
    proof {
        crate::plan::law_gpu_preference_is_last(*st, engine, with_renodx, upstream);
        assert(actions(steps@).len() == steps@.len());
    }
    Ok(Install { steps, results: Vec::new(), quality: Some(quality) })
}

/// Convenience wrapper for when no explicit quality is passed: the saved
/// settings give it.
pub fn run_all(
    l: Lang,
    st: &GameStatus,
    engine: Engine,
    with_renodx: bool,
    upstream: bool,
    saved: InstallOpts,
    best: Option<Tier>,
) -> (r: Result<Install, String>)
    ensures
        r is Err <==> refusal(l, *st, engine, upstream) is Some,
        r matches Err(e) ==> Some(e@) == refusal(l, *st, engine, upstream),
        r matches Ok(i) ==> {
            &&& i.wf(l)
            &&& i.running()
            &&& i.results@.len() == 0
            &&& actions(i.steps@) == plan(*st, engine, with_renodx, upstream)
            &&& all_named(i.steps@)
            &&& i.quality is Some
            &&& i.quality->0@ == resolved(l, saved.quality, *st, best, saved.overrides)
        },
{
    run_all_with(l, st, engine, with_renodx, upstream, saved, best)
}

// ── laws ───────────────────────────────────────────────────────────

/// Nothing is reported missing exactly when every file that the game's path
/// needs is there.
pub proof fn law_nothing_missing_means_complete(l: Lang, st: GameStatus)
    ensures
        missing(l, st).len() == 0 <==> match st.mode {
            Mode::Feeder => {
                &&& st.reshade && st.headers && st.feeder && st.lumenite
                &&& st.dlss5_addon || st.upstream
                &&& st.dlssnr && st.dlss
                &&& st.is_32() ==> st.host_exe && st.host_reshade
            },
            Mode::Native => st.dlssnr && (st.opti || st.reshade && (st.dlss5_addon || st.upstream)
                && (st.api == Api::Dx11 ==> st.bridge)),
        },
{
}

/// Only what this tool recorded is reported as out of date: without a record
/// nothing is, and neither is anything whose newest version is not known.
pub proof fn law_only_recorded_components_are_stale(l: Lang, rec: Recorded, latest: Latest)
    requires
        rec.reshade is None || latest.reshade is None,
        rec.feeder is None || latest.feeder is None,
        rec.dlss is None || latest.dlss is None,
        rec.dlssnr is None || latest.dlssnr is None,
        rec.opti_manifest is None || latest.opti is None,
    ensures
        stale(l, rec, latest).len() == 0,
{
}

/// A component is reported exactly where its record is behind: where it is
/// another version than the newest one and not known to be newer. A record that
/// equals the newest version or is newer never is, and no two versions that
/// cannot be ranked pass for the same.
pub proof fn law_only_what_is_behind_is_stale(
    name: Seq<char>,
    have: Seq<char>,
    want: Seq<char>,
)
    ensures
        stale_one(name, Some(have), Some(want)).len() > 0 <==> behind(trim(have), trim(want)),
        stale_one(name, Some(have), Some(want)).len() == 0 <==> trim(have) == trim(want) || newer(
            trim(have),
            trim(want),
        ),
        newer(trim(want), trim(have)) ==> stale_one(name, Some(have), Some(want)).len() > 0,
{
    law_newer_is_an_order(trim(have), trim(want), trim(have));
    law_newer_is_an_order(trim(want), trim(have), trim(want));
}

/// An install that starts never asks for what the game cannot give: Neural
/// Upstream and the OptiScaler engine run only in a game with DLSS of its own,
/// the latter only in a 64-bit one.
pub proof fn law_started_install_suits_the_game(
    l: Lang,
    st: GameStatus,
    engine: Engine,
    upstream: bool,
)
    requires
        refusal(l, st, engine, upstream) is None,
    ensures
        st.problems@.len() == 0,
        upstream ==> engine == Engine::ReShade && st.mode == Mode::Native,
        engine == Engine::Opti ==> st.mode == Mode::Native && !st.is_32(),
        engine == Engine::ReShade ==> st.reshade_problem is None,
{
}

} // verus!
