//! Quality presets for Feeder installs: Auto / Low / Medium / High.
//!
//! Used only to write a sensible default `dlss5-feed.cfg` + FX uniforms at Install.
//! Live knobs live in the ReShade overlay (Feeder).
//! Feeder auto-profile then retunes reset / lightstab / OFA once from observed game data.
//!
//! Thresholds are kept in thousandths, strengths and sharpness in hundredths:
//! the precision they are written with.
use vstd::prelude::*;
use crate::game::{Api, GameStatus, Mode};
use crate::gpu::Tier;
use crate::lang::{say, tr, Lang};
use crate::message::{fill, fill1, filled, said};
use crate::number::{fixed2, fixed2_text, fixed3, fixed3_text, signed_decimal, signed_text};
use crate::text::{contains, find, lemma_find, occurs_at, texts};

verus! {

#[derive(Debug, Clone, Copy, PartialEq, Eq, Structural)]
pub enum QualityChoice {
    Auto,
    Low,
    Medium,
    High,
}

pub const AUTO_ZH: &'static str = "自动";

pub const LOW_ZH: &'static str = "低";

pub const MEDIUM_ZH: &'static str = "中";

pub const HIGH_ZH: &'static str = "高";

impl QualityChoice {
    /// What a user reads.
    pub open spec fn label_text(self, l: Lang) -> Seq<char> {
        match self {
            QualityChoice::Auto => say(l, "Auto"@, AUTO_ZH@),
            QualityChoice::Low => say(l, "Low"@, LOW_ZH@),
            QualityChoice::Medium => say(l, "Medium"@, MEDIUM_ZH@),
            QualityChoice::High => say(l, "High"@, HIGH_ZH@),
        }
    }

    /// What the feeder's configuration reads.
    pub open spec fn name(self) -> Seq<char> {
        match self {
            QualityChoice::Auto => "auto"@,
            QualityChoice::Low => "low"@,
            QualityChoice::Medium => "medium"@,
            QualityChoice::High => "high"@,
        }
    }

    pub fn label(self, l: Lang) -> (r: &'static str)
        ensures
            r@ == self.label_text(l),
    {
        match self {
            QualityChoice::Auto => tr(l, "Auto", AUTO_ZH),
            QualityChoice::Low => tr(l, "Low", LOW_ZH),
            QualityChoice::Medium => tr(l, "Medium", MEDIUM_ZH),
            QualityChoice::High => tr(l, "High", HIGH_ZH),
        }
    }

    pub fn cfg_name(self) -> (r: &'static str)
        ensures
            r@ == self.name(),
    {
        match self {
            QualityChoice::Auto => "auto",
            QualityChoice::Low => "low",
            QualityChoice::Medium => "medium",
            QualityChoice::High => "high",
        }
    }
}

/// Optional Advanced overrides (applied on top of the chosen preset).
#[derive(Debug, Clone, Copy, PartialEq, Eq, Structural)]
pub struct QualityOverrides {
    pub ofa_enabled: Option<bool>,
    pub ofa_grid: Option<i32>,
    pub work_resolution: Option<i32>,
    pub work_upscale: Option<i32>,
    pub appearance_mask: Option<bool>,
    pub lighting_mask: Option<bool>,
    pub detail_mask: Option<bool>,
    /// Thousandths.
    pub appearance_threshold: Option<i32>,
    pub lighting_threshold: Option<i32>,
    pub detail_threshold: Option<i32>,
}

impl Default for QualityOverrides {
    fn default() -> (r: Self)
        ensures
            !r.some_set(),
    {
        QualityOverrides {
            ofa_enabled: None,
            ofa_grid: None,
            work_resolution: None,
            work_upscale: None,
            appearance_mask: None,
            lighting_mask: None,
            detail_mask: None,
            appearance_threshold: None,
            lighting_threshold: None,
            detail_threshold: None,
        }
    }
}

impl QualityOverrides {
    pub open spec fn some_set(self) -> bool {
        ||| self.ofa_enabled is Some
        ||| self.ofa_grid is Some
        ||| self.work_resolution is Some
        ||| self.work_upscale is Some
        ||| self.appearance_mask is Some
        ||| self.lighting_mask is Some
        ||| self.detail_mask is Some
        ||| self.appearance_threshold is Some
        ||| self.lighting_threshold is Some
        ||| self.detail_threshold is Some
    }

    pub fn any_set(&self) -> (r: bool)
        ensures
            r == self.some_set(),
    {
        self.ofa_enabled.is_some() || self.ofa_grid.is_some() || self.work_resolution.is_some()
            || self.work_upscale.is_some() || self.appearance_mask.is_some()
            || self.lighting_mask.is_some() || self.detail_mask.is_some()
            || self.appearance_threshold.is_some() || self.lighting_threshold.is_some()
            || self.detail_threshold.is_some()
    }
}

#[derive(Debug, Clone, PartialEq)]
pub struct ResolvedQuality {
    pub choice: QualityChoice,
    /// True when Advanced overrides changed something vs the base preset.
    pub customized: bool,
    pub ofa_enabled: bool,
    pub ofa_grid: i32,
    pub ofa_perf: i32,
    pub work_resolution: i32,
    pub work_upscale: i32,
    /// Hundredths.
    pub work_sharpness: i32,
    pub engine_velocity: bool,
    /// Enable Lumenite_Kernel technique in ReShadePreset (false when OFA supplies MV).
    pub enable_lumenite: bool,
    pub appearance_mask: bool,
    pub lighting_mask: bool,
    pub detail_mask: bool,
    /// Thresholds in thousandths, strengths in hundredths.
    pub appearance_threshold: i32,
    pub appearance_strength: i32,
    pub lighting_threshold: i32,
    pub lighting_strength: i32,
    pub detail_threshold: i32,
    pub detail_strength: i32,
    pub summary: String,
}

/// A resolved quality, its summary as characters.
pub struct Quality {
    pub choice: QualityChoice,
    pub customized: bool,
    pub ofa_enabled: bool,
    pub ofa_grid: i32,
    pub ofa_perf: i32,
    pub work_resolution: i32,
    pub work_upscale: i32,
    pub work_sharpness: i32,
    pub engine_velocity: bool,
    pub enable_lumenite: bool,
    pub appearance_mask: bool,
    pub lighting_mask: bool,
    pub detail_mask: bool,
    pub appearance_threshold: i32,
    pub appearance_strength: i32,
    pub lighting_threshold: i32,
    pub lighting_strength: i32,
    pub detail_threshold: i32,
    pub detail_strength: i32,
    pub summary: Seq<char>,
}

impl View for ResolvedQuality {
    type V = Quality;

    open spec fn view(&self) -> Quality {
        Quality {
            choice: self.choice,
            customized: self.customized,
            ofa_enabled: self.ofa_enabled,
            ofa_grid: self.ofa_grid,
            ofa_perf: self.ofa_perf,
            work_resolution: self.work_resolution,
            work_upscale: self.work_upscale,
            work_sharpness: self.work_sharpness,
            engine_velocity: self.engine_velocity,
            enable_lumenite: self.enable_lumenite,
            appearance_mask: self.appearance_mask,
            lighting_mask: self.lighting_mask,
            detail_mask: self.detail_mask,
            appearance_threshold: self.appearance_threshold,
            appearance_strength: self.appearance_strength,
            lighting_threshold: self.lighting_threshold,
            lighting_strength: self.lighting_strength,
            detail_threshold: self.detail_threshold,
            detail_strength: self.detail_strength,
            summary: self.summary@,
        }
    }
}

impl ResolvedQuality {
    /// An equal value.
    pub fn copy(&self) -> (r: ResolvedQuality)
        ensures
            r@ == self@,
    {
        ResolvedQuality { summary: self.summary.as_str().to_owned(), ..*self }
    }
}

pub const LOW_EN: &'static str = "Low: Lumenite MV, softer masks, work 70% + FSR expand";

pub const LOW_SUM_ZH: &'static str = "低：Lumenite MV、较柔和蒙版、工作分辨率 70% + FSR 扩展";

pub const MEDIUM_EN: &'static str =
    "Medium: engine velocity hunt + Lumenite fallback, residual masks, work 85% + FSR";

pub const MEDIUM_SUM_ZH: &'static str =
    "中：引擎速度追踪 + Lumenite 回退、残差蒙版、工作分辨率 85% + FSR";

pub const HIGH_EN: &'static str =
    "High: engine velocity + Optical Flow fallback, stronger masks, full resolution";

pub const HIGH_SUM_ZH: &'static str = "高：引擎速度 + 光流回退、更强蒙版、完整分辨率";

pub const HIGH_NO_FLOW_EN: &'static str =
    "High: engine velocity + Lumenite (Optical Flow unavailable), stronger masks, full res";

pub const HIGH_NO_FLOW_ZH: &'static str =
    "高：引擎速度 + Lumenite（光流不可用）、更强蒙版、完整分辨率";

pub const AUTO_FLOW_EN: &'static str =
    "Auto: engine velocity + Optical Flow + residual masks (Feeder D3D11 + RTX) — recommendation only";

pub const AUTO_FLOW_ZH: &'static str =
    "自动：引擎速度 + 光流 + 残差蒙版（Feeder D3D11 + RTX）—— 仅供参考";

pub const AUTO_DX12_EN: &'static str =
    "Auto: DX12 Feeder (no OFA) — Lumenite MV + velocity hunt; Optimize uses half-rate cost first";

pub const AUTO_DX12_ZH: &'static str =
    "自动：DX12 Feeder（无 OFA）—— Lumenite MV + 速度追踪；Optimize 先用半速率开销";

pub const AUTO_MEDIUM_EN: &'static str =
    "Auto: Medium + engine velocity hunt (Optical Flow not applicable) — recommendation only";

pub const AUTO_MEDIUM_ZH: &'static str = "自动：中 + 引擎速度追踪（光流不适用）—— 仅供参考";

pub const CUSTOMIZED_EN: &'static str = "{} (customized)";

pub const CUSTOMIZED_ZH: &'static str = "{}（已自定义）";

pub const RT_SEED_EN: &'static str = "{} · RT-likely seed (work≤90%)";

pub const RT_SEED_ZH: &'static str = "{} · 可能有光追的初值（工作分辨率≤90%）";

// ── the presets ────────────────────────────────────────────────────

pub open spec fn low(l: Lang) -> Quality {
    Quality {
        choice: QualityChoice::Low,
        customized: false,
        ofa_enabled: false,
        ofa_grid: 2,
        ofa_perf: 10,
        work_resolution: 70,
        work_upscale: 1,
        work_sharpness: 35,
        engine_velocity: false,
        enable_lumenite: true,
        appearance_mask: true,
        lighting_mask: true,
        detail_mask: true,
        appearance_threshold: 50,
        appearance_strength: 100,
        lighting_threshold: 60,
        lighting_strength: 100,
        detail_threshold: 28,
        detail_strength: 100,
        summary: say(l, LOW_EN@, LOW_SUM_ZH@),
    }
}

pub open spec fn medium(l: Lang) -> Quality {
    Quality {
        choice: QualityChoice::Medium,
        customized: false,
        ofa_enabled: false,
        ofa_grid: 2,
        ofa_perf: 10,
        work_resolution: 85,
        work_upscale: 1,
        work_sharpness: 30,
        engine_velocity: true,
        enable_lumenite: true,
        appearance_mask: true,
        lighting_mask: true,
        detail_mask: true,
        appearance_threshold: 35,
        appearance_strength: 125,
        lighting_threshold: 40,
        lighting_strength: 135,
        detail_threshold: 18,
        detail_strength: 140,
        summary: say(l, MEDIUM_EN@, MEDIUM_SUM_ZH@),
    }
}

pub open spec fn high(l: Lang) -> Quality {
    Quality {
        choice: QualityChoice::High,
        customized: false,
        ofa_enabled: true,
        ofa_grid: 1,
        ofa_perf: 10,
        work_resolution: 100,
        work_upscale: 0,
        work_sharpness: 30,
        engine_velocity: true,
        enable_lumenite: false,
        appearance_mask: true,
        lighting_mask: true,
        detail_mask: true,
        appearance_threshold: 25,
        appearance_strength: 140,
        lighting_threshold: 30,
        lighting_strength: 150,
        detail_threshold: 12,
        detail_strength: 155,
        summary: say(l, HIGH_EN@, HIGH_SUM_ZH@),
    }
}

pub open spec fn clamped(v: i32, lo: i32, hi: i32) -> i32 {
    if v < lo {
        lo
    } else if v > hi {
        hi
    } else {
        v
    }
}

pub open spec fn or_flag(o: Option<bool>, v: bool) -> bool {
    match o {
        Some(x) => x,
        None => v,
    }
}

pub open spec fn or_number(o: Option<i32>, v: i32) -> i32 {
    match o {
        Some(x) => x,
        None => v,
    }
}

/// A quality with the values of the overrides. Optical flow and Lumenite take
/// each other's place; the work resolution stays within 50 to 100 %, the
/// upscaler within the three there are.
pub open spec fn with_values(q: Quality, o: QualityOverrides) -> Quality {
    Quality {
        ofa_enabled: or_flag(o.ofa_enabled, q.ofa_enabled),
        enable_lumenite: match o.ofa_enabled {
            Some(v) => !v,
            None => q.enable_lumenite,
        },
        ofa_grid: or_number(o.ofa_grid, q.ofa_grid),
        work_resolution: match o.work_resolution {
            Some(v) => clamped(v, 50, 100),
            None => q.work_resolution,
        },
        work_upscale: match o.work_upscale {
            Some(v) => clamped(v, 0, 2),
            None => q.work_upscale,
        },
        appearance_mask: or_flag(o.appearance_mask, q.appearance_mask),
        lighting_mask: or_flag(o.lighting_mask, q.lighting_mask),
        detail_mask: or_flag(o.detail_mask, q.detail_mask),
        appearance_threshold: or_number(o.appearance_threshold, q.appearance_threshold),
        lighting_threshold: or_number(o.lighting_threshold, q.lighting_threshold),
        detail_threshold: or_number(o.detail_threshold, q.detail_threshold),
        ..q
    }
}

/// A quality with the overrides on top: customized where they change a value.
pub open spec fn overridden(l: Lang, q: Quality, o: QualityOverrides) -> Quality {
    if with_values(q, o) == q {
        q
    } else {
        Quality {
            customized: true,
            summary: fill(say(l, CUSTOMIZED_EN@, CUSTOMIZED_ZH@), seq![q.choice.label_text(l)]),
            ..with_values(q, o)
        }
    }
}

/// The card can compute optical flow: the game's card, or else the best one.
pub open spec fn flow_capable(st: GameStatus, best: Option<Tier>) -> bool {
    match (if st.gpu is Some {
        st.gpu
    } else {
        best
    }) {
        Some(Tier::Rtx50) => true,
        Some(Tier::Rtx40) => true,
        Some(Tier::Rtx2030) => true,
        Some(Tier::Unknown) => true,
        _ => false,
    }
}

/// Optical flow applies: a 64-bit D3D11 game on the feeder path, without an
/// anti-cheat, on a card that has it.
pub open spec fn flow_applies(st: GameStatus, best: Option<Tier>) -> bool {
    st.mode == Mode::Feeder && st.api == Api::Dx11 && !st.is_32() && !st.anticheat && flow_capable(
        st,
        best,
    )
}

/// The preset that a choice stands for, for this game.
pub open spec fn base(
    l: Lang,
    choice: QualityChoice,
    st: GameStatus,
    best: Option<Tier>,
) -> Quality {
    match choice {
        QualityChoice::Low => low(l),
        QualityChoice::Medium => medium(l),
        QualityChoice::High => if flow_applies(st, best) {
            high(l)
        } else {
            Quality {
                ofa_enabled: false,
                enable_lumenite: true,
                engine_velocity: true,
                summary: say(l, HIGH_NO_FLOW_EN@, HIGH_NO_FLOW_ZH@),
                ..high(l)
            }
        },
        QualityChoice::Auto => if flow_applies(st, best) {
            Quality {
                choice: QualityChoice::Auto,
                ofa_grid: 2,
                engine_velocity: true,
                appearance_threshold: 30,
                lighting_threshold: 35,
                detail_threshold: 15,
                summary: say(l, AUTO_FLOW_EN@, AUTO_FLOW_ZH@),
                ..high(l)
            }
        } else if st.api == Api::Dx12 {
            Quality {
                choice: QualityChoice::Auto,
                ofa_enabled: false,
                enable_lumenite: true,
                engine_velocity: true,
                work_resolution: 100,
                summary: say(l, AUTO_DX12_EN@, AUTO_DX12_ZH@),
                ..medium(l)
            }
        } else {
            Quality {
                choice: QualityChoice::Auto,
                engine_velocity: true,
                summary: say(l, AUTO_MEDIUM_EN@, AUTO_MEDIUM_ZH@),
                ..medium(l)
            }
        },
    }
}

/// RT-likely titles: a slightly cheaper seed, unless the user chose otherwise.
pub open spec fn seeded(l: Lang, st: GameStatus, q: Quality, o: QualityOverrides) -> Quality {
    if st.mode == Mode::Feeder && st.rt_likely && !o.some_set() {
        Quality {
            work_resolution: if q.work_resolution < 90 {
                q.work_resolution
            } else {
                90
            },
            summary: fill(say(l, RT_SEED_EN@, RT_SEED_ZH@), seq![q.summary]),
            ..q
        }
    } else {
        q
    }
}

pub open spec fn resolved(
    l: Lang,
    choice: QualityChoice,
    st: GameStatus,
    best: Option<Tier>,
    o: QualityOverrides,
) -> Quality {
    seeded(l, st, overridden(l, base(l, choice, st, best), o), o)
}

// ── the executable side ────────────────────────────────────────────

pub fn base_low(l: Lang) -> (r: ResolvedQuality)
    ensures
        r@ == low(l),
{
    ResolvedQuality {
        choice: QualityChoice::Low,
        customized: false,
        ofa_enabled: false,
        ofa_grid: 2,
        ofa_perf: 10,
        work_resolution: 70,
        work_upscale: 1,
        work_sharpness: 35,
        engine_velocity: false,
        enable_lumenite: true,
        appearance_mask: true,
        lighting_mask: true,
        detail_mask: true,
        appearance_threshold: 50,
        appearance_strength: 100,
        lighting_threshold: 60,
        lighting_strength: 100,
        detail_threshold: 28,
        detail_strength: 100,
        summary: said(l, LOW_EN, LOW_SUM_ZH),
    }
}

pub fn base_medium(l: Lang) -> (r: ResolvedQuality)
    ensures
        r@ == medium(l),
{
    ResolvedQuality {
        choice: QualityChoice::Medium,
        customized: false,
        ofa_enabled: false,
        ofa_grid: 2,
        ofa_perf: 10,
        work_resolution: 85,
        work_upscale: 1,
        work_sharpness: 30,
        engine_velocity: true,
        enable_lumenite: true,
        appearance_mask: true,
        lighting_mask: true,
        detail_mask: true,
        appearance_threshold: 35,
        appearance_strength: 125,
        lighting_threshold: 40,
        lighting_strength: 135,
        detail_threshold: 18,
        detail_strength: 140,
        summary: said(l, MEDIUM_EN, MEDIUM_SUM_ZH),
    }
}

/// Safe default when no install context is set.
pub fn fallback_medium(l: Lang) -> (r: ResolvedQuality)
    ensures
        r@ == medium(l),
{
    base_medium(l)
}

pub fn base_high(l: Lang) -> (r: ResolvedQuality)
    ensures
        r@ == high(l),
{
    ResolvedQuality {
        choice: QualityChoice::High,
        customized: false,
        ofa_enabled: true,
        ofa_grid: 1,
        ofa_perf: 10,
        work_resolution: 100,
        work_upscale: 0,
        work_sharpness: 30,
        engine_velocity: true,
        enable_lumenite: false,
        appearance_mask: true,
        lighting_mask: true,
        detail_mask: true,
        appearance_threshold: 25,
        appearance_strength: 140,
        lighting_threshold: 30,
        lighting_strength: 150,
        detail_threshold: 12,
        detail_strength: 155,
        summary: said(l, HIGH_EN, HIGH_SUM_ZH),
    }
}

fn clamp_to(v: i32, lo: i32, hi: i32) -> (r: i32)
    ensures
        r == clamped(v, lo, hi),
{
    if v < lo {
        lo
    } else if v > hi {
        hi
    } else {
        v
    }
}

/// The quality with the overrides on top.
pub fn apply_overrides(l: Lang, q: ResolvedQuality, o: &QualityOverrides) -> (r: ResolvedQuality)
    ensures
        r@ == overridden(l, q@, *o),
{
    let enable_lumenite = match o.ofa_enabled {
        Some(v) => !v,
        None => q.enable_lumenite,
    };
    let work_resolution: i32 = match o.work_resolution {
        Some(v) => clamp_to(v, 50, 100),
        None => q.work_resolution,
    };
    let work_upscale: i32 = match o.work_upscale {
        Some(v) => clamp_to(v, 0, 2),
        None => q.work_upscale,
    };
    let ofa_enabled = flag_or(o.ofa_enabled, q.ofa_enabled);
    let ofa_grid: i32 = number_or(o.ofa_grid, q.ofa_grid);
    let appearance_mask = flag_or(o.appearance_mask, q.appearance_mask);
    let lighting_mask = flag_or(o.lighting_mask, q.lighting_mask);
    let detail_mask = flag_or(o.detail_mask, q.detail_mask);
    let appearance_threshold: i32 = number_or(o.appearance_threshold, q.appearance_threshold);
    let lighting_threshold: i32 = number_or(o.lighting_threshold, q.lighting_threshold);
    let detail_threshold: i32 = number_or(o.detail_threshold, q.detail_threshold);
    let same = ofa_enabled == q.ofa_enabled && enable_lumenite == q.enable_lumenite && ofa_grid
        == q.ofa_grid && work_resolution == q.work_resolution && work_upscale == q.work_upscale
        && appearance_mask == q.appearance_mask && lighting_mask == q.lighting_mask && detail_mask
        == q.detail_mask && appearance_threshold == q.appearance_threshold && lighting_threshold
        == q.lighting_threshold && detail_threshold == q.detail_threshold;
    if same {
        assert(with_values(q@, *o) == q@);
        return q;
    }
    ResolvedQuality {
        customized: true,
        ofa_enabled,
        enable_lumenite,
        ofa_grid,
        work_resolution,
        work_upscale,
        appearance_mask,
        lighting_mask,
        detail_mask,
        appearance_threshold,
        lighting_threshold,
        detail_threshold,
        summary: fill1(tr(l, CUSTOMIZED_EN, CUSTOMIZED_ZH), q.choice.label(l)),
        ..q
    }
}

fn flag_or(o: Option<bool>, v: bool) -> (r: bool)
    ensures
        r == or_flag(o, v),
{
    match o {
        Some(x) => x,
        None => v,
    }
}

fn number_or(o: Option<i32>, v: i32) -> (r: i32)
    ensures
        r == or_number(o, v),
{
    match o {
        Some(x) => x,
        None => v,
    }
}

/// The card can compute optical flow: the game's card, or else the best one.
pub fn nvidia_ofa_capable(st: &GameStatus, best: Option<Tier>) -> (r: bool)
    ensures
        r == flow_capable(*st, best),
{
    let tier = if st.gpu.is_some() {
        st.gpu
    } else {
        best
    };
    match tier {
        Some(Tier::Rtx50) => true,
        Some(Tier::Rtx40) => true,
        Some(Tier::Rtx2030) => true,
        Some(Tier::Unknown) => true,
        _ => false,
    }
}

/// Resolve a quality choice for this game / machine. `best` is the class of
/// the best card of the machine, for a game whose card is not known.
pub fn resolve(
    l: Lang,
    choice: QualityChoice,
    st: &GameStatus,
    best: Option<Tier>,
    overrides: &QualityOverrides,
) -> (r: ResolvedQuality)
    ensures
        r@ == resolved(l, choice, *st, best, *overrides),
{
    let ofa_ok = st.mode == Mode::Feeder && st.api == Api::Dx11 && !st.is32() && !st.anticheat
        && nvidia_ofa_capable(st, best);
    let start = match choice {
        QualityChoice::Low => base_low(l),
        QualityChoice::Medium => base_medium(l),
        QualityChoice::High => {
            let mut h = base_high(l);
            if !ofa_ok {
                // High without OFA: keep aggressive masks + velocity hunt, fall back to Lumenite.
                h.ofa_enabled = false;
                h.enable_lumenite = true;
                h.engine_velocity = true;
                h.summary = said(l, HIGH_NO_FLOW_EN, HIGH_NO_FLOW_ZH);
            }
            h
        },
        QualityChoice::Auto => {
            if ofa_ok {
                let mut a = base_high(l);
                a.choice = QualityChoice::Auto;
                a.ofa_grid = 2;  // Auto uses default grid, not High's 1px
                a.engine_velocity = true;
                a.appearance_threshold = 30;
                a.lighting_threshold = 35;
                a.detail_threshold = 15;
                a.summary = said(l, AUTO_FLOW_EN, AUTO_FLOW_ZH);
                a
            } else if st.api == Api::Dx12 {
                let mut a = base_medium(l);
                a.choice = QualityChoice::Auto;
                a.ofa_enabled = false;
                a.enable_lumenite = true;
                a.engine_velocity = true;
                a.work_resolution = 100;
                a.summary = said(l, AUTO_DX12_EN, AUTO_DX12_ZH);
                a
            } else {
                let mut a = base_medium(l);
                a.choice = QualityChoice::Auto;
                a.engine_velocity = true;
                a.summary = said(l, AUTO_MEDIUM_EN, AUTO_MEDIUM_ZH);
                a
            }
        },
    };
    let mut r = apply_overrides(l, start, overrides);
    if st.mode == Mode::Feeder && st.rt_likely && !overrides.any_set() {
        if r.work_resolution > 90 {
            r.work_resolution = 90;
        }
        r.summary = fill1(tr(l, RT_SEED_EN, RT_SEED_ZH), r.summary.as_str());
    }
    r
}

// ── what is written ────────────────────────────────────────────────

/// `dlss5-feed.cfg`, in the layout that the feeder saves it in.
pub const CFG_TEXT: &'static str = "\
enabled=1
mode=2
hdr=-1
depth_inverted=-1
flags=-1
reset_every=0
warmup_rebuild=180
rebuild=0
log_frames=3
create_delay=60
preset=0
work_resolution={}
work_upscale={}
work_sharpness={}
gpu_timeout_ms=2000
buffer_home=1
async_home=0
sync_home=0
mv_scale_x=1.000
mv_scale_y=1.000
stall_log_ms=50
reset_mode=2
log_detail=1
log_detail_every=60
light_stab=0
light_stab_strength=0.350
light_stab_max_delta=0.060
ofa_enabled={}
ofa_grid={}
ofa_perf={}
engine_velocity={}
velocity_cand=-1
velocity_decode=0
velocity_scale=1.000
quality_preset={}
auto_profile_applied=0
auto_profile=
";

pub open spec fn flag_text(b: bool) -> Seq<char> {
    if b {
        "1"@
    } else {
        "0"@
    }
}

pub open spec fn cfg_text(q: Quality) -> Seq<char> {
    fill(
        CFG_TEXT@,
        seq![
            signed_decimal(q.work_resolution as int),
            signed_decimal(q.work_upscale as int),
            fixed2(q.work_sharpness as int),
            flag_text(q.ofa_enabled),
            signed_decimal(q.ofa_grid as int),
            signed_decimal(q.ofa_perf as int),
            flag_text(q.engine_velocity),
            if q.customized {
                "custom"@
            } else {
                q.choice.name()
            },
        ],
    )
}

fn flag(b: bool) -> (r: &'static str)
    ensures
        r@ == flag_text(b),
{
    if b {
        "1"
    } else {
        "0"
    }
}

/// Full `dlss5-feed.cfg` text matching Feeder's CfgSave layout (defaults for untouched keys).
/// `auto_profile_applied=0` so the add-on auto-tunes once on first attach from live game data.
pub fn feeder_cfg_text(q: &ResolvedQuality) -> (r: String)
    ensures
        r@ == cfg_text(q@),
{
    let preset = if q.customized {
        "custom"
    } else {
        q.choice.cfg_name()
    };
    let args: Vec<String> = vec![
        signed_text(q.work_resolution),
        signed_text(q.work_upscale),
        fixed2_text(q.work_sharpness),
        flag(q.ofa_enabled).to_owned(),
        signed_text(q.ofa_grid),
        signed_text(q.ofa_perf),
        flag(q.engine_velocity).to_owned(),
        preset.to_owned(),
    ];
    let ghost want = seq![
        signed_decimal(q.work_resolution as int),
        signed_decimal(q.work_upscale as int),
        fixed2(q.work_sharpness as int),
        flag_text(q.ofa_enabled),
        signed_decimal(q.ofa_grid as int),
        signed_decimal(q.ofa_perf as int),
        flag_text(q.engine_velocity),
        preset@,
    ];
    assert(texts(args@) =~= want);
    filled(CFG_TEXT, &args)
}

/// Uniforms as pairs of texts.
pub open spec fn pairs(v: Seq<(&'static str, String)>) -> Seq<(Seq<char>, Seq<char>)> {
    Seq::new(v.len(), |i: int| (v[i].0@, v[i].1@))
}

pub open spec fn uniforms(q: Quality) -> Seq<(Seq<char>, Seq<char>)> {
    seq![
        ("APPEARANCE_MASK"@, flag_text(q.appearance_mask)),
        ("APPEARANCE_THRESHOLD"@, fixed3(q.appearance_threshold as int)),
        ("APPEARANCE_STRENGTH"@, fixed2(q.appearance_strength as int)),
        ("LIGHTING_MASK"@, flag_text(q.lighting_mask)),
        ("LIGHTING_THRESHOLD"@, fixed3(q.lighting_threshold as int)),
        ("LIGHTING_STRENGTH"@, fixed2(q.lighting_strength as int)),
        ("DETAIL_MASK"@, flag_text(q.detail_mask)),
        ("DETAIL_THRESHOLD"@, fixed3(q.detail_threshold as int)),
        ("DETAIL_STRENGTH"@, fixed2(q.detail_strength as int)),
    ]
}

/// Uniform keys for `[DLSS5_Feed.fx]` in ReShadePreset.ini.
pub fn feed_fx_uniforms(q: &ResolvedQuality) -> (r: Vec<(&'static str, String)>)
    ensures
        pairs(r@) == uniforms(q@),
{
    let v: Vec<(&'static str, String)> = vec![
        ("APPEARANCE_MASK", flag(q.appearance_mask).to_owned()),
        ("APPEARANCE_THRESHOLD", fixed3_text(q.appearance_threshold)),
        ("APPEARANCE_STRENGTH", fixed2_text(q.appearance_strength)),
        ("LIGHTING_MASK", flag(q.lighting_mask).to_owned()),
        ("LIGHTING_THRESHOLD", fixed3_text(q.lighting_threshold)),
        ("LIGHTING_STRENGTH", fixed2_text(q.lighting_strength)),
        ("DETAIL_MASK", flag(q.detail_mask).to_owned()),
        ("DETAIL_THRESHOLD", fixed3_text(q.detail_threshold)),
        ("DETAIL_STRENGTH", fixed2_text(q.detail_strength)),
    ];
    assert(pairs(v@) =~= uniforms(q@));
    v
}

// ── laws ───────────────────────────────────────────────────────────

/// Whatever is chosen and overridden: exactly one of optical flow and Lumenite
/// supplies the motion vectors, the work resolution is 50 to 100 %, and the
/// upscaler is one of the three.
pub proof fn law_resolved_quality_is_sound(
    l: Lang,
    choice: QualityChoice,
    st: GameStatus,
    best: Option<Tier>,
    o: QualityOverrides,
)
    ensures
        ({
            let q = resolved(l, choice, st, best, o);
            &&& q.enable_lumenite == !q.ofa_enabled
            &&& 50 <= q.work_resolution <= 100
            &&& 0 <= q.work_upscale <= 2
            &&& q.choice == choice
        }),
{
}

/// A quality is customized exactly when an override changes a value of the
/// preset: one that repeats it leaves the preset as it is, and its name.
pub proof fn law_customized_means_changed(
    l: Lang,
    choice: QualityChoice,
    st: GameStatus,
    best: Option<Tier>,
    o: QualityOverrides,
)
    ensures
        ({
            let q = resolved(l, choice, st, best, o);
            let b = base(l, choice, st, best);
            &&& q.customized <==> with_values(b, o) != b
            &&& !q.customized && o.some_set() ==> q == b
        }),
{
}

/// Optical flow is never chosen where it does not apply; only an override puts
/// it there.
pub proof fn law_flow_only_where_it_applies(
    l: Lang,
    choice: QualityChoice,
    st: GameStatus,
    best: Option<Tier>,
    o: QualityOverrides,
)
    requires
        !flow_applies(st, best),
        o.ofa_enabled is None,
    ensures
        !resolved(l, choice, st, best, o).ofa_enabled,
{
}

/// A higher preset masks more: lower thresholds, greater strengths, and no less
/// of the frame worked at.
pub proof fn law_presets_are_graded(l: Lang)
    ensures
        low(l).appearance_threshold > medium(l).appearance_threshold > high(
            l,
        ).appearance_threshold,
        low(l).lighting_threshold > medium(l).lighting_threshold > high(l).lighting_threshold,
        low(l).detail_threshold > medium(l).detail_threshold > high(l).detail_threshold,
        low(l).appearance_strength < medium(l).appearance_strength < high(l).appearance_strength,
        low(l).lighting_strength < medium(l).lighting_strength < high(l).lighting_strength,
        low(l).detail_strength < medium(l).detail_strength < high(l).detail_strength,
        low(l).work_resolution < medium(l).work_resolution < high(l).work_resolution,
{
}

/// An override is taken as it is, within its bounds, whatever the preset and
/// the game say; what is not overridden stays as the preset has it.
pub proof fn law_overrides_win(
    l: Lang,
    choice: QualityChoice,
    st: GameStatus,
    best: Option<Tier>,
    o: QualityOverrides,
)
    requires
        o.some_set(),
    ensures
        ({
            let q = resolved(l, choice, st, best, o);
            let b = base(l, choice, st, best);
            &&& q.ofa_enabled == or_flag(o.ofa_enabled, b.ofa_enabled)
            &&& q.ofa_grid == or_number(o.ofa_grid, b.ofa_grid)
            &&& o.work_resolution matches Some(v) ==> q.work_resolution == clamped(v, 50, 100)
            &&& o.work_resolution is None ==> q.work_resolution == b.work_resolution
            &&& o.work_upscale matches Some(v) ==> q.work_upscale == clamped(v, 0, 2)
            &&& o.work_upscale is None ==> q.work_upscale == b.work_upscale
            &&& q.appearance_mask == or_flag(o.appearance_mask, b.appearance_mask)
            &&& q.lighting_mask == or_flag(o.lighting_mask, b.lighting_mask)
            &&& q.detail_mask == or_flag(o.detail_mask, b.detail_mask)
            &&& q.appearance_threshold == or_number(
                o.appearance_threshold,
                b.appearance_threshold,
            )
            &&& q.lighting_threshold == or_number(o.lighting_threshold, b.lighting_threshold)
            &&& q.detail_threshold == or_number(o.detail_threshold, b.detail_threshold)
        }),
{
}

// ── what the written files say ─────────────────────────────────────

/// Where the holes of the template are.
spec fn hole(k: int) -> int {
    if k == 0 {
        148
    } else if k == 1 {
        164
    } else if k == 2 {
        182
    } else if k == 3 {
        418
    } else if k == 4 {
        430
    } else if k == 5 {
        442
    } else if k == 6 {
        461
    } else {
        535
    }
}

/// Where what follows the hole before starts.
spec fn start(k: int) -> int {
    if k <= 0 {
        0
    } else {
        hole(k - 1) + 2
    }
}

/// The key in front of a hole.
spec fn key(k: int) -> Seq<char> {
    if k == 0 {
        "\nwork_resolution="@
    } else if k == 1 {
        "\nwork_upscale="@
    } else if k == 2 {
        "\nwork_sharpness="@
    } else if k == 3 {
        "\nofa_enabled="@
    } else if k == 4 {
        "\nofa_grid="@
    } else if k == 5 {
        "\nofa_perf="@
    } else if k == 6 {
        "\nengine_velocity="@
    } else {
        "\nquality_preset="@
    }
}

proof fn lemma_template(k: int)
    requires
        0 <= k < 8,
    ensures
        0 <= start(k) <= hole(k) - key(k).len(),
        hole(k) + 2 < CFG_TEXT@.len(),
        CFG_TEXT@[hole(k)] == '{',
        CFG_TEXT@[hole(k) + 1] == '}',
        CFG_TEXT@[hole(k) + 2] == '\n',
        CFG_TEXT@.subrange(hole(k) - key(k).len(), hole(k)) == key(k),
        forall|j: int| start(k) <= j < hole(k) ==> CFG_TEXT@[j] != '{',
{
    reveal_strlit(
        "\
enabled=1
mode=2
hdr=-1
depth_inverted=-1
flags=-1
reset_every=0
warmup_rebuild=180
rebuild=0
log_frames=3
create_delay=60
preset=0
work_resolution={}
work_upscale={}
work_sharpness={}
gpu_timeout_ms=2000
buffer_home=1
async_home=0
sync_home=0
mv_scale_x=1.000
mv_scale_y=1.000
stall_log_ms=50
reset_mode=2
log_detail=1
log_detail_every=60
light_stab=0
light_stab_strength=0.350
light_stab_max_delta=0.060
ofa_enabled={}
ofa_grid={}
ofa_perf={}
engine_velocity={}
velocity_cand=-1
velocity_decode=0
velocity_scale=1.000
quality_preset={}
auto_profile_applied=0
auto_profile=
",
    );
    reveal_strlit("\nwork_resolution=");
    reveal_strlit("\nwork_upscale=");
    reveal_strlit("\nwork_sharpness=");
    reveal_strlit("\nofa_enabled=");
    reveal_strlit("\nofa_grid=");
    reveal_strlit("\nofa_perf=");
    reveal_strlit("\nengine_velocity=");
    reveal_strlit("\nquality_preset=");
    let h = hole(k);
    assert(CFG_TEXT@.subrange(h - key(k).len(), h) =~= key(k));
}

/// Filling what follows the hole before.
proof fn lemma_fill_hole(args: Seq<Seq<char>>, k: int)
    requires
        args.len() == 8,
        0 <= k < 8,
    ensures
        fill(CFG_TEXT@.skip(start(k)), args.skip(k)) == CFG_TEXT@.subrange(start(k), hole(k))
            + args[k] + fill(CFG_TEXT@.skip(start(k + 1)), args.skip(k + 1)),
{
    lemma_template(k);
    reveal_strlit("{}");
    let t = CFG_TEXT@.skip(start(k));
    let h = hole(k) - start(k);
    lemma_find(t, "{}"@);
    assert(t.subrange(h, h + 2) =~= "{}"@);
    assert(occurs_at(t, "{}"@, h));
    let i = find(t, "{}"@)->0;
    if i < h {
        assert(t.subrange(i, i + 2)[0] == '{');
        assert(t[i] == CFG_TEXT@[start(k) + i]);
    }
    assert(i == h);
    assert(t.take(h) =~= CFG_TEXT@.subrange(start(k), hole(k)));
    assert(t.skip(h + 2) =~= CFG_TEXT@.skip(start(k + 1)));
    assert(args.skip(k)[0] == args[k]);
    assert(args.skip(k).skip(1) =~= args.skip(k + 1));
}

/// The filled template, in front of a hole and from there.
proof fn lemma_fill_from(args: Seq<Seq<char>>, k: int) -> (pre: Seq<char>)
    requires
        args.len() == 8,
        0 <= k <= 8,
    ensures
        fill(CFG_TEXT@, args) == pre + fill(CFG_TEXT@.skip(start(k)), args.skip(k)),
    decreases k,
{
    if k == 0 {
        assert(CFG_TEXT@.skip(0) =~= CFG_TEXT@);
        assert(args.skip(0) =~= args);
        assert(fill(CFG_TEXT@, args) =~= Seq::<char>::empty() + fill(CFG_TEXT@, args));
        Seq::empty()
    } else {
        let pre = lemma_fill_from(args, k - 1);
        lemma_fill_hole(args, k - 1);
        let more = pre + CFG_TEXT@.subrange(start(k - 1), hole(k - 1)) + args[k - 1];
        assert(fill(CFG_TEXT@, args) =~= more + fill(CFG_TEXT@.skip(start(k)), args.skip(k)));
        more
    }
}

/// A line of the filled template is its key and its argument.
proof fn lemma_line_of(args: Seq<Seq<char>>, k: int)
    requires
        args.len() == 8,
        0 <= k < 8,
    ensures
        contains(fill(CFG_TEXT@, args), key(k) + args[k] + seq!['\n']),
{
    lemma_template(k);
    let pre = lemma_fill_from(args, k);
    lemma_fill_hole(args, k);
    let rest = fill(CFG_TEXT@.skip(start(k + 1)), args.skip(k + 1));
    assert(rest.len() > 0 && rest[0] == '\n') by {
        if k < 7 {
            lemma_template(k + 1);
            lemma_fill_hole(args, k + 1);
        } else {
            assert(args.skip(8).len() == 0);
        }
    }
    let whole = fill(CFG_TEXT@, args);
    let line = key(k) + args[k] + seq!['\n'];
    let n = key(k).len();
    let at = pre.len() + (hole(k) - n - start(k));
    let segment = CFG_TEXT@.subrange(start(k), hole(k));
    assert(whole =~= pre + segment + args[k] + rest);
    assert(segment.subrange(hole(k) - n - start(k), hole(k) - start(k)) =~= key(k));
    assert(whole.subrange(at, at + line.len()) =~= line) by {
        assert forall|j: int| 0 <= j < line.len() implies whole[at + j] == line[j] by {
            if j < n {
                assert(key(k)[j] == segment[hole(k) - n - start(k) + j]);
            }
        }
    }
    assert(occurs_at(whole, line, at));
}

/// What is written to `dlss5-feed.cfg` reads back as the quality: each setting
/// stands on a line of its own, behind its key.
pub proof fn law_cfg_reads_back(q: Quality)
    ensures
        ({
            let says = |key: Seq<char>, value: Seq<char>|
                contains(cfg_text(q), key + value + seq!['\n']);
            &&& says("\nwork_resolution="@, signed_decimal(q.work_resolution as int))
            &&& says("\nwork_upscale="@, signed_decimal(q.work_upscale as int))
            &&& says("\nwork_sharpness="@, fixed2(q.work_sharpness as int))
            &&& q.ofa_enabled ==> says("\nofa_enabled="@, "1"@)
            &&& !q.ofa_enabled ==> says("\nofa_enabled="@, "0"@)
            &&& says("\nofa_grid="@, signed_decimal(q.ofa_grid as int))
            &&& says("\nofa_perf="@, signed_decimal(q.ofa_perf as int))
            &&& q.engine_velocity ==> says("\nengine_velocity="@, "1"@)
            &&& !q.engine_velocity ==> says("\nengine_velocity="@, "0"@)
            &&& q.customized ==> says("\nquality_preset="@, "custom"@)
            &&& !q.customized ==> says(
                "\nquality_preset="@,
                match q.choice {
                    QualityChoice::Auto => "auto"@,
                    QualityChoice::Low => "low"@,
                    QualityChoice::Medium => "medium"@,
                    QualityChoice::High => "high"@,
                },
            )
        }),
{
    let args = seq![
        signed_decimal(q.work_resolution as int),
        signed_decimal(q.work_upscale as int),
        fixed2(q.work_sharpness as int),
        flag_text(q.ofa_enabled),
        signed_decimal(q.ofa_grid as int),
        signed_decimal(q.ofa_perf as int),
        flag_text(q.engine_velocity),
        if q.customized {
            "custom"@
        } else {
            q.choice.name()
        },
    ];
    assert(cfg_text(q) == fill(CFG_TEXT@, args));
    lemma_line_of(args, 0);
    lemma_line_of(args, 1);
    lemma_line_of(args, 2);
    lemma_line_of(args, 3);
    lemma_line_of(args, 4);
    lemma_line_of(args, 5);
    lemma_line_of(args, 6);
    lemma_line_of(args, 7);
}

/// The uniforms that are written carry the masks of the quality: for each of
/// appearance, lighting and detail whether it is on, its threshold in thousandths
/// and its strength in hundredths.
pub proof fn law_uniforms_carry_the_masks(q: Quality)
    ensures
        ({
            let v = uniforms(q);
            let has = |name: Seq<char>, value: Seq<char>| v.contains((name, value));
            let on = |b: bool|
                if b {
                    "1"@
                } else {
                    "0"@
                };
            &&& v.len() == 9
            &&& has("APPEARANCE_MASK"@, on(q.appearance_mask))
            &&& has("APPEARANCE_THRESHOLD"@, fixed3(q.appearance_threshold as int))
            &&& has("APPEARANCE_STRENGTH"@, fixed2(q.appearance_strength as int))
            &&& has("LIGHTING_MASK"@, on(q.lighting_mask))
            &&& has("LIGHTING_THRESHOLD"@, fixed3(q.lighting_threshold as int))
            &&& has("LIGHTING_STRENGTH"@, fixed2(q.lighting_strength as int))
            &&& has("DETAIL_MASK"@, on(q.detail_mask))
            &&& has("DETAIL_THRESHOLD"@, fixed3(q.detail_threshold as int))
            &&& has("DETAIL_STRENGTH"@, fixed2(q.detail_strength as int))
        }),
{
    let v = uniforms(q);
    let on = |b: bool|
        if b {
            "1"@
        } else {
            "0"@
        };
    assert(v[0] == ("APPEARANCE_MASK"@, on(q.appearance_mask)));
    assert(v[1] == ("APPEARANCE_THRESHOLD"@, fixed3(q.appearance_threshold as int)));
    assert(v[2] == ("APPEARANCE_STRENGTH"@, fixed2(q.appearance_strength as int)));
    assert(v[3] == ("LIGHTING_MASK"@, on(q.lighting_mask)));
    assert(v[4] == ("LIGHTING_THRESHOLD"@, fixed3(q.lighting_threshold as int)));
    assert(v[5] == ("LIGHTING_STRENGTH"@, fixed2(q.lighting_strength as int)));
    assert(v[6] == ("DETAIL_MASK"@, on(q.detail_mask)));
    assert(v[7] == ("DETAIL_THRESHOLD"@, fixed3(q.detail_threshold as int)));
    assert(v[8] == ("DETAIL_STRENGTH"@, fixed2(q.detail_strength as int)));
}

/// Without overrides a choice means its preset, whatever the game: Low works at
/// 70 % of the frame and hunts for no engine velocity, Medium at 85 %, High at
/// all of it. High and Auto use optical flow exactly in a 64-bit D3D11 game on
/// the feeder path without an anti-cheat, on an NVIDIA card from RTX 20 on or of
/// unknown generation; Auto otherwise is Medium, at all of the frame on D3D12. A
/// Feeder game that is likely ray-traced is worked at 90 % at most.
pub proof fn law_choice_means_its_preset(
    l: Lang,
    choice: QualityChoice,
    st: GameStatus,
    best: Option<Tier>,
    o: QualityOverrides,
)
    requires
        o.ofa_enabled is None,
        o.ofa_grid is None,
        o.work_resolution is None,
        o.work_upscale is None,
        o.appearance_mask is None,
        o.lighting_mask is None,
        o.detail_mask is None,
        o.appearance_threshold is None,
        o.lighting_threshold is None,
        o.detail_threshold is None,
    ensures
        ({
            let q = resolved(l, choice, st, best, o);
            let card = if st.gpu is Some {
                st.gpu
            } else {
                best
            };
            let flows = st.mode == Mode::Feeder && st.api == Api::Dx11 && st.bitness != 32
                && !st.anticheat && card is Some && card->0 != Tier::Other;
            let most: i32 = if st.mode == Mode::Feeder && st.rt_likely {
                90
            } else {
                100
            };
            let work = |full: i32|
                if full < most {
                    full
                } else {
                    most
                };
            &&& q.choice == choice
            &&& !q.customized
            &&& q.appearance_mask && q.lighting_mask && q.detail_mask
            &&& q.ofa_perf == 10
            &&& q.enable_lumenite == !q.ofa_enabled
            &&& q.engine_velocity == (choice != QualityChoice::Low)
            &&& q.ofa_enabled == (flows && (choice == QualityChoice::High || choice
                == QualityChoice::Auto))
            &&& choice == QualityChoice::Low ==> q.work_resolution == work(70) && q.work_upscale
                == 1 && q.work_sharpness == 35 && q.ofa_grid == 2
            &&& choice == QualityChoice::Medium ==> q.work_resolution == work(85) && q.work_upscale
                == 1 && q.work_sharpness == 30 && q.ofa_grid == 2
            &&& choice == QualityChoice::High ==> q.work_resolution == work(100) && q.work_upscale
                == 0 && q.work_sharpness == 30 && q.ofa_grid == 1
            &&& choice == QualityChoice::Auto ==> {
                &&& q.ofa_grid == 2
                &&& q.work_sharpness == 30
                &&& q.work_resolution == work(
                    if flows || st.api == Api::Dx12 {
                        100
                    } else {
                        85
                    },
                )
                &&& q.work_upscale == if flows {
                    0i32
                } else {
                    1
                }
                &&& flows ==> (q.appearance_threshold, q.lighting_threshold, q.detail_threshold)
                    == (30i32, 35i32, 15i32)
                &&& flows ==> (q.appearance_strength, q.lighting_strength, q.detail_strength) == (
                    140i32,
                    150i32,
                    155i32,
                )
            }
            &&& choice == QualityChoice::Low ==> {
                &&& (q.appearance_threshold, q.lighting_threshold, q.detail_threshold) == (
                    50i32,
                    60i32,
                    28i32,
                )
                &&& (q.appearance_strength, q.lighting_strength, q.detail_strength) == (
                    100i32,
                    100i32,
                    100i32,
                )
            }
            &&& choice == QualityChoice::Medium || choice == QualityChoice::Auto && !flows ==> {
                &&& (q.appearance_threshold, q.lighting_threshold, q.detail_threshold) == (
                    35i32,
                    40i32,
                    18i32,
                )
                &&& (q.appearance_strength, q.lighting_strength, q.detail_strength) == (
                    125i32,
                    135i32,
                    140i32,
                )
            }
            &&& choice == QualityChoice::High ==> {
                &&& (q.appearance_threshold, q.lighting_threshold, q.detail_threshold) == (
                    25i32,
                    30i32,
                    12i32,
                )
                &&& (q.appearance_strength, q.lighting_strength, q.detail_strength) == (
                    140i32,
                    150i32,
                    155i32,
                )
            }
        }),
{
}

/// Each override alone decides its value, and only that one: what the others
/// are does not matter, whichever of them are given.
pub proof fn law_overrides_are_independent(
    l: Lang,
    choice: QualityChoice,
    st: GameStatus,
    best: Option<Tier>,
    o: QualityOverrides,
)
    requires
        o.ofa_enabled is Some || o.ofa_grid is Some || o.work_resolution is Some
            || o.work_upscale is Some || o.appearance_mask is Some || o.lighting_mask is Some
            || o.detail_mask is Some || o.appearance_threshold is Some || o.lighting_threshold is Some
            || o.detail_threshold is Some,
    ensures
        ({
            let q = resolved(l, choice, st, best, o);
            let b = base(l, choice, st, best);
            &&& q.ofa_enabled == match o.ofa_enabled {
                Some(v) => v,
                None => b.ofa_enabled,
            }
            &&& q.enable_lumenite == !q.ofa_enabled
            &&& q.ofa_grid == match o.ofa_grid {
                Some(v) => v,
                None => b.ofa_grid,
            }
            &&& o.work_resolution matches Some(v) ==> q.work_resolution == (if v < 50 {
                50
            } else if v > 100 {
                100
            } else {
                v
            })
            &&& o.work_resolution is None ==> q.work_resolution == b.work_resolution
            &&& o.work_upscale matches Some(v) ==> q.work_upscale == (if v < 0 {
                0
            } else if v > 2 {
                2
            } else {
                v
            })
            &&& o.work_upscale is None ==> q.work_upscale == b.work_upscale
            &&& q.appearance_threshold == match o.appearance_threshold {
                Some(v) => v,
                None => b.appearance_threshold,
            }
            &&& q.lighting_threshold == match o.lighting_threshold {
                Some(v) => v,
                None => b.lighting_threshold,
            }
            &&& q.detail_threshold == match o.detail_threshold {
                Some(v) => v,
                None => b.detail_threshold,
            }
            &&& q.appearance_mask == match o.appearance_mask {
                Some(v) => v,
                None => b.appearance_mask,
            }
            &&& q.lighting_mask == match o.lighting_mask {
                Some(v) => v,
                None => b.lighting_mask,
            }
            &&& q.detail_mask == match o.detail_mask {
                Some(v) => v,
                None => b.detail_mask,
            }
            &&& (q.engine_velocity, q.ofa_perf, q.work_sharpness) == (
                b.engine_velocity,
                b.ofa_perf,
                b.work_sharpness,
            )
            &&& (q.appearance_strength, q.lighting_strength, q.detail_strength) == (
                b.appearance_strength,
                b.lighting_strength,
                b.detail_strength,
            )
            &&& !q.customized ==> q == b
            &&& q.customized ==> q != b
        }),
{
}

} // verus!
