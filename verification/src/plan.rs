//! The install steps for a game, in the order in which they run.
use vstd::prelude::*;
use crate::game::{Api, GameStatus, Mode};
use crate::lang::{say, tr, Lang};

verus! {

/// Which install engine carries the DLSS 5 pass.
#[derive(Debug, Clone, Copy, PartialEq, Eq, Structural)]
pub enum Engine {
    /// ReShade + RenoDX add-on (both game kinds; the default).
    ReShade,
    /// Dagherbou's OptiScaler fork with the built-in Neural Rendering pass.
    /// Games with native DLSS only (the pass reads the inputs the game hands to DLSS).
    Opti,
}

impl Default for Engine {
    fn default() -> (r: Self)
        ensures
            r == Engine::ReShade,
    {
        Engine::ReShade
    }
}

/// What a step does.
#[derive(Debug, Clone, Copy, PartialEq, Eq, Structural)]
pub enum Action {
    Opti,
    ReShade,
    DgVoodoo,
    Headers,
    Feeder,
    Lumenite,
    Dlss5,
    DlssnrOnly,
    Bridge,
    Upstream,
    Config,
    FeederCleanup,
    ReFramework,
    RenoDx,
    HostReShade,
    GpuPref,
    ReShadeViaOpti,
}

/// A step of an install: its name in both languages, and what it does.
#[derive(Debug, Clone, Copy)]
pub struct Step {
    pub name: &'static str,
    pub name_zh: &'static str,
    pub action: Action,
}

pub const OPTI_EN: &'static str = "OptiScaler + DLSS Neural Rendering";

pub const OPTI_ZH: &'static str = "OptiScaler + DLSS 神经渲染";

pub const RESHADE_EN: &'static str = "ReShade (add-on build)";

pub const RESHADE_ZH: &'static str = "ReShade（附加组件版）";

pub const DGVOODOO_EN: &'static str = "dgVoodoo 2.87.3 (DX9 → D3D11)";

pub const DGVOODOO_ZH: &'static str = "dgVoodoo 2.87.3（DX9 → D3D11）";

pub const HEADERS_EN: &'static str = "ReShade shader headers";

pub const HEADERS_ZH: &'static str = "ReShade 着色器头文件";

pub const FEEDER: &'static str = "DLSS5-Feeder";

pub const LUMENITE_EN: &'static str = "LumeniteFX motion vectors";

pub const LUMENITE_ZH: &'static str = "LumeniteFX 运动矢量";

pub const DLSS5_EN: &'static str = "DLSS 5 add-on + models";

pub const DLSS5_ZH: &'static str = "DLSS 5 附加组件 + 模型";

pub const MODEL_EN: &'static str = "DLSS 5 model (nvngx_dlssnr.dll)";

pub const MODEL_ZH: &'static str = "DLSS 5 模型（nvngx_dlssnr.dll）";

pub const BRIDGE_EN: &'static str = "DLSS 5 DX11 bridge";

pub const BRIDGE_ZH: &'static str = "DLSS 5 DX11 桥接";

pub const UPSTREAM_EN: &'static str = "Neural Upstream add-on (experimental)";

pub const UPSTREAM_ZH: &'static str = "神经上游附加组件（实验性）";

pub const CONFIG_EN: &'static str = "ReShade config";

pub const CONFIG_ZH: &'static str = "ReShade 配置";

pub const CLEANUP_EN: &'static str = "Remove DLSS5-Feeder (game has native DLSS)";

pub const CLEANUP_ZH: &'static str = "移除 DLSS5-Feeder（游戏自带原生 DLSS）";

pub const REFRAMEWORK_EN: &'static str = "REFramework (RE Engine needs it before ReShade)";

pub const REFRAMEWORK_ZH: &'static str = "REFramework（RE 引擎需在 ReShade 之前加载）";

pub const RENODX_EN: &'static str = "RenoDX HDR mod for this game";

pub const RENODX_ZH: &'static str = "本游戏的 RenoDX HDR 模组";

pub const HOST_RESHADE_EN: &'static str = "64-bit ReShade for the host64 helper";

pub const HOST_RESHADE_ZH: &'static str = "host64 助手的 64 位 ReShade";

pub const GPU_PREF_EN: &'static str = "GPU preference";

pub const GPU_PREF_ZH: &'static str = "GPU 偏好";

pub const VIA_OPTI_EN: &'static str = "ReShade loaded by OptiScaler (ReShade64.dll)";

pub const VIA_OPTI_ZH: &'static str = "由 OptiScaler 加载的 ReShade（ReShade64.dll）";

impl Action {
    /// The name of the step, in English and in Chinese.
    pub open spec fn names(self) -> (Seq<char>, Seq<char>) {
        match self {
            Action::Opti => (OPTI_EN@, OPTI_ZH@),
            Action::ReShade => (RESHADE_EN@, RESHADE_ZH@),
            Action::DgVoodoo => (DGVOODOO_EN@, DGVOODOO_ZH@),
            Action::Headers => (HEADERS_EN@, HEADERS_ZH@),
            Action::Feeder => (FEEDER@, FEEDER@),
            Action::Lumenite => (LUMENITE_EN@, LUMENITE_ZH@),
            Action::Dlss5 => (DLSS5_EN@, DLSS5_ZH@),
            Action::DlssnrOnly => (MODEL_EN@, MODEL_ZH@),
            Action::Bridge => (BRIDGE_EN@, BRIDGE_ZH@),
            Action::Upstream => (UPSTREAM_EN@, UPSTREAM_ZH@),
            Action::Config => (CONFIG_EN@, CONFIG_ZH@),
            Action::FeederCleanup => (CLEANUP_EN@, CLEANUP_ZH@),
            Action::ReFramework => (REFRAMEWORK_EN@, REFRAMEWORK_ZH@),
            Action::RenoDx => (RENODX_EN@, RENODX_ZH@),
            Action::HostReShade => (HOST_RESHADE_EN@, HOST_RESHADE_ZH@),
            Action::GpuPref => (GPU_PREF_EN@, GPU_PREF_ZH@),
            Action::ReShadeViaOpti => (VIA_OPTI_EN@, VIA_OPTI_ZH@),
        }
    }
}

impl Step {
    /// A step carries the names of its action.
    pub open spec fn well_named(self) -> bool {
        (self.name@, self.name_zh@) == self.action.names()
    }

    /// The name for a language.
    pub open spec fn shown(self, l: Lang) -> Seq<char> {
        say(l, self.name@, self.name_zh@)
    }

    pub fn title(&self, l: Lang) -> (r: &'static str)
        ensures
            r@ == self.shown(l),
    {
        tr(l, self.name, self.name_zh)
    }
}

/// The step that performs an action.
pub fn step(action: Action) -> (r: Step)
    ensures
        r.action == action,
        r.well_named(),
{
    let (name, name_zh) = match action {
        Action::Opti => (OPTI_EN, OPTI_ZH),
        Action::ReShade => (RESHADE_EN, RESHADE_ZH),
        Action::DgVoodoo => (DGVOODOO_EN, DGVOODOO_ZH),
        Action::Headers => (HEADERS_EN, HEADERS_ZH),
        Action::Feeder => (FEEDER, FEEDER),
        Action::Lumenite => (LUMENITE_EN, LUMENITE_ZH),
        Action::Dlss5 => (DLSS5_EN, DLSS5_ZH),
        Action::DlssnrOnly => (MODEL_EN, MODEL_ZH),
        Action::Bridge => (BRIDGE_EN, BRIDGE_ZH),
        Action::Upstream => (UPSTREAM_EN, UPSTREAM_ZH),
        Action::Config => (CONFIG_EN, CONFIG_ZH),
        Action::FeederCleanup => (CLEANUP_EN, CLEANUP_ZH),
        Action::ReFramework => (REFRAMEWORK_EN, REFRAMEWORK_ZH),
        Action::RenoDx => (RENODX_EN, RENODX_ZH),
        Action::HostReShade => (HOST_RESHADE_EN, HOST_RESHADE_ZH),
        Action::GpuPref => (GPU_PREF_EN, GPU_PREF_ZH),
        Action::ReShadeViaOpti => (VIA_OPTI_EN, VIA_OPTI_ZH),
    };
    Step { name, name_zh, action }
}

// ── the plan ───────────────────────────────────────────────────────

pub open spec fn actions(v: Seq<Step>) -> Seq<Action> {
    Seq::new(v.len(), |i: int| v[i].action)
}

pub open spec fn all_named(v: Seq<Step>) -> bool {
    forall|i: int| 0 <= i < v.len() ==> (#[trigger] v[i]).well_named()
}

/// One action where `c` holds, none otherwise.
pub open spec fn only(c: bool, a: Action) -> Seq<Action> {
    if c {
        seq![a]
    } else {
        Seq::empty()
    }
}

/// The steps of the ReShade engine, from ReShade to its config. Neural Upstream
/// is itself the neural consumer: it creates the DLSSNR feature and needs only
/// the model beside it, so it takes the RenoDX add-on's place rather than
/// sitting next to it.
pub open spec fn reshade_plan(st: GameStatus, upstream: bool, with_renodx: bool) -> Seq<Action> {
    (match st.mode {
        Mode::Feeder => seq![Action::ReShade] + only(st.is_32(), Action::HostReShade) + seq![
            Action::Headers,
            Action::Feeder,
            Action::Lumenite,
            Action::Dlss5,
        ],
        Mode::Native => seq![Action::ReShade] + only(st.feeder, Action::FeederCleanup) + (
        if upstream {
            seq![Action::Upstream, Action::DlssnrOnly]
        } else {
            seq![Action::Dlss5]
        }) + only(st.wants_bridge(), Action::Bridge),
    }) + only(with_renodx, Action::RenoDx) + seq![Action::Config]
}

/// The steps of the OptiScaler engine.
pub open spec fn opti_plan(with_renodx: bool) -> Seq<Action> {
    seq![Action::Opti, Action::DlssnrOnly] + (if with_renodx {
        seq![Action::ReShadeViaOpti, Action::RenoDx]
    } else {
        Seq::empty()
    })
}

/// The whole plan. DX9 never loads dxgi.dll: dgVoodoo must sit in the game
/// folder first. RE Engine games get REFramework before the engine. The GPU
/// preference comes last.
pub open spec fn plan(st: GameStatus, engine: Engine, with_renodx: bool, upstream: bool) -> Seq<
    Action,
> {
    only(st.api == Api::Dx9, Action::DgVoodoo) + only(st.re_engine, Action::ReFramework) + (
    if engine == Engine::Opti {
        opti_plan(with_renodx)
    } else {
        reshade_plan(st, upstream, with_renodx)
    }) + seq![Action::GpuPref]
}

fn put_step(v: &mut Vec<Step>, action: Action)
    requires
        all_named(old(v)@),
    ensures
        all_named(final(v)@),
        actions(final(v)@) == actions(old(v)@) + seq![action],
{
    v.push(step(action));
    assert(actions(v@) =~= actions(old(v)@) + seq![action]);
}

fn put_step_if(v: &mut Vec<Step>, c: bool, action: Action)
    requires
        all_named(old(v)@),
    ensures
        all_named(final(v)@),
        actions(final(v)@) == actions(old(v)@) + only(c, action),
{
    if c {
        put_step(v, action);
    } else {
        assert(actions(v@) =~= actions(old(v)@) + only(c, action));
    }
}

/// The steps of the ReShade engine.
fn plan_reshade(st: &GameStatus, upstream: bool, with_renodx: bool, v: &mut Vec<Step>)
    requires
        all_named(old(v)@),
    ensures
        all_named(final(v)@),
        actions(final(v)@) == actions(old(v)@) + reshade_plan(*st, upstream, with_renodx),
{
    let ghost before = actions(v@);
    put_step(v, Action::ReShade);
    match st.mode {
        Mode::Feeder => {
            put_step_if(v, st.is32(), Action::HostReShade);
            put_step(v, Action::Headers);
            put_step(v, Action::Feeder);
            put_step(v, Action::Lumenite);
            put_step(v, Action::Dlss5);
        },
        Mode::Native => {
            put_step_if(v, st.feeder, Action::FeederCleanup);
            if upstream {
                put_step(v, Action::Upstream);
                put_step(v, Action::DlssnrOnly);
            } else {
                put_step(v, Action::Dlss5);
            }
            put_step_if(v, st.needs_bridge(), Action::Bridge);
        },
    }
    put_step_if(v, with_renodx, Action::RenoDx);
    put_step(v, Action::Config);
    assert(actions(v@) =~= before + reshade_plan(*st, upstream, with_renodx));
}

/// `with_renodx` adds the game's RenoDX HDR mod after the DLSS 5 add-on. On
/// the OptiScaler engine that needs ReShade too, loaded by OptiScaler as
/// `ReShade64.dll`. RE Engine games get REFramework first on either engine.
///
/// The OptiScaler engine is only for games with native DLSS; the plan is given
/// regardless, so that it can be shown.
pub fn plan_with(st: &GameStatus, engine: Engine, with_renodx: bool, upstream: bool) -> (r: Vec<
    Step,
>)
    ensures
        actions(r@) == plan(*st, engine, with_renodx, upstream),
        all_named(r@),
{
    let mut v: Vec<Step> = Vec::new();
    assert(actions(v@) =~= Seq::empty());
    // Always run on Dx9 (even when the DLL is already present) so that Install
    // refreshes dgVoodoo.conf: a bare OutputAPI-only conf leaves stock VRAM=256.
    put_step_if(&mut v, st.api == Api::Dx9, Action::DgVoodoo);
    put_step_if(&mut v, st.re_engine, Action::ReFramework);
    let ghost first = only(st.api == Api::Dx9, Action::DgVoodoo) + only(
        st.re_engine,
        Action::ReFramework,
    );
    assert(actions(v@) =~= first);
    if engine == Engine::Opti {
        put_step(&mut v, Action::Opti);
        put_step(&mut v, Action::DlssnrOnly);
        if with_renodx {
            put_step(&mut v, Action::ReShadeViaOpti);
            put_step(&mut v, Action::RenoDx);
        }
        assert(actions(v@) =~= first + opti_plan(with_renodx));
    } else {
        plan_reshade(st, upstream, with_renodx, &mut v);
    }
    put_step(&mut v, Action::GpuPref);
    v
}

// ── laws ───────────────────────────────────────────────────────────

/// The GPU preference is the last step, and no other step is it.
pub proof fn law_gpu_preference_is_last(
    st: GameStatus,
    engine: Engine,
    with_renodx: bool,
    upstream: bool,
)
    ensures
        ({
            let p = plan(st, engine, with_renodx, upstream);
            &&& p.len() >= 3
            &&& forall|i: int|
                0 <= i < p.len() ==> (#[trigger] p[i] == Action::GpuPref <==> i == p.len() - 1)
        }),
{
}

/// On Direct3D 9 dgVoodoo comes first, and nowhere else does it come at all.
pub proof fn law_dgvoodoo_first_on_dx9(
    st: GameStatus,
    engine: Engine,
    with_renodx: bool,
    upstream: bool,
)
    ensures
        ({
            let p = plan(st, engine, with_renodx, upstream);
            forall|i: int|
                0 <= i < p.len() ==> (#[trigger] p[i] == Action::DgVoodoo <==> i == 0 && st.api
                    == Api::Dx9)
        }),
{
}

proof fn lemma_in_sum(a: Seq<Action>, b: Seq<Action>, x: Action)
    ensures
        (a + b).contains(x) <==> a.contains(x) || b.contains(x),
{
    if a.contains(x) {
        let i = choose|i: int| 0 <= i < a.len() && a[i] == x;
        assert((a + b)[i] == x);
    }
    if b.contains(x) {
        let i = choose|i: int| 0 <= i < b.len() && b[i] == x;
        assert((a + b)[a.len() + i] == x);
    }
}

proof fn lemma_in_only(c: bool, a: Action, x: Action)
    ensures
        only(c, a).contains(x) <==> c && a == x,
{
    if c {
        assert(only(c, a)[0] == a);
    }
}

/// What the plan of the ReShade engine holds.
proof fn lemma_in_reshade_plan(st: GameStatus, upstream: bool, with_renodx: bool, x: Action)
    ensures
        reshade_plan(st, upstream, with_renodx).contains(x) <==> {
            ||| x == Action::ReShade
            ||| x == Action::Config
            ||| x == Action::RenoDx && with_renodx
            ||| st.mode == Mode::Feeder && {
                ||| x == Action::HostReShade && st.is_32()
                ||| x == Action::Headers
                ||| x == Action::Feeder
                ||| x == Action::Lumenite
                ||| x == Action::Dlss5
            }
            ||| st.mode == Mode::Native && {
                ||| x == Action::FeederCleanup && st.feeder
                ||| x == Action::Upstream && upstream
                ||| x == Action::DlssnrOnly && upstream
                ||| x == Action::Dlss5 && !upstream
                ||| x == Action::Bridge && st.api == Api::Dx11
            }
        },
{
    let one = seq![Action::ReShade];
    assert(one[0] == Action::ReShade);
    let end = seq![Action::Config];
    assert(end[0] == Action::Config);
    let mid = match st.mode {
        Mode::Feeder => {
            let four = seq![Action::Headers, Action::Feeder, Action::Lumenite, Action::Dlss5];
            assert(four[0] == Action::Headers && four[1] == Action::Feeder && four[2]
                == Action::Lumenite && four[3] == Action::Dlss5);
            lemma_in_sum(one, only(st.is_32(), Action::HostReShade), x);
            lemma_in_only(st.is_32(), Action::HostReShade, x);
            lemma_in_sum(one + only(st.is_32(), Action::HostReShade), four, x);
            one + only(st.is_32(), Action::HostReShade) + four
        },
        Mode::Native => {
            let two = if upstream {
                seq![Action::Upstream, Action::DlssnrOnly]
            } else {
                seq![Action::Dlss5]
            };
            assert(upstream ==> two[0] == Action::Upstream && two[1] == Action::DlssnrOnly);
            assert(!upstream ==> two[0] == Action::Dlss5);
            let c = only(st.feeder, Action::FeederCleanup);
            let g = only(st.wants_bridge(), Action::Bridge);
            lemma_in_sum(one, c, x);
            lemma_in_only(st.feeder, Action::FeederCleanup, x);
            lemma_in_sum(one + c, two, x);
            lemma_in_sum(one + c + two, g, x);
            lemma_in_only(st.wants_bridge(), Action::Bridge, x);
            one + c + two + g
        },
    };
    lemma_in_sum(mid, only(with_renodx, Action::RenoDx), x);
    lemma_in_only(with_renodx, Action::RenoDx, x);
    lemma_in_sum(mid + only(with_renodx, Action::RenoDx), end, x);
}

proof fn lemma_in_opti_plan(with_renodx: bool, x: Action)
    ensures
        opti_plan(with_renodx).contains(x) <==> {
            ||| x == Action::Opti
            ||| x == Action::DlssnrOnly
            ||| with_renodx && (x == Action::ReShadeViaOpti || x == Action::RenoDx)
        },
{
    let two = seq![Action::Opti, Action::DlssnrOnly];
    assert(two[0] == Action::Opti && two[1] == Action::DlssnrOnly);
    let more = if with_renodx {
        seq![Action::ReShadeViaOpti, Action::RenoDx]
    } else {
        Seq::empty()
    };
    assert(with_renodx ==> more[0] == Action::ReShadeViaOpti && more[1] == Action::RenoDx);
    lemma_in_sum(two, more, x);
}

/// What precedes the engine, and the engine with what follows it.
spec fn before_engine(st: GameStatus) -> Seq<Action> {
    only(st.api == Api::Dx9, Action::DgVoodoo) + only(st.re_engine, Action::ReFramework)
}

spec fn engine_plan(st: GameStatus, engine: Engine, with_renodx: bool, upstream: bool) -> Seq<
    Action,
> {
    (if engine == Engine::Opti {
        opti_plan(with_renodx)
    } else {
        reshade_plan(st, upstream, with_renodx)
    }) + seq![Action::GpuPref]
}

proof fn lemma_in_plan(
    st: GameStatus,
    engine: Engine,
    with_renodx: bool,
    upstream: bool,
    x: Action,
)
    ensures
        plan(st, engine, with_renodx, upstream) == before_engine(st) + engine_plan(
            st,
            engine,
            with_renodx,
            upstream,
        ),
        before_engine(st).contains(x) <==> (x == Action::DgVoodoo && st.api == Api::Dx9) || (x
            == Action::ReFramework && st.re_engine),
        engine_plan(st, engine, with_renodx, upstream).contains(x) <==> (x == Action::GpuPref) || (
        if engine == Engine::Opti {
            opti_plan(with_renodx).contains(x)
        } else {
            reshade_plan(st, upstream, with_renodx).contains(x)
        }),
        plan(st, engine, with_renodx, upstream).contains(x) <==> before_engine(st).contains(x)
            || engine_plan(st, engine, with_renodx, upstream).contains(x),
{
    let e = if engine == Engine::Opti {
        opti_plan(with_renodx)
    } else {
        reshade_plan(st, upstream, with_renodx)
    };
    let last = seq![Action::GpuPref];
    assert(last[0] == Action::GpuPref);
    assert(before_engine(st) + e + last =~= before_engine(st) + (e + last));
    lemma_in_sum(
        only(st.api == Api::Dx9, Action::DgVoodoo),
        only(st.re_engine, Action::ReFramework),
        x,
    );
    lemma_in_only(st.api == Api::Dx9, Action::DgVoodoo, x);
    lemma_in_only(st.re_engine, Action::ReFramework, x);
    lemma_in_sum(e, last, x);
    lemma_in_sum(before_engine(st), e + last, x);
}

/// An RE Engine game gets REFramework before the engine that it must precede,
/// and no other game gets it.
pub proof fn law_reframework_precedes_the_engine(
    st: GameStatus,
    engine: Engine,
    with_renodx: bool,
    upstream: bool,
)
    ensures
        ({
            let p = plan(st, engine, with_renodx, upstream);
            &&& p.contains(Action::ReFramework) <==> st.re_engine
            &&& forall|i: int, j: int|
                0 <= i < p.len() && 0 <= j < p.len() && #[trigger] p[i] == Action::ReFramework && (
                #[trigger] p[j] == Action::ReShade || p[j] == Action::Opti) ==> i < j
        }),
{
    let p = plan(st, engine, with_renodx, upstream);
    let a = before_engine(st);
    let b = engine_plan(st, engine, with_renodx, upstream);
    lemma_in_plan(st, engine, with_renodx, upstream, Action::ReFramework);
    lemma_in_reshade_plan(st, upstream, with_renodx, Action::ReFramework);
    lemma_in_opti_plan(with_renodx, Action::ReFramework);
    lemma_in_plan(st, engine, with_renodx, upstream, Action::ReShade);
    lemma_in_plan(st, engine, with_renodx, upstream, Action::Opti);
    assert forall|i: int, j: int|
        0 <= i < p.len() && 0 <= j < p.len() && #[trigger] p[i] == Action::ReFramework && (
        #[trigger] p[j] == Action::ReShade || p[j] == Action::Opti) implies i < j by {
        if i >= a.len() {
            assert(b[i - a.len()] == Action::ReFramework);
        }
        if j < a.len() {
            assert(a[j] == p[j]);
        }
    }
}

/// On the ReShade engine the config is written after every component: only the
/// GPU preference follows it, and the RenoDX mod comes right before it where it
/// was asked for, and not at all where it was not.
pub proof fn law_config_follows_the_components(
    st: GameStatus,
    with_renodx: bool,
    upstream: bool,
)
    ensures
        ({
            let p = plan(st, Engine::ReShade, with_renodx, upstream);
            &&& p.len() >= 4
            &&& p[p.len() - 2] == Action::Config
            &&& forall|i: int|
                0 <= i < p.len() ==> (#[trigger] p[i] == Action::RenoDx <==> with_renodx && i
                    == p.len() - 3)
        }),
{
}

/// A game with DLSS of its own gets exactly one neural consumer: Neural Upstream
/// with the bare model, or the RenoDX add-on with its models.
pub proof fn law_one_neural_consumer(st: GameStatus, with_renodx: bool, upstream: bool)
    requires
        st.mode == Mode::Native,
    ensures
        ({
            let p = plan(st, Engine::ReShade, with_renodx, upstream);
            &&& p.contains(Action::Upstream) <==> upstream
            &&& p.contains(Action::DlssnrOnly) <==> upstream
            &&& p.contains(Action::Dlss5) <==> !upstream
            &&& p.contains(Action::Bridge) <==> st.api == Api::Dx11
            &&& p.contains(Action::FeederCleanup) <==> st.feeder
        }),
{
    lemma_in_native(st, with_renodx, upstream, Action::Upstream);
    lemma_in_native(st, with_renodx, upstream, Action::DlssnrOnly);
    lemma_in_native(st, with_renodx, upstream, Action::Dlss5);
    lemma_in_native(st, with_renodx, upstream, Action::Bridge);
    lemma_in_native(st, with_renodx, upstream, Action::FeederCleanup);
}

proof fn lemma_in_native(st: GameStatus, with_renodx: bool, upstream: bool, x: Action)
    requires
        x != Action::GpuPref,
        x != Action::DgVoodoo,
        x != Action::ReFramework,
    ensures
        plan(st, Engine::ReShade, with_renodx, upstream).contains(x) <==> reshade_plan(
            st,
            upstream,
            with_renodx,
        ).contains(x),
        st.mode == Mode::Native && x == Action::Upstream ==> (reshade_plan(
            st,
            upstream,
            with_renodx,
        ).contains(x) <==> upstream),
        st.mode == Mode::Native && x == Action::DlssnrOnly ==> (reshade_plan(
            st,
            upstream,
            with_renodx,
        ).contains(x) <==> upstream),
        st.mode == Mode::Native && x == Action::Dlss5 ==> (reshade_plan(
            st,
            upstream,
            with_renodx,
        ).contains(x) <==> !upstream),
        st.mode == Mode::Native && x == Action::Bridge ==> (reshade_plan(
            st,
            upstream,
            with_renodx,
        ).contains(x) <==> st.api == Api::Dx11),
        st.mode == Mode::Native && x == Action::FeederCleanup ==> (reshade_plan(
            st,
            upstream,
            with_renodx,
        ).contains(x) <==> st.feeder),
{
    lemma_in_plan(st, Engine::ReShade, with_renodx, upstream, x);
    lemma_in_reshade_plan(st, upstream, with_renodx, x);
}

/// Whether a step belongs into the install of a game.
pub open spec fn belongs(
    st: GameStatus,
    engine: Engine,
    with_renodx: bool,
    upstream: bool,
    x: Action,
) -> bool {
    let fed = engine == Engine::ReShade && st.mode == Mode::Feeder;
    let own = engine == Engine::ReShade && st.mode == Mode::Native;
    match x {
        Action::DgVoodoo => st.api == Api::Dx9,
        Action::ReFramework => st.re_engine,
        Action::ReShade => engine == Engine::ReShade,
        Action::HostReShade => fed && st.bitness == 32,
        Action::Headers => fed,
        Action::Feeder => fed,
        Action::Lumenite => fed,
        Action::FeederCleanup => own && st.feeder,
        Action::Upstream => own && upstream,
        Action::Dlss5 => fed || own && !upstream,
        Action::DlssnrOnly => engine == Engine::Opti || own && upstream,
        Action::Bridge => own && st.api == Api::Dx11,
        Action::Opti => engine == Engine::Opti,
        Action::ReShadeViaOpti => engine == Engine::Opti && with_renodx,
        Action::RenoDx => with_renodx,
        Action::Config => engine == Engine::ReShade,
        Action::GpuPref => true,
    }
}

/// A plan holds a step exactly where the engine, the kind of game and the choices
/// call for it.
pub proof fn law_plan_holds_what_belongs(
    st: GameStatus,
    engine: Engine,
    with_renodx: bool,
    upstream: bool,
    x: Action,
)
    ensures
        plan(st, engine, with_renodx, upstream).contains(x) <==> belongs(
            st,
            engine,
            with_renodx,
            upstream,
            x,
        ),
{
    lemma_in_plan(st, engine, with_renodx, upstream, x);
    lemma_in_reshade_plan(st, upstream, with_renodx, x);
    lemma_in_opti_plan(with_renodx, x);
}

/// The place of a step among all steps.
pub open spec fn rank(x: Action) -> int {
    match x {
        Action::DgVoodoo => 0,
        Action::ReFramework => 1,
        Action::Opti => 2,
        Action::ReShade => 3,
        Action::HostReShade => 4,
        Action::FeederCleanup => 5,
        Action::Headers => 6,
        Action::Feeder => 7,
        Action::Lumenite => 8,
        Action::Upstream => 9,
        Action::DlssnrOnly => 10,
        Action::Dlss5 => 11,
        Action::Bridge => 12,
        Action::ReShadeViaOpti => 13,
        Action::RenoDx => 14,
        Action::Config => 15,
        Action::GpuPref => 16,
    }
}

/// Steps in order, from one place up to another.
spec fn rising(v: Seq<Action>, lo: int, hi: int) -> bool {
    &&& forall|i: int, j: int|
        0 <= i < j < v.len() ==> rank(#[trigger] v[i]) < rank(#[trigger] v[j])
    &&& forall|i: int| 0 <= i < v.len() ==> lo <= rank(#[trigger] v[i]) < hi
}

proof fn lemma_rising_sum(a: Seq<Action>, b: Seq<Action>, lo: int, mid: int, hi: int)
    requires
        rising(a, lo, mid),
        rising(b, mid, hi),
        lo <= mid <= hi,
    ensures
        rising(a + b, lo, hi),
{
    let v = a + b;
    assert forall|i: int, j: int| 0 <= i < j < v.len() implies rank(#[trigger] v[i]) < rank(
        #[trigger] v[j],
    ) by {
        if i < a.len() && j >= a.len() {
            assert(v[i] == a[i] && v[j] == b[j - a.len()]);
        } else if i >= a.len() {
            assert(v[i] == b[i - a.len()] && v[j] == b[j - a.len()]);
        } else {
            assert(v[i] == a[i] && v[j] == a[j]);
        }
    }
    assert forall|i: int| 0 <= i < v.len() implies lo <= rank(#[trigger] v[i]) < hi by {
        if i < a.len() {
            assert(v[i] == a[i]);
        } else {
            assert(v[i] == b[i - a.len()]);
        }
    }
}

proof fn lemma_rising_reshade(st: GameStatus, upstream: bool, with_renodx: bool)
    ensures
        rising(reshade_plan(st, upstream, with_renodx), 2, 16),
{
    let one = seq![Action::ReShade];
    let mid = match st.mode {
        Mode::Feeder => {
            let h = only(st.is_32(), Action::HostReShade);
            let four = seq![Action::Headers, Action::Feeder, Action::Lumenite, Action::Dlss5];
            lemma_rising_sum(one, h, 2, 4, 5);
            lemma_rising_sum(one + h, four, 2, 5, 14);
            one + h + four
        },
        Mode::Native => {
            let c = only(st.feeder, Action::FeederCleanup);
            let two = if upstream {
                seq![Action::Upstream, Action::DlssnrOnly]
            } else {
                seq![Action::Dlss5]
            };
            let g = only(st.wants_bridge(), Action::Bridge);
            lemma_rising_sum(one, c, 2, 4, 6);
            lemma_rising_sum(one + c, two, 2, 6, 12);
            lemma_rising_sum(one + c + two, g, 2, 12, 14);
            one + c + two + g
        },
    };
    let r = only(with_renodx, Action::RenoDx);
    lemma_rising_sum(mid, r, 2, 14, 15);
    lemma_rising_sum(mid + r, seq![Action::Config], 2, 15, 16);
}

proof fn lemma_rising_opti(with_renodx: bool)
    ensures
        rising(opti_plan(with_renodx), 2, 16),
{
    let two = seq![Action::Opti, Action::DlssnrOnly];
    let more = if with_renodx {
        seq![Action::ReShadeViaOpti, Action::RenoDx]
    } else {
        Seq::empty()
    };
    lemma_rising_sum(two, more, 2, 11, 16);
}

/// The steps of every plan come in one order, each at most once.
pub proof fn law_steps_keep_their_order(
    st: GameStatus,
    engine: Engine,
    with_renodx: bool,
    upstream: bool,
)
    ensures
        ({
            let p = plan(st, engine, with_renodx, upstream);
            forall|i: int, j: int|
                0 <= i < j < p.len() ==> rank(#[trigger] p[i]) < rank(#[trigger] p[j])
        }),
{
    lemma_rising_reshade(st, upstream, with_renodx);
    lemma_rising_opti(with_renodx);
    let a = only(st.api == Api::Dx9, Action::DgVoodoo);
    let b = only(st.re_engine, Action::ReFramework);
    let e = if engine == Engine::Opti {
        opti_plan(with_renodx)
    } else {
        reshade_plan(st, upstream, with_renodx)
    };
    lemma_rising_sum(a, b, 0, 1, 2);
    lemma_rising_sum(a + b, e, 0, 2, 16);
    lemma_rising_sum(a + b + e, seq![Action::GpuPref], 0, 16, 17);
}

/// The names under which the steps are shown.
pub proof fn law_steps_are_named_by_what_they_do()
    ensures
        Action::Opti.names().0 == "OptiScaler + DLSS Neural Rendering"@,
        Action::ReShade.names().0 == "ReShade (add-on build)"@,
        Action::DgVoodoo.names().0 == "dgVoodoo 2.87.3 (DX9 → D3D11)"@,
        Action::Headers.names().0 == "ReShade shader headers"@,
        Action::Feeder.names().0 == "DLSS5-Feeder"@,
        Action::Lumenite.names().0 == "LumeniteFX motion vectors"@,
        Action::Dlss5.names().0 == "DLSS 5 add-on + models"@,
        Action::DlssnrOnly.names().0 == "DLSS 5 model (nvngx_dlssnr.dll)"@,
        Action::Bridge.names().0 == "DLSS 5 DX11 bridge"@,
        Action::Upstream.names().0 == "Neural Upstream add-on (experimental)"@,
        Action::Config.names().0 == "ReShade config"@,
        Action::FeederCleanup.names().0 == "Remove DLSS5-Feeder (game has native DLSS)"@,
        Action::ReFramework.names().0 == "REFramework (RE Engine needs it before ReShade)"@,
        Action::RenoDx.names().0 == "RenoDX HDR mod for this game"@,
        Action::HostReShade.names().0 == "64-bit ReShade for the host64 helper"@,
        Action::GpuPref.names().0 == "GPU preference"@,
        Action::ReShadeViaOpti.names().0 == "ReShade loaded by OptiScaler (ReShade64.dll)"@,
        Action::Opti.names().1 == "OptiScaler + DLSS 神经渲染"@,
        Action::ReShade.names().1 == "ReShade（附加组件版）"@,
        Action::DgVoodoo.names().1 == "dgVoodoo 2.87.3（DX9 → D3D11）"@,
        Action::Headers.names().1 == "ReShade 着色器头文件"@,
        Action::Feeder.names().1 == "DLSS5-Feeder"@,
        Action::Lumenite.names().1 == "LumeniteFX 运动矢量"@,
        Action::Dlss5.names().1 == "DLSS 5 附加组件 + 模型"@,
        Action::DlssnrOnly.names().1 == "DLSS 5 模型（nvngx_dlssnr.dll）"@,
        Action::Bridge.names().1 == "DLSS 5 DX11 桥接"@,
        Action::Upstream.names().1 == "神经上游附加组件（实验性）"@,
        Action::Config.names().1 == "ReShade 配置"@,
        Action::FeederCleanup.names().1 == "移除 DLSS5-Feeder（游戏自带原生 DLSS）"@,
        Action::ReFramework.names().1 == "REFramework（RE 引擎需在 ReShade 之前加载）"@,
        Action::RenoDx.names().1 == "本游戏的 RenoDX HDR 模组"@,
        Action::HostReShade.names().1 == "host64 助手的 64 位 ReShade"@,
        Action::GpuPref.names().1 == "GPU 偏好"@,
        Action::ReShadeViaOpti.names().1 == "由 OptiScaler 加载的 ReShade（ReShade64.dll）"@,
{
}

} // verus!
