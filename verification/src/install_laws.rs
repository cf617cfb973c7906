//! What an install reports: the files it lacks, why it cannot start, which
//! components are behind.
use vstd::prelude::*;
use crate::game::{Api, GameStatus, Mode};
use crate::install::{
    detail, feeder_missing, finish_error, missing, native_missing, need, quality_left, refusal,
    stale, stale_one, stale_opti, step_error, Latest, Recorded, StepState, FEEDER_FILES,
    INCOMPLETE_EN, INCOMPLETE_ZH,
    IN_FOLDER, RESHADE_FILE_EN, RESHADE_FILE_ZH,
};
use crate::lang::{say, Lang};
use crate::lines::join;
use crate::message::{fill, lemma_fill_one, lemma_fill_two};
use crate::opti::recorded_tag;
use crate::plan::Engine;
use crate::quality_preset::ResolvedQuality;
use crate::releases::behind;
use crate::text::{contains, occurs_at, opt_text, texts, trim};

verus! {

// ── what is missing ────────────────────────────────────────────────

/// A text in the language that is asked for.
pub open spec fn either(l: Lang, en: Seq<char>, zh: Seq<char>) -> Seq<char> {
    if l == Lang::En {
        en
    } else {
        zh
    }
}

/// The names under which files are reported missing.
pub open spec fn reshade_lacks(l: Lang) -> Seq<char> {
    either(l, "dxgi.dll (ReShade)"@, "dxgi.dll（ReShade）"@)
}

pub open spec fn headers_lack(l: Lang) -> Seq<char> {
    either(
        l,
        "reshade-shaders/Shaders headers (ReShade.fxh…)"@,
        "reshade-shaders/Shaders 头文件（ReShade.fxh…）"@,
    )
}

pub open spec fn lumenite_lacks(l: Lang) -> Seq<char> {
    either(l, "LumeniteFX shaders"@, "LumeniteFX 着色器"@)
}

pub open spec fn consumer_lacks(l: Lang) -> Seq<char> {
    either(l, "DLSS 5 neural consumer add-on"@, "DLSS 5 神经消费者附加组件"@)
}

pub open spec fn bridge_lacks(l: Lang) -> Seq<char> {
    either(l, "dx11 bridge add-on"@, "dx11 桥接附加组件"@)
}

proof fn lemma_file_texts(l: Lang)
    ensures
        crate::install::reshade_file(l) == reshade_lacks(l),
        fill(IN_FOLDER@, seq!["host64"@, "dlss5-feed-host64.exe"@])
            == "host64/dlss5-feed-host64.exe"@,
        fill(IN_FOLDER@, seq!["host64"@, "dxgi.dll"@]) == "host64/dxgi.dll"@,
        fill(FEEDER_FILES@, seq!["dlss5-feed.addon64"@, "DLSS5_Feed.fx"@])
            == "dlss5-feed.addon64 / DLSS5_Feed.fx"@,
        fill(FEEDER_FILES@, seq!["dlss5-feed.addon32"@, "DLSS5_Feed.fx"@])
            == "dlss5-feed.addon32 / DLSS5_Feed.fx"@,
{
    reveal_strlit("{} (ReShade)");
    reveal_strlit("{}（ReShade）");
    reveal_strlit("dxgi.dll");
    reveal_strlit("dxgi.dll (ReShade)");
    reveal_strlit("dxgi.dll（ReShade）");
    reveal_strlit("{}/{}");
    reveal_strlit("{} / {}");
    reveal_strlit("host64");
    reveal_strlit("dlss5-feed-host64.exe");
    reveal_strlit("host64/dlss5-feed-host64.exe");
    reveal_strlit("host64/dxgi.dll");
    reveal_strlit("dlss5-feed.addon64");
    reveal_strlit("dlss5-feed.addon32");
    reveal_strlit("DLSS5_Feed.fx");
    reveal_strlit("dlss5-feed.addon64 / DLSS5_Feed.fx");
    reveal_strlit("dlss5-feed.addon32 / DLSS5_Feed.fx");
    lemma_fill_one(RESHADE_FILE_EN@, "dxgi.dll"@, 0);
    lemma_fill_one(RESHADE_FILE_ZH@, "dxgi.dll"@, 0);
    assert(crate::install::reshade_file(l) =~= reshade_lacks(l));
    lemma_fill_two(IN_FOLDER@, "host64"@, "dlss5-feed-host64.exe"@, 0, 3);
    lemma_fill_two(IN_FOLDER@, "host64"@, "dxgi.dll"@, 0, 3);
    assert(fill(IN_FOLDER@, seq!["host64"@, "dlss5-feed-host64.exe"@])
        =~= "host64/dlss5-feed-host64.exe"@);
    assert(fill(IN_FOLDER@, seq!["host64"@, "dxgi.dll"@]) =~= "host64/dxgi.dll"@);
    lemma_fill_two(FEEDER_FILES@, "dlss5-feed.addon64"@, "DLSS5_Feed.fx"@, 0, 5);
    lemma_fill_two(FEEDER_FILES@, "dlss5-feed.addon32"@, "DLSS5_Feed.fx"@, 0, 5);
    assert(fill(FEEDER_FILES@, seq!["dlss5-feed.addon64"@, "DLSS5_Feed.fx"@])
        =~= "dlss5-feed.addon64 / DLSS5_Feed.fx"@);
    assert(fill(FEEDER_FILES@, seq!["dlss5-feed.addon32"@, "DLSS5_Feed.fx"@])
        =~= "dlss5-feed.addon32 / DLSS5_Feed.fx"@);
}

proof fn lemma_in_sum(a: Seq<Seq<char>>, b: Seq<Seq<char>>, x: Seq<char>)
    ensures
        (a + b).contains(x) <==> a.contains(x) || b.contains(x),
{
    if a.contains(x) {
        let i = choose|i: int| 0 <= i < a.len() && a[i] == x;
        assert((a + b)[i] == x);
    }
    if b.contains(x) {
        let i = choose|i: int| 0 <= i < b.len() && b[i] == x;
        assert((a + b)[a.len() + i] == x);
    }
}

/// What one more need adds to a list.
proof fn lemma_more(a: Seq<Seq<char>>, c: bool, t: Seq<char>, x: Seq<char>)
    ensures
        (a + need(c, t)).contains(x) <==> a.contains(x) || c && t == x,
        need(c, t).contains(x) <==> c && t == x,
{
    if c {
        assert(need(c, t)[0] == t);
    }
    lemma_in_sum(a, need(c, t), x);
}

/// A file is reported missing exactly where the game's path needs it and it is
/// not there: on the feeder path ReShade, its headers, the feeder of the game's
/// bitness, LumeniteFX, a neural consumer, both models and, for a 32-bit game,
/// the helper with its ReShade; in a game with DLSS of its own the model and,
/// without OptiScaler, ReShade, a neural consumer and on D3D11 the bridge.
pub proof fn law_missing_files_are_named(l: Lang, st: GameStatus, x: Seq<char>)
    ensures
        missing(l, st).contains(x) <==> {
            ||| x == "nvngx_dlssnr.dll"@ && !st.dlssnr
            ||| st.mode == Mode::Feeder && {
                ||| x == reshade_lacks(l) && !st.reshade
                ||| x == headers_lack(l) && !st.headers
                ||| x == "dlss5-feed.addon64 / DLSS5_Feed.fx"@ && !st.feeder && st.bitness != 32
                ||| x == "dlss5-feed.addon32 / DLSS5_Feed.fx"@ && !st.feeder && st.bitness == 32
                ||| x == lumenite_lacks(l) && !st.lumenite
                ||| x == consumer_lacks(l) && !st.dlss5_addon && !st.upstream
                ||| x == "nvngx_dlss.dll"@ && !st.dlss
                ||| x == "host64/dlss5-feed-host64.exe"@ && st.bitness == 32 && !st.host_exe
                ||| x == "host64/dxgi.dll"@ && st.bitness == 32 && !st.host_reshade
            }
            ||| st.mode == Mode::Native && !st.opti && {
                ||| x == reshade_lacks(l) && !st.reshade
                ||| x == consumer_lacks(l) && !st.dlss5_addon && !st.upstream
                ||| x == bridge_lacks(l) && st.api == Api::Dx11 && !st.bridge
            }
        },
{
    lemma_file_texts(l);
    if st.mode == Mode::Feeder {
        lemma_feeder_missing(l, st, x);
    } else if st.opti {
        lemma_more(Seq::empty(), !st.dlssnr, "nvngx_dlssnr.dll"@, x);
    } else {
        lemma_native_missing(l, st, x);
    }
}

proof fn lemma_native_missing(l: Lang, st: GameStatus, x: Seq<char>)
    requires
        st.mode == Mode::Native,
        !st.opti,
    ensures
        native_missing(l, st).contains(x) <==> {
            ||| x == "nvngx_dlssnr.dll"@ && !st.dlssnr
            ||| x == reshade_lacks(l) && !st.reshade
            ||| x == consumer_lacks(l) && !st.dlss5_addon && !st.upstream
            ||| x == bridge_lacks(l) && st.api == Api::Dx11 && !st.bridge
        },
{
    lemma_file_texts(l);
    let a = need(!st.reshade, reshade_lacks(l));
    lemma_more(Seq::empty(), !st.reshade, reshade_lacks(l), x);
    let b = a + need(!(st.dlss5_addon || st.upstream), consumer_lacks(l));
    lemma_more(a, !(st.dlss5_addon || st.upstream), consumer_lacks(l), x);
    let c = b + need(!st.dlssnr, "nvngx_dlssnr.dll"@);
    lemma_more(b, !st.dlssnr, "nvngx_dlssnr.dll"@, x);
    lemma_more(c, st.wants_bridge() && !st.bridge, bridge_lacks(l), x);
}

/// What four needs add to a list.
proof fn lemma_four_more(
    v: Seq<Seq<char>>,
    c: (bool, bool, bool, bool),
    t: (Seq<char>, Seq<char>, Seq<char>, Seq<char>),
    x: Seq<char>,
)
    ensures
        (v + need(c.0, t.0) + need(c.1, t.1) + need(c.2, t.2) + need(c.3, t.3)).contains(x) <==> {
            ||| v.contains(x)
            ||| c.0 && t.0 == x
            ||| c.1 && t.1 == x
            ||| c.2 && t.2 == x
            ||| c.3 && t.3 == x
        },
{
    let v1 = v + need(c.0, t.0);
    let v2 = v1 + need(c.1, t.1);
    let v3 = v2 + need(c.2, t.2);
    lemma_more(v, c.0, t.0, x);
    lemma_more(v1, c.1, t.1, x);
    lemma_more(v2, c.2, t.2, x);
    lemma_more(v3, c.3, t.3, x);
}

#[verifier::spinoff_prover]
proof fn lemma_feeder_missing(l: Lang, st: GameStatus, x: Seq<char>)
    ensures
        feeder_missing(l, st).contains(x) <==> {
            ||| x == "nvngx_dlssnr.dll"@ && !st.dlssnr
            ||| x == reshade_lacks(l) && !st.reshade
            ||| x == headers_lack(l) && !st.headers
            ||| x == "dlss5-feed.addon64 / DLSS5_Feed.fx"@ && !st.feeder && st.bitness != 32
            ||| x == "dlss5-feed.addon32 / DLSS5_Feed.fx"@ && !st.feeder && st.bitness == 32
            ||| x == lumenite_lacks(l) && !st.lumenite
            ||| x == consumer_lacks(l) && !st.dlss5_addon && !st.upstream
            ||| x == "nvngx_dlss.dll"@ && !st.dlss
            ||| x == "host64/dlss5-feed-host64.exe"@ && st.bitness == 32 && !st.host_exe
            ||| x == "host64/dxgi.dll"@ && st.bitness == 32 && !st.host_reshade
        },
{
    lemma_file_texts(l);
    let f = crate::install::feeder_files(st);
    let none = !st.dlss5_addon && !st.upstream;
    let v1 = need(!st.reshade, reshade_lacks(l));
    lemma_more(Seq::empty(), !st.reshade, reshade_lacks(l), x);
    let v5 = v1 + need(!st.headers, headers_lack(l)) + need(!st.feeder, f) + need(
        !st.lumenite,
        lumenite_lacks(l),
    ) + need(none, consumer_lacks(l));
    lemma_four_more(
        v1,
        (!st.headers, !st.feeder, !st.lumenite, none),
        (headers_lack(l), f, lumenite_lacks(l), consumer_lacks(l)),
        x,
    );
    lemma_four_more(
        v5,
        (
            !st.dlssnr,
            !st.dlss,
            st.is_32() && !st.host_exe,
            st.is_32() && !st.host_reshade,
        ),
        (
            "nvngx_dlssnr.dll"@,
            "nvngx_dlss.dll"@,
            "host64/dlss5-feed-host64.exe"@,
            "host64/dxgi.dll"@,
        ),
        x,
    );
}

// ── why an install cannot start ────────────────────────────────────

proof fn lemma_join_has(v: Seq<Seq<char>>, sep: Seq<char>, k: int)
    requires
        0 <= k < v.len(),
    ensures
        contains(join(v, sep), v[k]),
    decreases v.len(),
{
    let t = v[k];
    let all = join(v, sep);
    if v.len() == 1 {
        assert(all.subrange(0, t.len() as int) =~= t);
        assert(occurs_at(all, t, 0));
    } else if k == v.len() - 1 {
        let n = all.len() - t.len();
        assert(all.subrange(n, n + t.len()) =~= t);
        assert(occurs_at(all, t, n));
    } else {
        let front = join(v.drop_last(), sep);
        lemma_join_has(v.drop_last(), sep, k);
        let i = choose|i: int| occurs_at(front, t, i);
        assert(all.subrange(i, i + t.len()) =~= front.subrange(i, i + t.len()));
        assert(occurs_at(all, t, i));
    }
}

/// An install is refused exactly where the game has a problem, where ReShade is
/// asked for and cannot be used, where Neural Upstream is asked for without the
/// ReShade engine or without DLSS of the game's own, and where OptiScaler is asked
/// for in a 32-bit game or in one without DLSS of its own.
pub proof fn law_install_is_refused_where_it_cannot_run(
    l: Lang,
    st: GameStatus,
    engine: Engine,
    upstream: bool,
)
    ensures
        refusal(l, st, engine, upstream) is Some <==> {
            ||| st.problems@.len() > 0
            ||| engine == Engine::ReShade && st.reshade_problem is Some
            ||| upstream && engine == Engine::Opti
            ||| upstream && st.mode == Mode::Feeder
            ||| engine == Engine::Opti && st.bitness == 32
            ||| engine == Engine::Opti && st.mode == Mode::Feeder
        },
{
}

/// A refusal tells all problems of the game where it has any, otherwise what
/// keeps ReShade out, otherwise what the choice would need.
pub proof fn law_refusal_tells_why(l: Lang, st: GameStatus, engine: Engine, upstream: bool)
    ensures
        ({
            let r = refusal(l, st, engine, upstream);
            let blocked = engine == Engine::ReShade && st.reshade_problem is Some;
            let unfit = upstream && !(engine == Engine::ReShade && st.mode == Mode::Native);
            let opti = engine == Engine::Opti;
            &&& forall|k: int|
                #![trigger st.problems@[k]]
                0 <= k < st.problems@.len() ==> contains(r->0, st.problems@[k]@)
            &&& st.problems@.len() == 0 ==> {
                &&& blocked ==> r == Some(st.reshade_problem->0@)
                &&& !blocked && unfit ==> r == Some(
                    either(
                        l,
                        "Neural Upstream runs the network on the colour buffer the game hands its own DLSS, so it needs a game with DLSS of its own on the ReShade engine. This game has none - use the stable ReShade add-on."@,
                        "神经上游在网络运行于游戏交给自身 DLSS 的色彩缓冲上，因此需要游戏在 ReShade 引擎上自带 DLSS。此游戏没有 —— 请使用稳定版 ReShade 附加组件。"@,
                    ),
                )
                &&& !unfit && opti && st.bitness == 32 ==> r == Some(
                    either(
                        l,
                        "The OptiScaler engine is 64-bit only; a 32-bit game takes the Feeder path."@,
                        "OptiScaler 引擎仅支持 64 位；32 位游戏请走 Feeder 路径。"@,
                    ),
                )
                &&& !unfit && opti && st.bitness != 32 && st.mode == Mode::Feeder ==> r == Some(
                    either(
                        l,
                        "The OptiScaler engine needs a game with its own DLSS (its Neural Rendering pass reads the inputs the game hands to DLSS). This game has none — use the ReShade engine."@,
                        "OptiScaler 引擎需要游戏自带 DLSS（其神经渲染通道读取游戏交给 DLSS 的输入）。此游戏没有 —— 请使用 ReShade 引擎。"@,
                    ),
                )
            }
        }),
{
    let v = texts(st.problems@);
    assert forall|k: int| #![trigger st.problems@[k]] 0 <= k < st.problems@.len() implies contains(
        refusal(l, st, engine, upstream)->0,
        st.problems@[k]@,
    ) by {
        assert(v[k] == st.problems@[k]@);
        lemma_join_has(v, "\n"@, k);
    }
    lemma_opti_needs();
}

proof fn lemma_opti_needs()
    ensures
        crate::install::OPTI_NEEDS_EN@
            == "The OptiScaler engine needs a game with its own DLSS (its Neural Rendering pass reads the inputs the game hands to DLSS). This game has none — use the ReShade engine."@,
{
}

// ── what is told of a run ──────────────────────────────────────────

/// What is shown of a finished step names every file that it placed; one that
/// placed none is told to be there already.
pub proof fn law_details_name_the_files(l: Lang, files: Seq<Seq<char>>)
    ensures
        files.len() == 0 ==> detail(l, files) == either(l, "already present"@, "已存在"@),
        forall|k: int| 0 <= k < files.len() ==> contains(detail(l, files), #[trigger] files[k]),
        files.len() == 1 ==> detail(l, files) == files[0],
        files.len() == 2 ==> detail(l, files) == files[0] + ", "@ + files[1],
{
    assert forall|k: int| 0 <= k < files.len() implies contains(
        detail(l, files),
        #[trigger] files[k],
    ) by {
        lemma_join_has(files, ", "@, k);
    }
    if files.len() == 2 {
        assert(files.drop_last()[0] == files[0]);
        assert(join(files.drop_last(), ", "@) == files[0]);
        assert(files.last() == files[1]);
    }
}

/// The error of an install that is not complete names every file that is
/// missing.
pub proof fn law_incomplete_install_names_the_files(l: Lang, st: GameStatus)
    ensures
        ({
            let names = join(missing(l, st), ", "@);
            let e = fill(say(l, INCOMPLETE_EN@, INCOMPLETE_ZH@), seq![names]);
            &&& l == Lang::En ==> e == "Install finished but files are missing: "@ + names
                + ". Not reporting success."@
            &&& l == Lang::Zh ==> e == "安装完成但文件缺失："@ + names + "。不报告成功。"@
            &&& forall|k: int|
                0 <= k < missing(l, st).len() ==> contains(names, #[trigger] missing(l, st)[k])
        }),
{
    let v = missing(l, st);
    let names = join(v, ", "@);
    reveal_strlit("Install finished but files are missing: {}. Not reporting success.");
    reveal_strlit("Install finished but files are missing: ");
    reveal_strlit(". Not reporting success.");
    reveal_strlit("安装完成但文件缺失：{}。不报告成功。");
    reveal_strlit("安装完成但文件缺失：");
    reveal_strlit("。不报告成功。");
    let e = fill(say(l, INCOMPLETE_EN@, INCOMPLETE_ZH@), seq![names]);
    if l == Lang::En {
        lemma_fill_one(INCOMPLETE_EN@, names, 40);
        assert(e =~= "Install finished but files are missing: "@ + names
            + ". Not reporting success."@);
    } else {
        lemma_fill_one(INCOMPLETE_ZH@, names, 10);
        assert(e =~= "安装完成但文件缺失："@ + names + "。不报告成功。"@);
    }
    assert forall|k: int| 0 <= k < missing(l, st).len() implies contains(
        names,
        #[trigger] missing(l, st)[k],
    ) by {
        lemma_join_has(v, ", "@, k);
    }
}

// ── what is behind ─────────────────────────────────────────────────

/// A component whose record is behind, as it is told.
pub open spec fn is_behind_line(
    x: Seq<char>,
    name: Seq<char>,
    have: Option<String>,
    want: Option<String>,
) -> bool {
    &&& have is Some
    &&& want is Some
    &&& behind(trim(have->0@), trim(want->0@))
    &&& x == name + " "@ + trim(have->0@) + " → "@ + want->0@
}

proof fn lemma_stale_one(name: Seq<char>, have: Option<String>, want: Option<String>, x: Seq<char>)
    ensures
        stale_one(name, opt_text(have), opt_text(want)).contains(x) <==> is_behind_line(
            x,
            name,
            have,
            want,
        ),
{
    if have is Some && want is Some {
        lemma_more(
            Seq::empty(),
            behind(trim(have->0@), trim(want->0@)),
            crate::install::stale_line(name, trim(have->0@), want->0@),
            x,
        );
    }
}

/// OptiScaler is told by its manifest: by the version recorded there, or as of an
/// unknown version where none is.
pub open spec fn is_opti_line(
    l: Lang,
    x: Seq<char>,
    manifest: Option<String>,
    want: Option<String>,
) -> bool {
    &&& manifest is Some
    &&& want is Some
    &&& match recorded_tag(manifest->0@) {
        Some(h) => behind(trim(h), trim(want->0@)) && x == "OptiScaler"@ + " "@ + trim(h) + " → "@
            + want->0@,
        None => x == "OptiScaler"@ + " "@ + either(l, "unknown version"@, "未知版本"@) + " → "@
            + want->0@,
    }
}

proof fn lemma_stale_opti(l: Lang, manifest: Option<String>, want: Option<String>, x: Seq<char>)
    ensures
        stale_opti(l, opt_text(manifest), opt_text(want)).contains(x) <==> is_opti_line(
            l,
            x,
            manifest,
            want,
        ),
{
    if manifest is Some && want is Some {
        match recorded_tag(manifest->0@) {
            Some(h) => {
                lemma_more(
                    Seq::empty(),
                    behind(trim(h), trim(want->0@)),
                    crate::install::stale_line("OptiScaler"@, trim(h), want->0@),
                    x,
                );
            },
            None => {
                let v = stale_opti(l, opt_text(manifest), opt_text(want));
                assert(v.len() == 1);
                assert(v[0] == "OptiScaler"@ + " "@ + either(
                    l,
                    "unknown version"@,
                    "未知版本"@,
                ) + " → "@ + want->0@);
            },
        }
    }
}

/// Every component whose record is behind its newest release is told with both
/// versions, each compared with its own newest release; no other line is.
pub proof fn law_stale_components_are_told(l: Lang, rec: Recorded, latest: Latest, x: Seq<char>)
    ensures
        stale(l, rec, latest).contains(x) <==> {
            ||| is_behind_line(x, "ReShade"@, rec.reshade, latest.reshade)
            ||| is_behind_line(x, "DLSS5-Feeder"@, rec.feeder, latest.feeder)
            ||| is_behind_line(x, "nvngx_dlss.dll"@, rec.dlss, latest.dlss)
            ||| is_behind_line(x, "nvngx_dlssnr.dll"@, rec.dlssnr, latest.dlssnr)
            ||| is_opti_line(l, x, rec.opti_manifest, latest.opti)
        },
{
    let a = stale_one("ReShade"@, opt_text(rec.reshade), opt_text(latest.reshade));
    let b = stale_one("DLSS5-Feeder"@, opt_text(rec.feeder), opt_text(latest.feeder));
    let c = stale_one("nvngx_dlss.dll"@, opt_text(rec.dlss), opt_text(latest.dlss));
    let d = stale_one("nvngx_dlssnr.dll"@, opt_text(rec.dlssnr), opt_text(latest.dlssnr));
    let e = stale_opti(l, opt_text(rec.opti_manifest), opt_text(latest.opti));
    lemma_stale_one("ReShade"@, rec.reshade, latest.reshade, x);
    lemma_stale_one("DLSS5-Feeder"@, rec.feeder, latest.feeder, x);
    lemma_stale_one("nvngx_dlss.dll"@, rec.dlss, latest.dlss, x);
    lemma_stale_one("nvngx_dlssnr.dll"@, rec.dlssnr, latest.dlssnr, x);
    lemma_stale_opti(l, rec.opti_manifest, latest.opti, x);
    lemma_in_sum(a, b, x);
    lemma_in_sum(a + b, c, x);
    lemma_in_sum(a + b + c, d, x);
    lemma_in_sum(a + b + c + d, e, x);
}

/// An install succeeds exactly where every file that the game's path needs is
/// there; a step's failure is told under the step's name, and takes the quality
/// with it.
pub proof fn law_success_needs_every_file(
    l: Lang,
    st: GameStatus,
    title: Seq<char>,
    message: Seq<char>,
    quality: Option<ResolvedQuality>,
)
    ensures
        finish_error(l, st) is None <==> (forall|x: Seq<char>| !missing(l, st).contains(x)),
        step_error(title, message) == title + ": "@ + message,
        quality_left(StepState::Error, quality) is None,
        quality_left(StepState::Done, quality) == quality,
{
    let v = missing(l, st);
    if v.len() > 0 {
        assert(v.contains(v[0]));
    }
}

} // verus!
