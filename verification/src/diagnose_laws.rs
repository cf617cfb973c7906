//! What holds of every diagnosis: each finding is there exactly where the logs
//! and the machine give the reason for it.
use vstd::prelude::*;
use crate::diagnose::{
    addon_note, bridge_notes, compiler_notes, diagnosis, effect_notes, feed_fault_notes,
    feed_state_notes, feed_stopped_notes, feed_version, feeder_notes, has_share, helper_notes,
    host_exe, is_verbatim, last_line_holding, line_holding3, line_holding_either, model_notes,
    model_ran_notes, old_feeder_notes, or_text, other_exe_notes, parts_behind_prefix,
    path_file_name, path_parts, redist_text, refusal_notes, session_log, toggle_notes,
    version_numbers, without_drive, work_refused_notes, work_share, Level, Note, Session,
    HIGH_NOTE_EN, HIGH_NOTE_ZH, NO_VERSION_EN, NO_VERSION_ZH,
};
use crate::diagnose_text::{
    ADVICE_DRIVER_EN, ADVICE_DRIVER_ZH, ADVICE_FEEDER_EN, ADVICE_FEEDER_ZH, BESIDE_EN,
    BESIDE_ZH, BRIDGE_OK_EN, BRIDGE_OK_ZH, BRIDGE_STOPPED_EN, BRIDGE_STOPPED_ZH, COMPILER_EN,
    COMPILER_ZH, CRASHED_EN, CRASHED_ZH, DELIVERED_EN, DELIVERED_ZH, FEED_READY_EN,
    FEED_READY_ZH, FEED_STOPPED_EN, FEED_STOPPED_ZH, FX_MISSING_EN, FX_MISSING_ZH,
    GAME_PLACE_EN, GAME_PLACE_ZH, HOST_PLACE_EN, HOST_PLACE_ZH, HOST_READY_EN, HOST_READY_ZH,
    HYBRID_EN, HYBRID_ZH, IN_HOST_EN, IN_HOST_ZH, LOADED_EN, LOADED_ZH, LOAD_FAILED_EN,
    LOAD_FAILED_ZH, MODEL_EN, MODEL_ZH, NEVER_EN, NEVER_ZH, NO_BRIDGE_EN, NO_BRIDGE_ZH,
    NO_CALL_EN, NO_CALL_ZH, NO_FEED_LOG_EN, NO_FEED_LOG_ZH, NO_HOST_FEED_LOG_EN,
    NO_HOST_FEED_LOG_ZH, NO_HOST_LOG_EN, NO_HOST_LOG_ZH, NO_LOG_EN, NO_LOG_ZH, NO_PROVIDER_EN,
    NO_PROVIDER_ZH, OLD_COMPILER_EN, OLD_COMPILER_ZH, OLD_FEEDER_EN, OLD_FEEDER_ZH,
    OTHER_EXE_EN, OTHER_EXE_ZH, RAN_EN, RAN_ZH, REDIST_EN, REDIST_HERE_EN, REDIST_HERE_ZH,
    REDIST_NONE_EN, REDIST_NONE_ZH, REDIST_ZH, REFUSED_EN, REFUSED_ZH, REGISTERED_EN,
    REGISTERED_ZH, SAW_DLSS_EN, SAW_DLSS_ZH, STRAY_FEEDER_EN, STRAY_FEEDER_ZH, TOGGLED_OFF_EN,
    TOGGLED_OFF_ZH, TOGGLED_ON_EN, TOGGLED_ON_ZH, UNAVAILABLE_EN, UNAVAILABLE_ZH, WINE_EN,
    WINE_ZH, WORK_REFUSED_EN, WORK_REFUSED_ZH, ZERO_VECTORS_EN, ZERO_VECTORS_ZH,
};
use crate::game::{Api, GameStatus, Mode};
use crate::lang::{say, Lang};
use crate::lines::{first_line, join, last_line, lines, split};
use crate::message::fill;
use crate::ngx::{build_text, ngx_healthy, system_text};
use crate::number::{all_digits, digits_value, numbers_less};
use crate::text::{
    after_last, contains, find, is_digit, lemma_find, lemma_rfind_from, lemma_trim_end_of,
    lemma_trim_is, lower, occurs_at, opt_text, rfind, texts, trim, trim_end_of,
};

verus! {

// ── the parts of a diagnosis ───────────────────────────────────────

/// What is in a list of findings that is put together from parts.
proof fn lemma_has()
    ensures
        forall|a: Seq<Note>, b: Seq<Note>, n: Note| #[trigger]
            (a + b).contains(n) <==> a.contains(n) || b.contains(n),
        forall|a: Seq<Note>, x: Note, n: Note| #[trigger]
            a.push(x).contains(n) <==> a.contains(n) || n == x,
        forall|c: bool, level: Level, text: Seq<char>, n: Note| #[trigger]
            crate::diagnose::when(c, level, text).contains(n) <==> c && n == (Note { level, text }),
        forall|n: Note| !(#[trigger] Seq::<Note>::empty().contains(n)),
{
    assert forall|a: Seq<Note>, b: Seq<Note>, n: Note| #[trigger]
        (a + b).contains(n) <==> a.contains(n) || b.contains(n) by {
        if a.contains(n) {
            let k = choose|k: int| 0 <= k < a.len() && a[k] == n;
            assert((a + b)[k] == n);
        }
        if b.contains(n) {
            let k = choose|k: int| 0 <= k < b.len() && b[k] == n;
            assert((a + b)[a.len() + k] == n);
        }
    }
    assert forall|a: Seq<Note>, x: Note, n: Note| #[trigger]
        a.push(x).contains(n) <==> a.contains(n) || n == x by {
        assert(a.push(x)[a.len() as int] == x);
        if a.contains(n) {
            let k = choose|k: int| 0 <= k < a.len() && a[k] == n;
            assert(a.push(x)[k] == n);
        }
    }
    assert forall|c: bool, level: Level, text: Seq<char>, n: Note| #[trigger]
        crate::diagnose::when(c, level, text).contains(n) <==> c && n == (Note { level, text }) by {
        if c {
            assert(crate::diagnose::when(c, level, text)[0] == (Note { level, text }));
        }
    }
}

/// A filled template starts as the template does.
proof fn lemma_fill_head(t: Seq<char>, args: Seq<Seq<char>>, j: int)
    requires
        0 <= j < t.len(),
        forall|i: int| 0 <= i <= j ==> t[i] != '{',
    ensures
        fill(t, args).len() > j,
        fill(t, args)[j] == t[j],
{
    reveal_strlit("{}");
    lemma_find(t, "{}"@);
    if args.len() > 0 {
        if let Some(i) = find(t, "{}"@) {
            assert(t.subrange(i, i + 2)[0] == '{');
            assert(t[i] == '{');
        }
    }
}

/// The log that counts.
proof fn lemma_log(st: GameStatus, s: Session, rs: Seq<char>)
    requires
        is_log(st, s, rs),
    ensures
        session_log(st, s) == Some(rs),
{
}

/// `rs` is the text of the ReShade log that counts: of a 32-bit game the one in
/// `host64`, of another the one beside the exe; `ReShade2.log` where there is no
/// `ReShade.log`.
pub open spec fn is_log(st: GameStatus, s: Session, rs: Seq<char>) -> bool {
    let logs = if st.bitness == 32 {
        s.host_logs
    } else {
        s.game_logs
    };
    ||| opt_text(logs.reshade) == Some(rs)
    ||| logs.reshade is None && opt_text(logs.reshade2) == Some(rs)
}

/// Where a finding of a session with a log comes from.
proof fn lemma_parts(l: Lang, st: GameStatus, s: Session, rs: Seq<char>, n: Note)
    requires
        is_log(st, s, rs),
    ensures
        diagnosis(l, st, s).contains(n) <==> {
            ||| compiler_notes(l, st, s).contains(n)
            ||| model_notes(l, st, s).contains(n)
            ||| contains(rs, "Initializing crosire's ReShade"@) && n == (Note {
                level: Level::Good,
                text: say(l, LOADED_EN@, LOADED_ZH@),
            })
            ||| n == addon_note(l, st, rs)
            ||| toggle_notes(l, rs).contains(n)
            ||| model_ran_notes(l, st, rs).contains(n)
            ||| effect_notes(l, st, s, rs).contains(n)
            ||| other_exe_notes(l, st, rs).contains(n)
            ||| bridge_notes(l, s).contains(n)
            ||| feeder_notes(l, st, s).contains(n)
        },
{
    lemma_has();
    lemma_log(st, s, rs);
}

/// Where a finding on the Feeder side comes from.
proof fn lemma_feeder_parts(l: Lang, st: GameStatus, s: Session, fd: Seq<char>, n: Note)
    requires
        st.mode == Mode::Feeder,
        opt_text(s.feed_log) == Some(fd),
    ensures
        feeder_notes(l, st, s).contains(n) <==> {
            ||| feed_state_notes(l, fd).contains(n)
            ||| refusal_notes(l, fd, s.game_prefers, s).contains(n)
            ||| helper_notes(l, st, s).contains(n)
            ||| old_feeder_notes(l, fd).contains(n)
            ||| feed_fault_notes(l, fd).contains(n)
        },
{
    lemma_has();
}

/// There is a first line of a kind exactly when there is a line of it.
proof fn lemma_first_is_some(ls: Seq<Seq<char>>, f: spec_fn(Seq<char>) -> bool)
    ensures
        first_line(ls, f) is Some <==> exists|i: int| 0 <= i < ls.len() && f(#[trigger] ls[i]),
    decreases ls.len(),
{
    if ls.len() > 0 {
        let q = ls.drop_last();
        lemma_first_is_some(q, f);
        if first_line(q, f) is Some {
            let i = choose|i: int| 0 <= i < q.len() && f(#[trigger] q[i]);
            assert(f(ls[i]));
        } else if f(ls.last()) {
            assert(f(ls[ls.len() - 1]));
        }
        if exists|i: int| 0 <= i < ls.len() && f(#[trigger] ls[i]) {
            let i = choose|i: int| 0 <= i < ls.len() && f(#[trigger] ls[i]);
            if i < q.len() {
                assert(f(q[i]));
            }
        }
    }
}

/// The first line of a kind, where no line before it is of the kind.
proof fn lemma_first_is(ls: Seq<Seq<char>>, f: spec_fn(Seq<char>) -> bool, i: int)
    requires
        0 <= i < ls.len(),
        f(ls[i]),
        forall|j: int| 0 <= j < i ==> !f(#[trigger] ls[j]),
    ensures
        first_line(ls, f) == Some(ls[i]),
    decreases ls.len(),
{
    let q = ls.drop_last();
    if i < q.len() {
        assert forall|j: int| 0 <= j < i implies !f(#[trigger] q[j]) by {
            assert(!f(ls[j]));
        }
        lemma_first_is(q, f, i);
    } else {
        lemma_first_is_some(q, f);
        if first_line(q, f) is Some {
            let j = choose|j: int| 0 <= j < q.len() && f(#[trigger] q[j]);
            assert(!f(ls[j]));
        }
    }
}

/// The last line of a kind, where no line behind it is of the kind.
proof fn lemma_last_is(ls: Seq<Seq<char>>, f: spec_fn(Seq<char>) -> bool, i: int)
    requires
        0 <= i < ls.len(),
        f(ls[i]),
        forall|j: int| i < j < ls.len() ==> !f(#[trigger] ls[j]),
    ensures
        last_line(ls, f) == Some(ls[i]),
    decreases ls.len(),
{
    if i < ls.len() - 1 {
        assert(!f(ls[ls.len() - 1]));
        let q = ls.drop_last();
        assert forall|j: int| i < j < q.len() implies !f(#[trigger] q[j]) by {
            assert(!f(ls[j]));
        }
        lemma_last_is(q, f, i);
    }
}

// ── how the findings tell apart ────────────────────────────────────

/// A character by which the good findings tell apart.
proof fn lemma_good_heads()
    ensures
        forall|a: Seq<Seq<char>>| {
            let t = #[trigger] fill(MODEL_EN@, a);
            t[5] == '5'
        },
        forall|a: Seq<Seq<char>>| {
            let t = #[trigger] fill(MODEL_ZH@, a);
            t[7] == '模'
        },
        LOADED_EN@[5] == 'd',
        LOADED_ZH@[7] == ' ',
        REGISTERED_EN@[5] == 'L',
        REGISTERED_ZH@[7] == '神',
        TOGGLED_ON_EN@[5] == 'l',
        TOGGLED_ON_ZH@[7] == '（',
        RAN_EN@[5] == 'l',
        RAN_ZH@[7] == '：',
        BRIDGE_OK_EN@[5] == 'X',
        BRIDGE_OK_ZH@[7] == '已',
        FEED_READY_EN@[5] == '-',
        FEED_READY_ZH@[7] == 'e',
        DELIVERED_EN@[5] == 's',
        DELIVERED_ZH@[7] == '。',
        HOST_READY_EN@[5] == 'o',
        HOST_READY_ZH@[7] == '助',
{
    reveal_strlit(
        "DLSS 5 model {}: {} — {}",
    );
    assert forall|a: Seq<Seq<char>>| {
        let t = #[trigger] fill(MODEL_EN@, a);
        t[5] == '5'
    } by {
        lemma_fill_head(MODEL_EN@, a, 5);
    }
    reveal_strlit(
        "DLSS 5 模型 {}：{} —— {}",
    );
    assert forall|a: Seq<Seq<char>>| {
        let t = #[trigger] fill(MODEL_ZH@, a);
        t[7] == '模'
    } by {
        lemma_fill_head(MODEL_ZH@, a, 7);
    }
    reveal_strlit(
        "ReShade loaded into the game.",
    );
    reveal_strlit(
        "ReShade 已加载到游戏中。",
    );
    reveal_strlit(
        "The DLSS 5 Neural Rendering add-on registered.",
    );
    reveal_strlit(
        "DLSS 5 神经渲染附加组件已注册。",
    );
    reveal_strlit(
        "Neural rendering was toggled ON (F6).",
    );
    reveal_strlit(
        "神经渲染已开启（F6）。",
    );
    reveal_strlit(
        "Neural rendering ran: the add-on evaluated the DLSS 5 model on real frames. If the \
             picture still looks unchanged, raise NR Intensity / Local Structure in its panel — \
             the default is subtle.",
    );
    reveal_strlit(
        "神经渲染已运行：附加组件在真实帧上评估了 DLSS 5 模型。如果画面仍无变化，请在其面板中调高 NR Intensity / Local Structure —— 默认效果很轻微。",
    );
    reveal_strlit(
        "The DX11 bridge opened its D3D12 session and is delivering frames.",
    );
    reveal_strlit(
        "DX11 桥接已打开其 D3D12 会话并正在输出帧。",
    );
    reveal_strlit(
        "DLSS5-Feeder built its DLSS feature (feature ready … DLAA).",
    );
    reveal_strlit(
        "DLSS5-Feeder 已构建其 DLSS 特性（feature ready … DLAA）。",
    );
    reveal_strlit(
        "Frames were delivered to the model.",
    );
    reveal_strlit(
        "帧已交付给模型。",
    );
    reveal_strlit(
        "The host64 helper built its DLSS feature (feature ready … DLAA).",
    );
    reveal_strlit(
        "host64 助手已构建其 DLSS 特性（feature ready … DLAA）。",
    );
}

/// A character by which the warnings tell apart.
proof fn lemma_warn_heads()
    ensures
        forall|a: Seq<Seq<char>>| {
            let t = #[trigger] fill(COMPILER_EN@, a);
            t[9] == 's'
        },
        forall|a: Seq<Seq<char>>| {
            let t = #[trigger] fill(COMPILER_ZH@, a);
            t[3] == '带'
        },
        TOGGLED_OFF_EN@[9] == ' ',
        TOGGLED_OFF_ZH@[3] == '最',
        SAW_DLSS_EN@[9] == 'n',
        SAW_DLSS_ZH@[3] == '件',
        STRAY_FEEDER_EN@[9] == 'a',
        STRAY_FEEDER_ZH@[3] == '原',
        forall|a: Seq<Seq<char>>| {
            let t = #[trigger] fill(OTHER_EXE_EN@, a);
            t[9] == 'o'
        },
        forall|a: Seq<Seq<char>>| {
            let t = #[trigger] fill(OTHER_EXE_ZH@, a);
            t[3] == 'h'
        },
        NO_HOST_FEED_LOG_EN@[9] == '\\',
        NO_HOST_FEED_LOG_ZH@[3] == ' ',
        forall|a: Seq<Seq<char>>| {
            let t = #[trigger] fill(OLD_FEEDER_EN@, a);
            t[9] == 'd'
        },
        forall|a: Seq<Seq<char>>| {
            let t = #[trigger] fill(OLD_FEEDER_ZH@, a);
            t[3] == '的'
        },
        CRASHED_EN@[9] == 'r',
        CRASHED_ZH@[3] == 'd',
{
    reveal_strlit(
        "The game ships its own d3dcompiler_47.dll ({}), which Windows loads instead of \
             System32's. If it predates shader model 5.1 the DLSS 5 pass cannot compile \
             (error X3506). Rename it to d3dcompiler_47.dll.bak and start the game again; \
             almost every game runs fine on the system copy.",
    );
    assert forall|a: Seq<Seq<char>>| {
        let t = #[trigger] fill(COMPILER_EN@, a);
        t[9] == 's'
    } by {
        lemma_fill_head(COMPILER_EN@, a, 9);
    }
    reveal_strlit(
        "游戏自带 d3dcompiler_47.dll（{}），Windows 会优先加载它而不是 System32 的版本。如果它早于着色器模型 5.1，DLSS 5 通道就无法编译（错误 X3506）。请将其重命名为 d3dcompiler_47.dll.bak 再启动游戏；几乎所有游戏都能用系统版本正常运行。",
    );
    assert forall|a: Seq<Seq<char>>| {
        let t = #[trigger] fill(COMPILER_ZH@, a);
        t[3] == '带'
    } by {
        lemma_fill_head(COMPILER_ZH@, a, 3);
    }
    reveal_strlit(
        "The log's last F6 state may be OFF — press F6 in game and watch the add-on's panel.",
    );
    reveal_strlit(
        "日志中最后一次 F6 状态可能是关闭 —— 请在游戏中按 F6 并观察附加组件面板。",
    );
    reveal_strlit(
        "The add-on saw the game's DLSS but has not evaluated the model yet (feature 18 never \
             created). Enable DLSS in the game's own graphics settings and enable neural rendering \
             in the add-on panel.",
    );
    reveal_strlit(
        "附加组件看到了游戏的 DLSS，但尚未评估模型（feature 18 从未创建）。请在游戏自身的图形设置中开启 DLSS，并在附加组件面板中开启神经渲染。",
    );
    reveal_strlit(
        "Mode is Native DLSS (game ships its own DLSS), but dlss5-feed.addon64 is still \
                 present. Feeder Optimize does not apply here — NR is game/renodx. Run Remove \
                 (incl. Feeder leftovers) or Install again so Native cleanup drops the Feeder.",
    );
    reveal_strlit(
        "模式为原生 DLSS（游戏自带 DLSS），但 dlss5-feed.addon64 仍然存在。Feeder 的 Optimize 在这里不适用 —— 神经渲染由游戏/renodx 负责。请运行「移除」（含 Feeder 残留）或重新安装，让原生清理去掉 Feeder。",
    );
    reveal_strlit(
        "ReShade loaded into {}, but this install was set up for {}. Those are \
                 different executables, and the install is tuned to the one you picked (the \
                 DX11 bridge in particular). Point the tool at {} and run Install again.",
    );
    assert forall|a: Seq<Seq<char>>| {
        let t = #[trigger] fill(OTHER_EXE_EN@, a);
        t[9] == 'o'
    } by {
        lemma_fill_head(OTHER_EXE_EN@, a, 9);
    }
    reveal_strlit(
        "ReShade 加载进了 {}，但本次安装是为 {} 配置的。这是两个不同的可执行文件，安装是针对你选择的那个调校的（尤其是 DX11 桥接）。请把工具指向 {} 再重新安装。",
    );
    assert forall|a: Seq<Seq<char>>| {
        let t = #[trigger] fill(OTHER_EXE_ZH@, a);
        t[3] == 'h'
    } by {
        lemma_fill_head(OTHER_EXE_ZH@, a, 3);
    }
    reveal_strlit(
        "No host64\\dlss5-feed-host.log yet: the 64-bit helper has not started. It is \
                 spawned by the first fed frame, so enable Lumenite_Kernel + DLSS5_Feed in \
                 ReShade's Home tab and play a moment first.",
    );
    reveal_strlit(
        "还没有 host64\\dlss5-feed-host.log：64 位助手尚未启动。它由第一帧喂入时生成，因此请先在 ReShade 的 Home 标签页启用 Lumenite_Kernel + DLSS5_Feed 并玩一会儿。",
    );
    reveal_strlit(
        "DLSS5-Feeder {} in the log is older than {}; re-run Install \
                     to refresh it (since 0.9.1 an existing Feeder is updated).",
    );
    assert forall|a: Seq<Seq<char>>| {
        let t = #[trigger] fill(OLD_FEEDER_EN@, a);
        t[9] == 'd'
    } by {
        lemma_fill_head(OLD_FEEDER_EN@, a, 9);
    }
    reveal_strlit(
        "日志中的 DLSS5-Feeder {} 比 {} 旧；请重新安装以刷新（自 0.9.1 起会更新已有的 Feeder）。",
    );
    assert forall|a: Seq<Seq<char>>| {
        let t = #[trigger] fill(OLD_FEEDER_ZH@, a);
        t[3] == '的'
    } by {
        lemma_fill_head(OLD_FEEDER_ZH@, a, 3);
    }
    reveal_strlit(
        "The feed recorded a crash inside the DLSS 5 add-on (upstream issue #16). Play in \
                 borderless/windowed rather than exclusive fullscreen, and raise create_delay in \
                 dlss5-feed.cfg.",
    );
    reveal_strlit(
        "feed 记录到 DLSS 5 附加组件内部崩溃（上游 issue #16）。请用无边框/窗口模式而非独占全屏游玩，并在 dlss5-feed.cfg 中调高 create_delay。",
    );
}

/// Characters by which the bad findings that start with words of their own tell apart.
proof fn lemma_bad_heads()
    ensures
        NO_LOG_EN@[0] == 'N' && NO_LOG_EN@[19] == ' ',
        NO_LOG_ZH@[8] == '没',
        NO_HOST_LOG_EN@[0] == 'N' && NO_HOST_LOG_EN@[19] == 'o',
        NO_HOST_LOG_ZH@[8] == '4',
        forall|a: Seq<Seq<char>>| {
            let t = #[trigger] fill(LOAD_FAILED_EN@, a);
            t[0] == 'R' && t[19] == 'l'
        },
        forall|a: Seq<Seq<char>>| {
            let t = #[trigger] fill(LOAD_FAILED_ZH@, a);
            t[8] == '拒'
        },
        forall|a: Seq<Seq<char>>| {
            let t = #[trigger] fill(NEVER_EN@, a);
            t[0] == 'T' && t[19] == 'e'
        },
        forall|a: Seq<Seq<char>>| {
            let t = #[trigger] fill(NEVER_ZH@, a);
            t[8] == '加'
        },
        NO_BRIDGE_EN@[0] == 'N' && NO_BRIDGE_EN@[19] == 'e',
        NO_BRIDGE_ZH@[8] == 'X',
        NO_CALL_EN@[0] == 'N' && NO_CALL_EN@[19] == 'e',
        NO_CALL_ZH@[8] == 'X',
        forall|a: Seq<Seq<char>>| {
            let t = #[trigger] fill(WINE_EN@, a);
            t[0] == 'T' && t[19] == 't'
        },
        forall|a: Seq<Seq<char>>| {
            let t = #[trigger] fill(WINE_ZH@, a);
            t[8] == '/'
        },
        forall|a: Seq<Seq<char>>| {
            let t = #[trigger] fill(BRIDGE_STOPPED_EN@, a);
            t[0] == 'T' && t[19] == 'p'
        },
        forall|a: Seq<Seq<char>>| {
            let t = #[trigger] fill(BRIDGE_STOPPED_ZH@, a);
            t[8] == '停'
        },
        forall|a: Seq<Seq<char>>| {
            let t = #[trigger] fill(HYBRID_EN@, a);
            t[0] == 'M' && t[19] == 'e'
        },
        forall|a: Seq<Seq<char>>| {
            let t = #[trigger] fill(HYBRID_ZH@, a);
            t[8] == '个'
        },
        forall|a: Seq<Seq<char>>| {
            let t = #[trigger] fill(REFUSED_EN@, a);
            t[0] == 'N' && t[19] == 'i'
        },
        forall|a: Seq<Seq<char>>| {
            let t = #[trigger] fill(REFUSED_ZH@, a);
            t[8] == '化'
        },
        FX_MISSING_EN@[0] == 'D' && FX_MISSING_EN@[19] == 't',
        FX_MISSING_ZH@[8] == 'e',
        NO_PROVIDER_EN@[0] == 'T' && NO_PROVIDER_EN@[19] == 'r',
        NO_PROVIDER_ZH@[8] == '启',
        NO_FEED_LOG_EN@[0] == 'N' && NO_FEED_LOG_EN@[19] == 'D',
        NO_FEED_LOG_ZH@[8] == '-',
        ZERO_VECTORS_EN@[0] == 'M' && ZERO_VECTORS_EN@[19] == 'a',
        ZERO_VECTORS_ZH@[8] == '提',
        UNAVAILABLE_EN@[0] == 'N' && UNAVAILABLE_EN@[19] == 'n',
        UNAVAILABLE_ZH@[8] == 'L',
        forall|a: Seq<Seq<char>>| {
            let t = #[trigger] fill(WORK_REFUSED_EN@, a);
            t[0] == 'T' && t[19] == 'b'
        },
        forall|a: Seq<Seq<char>>| {
            let t = #[trigger] fill(WORK_REFUSED_ZH@, a);
            t[8] == '画'
        },
        forall|a: Seq<Seq<char>>| {
            let t = #[trigger] fill(FEED_STOPPED_EN@, a);
            t[0] == 'T' && t[19] == 's'
        },
        forall|a: Seq<Seq<char>>| {
            let t = #[trigger] fill(FEED_STOPPED_ZH@, a);
            t[8] == '止'
        },
{
    reveal_strlit(
        "No ReShade.log next to the game exe: ReShade never loaded. Either the game was not \
             started since the install, or it does not load dxgi.dll (wrong exe picked, or a \
             launcher starts a different one). Check the exe with --check.",
    );
    reveal_strlit(
        "游戏 exe 旁没有 ReShade.log：ReShade 从未加载。要么安装后游戏没有启动过，要么它不加载 dxgi.dll（选错了 exe，或启动器启动的是另一个）。请用 --check 检查该 exe。",
    );
    reveal_strlit(
        "No host64\\ReShade.log: the 64-bit helper's ReShade never loaded, which is what \
             \"host lost: pipe never appeared\" in dlss5-feed.log means. Look in \
             host64\\dlss5-feed-host.log for the reason, and check antivirus did not remove \
             anything from host64\\.",
    );
    reveal_strlit(
        "没有 host64\\ReShade.log：64 位助手的 ReShade 从未加载，dlss5-feed.log 中的 \"host lost: pipe never appeared\" 就是这个意思。请在 host64\\dlss5-feed-host.log 中查看原因，并确认杀毒软件没有从 host64\\ 中删掉任何东西。",
    );
    reveal_strlit(
        "ReShade refused to load renodx-dlss5.addon64, error code {}{}.",
    );
    assert forall|a: Seq<Seq<char>>| {
        let t = #[trigger] fill(LOAD_FAILED_EN@, a);
        t[0] == 'R' && t[19] == 'l'
    } by {
        lemma_fill_head(LOAD_FAILED_EN@, a, 0);
        lemma_fill_head(LOAD_FAILED_EN@, a, 19);
    }
    reveal_strlit(
        "ReShade 拒绝加载 renodx-dlss5.addon64，错误码 {}{}。",
    );
    assert forall|a: Seq<Seq<char>>| {
        let t = #[trigger] fill(LOAD_FAILED_ZH@, a);
        t[8] == '拒'
    } by {
        lemma_fill_head(LOAD_FAILED_ZH@, a, 8);
    }
    reveal_strlit(
        "The DLSS 5 add-on never registered. renodx-dlss5.addon64 is missing from {}, disabled in ReShade's Add-ons tab, or quarantined by antivirus.",
    );
    assert forall|a: Seq<Seq<char>>| {
        let t = #[trigger] fill(NEVER_EN@, a);
        t[0] == 'T' && t[19] == 'e'
    } by {
        lemma_fill_head(NEVER_EN@, a, 0);
        lemma_fill_head(NEVER_EN@, a, 19);
    }
    reveal_strlit(
        "DLSS 5 附加组件从未注册。renodx-dlss5.addon64 不在 {} 中、在 ReShade 的 Add-ons 标签页中被禁用，或被杀毒软件隔离。",
    );
    assert forall|a: Seq<Seq<char>>| {
        let t = #[trigger] fill(NEVER_ZH@, a);
        t[8] == '加'
    } by {
        lemma_fill_head(NEVER_ZH@, a, 8);
    }
    reveal_strlit(
        "No NGX call was intercepted, and this is a Direct3D 11 game with its own \
                 DLSS: the add-on hooks the D3D12 NGX entry points, but the game calls the \
                 D3D11 ones, so it can never see them. The DX11 bridge covers exactly this \
                 and is not installed here — run Install on this exe.",
    );
    reveal_strlit(
        "没有拦截到 NGX 调用，而且这是一个自带 DLSS 的 Direct3D 11 游戏：附加组件挂钩的是 D3D12 NGX 入口点，但游戏调用的是 D3D11 入口点，因此它永远看不到。DX11 桥接正是为此而生，而这里没有安装 —— 请对此 exe 运行「安装」。",
    );
    reveal_strlit(
        "No NGX call was intercepted: this game's own DLSS never ran. Turn DLSS on \
                 in the game's graphics settings (the add-on hooks the game's DLSS calls; \
                 without them it has nothing to work with).",
    );
    reveal_strlit(
        "没有拦截到 NGX 调用：此游戏自身的 DLSS 从未运行。请在游戏的图形设置中开启 DLSS（附加组件挂钩游戏的 DLSS 调用；没有它们就没有可用的东西）。",
    );
    reveal_strlit(
        "The effects failed to compile in Wine/Proton's own HLSL compiler: {} \
             That message comes from vkd3d-shader, which Wine's d3dcompiler_47.dll uses; \
             ReShade emits attributes it has not implemented. Install Microsoft's real \
             d3dcompiler_47 into the prefix — protontricks <appid> d3dcompiler_47, or \
             winetricks d3dcompiler_47 — and start the game again. If the game shipped its \
             own d3dcompiler_47.dll, leave it in place: under Proton it may be the only \
             working compiler there is.",
    );
    assert forall|a: Seq<Seq<char>>| {
        let t = #[trigger] fill(WINE_EN@, a);
        t[0] == 'T' && t[19] == 't'
    } by {
        lemma_fill_head(WINE_EN@, a, 0);
        lemma_fill_head(WINE_EN@, a, 19);
    }
    reveal_strlit(
        "特效在 Wine/Proton 自带的 HLSL 编译器中编译失败：{} 该消息来自 vkd3d-shader，Wine 的 d3dcompiler_47.dll 使用的就是它；ReShade 输出了它尚未实现的属性。请把微软真正的 d3dcompiler_47 安装到该前缀中 —— protontricks <appid> d3dcompiler_47，或 winetricks d3dcompiler_47 —— 然后重新启动游戏。如果游戏自带 d3dcompiler_47.dll，请保留它：在 Proton 下它可能是唯一能用的编译器。",
    );
    assert forall|a: Seq<Seq<char>>| {
        let t = #[trigger] fill(WINE_ZH@, a);
        t[8] == '/'
    } by {
        lemma_fill_head(WINE_ZH@, a, 8);
    }
    reveal_strlit(
        "The DX11 bridge stopped: {}",
    );
    assert forall|a: Seq<Seq<char>>| {
        let t = #[trigger] fill(BRIDGE_STOPPED_EN@, a);
        t[0] == 'T' && t[19] == 'p'
    } by {
        lemma_fill_head(BRIDGE_STOPPED_EN@, a, 0);
        lemma_fill_head(BRIDGE_STOPPED_EN@, a, 19);
    }
    reveal_strlit(
        "DX11 桥接已停止：{}",
    );
    assert forall|a: Seq<Seq<char>>| {
        let t = #[trigger] fill(BRIDGE_STOPPED_ZH@, a);
        t[8] == '停'
    } by {
        lemma_fill_head(BRIDGE_STOPPED_ZH@, a, 8);
    }
    reveal_strlit(
        "More than one GPU vendor on this machine ({}), and Windows decides which one              a process starts on. Started on the integrated GPU, NGX does not exist and              every Init answers 0xBAD00001 — this is the most likely cause here{}.              Settings ▸ System ▸ Display ▸ Graphics ▸ Add a desktop app ▸ pick the game's exe              (and, for a 32-bit game, host64\\dlss5-feed-host64.exe) ▸ Options ▸ High performance.              Install sets that for you from this version on.",
    );
    assert forall|a: Seq<Seq<char>>| {
        let t = #[trigger] fill(HYBRID_EN@, a);
        t[0] == 'M' && t[19] == 'e'
    } by {
        lemma_fill_head(HYBRID_EN@, a, 0);
        lemma_fill_head(HYBRID_EN@, a, 19);
    }
    reveal_strlit(
        "此机器上有多于一个 GPU 厂商（{}），由 Windows 决定进程在哪个 GPU 上启动。若在内置 GPU 上启动，NGX 不存在，每次 Init 都会返回 0xBAD00001 —— 这是此处最可能的原因{}。设置 ▸ 系统 ▸ 显示 ▸ 图形 ▸ 添加桌面应用 ▸ 选择游戏 exe（32 位游戏还需 host64\\dlss5-feed-host64.exe）▸ 选项 ▸ 高性能。从本版本起安装会自动为你设置。",
    );
    assert forall|a: Seq<Seq<char>>| {
        let t = #[trigger] fill(HYBRID_ZH@, a);
        t[8] == '个'
    } by {
        lemma_fill_head(HYBRID_ZH@, a, 8);
    }
    reveal_strlit(
        "NGX refused to initialise: {}. 0xBAD00001 is FeatureNotSupported, which NGX also          answers when its runtime is not on the system — not a ReShade, shader or add-on          problem. {}. {}",
    );
    assert forall|a: Seq<Seq<char>>| {
        let t = #[trigger] fill(REFUSED_EN@, a);
        t[0] == 'N' && t[19] == 'i'
    } by {
        lemma_fill_head(REFUSED_EN@, a, 0);
        lemma_fill_head(REFUSED_EN@, a, 19);
    }
    reveal_strlit(
        "NGX 拒绝初始化：{}。0xBAD00001 是 FeatureNotSupported，当系统没有 NGX 运行时时 NGX 也会这样返回 —— 这不是 ReShade、着色器或附加组件的问题。{}。{}",
    );
    assert forall|a: Seq<Seq<char>>| {
        let t = #[trigger] fill(REFUSED_ZH@, a);
        t[8] == '化'
    } by {
        lemma_fill_head(REFUSED_ZH@, a, 8);
    }
    reveal_strlit(
        "DLSS5_Feed.fx is not compiling. Its shader files are missing from \
                 reshade-shaders\\Shaders — re-run Install.",
    );
    reveal_strlit(
        "DLSS5_Feed.fx 未能编译。其着色器文件从 reshade-shaders\\Shaders 中缺失 —— 请重新安装。",
    );
    reveal_strlit(
        "The motion-vector provider is not enabled. In ReShade's Home tab enable \
                 \"LUMENITE: Kernel 2.0\" ABOVE \"DLSS5_Feed\", then reload effects.",
    );
    reveal_strlit(
        "运动矢量提供器未启用。请在 ReShade 的 Home 标签页中，把 \"LUMENITE: Kernel 2.0\" 启用在 \"DLSS5_Feed\" 上方，然后重新加载效果。",
    );
    reveal_strlit(
        "No dlss5-feed.log: DLSS5-Feeder never started. Its add-on is missing or disabled \
                 in ReShade's Add-ons tab.",
    );
    reveal_strlit(
        "没有 dlss5-feed.log：DLSS5-Feeder 从未启动。其附加组件缺失，或在 ReShade 的 Add-ons 标签页中被禁用。",
    );
    reveal_strlit(
        "Motion vectors are all zero: the provider is enabled but writes nothing. Check \
                 that Lumenite_Kernel sits above DLSS5_Feed in the technique list.",
    );
    reveal_strlit(
        "运动矢量全为零：提供器已启用但什么都没写。请检查 Lumenite_Kernel 是否位于技术列表中的 DLSS5_Feed 上方。",
    );
    reveal_strlit(
        "NGX reported DLSS unavailable. nvngx_dlss.dll must sit next to the game exe — \
                 re-run Install, and make sure antivirus did not remove it.",
    );
    reveal_strlit(
        "NGX 报告 DLSS 不可用。nvngx_dlss.dll 必须放在游戏 exe 旁 —— 请重新安装，并确认杀毒软件没有删掉它。",
    );
    reveal_strlit(
        "The feed could not build its textures at {} of the frame: \
                 \"work-resolution staging SRV failed\", three times, and then it stopped. This \
                 game does not accept the reduced work-resolution path. Set it back to full size \
                 — Settings ▸ Feeder knobs ▸ work_resolution = 100 and work_upscale = 0, or pick \
                 the High quality preset — and start the game again. Everything downstream of this \
                 (no DLSS create, the in-game toggle doing nothing) follows from it.",
    );
    assert forall|a: Seq<Seq<char>>| {
        let t = #[trigger] fill(WORK_REFUSED_EN@, a);
        t[0] == 'T' && t[19] == 'b'
    } by {
        lemma_fill_head(WORK_REFUSED_EN@, a, 0);
        lemma_fill_head(WORK_REFUSED_EN@, a, 19);
    }
    reveal_strlit(
        "feed 无法以画面的 {} 构建其纹理：\"work-resolution staging SRV failed\" 出现三次后停止。此游戏不接受降低的工作分辨率。请恢复到完整尺寸 —— 设置 ▸ Feeder 参数 ▸ work_resolution = 100 且 work_upscale = 0，或选择「高」质量预设 —— 然后重新启动游戏。其后的一切（没有创建 DLSS、游戏内开关无效）都由此而来。",
    );
    assert forall|a: Seq<Seq<char>>| {
        let t = #[trigger] fill(WORK_REFUSED_ZH@, a);
        t[8] == '画'
    } by {
        lemma_fill_head(WORK_REFUSED_ZH@, a, 8);
    }
    reveal_strlit(
        "The feed stopped itself: {}",
    );
    assert forall|a: Seq<Seq<char>>| {
        let t = #[trigger] fill(FEED_STOPPED_EN@, a);
        t[0] == 'T' && t[19] == 's'
    } by {
        lemma_fill_head(FEED_STOPPED_EN@, a, 0);
        lemma_fill_head(FEED_STOPPED_EN@, a, 19);
    }
    reveal_strlit(
        "feed 自行停止：{}",
    );
    assert forall|a: Seq<Seq<char>>| {
        let t = #[trigger] fill(FEED_STOPPED_ZH@, a);
        t[8] == '止'
    } by {
        lemma_fill_head(FEED_STOPPED_ZH@, a, 8);
    }
}

// ── good news ──────────────────────────────────────────────────────

/// Some line of a text holds both words.
pub open spec fn some_line_holds(text: Seq<char>, a: Seq<char>, b: Seq<char>) -> bool {
    exists|i: int|
        0 <= i < lines(text).len() && contains(#[trigger] lines(text)[i], a) && contains(
            lines(text)[i],
            b,
        )
}

proof fn lemma_line_holds(text: Seq<char>, a: Seq<char>, b: Seq<char>)
    ensures
        line_holding3(text, a, b, b) is Some <==> some_line_holds(text, a, b),
{
    let f = |t: Seq<char>| contains(t, a) && contains(t, b) && contains(t, b);
    lemma_first_is_some(lines(text), f);
    if some_line_holds(text, a, b) {
        let i = choose|i: int|
            0 <= i < lines(text).len() && contains(#[trigger] lines(text)[i], a) && contains(
                lines(text)[i],
                b,
            );
        assert(f(lines(text)[i]));
    }
    if line_holding3(text, a, b, b) is Some {
        let i = choose|i: int| 0 <= i < lines(text).len() && f(#[trigger] lines(text)[i]);
        assert(contains(lines(text)[i], a));
    }
}

proof fn lemma_quiet_parts(l: Lang, st: GameStatus, s: Session, rs: Seq<char>, n: Note)
    requires
        n.level == Level::Good,
    ensures
        !compiler_notes(l, st, s).contains(n),
        !effect_notes(l, st, s, rs).contains(n),
        !other_exe_notes(l, st, rs).contains(n),
{
    lemma_has();
}

proof fn lemma_refusals_are_bad(l: Lang, log: Seq<char>, prefers: bool, s: Session, n: Note)
    requires
        refusal_notes(l, log, prefers, s).contains(n),
    ensures
        n.level == Level::Bad,
{
    lemma_has();
}

proof fn lemma_good_model(l: Lang, st: GameStatus, s: Session, n: Note)
    requires
        model_notes(l, st, s).contains(n),
    ensures
        n.level == Level::Good,
        exists|a: Seq<Seq<char>>| n.text == #[trigger] fill(say(l, MODEL_EN@, MODEL_ZH@), a),
{
    lemma_has();
}

proof fn lemma_good_log(l: Lang, st: GameStatus, rs: Seq<char>, n: Note)
    requires
        n.level == Level::Good,
        n == addon_note(l, st, rs) || toggle_notes(l, rs).contains(n) || model_ran_notes(
            l,
            st,
            rs,
        ).contains(n),
    ensures
        ({
            ||| n.text == say(l, REGISTERED_EN@, REGISTERED_ZH@) && contains(
                rs,
                "DLSS 5 Neural Rendering"@,
            ) && !some_line_holds(rs, "Failed to load add-on"@, "renodx-dlss5"@)
            ||| n.text == say(l, TOGGLED_ON_EN@, TOGGLED_ON_ZH@) && contains(rs, "NR toggled ON"@)
                && !contains(rs, "NR toggled OFF"@)
            ||| n.text == say(l, RAN_EN@, RAN_ZH@) && contains(
                rs,
                "inline feature 18 evaluation succeeded"@,
            )
        }),
{
    lemma_has();
    lemma_line_holds(rs, "Failed to load add-on"@, "renodx-dlss5"@);
}

proof fn lemma_good_bridge(l: Lang, s: Session, n: Note)
    requires
        n.level == Level::Good,
        bridge_notes(l, s).contains(n),
    ensures
        n.text == say(l, BRIDGE_OK_EN@, BRIDGE_OK_ZH@),
        bridge_delivers(s),
{
    lemma_has();
    if let Some(bl) = opt_text(s.bridge_log) {
        lemma_line_holds(
            bl,
            "D3D12CreateDevice failed 0x887E0003"@,
            "D3D12CreateDevice failed 0x887E0003"@,
        );
    }
}

proof fn lemma_good_feed(l: Lang, fd: Seq<char>, n: Note)
    requires
        n.level == Level::Good,
        feed_state_notes(l, fd).contains(n) || old_feeder_notes(l, fd).contains(n)
            || feed_fault_notes(l, fd).contains(n),
    ensures
        ({
            ||| n.text == say(l, FEED_READY_EN@, FEED_READY_ZH@) && contains(fd, "feature ready"@)
            ||| n.text == say(l, DELIVERED_EN@, DELIVERED_ZH@) && contains(fd, "frame"@)
                && contains(fd, "delivered"@)
        }),
{
    lemma_has();
}

proof fn lemma_good_helper(l: Lang, st: GameStatus, s: Session, n: Note)
    requires
        n.level == Level::Good,
        helper_notes(l, st, s).contains(n),
    ensures
        n.text == say(l, HOST_READY_EN@, HOST_READY_ZH@),
        holds_text(opt_text(s.host_log), "feature ready"@),
{
    lemma_has();
    if let Some(hl) = opt_text(s.host_log) {
        if refusal_notes(l, hl, s.host_prefers, s).contains(n) {
            lemma_refusals_are_bad(l, hl, s.host_prefers, s, n);
        }
    }
}

proof fn lemma_feeder_only(l: Lang, st: GameStatus, s: Session, n: Note)
    requires
        feeder_notes(l, st, s).contains(n),
    ensures
        st.mode == Mode::Feeder,
        s.feed_log is None ==> n == (Note {
            level: Level::Bad,
            text: say(l, NO_FEED_LOG_EN@, NO_FEED_LOG_ZH@),
        }),
{
    lemma_has();
}

proof fn lemma_good(l: Lang, st: GameStatus, s: Session, rs: Seq<char>, n: Note)
    requires
        is_log(st, s, rs),
        n.level == Level::Good,
        diagnosis(l, st, s).contains(n),
    ensures
        ({
            ||| exists|a: Seq<Seq<char>>| n.text == #[trigger] fill(say(l, MODEL_EN@, MODEL_ZH@), a)
            ||| n.text == say(l, LOADED_EN@, LOADED_ZH@) && contains(
                rs,
                "Initializing crosire's ReShade"@,
            )
            ||| n.text == say(l, REGISTERED_EN@, REGISTERED_ZH@) && contains(
                rs,
                "DLSS 5 Neural Rendering"@,
            ) && !some_line_holds(rs, "Failed to load add-on"@, "renodx-dlss5"@)
            ||| n.text == say(l, TOGGLED_ON_EN@, TOGGLED_ON_ZH@) && contains(rs, "NR toggled ON"@)
                && !contains(rs, "NR toggled OFF"@)
            ||| n.text == say(l, RAN_EN@, RAN_ZH@) && contains(
                rs,
                "inline feature 18 evaluation succeeded"@,
            )
            ||| n.text == say(l, BRIDGE_OK_EN@, BRIDGE_OK_ZH@) && bridge_delivers(s)
            ||| n.text == say(l, FEED_READY_EN@, FEED_READY_ZH@) && st.mode == Mode::Feeder
                && holds_text(opt_text(s.feed_log), "feature ready"@)
            ||| n.text == say(l, DELIVERED_EN@, DELIVERED_ZH@) && st.mode == Mode::Feeder
                && holds_text(opt_text(s.feed_log), "frame"@) && holds_text(
                opt_text(s.feed_log),
                "delivered"@,
            )
            ||| n.text == say(l, HOST_READY_EN@, HOST_READY_ZH@) && st.mode == Mode::Feeder
                && s.feed_log is Some && holds_text(opt_text(s.host_log), "feature ready"@)
        }),
{
    lemma_parts(l, st, s, rs, n);
    lemma_quiet_parts(l, st, s, rs, n);
    if model_notes(l, st, s).contains(n) {
        lemma_good_model(l, st, s, n);
    } else if n == addon_note(l, st, rs) || toggle_notes(l, rs).contains(n) || model_ran_notes(
        l,
        st,
        rs,
    ).contains(n) {
        lemma_good_log(l, st, rs, n);
    } else if bridge_notes(l, s).contains(n) {
        lemma_good_bridge(l, s, n);
    } else if feeder_notes(l, st, s).contains(n) {
        lemma_feeder_only(l, st, s, n);
        let fd = opt_text(s.feed_log)->0;
        lemma_feeder_parts(l, st, s, fd, n);
        if refusal_notes(l, fd, s.game_prefers, s).contains(n) {
            lemma_refusals_are_bad(l, fd, s.game_prefers, s, n);
        } else if helper_notes(l, st, s).contains(n) {
            lemma_good_helper(l, st, s, n);
        } else {
            lemma_good_feed(l, fd, n);
        }
    }
}

/// A file is there and holds a word.
pub open spec fn holds_text(file: Option<Seq<char>>, word: Seq<char>) -> bool {
    file is Some && contains(file->0, word)
}

/// The bridge's log tells of frames, and of nothing that failed.
pub open spec fn bridge_delivers(s: Session) -> bool {
    let log = opt_text(s.bridge_log);
    &&& holds_text(log, "frames:"@)
    &&& !holds_text(log, "session failed"@)
    &&& !some_line_holds(
        log->0,
        "D3D12CreateDevice failed 0x887E0003"@,
        "D3D12CreateDevice failed 0x887E0003"@,
    )
}

/// Nothing good is said without its reason, and with it, it is said: that
/// ReShade loaded, that the add-on registered, that neural rendering was
/// switched on, that it ran on real frames, that the bridge delivers, and that
/// the feeder and its helper built their feature and delivered frames.
pub proof fn law_good_news_has_its_reason(l: Lang, st: GameStatus, s: Session, rs: Seq<char>)
    requires
        is_log(st, s, rs),
    ensures
        ({
            let d = diagnosis(l, st, s);
            let good = |en: &'static str, zh: &'static str|
                d.contains(Note { level: Level::Good, text: say(l, en@, zh@) });
            let feeder = st.mode == Mode::Feeder;
            let (feed, host) = (opt_text(s.feed_log), opt_text(s.host_log));
            &&& good(LOADED_EN, LOADED_ZH) <==> contains(rs, "Initializing crosire's ReShade"@)
            &&& good(REGISTERED_EN, REGISTERED_ZH) <==> contains(rs, "DLSS 5 Neural Rendering"@)
                && !some_line_holds(rs, "Failed to load add-on"@, "renodx-dlss5"@)
            &&& good(TOGGLED_ON_EN, TOGGLED_ON_ZH) <==> contains(rs, "NR toggled ON"@)
                && !contains(rs, "NR toggled OFF"@)
            &&& good(RAN_EN, RAN_ZH) <==> contains(rs, "inline feature 18 evaluation succeeded"@)
            &&& good(BRIDGE_OK_EN, BRIDGE_OK_ZH) <==> bridge_delivers(s)
            &&& good(FEED_READY_EN, FEED_READY_ZH) <==> feeder && holds_text(
                feed,
                "feature ready"@,
            )
            &&& good(DELIVERED_EN, DELIVERED_ZH) <==> feeder && holds_text(feed, "frame"@)
                && holds_text(feed, "delivered"@)
            &&& good(HOST_READY_EN, HOST_READY_ZH) <==> feeder && feed is Some && holds_text(
                host,
                "feature ready"@,
            )
        }),
{
    let texts = seq![
        say(l, LOADED_EN@, LOADED_ZH@),
        say(l, REGISTERED_EN@, REGISTERED_ZH@),
        say(l, TOGGLED_ON_EN@, TOGGLED_ON_ZH@),
        say(l, RAN_EN@, RAN_ZH@),
        say(l, BRIDGE_OK_EN@, BRIDGE_OK_ZH@),
        say(l, FEED_READY_EN@, FEED_READY_ZH@),
        say(l, DELIVERED_EN@, DELIVERED_ZH@),
        say(l, HOST_READY_EN@, HOST_READY_ZH@),
    ];
    lemma_good_heads();
    lemma_ran_is_not_toggled();
    assert forall|i: int| 0 <= i < texts.len() && diagnosis(l, st, s).contains(
        Note { level: Level::Good, text: #[trigger] texts[i] },
    ) implies good_reason(st, s, rs, i) by {
        let n = Note { level: Level::Good, text: texts[i] };
        lemma_good(l, st, s, rs, n);
    }
    assert forall|i: int| 0 <= i < texts.len() && good_reason(st, s, rs, i) implies diagnosis(
        l,
        st,
        s,
    ).contains(Note { level: Level::Good, text: #[trigger] texts[i] }) by {
        let n = Note { level: Level::Good, text: texts[i] };
        lemma_has();
        lemma_parts(l, st, s, rs, n);
        lemma_line_holds(rs, "Failed to load add-on"@, "renodx-dlss5"@);
        if let Some(bl) = opt_text(s.bridge_log) {
            lemma_line_holds(
                bl,
                "D3D12CreateDevice failed 0x887E0003"@,
                "D3D12CreateDevice failed 0x887E0003"@,
            );
        }
        if st.mode == Mode::Feeder && s.feed_log is Some {
            lemma_feeder_parts(l, st, s, opt_text(s.feed_log)->0, n);
        }
    }
    assert(texts[0] == say(l, LOADED_EN@, LOADED_ZH@));
    assert(texts[1] == say(l, REGISTERED_EN@, REGISTERED_ZH@));
    assert(texts[2] == say(l, TOGGLED_ON_EN@, TOGGLED_ON_ZH@));
    assert(texts[3] == say(l, RAN_EN@, RAN_ZH@));
    assert(texts[4] == say(l, BRIDGE_OK_EN@, BRIDGE_OK_ZH@));
    assert(texts[5] == say(l, FEED_READY_EN@, FEED_READY_ZH@));
    assert(texts[6] == say(l, DELIVERED_EN@, DELIVERED_ZH@));
    assert(texts[7] == say(l, HOST_READY_EN@, HOST_READY_ZH@));
}

spec fn good_reason(st: GameStatus, s: Session, rs: Seq<char>, i: int) -> bool {
    let feeder = st.mode == Mode::Feeder;
    let (feed, host) = (opt_text(s.feed_log), opt_text(s.host_log));
    if i == 0 {
        contains(rs, "Initializing crosire's ReShade"@)
    } else if i == 1 {
        contains(rs, "DLSS 5 Neural Rendering"@) && !some_line_holds(
            rs,
            "Failed to load add-on"@,
            "renodx-dlss5"@,
        )
    } else if i == 2 {
        contains(rs, "NR toggled ON"@) && !contains(rs, "NR toggled OFF"@)
    } else if i == 3 {
        contains(rs, "inline feature 18 evaluation succeeded"@)
    } else if i == 4 {
        bridge_delivers(s)
    } else if i == 5 {
        feeder && holds_text(feed, "feature ready"@)
    } else if i == 6 {
        feeder && holds_text(feed, "frame"@) && holds_text(feed, "delivered"@)
    } else {
        feeder && feed is Some && holds_text(host, "feature ready"@)
    }
}

proof fn lemma_ran_is_not_toggled()
    ensures
        RAN_EN@ != TOGGLED_ON_EN@,
{
    reveal_strlit(
        "Neural rendering ran: the add-on evaluated the DLSS 5 model on real frames. If the \
             picture still looks unchanged, raise NR Intensity / Local Structure in its panel — \
             the default is subtle.",
    );
    reveal_strlit("Neural rendering was toggled ON (F6).");
    assert(RAN_EN@[17] != TOGGLED_ON_EN@[17]);
}

// ── warnings ───────────────────────────────────────────────────────

/// The template filled with something.
pub open spec fn is_filled(text: Seq<char>, template: Seq<char>) -> bool {
    exists|a: Seq<Seq<char>>| text == #[trigger] fill(template, a)
}

proof fn lemma_warn_log(l: Lang, st: GameStatus, s: Session, rs: Seq<char>, n: Note)
    requires
        n.level == Level::Warn,
        n == addon_note(l, st, rs) || toggle_notes(l, rs).contains(n) || model_ran_notes(
            l,
            st,
            rs,
        ).contains(n) || effect_notes(l, st, s, rs).contains(n),
    ensures
        ({
            ||| n.text == say(l, TOGGLED_OFF_EN@, TOGGLED_OFF_ZH@) && contains(
                rs,
                "NR toggled OFF"@,
            )
            ||| n.text == say(l, SAW_DLSS_EN@, SAW_DLSS_ZH@) && saw_dlss(rs)
            ||| n.text == say(l, STRAY_FEEDER_EN@, STRAY_FEEDER_ZH@) && no_call(st, rs) && st.feeder
        }),
{
    lemma_has();
}

/// The add-on saw the game's DLSS and never ran the model.
pub open spec fn saw_dlss(rs: Seq<char>) -> bool {
    !contains(rs, "inline feature 18 evaluation succeeded"@) && contains(
        rs,
        "feature=1 (DLSS/DLAA)"@,
    )
}

/// A game with DLSS of its own whose DLSS the add-on never saw.
pub open spec fn no_call(st: GameStatus, rs: Seq<char>) -> bool {
    &&& st.mode == Mode::Native
    &&& !contains(rs, "inline feature 18 evaluation succeeded"@)
    &&& !contains(rs, "feature=1 (DLSS/DLAA)"@)
}

proof fn lemma_warn_exe(l: Lang, st: GameStatus, rs: Seq<char>, n: Note)
    requires
        other_exe_notes(l, st, rs).contains(n),
    ensures
        n.level == Level::Warn,
        is_filled(n.text, say(l, OTHER_EXE_EN@, OTHER_EXE_ZH@)),
        is_other_exe(st, rs),
{
    lemma_has();
}

/// ReShade loaded into another exe than the one it was installed for. Of a
/// 32-bit game the log is that of the helper.
pub open spec fn is_other_exe(st: GameStatus, rs: Seq<char>) -> bool {
    match (host_exe(rs), opt_text(st.exe_name)) {
        (Some(loaded), Some(ours)) => st.bitness != 32 && lower(ours) != lower(loaded),
        _ => false,
    }
}

proof fn lemma_warn_compiler(l: Lang, st: GameStatus, s: Session, rs: Seq<char>, n: Note)
    requires
        is_log(st, s, rs),
        compiler_notes(l, st, s).contains(n),
    ensures
        n.level == Level::Warn,
        is_filled(n.text, say(l, COMPILER_EN@, COMPILER_ZH@)),
        s.compiler && !contains(rs, "not yet implemented feature"@),
{
    lemma_has();
    lemma_log(st, s, rs);
}

proof fn lemma_warn_feed(l: Lang, fd: Seq<char>, n: Note)
    requires
        n.level == Level::Warn,
        feed_state_notes(l, fd).contains(n) || old_feeder_notes(l, fd).contains(n)
            || feed_fault_notes(l, fd).contains(n),
    ensures
        ({
            ||| is_filled(n.text, say(l, OLD_FEEDER_EN@, OLD_FEEDER_ZH@)) && old_feeder_notes(
                l,
                fd,
            ).len() > 0
            ||| n.text == say(l, CRASHED_EN@, CRASHED_ZH@) && contains(fd, "CRASH RECORDED"@)
        }),
{
    lemma_has();
}

proof fn lemma_warn_helper(l: Lang, st: GameStatus, s: Session, n: Note)
    requires
        n.level == Level::Warn,
        helper_notes(l, st, s).contains(n),
    ensures
        n.text == say(l, NO_HOST_FEED_LOG_EN@, NO_HOST_FEED_LOG_ZH@),
        s.host_log is None && st.bitness == 32,
{
    lemma_has();
    if let Some(hl) = opt_text(s.host_log) {
        if refusal_notes(l, hl, s.host_prefers, s).contains(n) {
            lemma_refusals_are_bad(l, hl, s.host_prefers, s, n);
        }
    }
}

proof fn lemma_bridge_never_warns(l: Lang, s: Session, n: Note)
    requires
        bridge_notes(l, s).contains(n),
    ensures
        n.level != Level::Warn,
{
    lemma_has();
}

proof fn lemma_warn(l: Lang, st: GameStatus, s: Session, rs: Seq<char>, n: Note)
    requires
        is_log(st, s, rs),
        n.level == Level::Warn,
        diagnosis(l, st, s).contains(n),
    ensures
        ({
            let feeder = st.mode == Mode::Feeder;
            let feed = opt_text(s.feed_log);
            ||| n.text == say(l, TOGGLED_OFF_EN@, TOGGLED_OFF_ZH@) && contains(
                rs,
                "NR toggled OFF"@,
            )
            ||| n.text == say(l, SAW_DLSS_EN@, SAW_DLSS_ZH@) && saw_dlss(rs)
            ||| n.text == say(l, STRAY_FEEDER_EN@, STRAY_FEEDER_ZH@) && no_call(st, rs) && st.feeder
            ||| is_filled(n.text, say(l, OTHER_EXE_EN@, OTHER_EXE_ZH@)) && is_other_exe(st, rs)
            ||| is_filled(n.text, say(l, COMPILER_EN@, COMPILER_ZH@)) && s.compiler && !contains(
                rs,
                "not yet implemented feature"@,
            )
            ||| is_filled(n.text, say(l, OLD_FEEDER_EN@, OLD_FEEDER_ZH@)) && feeder && feed is Some
                && old_feeder_notes(l, feed->0).len() > 0
            ||| n.text == say(l, CRASHED_EN@, CRASHED_ZH@) && feeder && holds_text(
                feed,
                "CRASH RECORDED"@,
            )
            ||| n.text == say(l, NO_HOST_FEED_LOG_EN@, NO_HOST_FEED_LOG_ZH@) && feeder
                && feed is Some && s.host_log is None && st.bitness == 32
        }),
{
    lemma_parts(l, st, s, rs, n);
    if compiler_notes(l, st, s).contains(n) {
        lemma_warn_compiler(l, st, s, rs, n);
    } else if model_notes(l, st, s).contains(n) {
        lemma_good_model(l, st, s, n);
    } else if other_exe_notes(l, st, rs).contains(n) {
        lemma_warn_exe(l, st, rs, n);
    } else if bridge_notes(l, s).contains(n) {
        lemma_bridge_never_warns(l, s, n);
    } else if feeder_notes(l, st, s).contains(n) {
        lemma_feeder_only(l, st, s, n);
        let fd = opt_text(s.feed_log)->0;
        lemma_feeder_parts(l, st, s, fd, n);
        if refusal_notes(l, fd, s.game_prefers, s).contains(n) {
            lemma_refusals_are_bad(l, fd, s.game_prefers, s, n);
        } else if helper_notes(l, st, s).contains(n) {
            lemma_warn_helper(l, st, s, n);
        } else {
            lemma_warn_feed(l, fd, n);
        }
    } else {
        lemma_warn_log(l, st, s, rs, n);
    }
}

/// Every warning has its reason, and every reason its warning: neural rendering
/// was switched off, the model was never evaluated though DLSS was seen, a
/// feeder was left in a game with DLSS of its own, the helper left no log, the
/// feeder recorded a crash, and a compiler beside the exe that Wine does not
/// need. That another exe was loaded, or the feeder is old, is said only then.
pub proof fn law_warnings_have_their_reason(l: Lang, st: GameStatus, s: Session, rs: Seq<char>)
    requires
        is_log(st, s, rs),
    ensures
        ({
            let d = diagnosis(l, st, s);
            let warns = |en: &'static str, zh: &'static str|
                d.contains(Note { level: Level::Warn, text: say(l, en@, zh@) });
            let feeder = st.mode == Mode::Feeder;
            let feed = opt_text(s.feed_log);
            &&& warns(TOGGLED_OFF_EN, TOGGLED_OFF_ZH) <==> contains(rs, "NR toggled OFF"@)
            &&& warns(SAW_DLSS_EN, SAW_DLSS_ZH) <==> !contains(
                rs,
                "inline feature 18 evaluation succeeded"@,
            ) && contains(rs, "feature=1 (DLSS/DLAA)"@)
            &&& warns(STRAY_FEEDER_EN, STRAY_FEEDER_ZH) <==> no_call(st, rs) && st.feeder
            &&& warns(CRASHED_EN, CRASHED_ZH) <==> feeder && holds_text(feed, "CRASH RECORDED"@)
            &&& warns(NO_HOST_FEED_LOG_EN, NO_HOST_FEED_LOG_ZH) <==> feeder && feed is Some
                && s.host_log is None && st.bitness == 32
        }),
        diagnosis(l, st, s).contains(
            Note {
                level: Level::Warn,
                text: fill(
                    say(l, COMPILER_EN@, COMPILER_ZH@),
                    seq![
                        match s.compiler_version {
                            Some(v) => v@,
                            None => say(l, NO_VERSION_EN@, NO_VERSION_ZH@),
                        },
                    ],
                ),
            },
        ) <==> s.compiler && !contains(rs, "not yet implemented feature"@),
        forall|t: Seq<char>|
            is_filled(t, say(l, OTHER_EXE_EN@, OTHER_EXE_ZH@)) && #[trigger] diagnosis(
                l,
                st,
                s,
            ).contains(Note { level: Level::Warn, text: t }) ==> is_other_exe(st, rs),
        forall|t: Seq<char>|
            is_filled(t, say(l, OLD_FEEDER_EN@, OLD_FEEDER_ZH@)) && #[trigger] diagnosis(
                l,
                st,
                s,
            ).contains(Note { level: Level::Warn, text: t }) ==> st.mode == Mode::Feeder
                && s.feed_log is Some && old_feeder_notes(l, opt_text(s.feed_log)->0).len() > 0,
{
    let d = diagnosis(l, st, s);
    let version = match s.compiler_version {
        Some(v) => v@,
        None => say(l, NO_VERSION_EN@, NO_VERSION_ZH@),
    };
    let texts = seq![
        say(l, TOGGLED_OFF_EN@, TOGGLED_OFF_ZH@),
        say(l, SAW_DLSS_EN@, SAW_DLSS_ZH@),
        say(l, STRAY_FEEDER_EN@, STRAY_FEEDER_ZH@),
        say(l, CRASHED_EN@, CRASHED_ZH@),
        say(l, NO_HOST_FEED_LOG_EN@, NO_HOST_FEED_LOG_ZH@),
        fill(say(l, COMPILER_EN@, COMPILER_ZH@), seq![version]),
    ];
    lemma_warn_heads();
    assert forall|t: Seq<char>| #[trigger]
        d.contains(Note { level: Level::Warn, text: t }) implies warn_reason(l, st, s, rs, t) by {
        lemma_warn(l, st, s, rs, Note { level: Level::Warn, text: t });
    }
    assert forall|i: int| 0 <= i < texts.len() && sound_reason(st, s, rs, i) implies d.contains(
        Note { level: Level::Warn, text: #[trigger] texts[i] },
    ) by {
        let n = Note { level: Level::Warn, text: texts[i] };
        lemma_has();
        lemma_log(st, s, rs);
        lemma_parts(l, st, s, rs, n);
        if st.mode == Mode::Feeder && s.feed_log is Some {
            lemma_feeder_parts(l, st, s, opt_text(s.feed_log)->0, n);
        }
    }
    assert(texts[0] == say(l, TOGGLED_OFF_EN@, TOGGLED_OFF_ZH@));
    assert(texts[1] == say(l, SAW_DLSS_EN@, SAW_DLSS_ZH@));
    assert(texts[2] == say(l, STRAY_FEEDER_EN@, STRAY_FEEDER_ZH@));
    assert(texts[3] == say(l, CRASHED_EN@, CRASHED_ZH@));
    assert(texts[4] == say(l, NO_HOST_FEED_LOG_EN@, NO_HOST_FEED_LOG_ZH@));
    assert(texts[5] == fill(say(l, COMPILER_EN@, COMPILER_ZH@), seq![version]));
    assert(is_filled(texts[5], say(l, COMPILER_EN@, COMPILER_ZH@)));
}

spec fn sound_reason(st: GameStatus, s: Session, rs: Seq<char>, i: int) -> bool {
    let feeder = st.mode == Mode::Feeder;
    let feed = opt_text(s.feed_log);
    if i == 0 {
        contains(rs, "NR toggled OFF"@)
    } else if i == 1 {
        saw_dlss(rs)
    } else if i == 2 {
        no_call(st, rs) && st.feeder
    } else if i == 3 {
        feeder && holds_text(feed, "CRASH RECORDED"@)
    } else if i == 4 {
        feeder && feed is Some && s.host_log is None && st.bitness == 32
    } else {
        s.compiler && !contains(rs, "not yet implemented feature"@)
    }
}

/// What a warning that is there says, by the character that tells it apart.
spec fn warn_reason(l: Lang, st: GameStatus, s: Session, rs: Seq<char>, t: Seq<char>) -> bool {
    let feeder = st.mode == Mode::Feeder;
    let feed = opt_text(s.feed_log);
    let c = match l {
        Lang::En => t[9],
        Lang::Zh => t[3],
    };
    let key = |en: &'static str, zh: &'static str|
        match l {
            Lang::En => en@[9],
            Lang::Zh => zh@[3],
        };
    &&& c == key(TOGGLED_OFF_EN, TOGGLED_OFF_ZH) ==> sound_reason(st, s, rs, 0)
    &&& c == key(SAW_DLSS_EN, SAW_DLSS_ZH) ==> sound_reason(st, s, rs, 1)
    &&& c == key(STRAY_FEEDER_EN, STRAY_FEEDER_ZH) ==> sound_reason(st, s, rs, 2)
    &&& c == key(CRASHED_EN, CRASHED_ZH) ==> sound_reason(st, s, rs, 3)
    &&& c == key(NO_HOST_FEED_LOG_EN, NO_HOST_FEED_LOG_ZH) ==> sound_reason(st, s, rs, 4)
    &&& is_filled(t, say(l, COMPILER_EN@, COMPILER_ZH@)) ==> sound_reason(st, s, rs, 5)
    &&& is_filled(t, say(l, OTHER_EXE_EN@, OTHER_EXE_ZH@)) ==> is_other_exe(st, rs)
    &&& is_filled(t, say(l, OLD_FEEDER_EN@, OLD_FEEDER_ZH@)) ==> feeder && feed is Some
        && old_feeder_notes(l, feed->0).len() > 0
}

// ── what went wrong ────────────────────────────────────────────────

/// Some line of a text holds either word.
pub open spec fn some_line_holds_either(text: Seq<char>, a: Seq<char>, b: Seq<char>) -> bool {
    exists|i: int|
        0 <= i < lines(text).len() && (contains(#[trigger] lines(text)[i], a) || contains(
            lines(text)[i],
            b,
        ))
}

/// NGX refused to initialise, as a log tells it.
pub open spec fn ngx_refused(log: Option<Seq<char>>) -> bool {
    log is Some && tells_refusal(log->0)
}

pub open spec fn tells_refusal(log: Seq<char>) -> bool {
    exists|i: int|
        0 <= i < lines(log).len() && contains(#[trigger] lines(log)[i], "NVSDK_NGX"@) && contains(
            lines(log)[i],
            "Init"@,
        ) && contains(lines(log)[i], "0xBAD00001"@)
}

/// An old compiler or an old D3D12 redistributable is in the way: what is said
/// of these starts with the line of the log.
pub open spec fn quotes_a_line(s: Session, rs: Seq<char>) -> bool {
    ||| some_line_holds_either(rs, "X3506"@, "unrecognized compiler target"@)
    ||| s.bridge_log is Some && some_line_holds(
        opt_text(s.bridge_log)->0,
        "D3D12CreateDevice failed 0x887E0003"@,
        "D3D12CreateDevice failed 0x887E0003"@,
    )
}

/// The reason for a bad finding, by its number below.
spec fn bad_reason(st: GameStatus, s: Session, rs: Seq<char>, i: int) -> bool {
    let feeder = st.mode == Mode::Feeder;
    let feed = opt_text(s.feed_log);
    let refused = feeder && feed is Some && (ngx_refused(feed) || ngx_refused(
        opt_text(s.host_log),
    ));
    if i == 0 {
        some_line_holds(rs, "Failed to load add-on"@, "renodx-dlss5"@)
    } else if i == 1 {
        never_registered(rs)
    } else if i == 2 {
        no_call(st, rs) && st.api == Api::Dx11 && !st.bridge
    } else if i == 3 {
        no_call(st, rs) && !(st.api == Api::Dx11 && !st.bridge)
    } else if i == 4 {
        contains(rs, "not yet implemented feature"@)
    } else if i == 5 {
        s.bridge_log is Some && some_line_holds(
            opt_text(s.bridge_log)->0,
            "stopped:"@,
            "stopped:"@,
        )
    } else if i == 6 {
        refused && s.hybrid
    } else if i == 7 {
        refused
    } else if i == 8 {
        feeder && holds_text(feed, "technique MISSING"@) && !holds_text(feed, "technique found"@)
    } else if i == 9 {
        feeder && feed is Some && no_provider(feed->0)
    } else if i == 10 {
        feeder && feed is None
    } else if i == 11 {
        feeder && holds_text(feed, "MV probe"@) && holds_text(feed, "0% non-zero"@)
    } else if i == 12 {
        feeder && holds_text(feed, "DLSS super sampling is not available"@)
    } else if i == 13 {
        feeder && holds_text(feed, "work-resolution staging SRV failed"@)
    } else {
        feeder && holds_text(feed, "stopped:"@)
    }
}

/// The add-on neither registered nor was refused.
pub open spec fn never_registered(rs: Seq<char>) -> bool {
    !contains(rs, "DLSS 5 Neural Rendering"@) && !some_line_holds(
        rs,
        "Failed to load add-on"@,
        "renodx-dlss5"@,
    )
}

/// The last line on the effects says that no provider of motion vectors is
/// installed.
pub open spec fn no_provider(fd: Seq<char>) -> bool {
    exists|i: int|
        0 <= i < lines(fd).len() && contains(#[trigger] lines(fd)[i], "[feed] effects:"@)
            && contains(lines(fd)[i], "-> none (not installed)"@) && forall|j: int|
            i < j < lines(fd).len() ==> !contains(#[trigger] lines(fd)[j], "[feed] effects:"@)
}

proof fn lemma_last_is_some(ls: Seq<Seq<char>>, f: spec_fn(Seq<char>) -> bool)
    ensures
        match last_line(ls, f) {
            Some(t) => exists|i: int|
                0 <= i < ls.len() && f(#[trigger] ls[i]) && t == ls[i] && forall|j: int|
                    i < j < ls.len() ==> !f(#[trigger] ls[j]),
            None => forall|j: int| 0 <= j < ls.len() ==> !f(#[trigger] ls[j]),
        },
    decreases ls.len(),
{
    if ls.len() > 0 {
        let q = ls.drop_last();
        lemma_last_is_some(q, f);
        if f(ls.last()) {
            assert(f(ls[ls.len() - 1]));
        } else {
            match last_line(q, f) {
                Some(t) => {
                    let i = choose|i: int|
                        0 <= i < q.len() && f(#[trigger] q[i]) && t == q[i] && forall|j: int|
                            i < j < q.len() ==> !f(#[trigger] q[j]);
                    assert(f(ls[i]));
                    assert forall|j: int| i < j < ls.len() implies !f(#[trigger] ls[j]) by {
                        if j < q.len() {
                            assert(!f(q[j]));
                        }
                    }
                },
                None => {
                    assert forall|j: int| 0 <= j < ls.len() implies !f(#[trigger] ls[j]) by {
                        if j < q.len() {
                            assert(!f(q[j]));
                        }
                    }
                },
            }
        }
    }
}

proof fn lemma_provider(fd: Seq<char>)
    ensures
        no_provider(fd) <==> contains(
            or_text(last_line_holding(fd, "[feed] effects:"@), Seq::empty()),
            "-> none (not installed)"@,
        ),
{
    let f = |t: Seq<char>| contains(t, "[feed] effects:"@);
    let ls = lines(fd);
    lemma_last_is_some(ls, f);
    assert(!contains(Seq::<char>::empty(), "-> none (not installed)"@)) by {
        reveal_strlit("-> none (not installed)");
    }
    if no_provider(fd) {
        let i = choose|i: int|
            0 <= i < ls.len() && contains(#[trigger] ls[i], "[feed] effects:"@) && contains(
                ls[i],
                "-> none (not installed)"@,
            ) && forall|j: int|
                i < j < ls.len() ==> !contains(#[trigger] ls[j], "[feed] effects:"@);
        assert(f(ls[i]));
        assert forall|j: int| i < j < ls.len() implies !f(#[trigger] ls[j]) by {
            assert(!contains(ls[j], "[feed] effects:"@));
        }
        lemma_last_is(ls, f, i);
    }
    if let Some(t) = last_line_holding(fd, "[feed] effects:"@) {
        let i = choose|i: int|
            0 <= i < ls.len() && f(#[trigger] ls[i]) && t == ls[i] && forall|j: int|
                i < j < ls.len() ==> !f(#[trigger] ls[j]);
        assert(contains(ls[i], "[feed] effects:"@));
        assert forall|j: int| i < j < ls.len() implies !contains(
            #[trigger] ls[j],
            "[feed] effects:"@,
        ) by {
            assert(!f(ls[j]));
        }
    }
}

proof fn lemma_refused(log: Seq<char>)
    ensures
        line_holding3(log, "NVSDK_NGX"@, "Init"@, "0xBAD00001"@) is Some <==> tells_refusal(log),
{
    let (a, b, c) = ("NVSDK_NGX"@, "Init"@, "0xBAD00001"@);
    let f = |t: Seq<char>| contains(t, a) && contains(t, b) && contains(t, c);
    lemma_first_is_some(lines(log), f);
    if tells_refusal(log) {
        let i = choose|i: int|
            0 <= i < lines(log).len() && contains(#[trigger] lines(log)[i], a) && contains(
                lines(log)[i],
                b,
            ) && contains(lines(log)[i], c);
        assert(f(lines(log)[i]));
    }
    if line_holding3(log, a, b, c) is Some {
        let i = choose|i: int| 0 <= i < lines(log).len() && f(#[trigger] lines(log)[i]);
        assert(contains(lines(log)[i], a));
    }
}

proof fn lemma_either(text: Seq<char>, a: Seq<char>, b: Seq<char>)
    ensures
        line_holding_either(text, a, b) is Some <==> some_line_holds_either(text, a, b),
{
    let f = |t: Seq<char>| contains(t, a) || contains(t, b);
    lemma_first_is_some(lines(text), f);
    if some_line_holds_either(text, a, b) {
        let i = choose|i: int|
            0 <= i < lines(text).len() && (contains(#[trigger] lines(text)[i], a) || contains(
                lines(text)[i],
                b,
            ));
        assert(f(lines(text)[i]));
    }
    if line_holding_either(text, a, b) is Some {
        let i = choose|i: int| 0 <= i < lines(text).len() && f(#[trigger] lines(text)[i]);
        assert(contains(lines(text)[i], a) || contains(lines(text)[i], b));
    }
}

/// A bad finding and its reason.
#[verifier::opaque]
spec fn bad_pair(l: Lang, st: GameStatus, s: Session, rs: Seq<char>, t: Seq<char>) -> bool {
    ||| is_filled(t, say(l, LOAD_FAILED_EN@, LOAD_FAILED_ZH@)) && bad_reason(st, s, rs, 0)
    ||| is_filled(t, say(l, NEVER_EN@, NEVER_ZH@)) && bad_reason(st, s, rs, 1)
    ||| t == say(l, NO_BRIDGE_EN@, NO_BRIDGE_ZH@) && bad_reason(st, s, rs, 2)
    ||| t == say(l, NO_CALL_EN@, NO_CALL_ZH@) && bad_reason(st, s, rs, 3)
    ||| is_filled(t, say(l, WINE_EN@, WINE_ZH@)) && bad_reason(st, s, rs, 4)
    ||| is_filled(t, say(l, BRIDGE_STOPPED_EN@, BRIDGE_STOPPED_ZH@)) && bad_reason(st, s, rs, 5)
    ||| is_filled(t, say(l, HYBRID_EN@, HYBRID_ZH@)) && bad_reason(st, s, rs, 6)
    ||| is_filled(t, say(l, REFUSED_EN@, REFUSED_ZH@)) && bad_reason(st, s, rs, 7)
    ||| t == say(l, FX_MISSING_EN@, FX_MISSING_ZH@) && bad_reason(st, s, rs, 8)
    ||| t == say(l, NO_PROVIDER_EN@, NO_PROVIDER_ZH@) && bad_reason(st, s, rs, 9)
    ||| t == say(l, NO_FEED_LOG_EN@, NO_FEED_LOG_ZH@) && bad_reason(st, s, rs, 10)
    ||| t == say(l, ZERO_VECTORS_EN@, ZERO_VECTORS_ZH@) && bad_reason(st, s, rs, 11)
    ||| t == say(l, UNAVAILABLE_EN@, UNAVAILABLE_ZH@) && bad_reason(st, s, rs, 12)
    ||| is_filled(t, say(l, WORK_REFUSED_EN@, WORK_REFUSED_ZH@)) && bad_reason(st, s, rs, 13)
    ||| is_filled(t, say(l, FEED_STOPPED_EN@, FEED_STOPPED_ZH@)) && bad_reason(st, s, rs, 14)
}

proof fn lemma_bad_log(l: Lang, st: GameStatus, s: Session, rs: Seq<char>, n: Note)
    requires
        is_log(st, s, rs),
        !quotes_a_line(s, rs),
        n.level == Level::Bad,
        n == addon_note(l, st, rs) || toggle_notes(l, rs).contains(n) || model_ran_notes(
            l,
            st,
            rs,
        ).contains(n),
    ensures
        bad_pair(l, st, s, rs, n.text),
{
    reveal(bad_pair);
    lemma_has();
    lemma_line_holds(rs, "Failed to load add-on"@, "renodx-dlss5"@);
}

proof fn lemma_bad_effects(l: Lang, st: GameStatus, s: Session, rs: Seq<char>, n: Note)
    requires
        is_log(st, s, rs),
        !quotes_a_line(s, rs),
        effect_notes(l, st, s, rs).contains(n),
    ensures
        bad_pair(l, st, s, rs, n.text),
{
    reveal(bad_pair);
    lemma_has();
    lemma_log(st, s, rs);
    lemma_either(rs, "X3506"@, "unrecognized compiler target"@);
}

proof fn lemma_bad_bridge(l: Lang, st: GameStatus, s: Session, rs: Seq<char>, n: Note)
    requires
        !quotes_a_line(s, rs),
        n.level == Level::Bad,
        bridge_notes(l, s).contains(n),
    ensures
        bad_pair(l, st, s, rs, n.text),
{
    reveal(bad_pair);
    lemma_has();
    let bl = opt_text(s.bridge_log)->0;
    lemma_line_holds(
        bl,
        "D3D12CreateDevice failed 0x887E0003"@,
        "D3D12CreateDevice failed 0x887E0003"@,
    );
    let f = |t: Seq<char>| contains(t, "stopped:"@);
    lemma_last_is_some(lines(bl), f);
    if let Some(t) = last_line_holding(bl, "stopped:"@) {
        let i = choose|i: int|
            0 <= i < lines(bl).len() && f(#[trigger] lines(bl)[i]) && t == lines(bl)[i]
                && forall|j: int| i < j < lines(bl).len() ==> !f(#[trigger] lines(bl)[j]);
        assert(contains(lines(bl)[i], "stopped:"@));
    }
}

proof fn lemma_bad_refusal(l: Lang, log: Seq<char>, prefers: bool, s: Session, n: Note)
    requires
        refusal_notes(l, log, prefers, s).contains(n),
    ensures
        tells_refusal(log),
        is_filled(n.text, say(l, REFUSED_EN@, REFUSED_ZH@)) || s.hybrid && is_filled(
            n.text,
            say(l, HYBRID_EN@, HYBRID_ZH@),
        ),
{
    lemma_has();
    lemma_refused(log);
}

proof fn lemma_bad_feed(l: Lang, st: GameStatus, s: Session, rs: Seq<char>, n: Note)
    requires
        st.mode == Mode::Feeder,
        s.feed_log is Some,
        n.level == Level::Bad,
        ({
            let fd = opt_text(s.feed_log)->0;
            feed_state_notes(l, fd).contains(n) || old_feeder_notes(l, fd).contains(n)
                || feed_fault_notes(l, fd).contains(n)
        }),
    ensures
        bad_pair(l, st, s, rs, n.text),
{
    reveal(bad_pair);
    lemma_has();
    lemma_provider(opt_text(s.feed_log)->0);
}

proof fn lemma_bad_helper(l: Lang, st: GameStatus, s: Session, n: Note)
    requires
        n.level == Level::Bad,
        helper_notes(l, st, s).contains(n),
    ensures
        s.host_log is Some,
        refusal_notes(l, opt_text(s.host_log)->0, s.host_prefers, s).contains(n),
{
    lemma_has();
}

proof fn lemma_bad_feeder(l: Lang, st: GameStatus, s: Session, rs: Seq<char>, n: Note)
    requires
        n.level == Level::Bad,
        feeder_notes(l, st, s).contains(n),
    ensures
        bad_pair(l, st, s, rs, n.text),
{
    lemma_feeder_only(l, st, s, n);
    match opt_text(s.feed_log) {
        Some(fd) => {
            lemma_feeder_parts(l, st, s, fd, n);
            if refusal_notes(l, fd, s.game_prefers, s).contains(n) {
                lemma_bad_refusal(l, fd, s.game_prefers, s, n);
                lemma_refusal_pair(l, st, s, rs, n.text);
            } else if helper_notes(l, st, s).contains(n) {
                lemma_bad_helper(l, st, s, n);
                lemma_bad_refusal(l, opt_text(s.host_log)->0, s.host_prefers, s, n);
                lemma_refusal_pair(l, st, s, rs, n.text);
            } else {
                lemma_bad_feed(l, st, s, rs, n);
            }
        },
        None => {
            reveal(bad_pair);
        },
    }
}

proof fn lemma_refusal_pair(l: Lang, st: GameStatus, s: Session, rs: Seq<char>, t: Seq<char>)
    requires
        st.mode == Mode::Feeder,
        s.feed_log is Some,
        ngx_refused(opt_text(s.feed_log)) || ngx_refused(opt_text(s.host_log)),
        is_filled(t, say(l, REFUSED_EN@, REFUSED_ZH@)) || s.hybrid && is_filled(
            t,
            say(l, HYBRID_EN@, HYBRID_ZH@),
        ),
    ensures
        bad_pair(l, st, s, rs, t),
{
    reveal(bad_pair);
}

proof fn lemma_bad(l: Lang, st: GameStatus, s: Session, rs: Seq<char>, n: Note)
    requires
        is_log(st, s, rs),
        !quotes_a_line(s, rs),
        n.level == Level::Bad,
        diagnosis(l, st, s).contains(n),
    ensures
        bad_pair(l, st, s, rs, n.text),
{
    lemma_parts(l, st, s, rs, n);
    if compiler_notes(l, st, s).contains(n) {
        lemma_warn_compiler(l, st, s, rs, n);
    } else if model_notes(l, st, s).contains(n) {
        lemma_good_model(l, st, s, n);
    } else if other_exe_notes(l, st, rs).contains(n) {
        lemma_warn_exe(l, st, rs, n);
    } else if bridge_notes(l, s).contains(n) {
        lemma_bad_bridge(l, st, s, rs, n);
    } else if feeder_notes(l, st, s).contains(n) {
        lemma_bad_feeder(l, st, s, rs, n);
    } else if effect_notes(l, st, s, rs).contains(n) {
        lemma_bad_effects(l, st, s, rs, n);
    } else {
        lemma_bad_log(l, st, s, rs, n);
    }
}

proof fn lemma_bridge_is_not_call()
    ensures
        NO_BRIDGE_EN@ != NO_CALL_EN@,
        NO_BRIDGE_ZH@ != NO_CALL_ZH@,
{
    reveal_strlit(
        "No NGX call was intercepted, and this is a Direct3D 11 game with its own \
                 DLSS: the add-on hooks the D3D12 NGX entry points, but the game calls the \
                 D3D11 ones, so it can never see them. The DX11 bridge covers exactly this \
                 and is not installed here — run Install on this exe.",
    );
    reveal_strlit(
        "No NGX call was intercepted: this game's own DLSS never ran. Turn DLSS on \
                 in the game's graphics settings (the add-on hooks the game's DLSS calls; \
                 without them it has nothing to work with).",
    );
    reveal_strlit(
        "没有拦截到 NGX 调用，而且这是一个自带 DLSS 的 Direct3D 11 游戏：附加组件挂钩的是 D3D12 NGX 入口点，但游戏调用的是 D3D11 入口点，因此它永远看不到。DX11 桥接正是为此而生，而这里没有安装 —— 请对此 exe 运行「安装」。",
    );
    reveal_strlit(
        "没有拦截到 NGX 调用：此游戏自身的 DLSS 从未运行。请在游戏的图形设置中开启 DLSS（附加组件挂钩游戏的 DLSS 调用；没有它们就没有可用的东西）。",
    );
    assert(NO_BRIDGE_EN@[27] != NO_CALL_EN@[27]);
    assert(NO_BRIDGE_ZH@[12] != NO_CALL_ZH@[12]);
}

/// What a bad finding of fixed text gives as its reason.
proof fn lemma_bad_fixed(l: Lang, st: GameStatus, s: Session, rs: Seq<char>, t: Seq<char>)
    requires
        bad_pair(l, st, s, rs, t),
    ensures
        t == say(l, NO_BRIDGE_EN@, NO_BRIDGE_ZH@) ==> bad_reason(st, s, rs, 2),
        t == say(l, NO_CALL_EN@, NO_CALL_ZH@) ==> bad_reason(st, s, rs, 3),
        t == say(l, FX_MISSING_EN@, FX_MISSING_ZH@) ==> bad_reason(st, s, rs, 8),
        t == say(l, NO_PROVIDER_EN@, NO_PROVIDER_ZH@) ==> bad_reason(st, s, rs, 9),
        t == say(l, NO_FEED_LOG_EN@, NO_FEED_LOG_ZH@) ==> bad_reason(st, s, rs, 10),
        t == say(l, ZERO_VECTORS_EN@, ZERO_VECTORS_ZH@) ==> bad_reason(st, s, rs, 11),
        t == say(l, UNAVAILABLE_EN@, UNAVAILABLE_ZH@) ==> bad_reason(st, s, rs, 12),
{
    reveal(bad_pair);
    lemma_bad_heads();
    lemma_bridge_is_not_call();
}

/// What a bad finding that quotes something gives as its reason.
proof fn lemma_bad_filled(l: Lang, st: GameStatus, s: Session, rs: Seq<char>, t: Seq<char>)
    requires
        bad_pair(l, st, s, rs, t),
    ensures
        is_filled(t, say(l, LOAD_FAILED_EN@, LOAD_FAILED_ZH@)) ==> bad_reason(st, s, rs, 0),
        is_filled(t, say(l, NEVER_EN@, NEVER_ZH@)) ==> bad_reason(st, s, rs, 1),
        is_filled(t, say(l, WINE_EN@, WINE_ZH@)) ==> bad_reason(st, s, rs, 4),
        is_filled(t, say(l, BRIDGE_STOPPED_EN@, BRIDGE_STOPPED_ZH@)) ==> bad_reason(st, s, rs, 5),
        is_filled(t, say(l, HYBRID_EN@, HYBRID_ZH@)) ==> bad_reason(st, s, rs, 6),
        is_filled(t, say(l, REFUSED_EN@, REFUSED_ZH@)) ==> bad_reason(st, s, rs, 7),
        is_filled(t, say(l, WORK_REFUSED_EN@, WORK_REFUSED_ZH@)) ==> bad_reason(st, s, rs, 13),
        is_filled(t, say(l, FEED_STOPPED_EN@, FEED_STOPPED_ZH@)) ==> bad_reason(st, s, rs, 14),
{
    reveal(bad_pair);
    lemma_bad_heads();
}

/// A failure is reported only for its reason: what is not in the logs is not
/// said. (Where a log names an old compiler or an old redistributable, that
/// finding starts with the line of the log, which may read like any other.)
pub proof fn law_failures_have_their_reason(
    l: Lang,
    st: GameStatus,
    s: Session,
    rs: Seq<char>,
    t: Seq<char>,
)
    requires
        is_log(st, s, rs),
        !quotes_a_line(s, rs),
        diagnosis(l, st, s).contains(Note { level: Level::Bad, text: t }),
    ensures
        ({
            let is = |en: &'static str, zh: &'static str| t == say(l, en@, zh@);
            let quotes = |en: &'static str, zh: &'static str| is_filled(t, say(l, en@, zh@));
            let feed = opt_text(s.feed_log);
            let refused = feed is Some && (ngx_refused(feed) || ngx_refused(opt_text(s.host_log)));
            &&& quotes(LOAD_FAILED_EN, LOAD_FAILED_ZH) ==> some_line_holds(
                rs,
                "Failed to load add-on"@,
                "renodx-dlss5"@,
            )
            &&& quotes(NEVER_EN, NEVER_ZH) ==> !contains(rs, "DLSS 5 Neural Rendering"@)
            &&& is(NO_BRIDGE_EN, NO_BRIDGE_ZH) ==> no_call(st, rs) && st.api == Api::Dx11
                && !st.bridge
            &&& is(NO_CALL_EN, NO_CALL_ZH) ==> no_call(st, rs) && (st.api != Api::Dx11 || st.bridge)
            &&& quotes(WINE_EN, WINE_ZH) ==> contains(rs, "not yet implemented feature"@)
            &&& quotes(BRIDGE_STOPPED_EN, BRIDGE_STOPPED_ZH) ==> s.bridge_log is Some
                && some_line_holds(opt_text(s.bridge_log)->0, "stopped:"@, "stopped:"@)
            &&& quotes(HYBRID_EN, HYBRID_ZH) ==> st.mode == Mode::Feeder && refused && s.hybrid
            &&& quotes(REFUSED_EN, REFUSED_ZH) ==> st.mode == Mode::Feeder && refused
            &&& is(FX_MISSING_EN, FX_MISSING_ZH) ==> st.mode == Mode::Feeder && holds_text(
                feed,
                "technique MISSING"@,
            ) && !holds_text(feed, "technique found"@)
            &&& is(NO_PROVIDER_EN, NO_PROVIDER_ZH) ==> st.mode == Mode::Feeder && feed is Some
                && no_provider(feed->0)
            &&& is(NO_FEED_LOG_EN, NO_FEED_LOG_ZH) ==> st.mode == Mode::Feeder && feed is None
            &&& is(ZERO_VECTORS_EN, ZERO_VECTORS_ZH) ==> st.mode == Mode::Feeder && holds_text(
                feed,
                "MV probe"@,
            ) && holds_text(feed, "0% non-zero"@)
            &&& is(UNAVAILABLE_EN, UNAVAILABLE_ZH) ==> st.mode == Mode::Feeder && holds_text(
                feed,
                "DLSS super sampling is not available"@,
            )
            &&& quotes(WORK_REFUSED_EN, WORK_REFUSED_ZH) ==> st.mode == Mode::Feeder && holds_text(
                feed,
                "work-resolution staging SRV failed"@,
            )
            &&& quotes(FEED_STOPPED_EN, FEED_STOPPED_ZH) ==> st.mode == Mode::Feeder && holds_text(
                feed,
                "stopped:"@,
            )
        }),
{
    lemma_bad(l, st, s, rs, Note { level: Level::Bad, text: t });
    lemma_reasons(l, st, s, rs, t);
}

proof fn lemma_reasons(l: Lang, st: GameStatus, s: Session, rs: Seq<char>, t: Seq<char>)
    requires
        bad_pair(l, st, s, rs, t),
    ensures
        ({
            let is = |en: &'static str, zh: &'static str| t == say(l, en@, zh@);
            let quotes = |en: &'static str, zh: &'static str| is_filled(t, say(l, en@, zh@));
            let feed = opt_text(s.feed_log);
            let refused = feed is Some && (ngx_refused(feed) || ngx_refused(opt_text(s.host_log)));
            &&& quotes(LOAD_FAILED_EN, LOAD_FAILED_ZH) ==> some_line_holds(
                rs,
                "Failed to load add-on"@,
                "renodx-dlss5"@,
            )
            &&& quotes(NEVER_EN, NEVER_ZH) ==> !contains(rs, "DLSS 5 Neural Rendering"@)
            &&& is(NO_BRIDGE_EN, NO_BRIDGE_ZH) ==> no_call(st, rs) && st.api == Api::Dx11
                && !st.bridge
            &&& is(NO_CALL_EN, NO_CALL_ZH) ==> no_call(st, rs) && (st.api != Api::Dx11 || st.bridge)
            &&& quotes(WINE_EN, WINE_ZH) ==> contains(rs, "not yet implemented feature"@)
            &&& quotes(BRIDGE_STOPPED_EN, BRIDGE_STOPPED_ZH) ==> s.bridge_log is Some
                && some_line_holds(opt_text(s.bridge_log)->0, "stopped:"@, "stopped:"@)
            &&& quotes(HYBRID_EN, HYBRID_ZH) ==> st.mode == Mode::Feeder && refused && s.hybrid
            &&& quotes(REFUSED_EN, REFUSED_ZH) ==> st.mode == Mode::Feeder && refused
            &&& is(FX_MISSING_EN, FX_MISSING_ZH) ==> st.mode == Mode::Feeder && holds_text(
                feed,
                "technique MISSING"@,
            ) && !holds_text(feed, "technique found"@)
            &&& is(NO_PROVIDER_EN, NO_PROVIDER_ZH) ==> st.mode == Mode::Feeder && feed is Some
                && no_provider(feed->0)
            &&& is(NO_FEED_LOG_EN, NO_FEED_LOG_ZH) ==> st.mode == Mode::Feeder && feed is None
            &&& is(ZERO_VECTORS_EN, ZERO_VECTORS_ZH) ==> st.mode == Mode::Feeder && holds_text(
                feed,
                "MV probe"@,
            ) && holds_text(feed, "0% non-zero"@)
            &&& is(UNAVAILABLE_EN, UNAVAILABLE_ZH) ==> st.mode == Mode::Feeder && holds_text(
                feed,
                "DLSS super sampling is not available"@,
            )
            &&& quotes(WORK_REFUSED_EN, WORK_REFUSED_ZH) ==> st.mode == Mode::Feeder && holds_text(
                feed,
                "work-resolution staging SRV failed"@,
            )
            &&& quotes(FEED_STOPPED_EN, FEED_STOPPED_ZH) ==> st.mode == Mode::Feeder && holds_text(
                feed,
                "stopped:"@,
            )
        }),
{
    lemma_bad_fixed(l, st, s, rs, t);
    lemma_bad_filled(l, st, s, rs, t);
}

/// Every failure that a log tells of is reported: the add-on that never
/// registered, a game's DLSS that was never called, and on the Feeder side a
/// feeder without a log, an effect that is missing, no provider of motion
/// vectors, vectors that are all zero, and DLSS that is not available.
pub proof fn law_failures_are_reported(l: Lang, st: GameStatus, s: Session, rs: Seq<char>)
    requires
        is_log(st, s, rs),
    ensures
        ({
            let d = diagnosis(l, st, s);
            let bad = |t: Seq<char>| d.contains(Note { level: Level::Bad, text: t });
            let feed = opt_text(s.feed_log);
            &&& never_registered(rs) ==> bad(
                fill(
                    say(l, NEVER_EN@, NEVER_ZH@),
                    seq![
                        if st.bitness == 32 {
                            say(l, HOST_PLACE_EN@, HOST_PLACE_ZH@)
                        } else {
                            say(l, GAME_PLACE_EN@, GAME_PLACE_ZH@)
                        },
                    ],
                ),
            )
            &&& no_call(st, rs) ==> bad(
                if st.api == Api::Dx11 && !st.bridge {
                    say(l, NO_BRIDGE_EN@, NO_BRIDGE_ZH@)
                } else {
                    say(l, NO_CALL_EN@, NO_CALL_ZH@)
                },
            )
            &&& st.mode == Mode::Feeder ==> {
                &&& feed is None ==> bad(say(l, NO_FEED_LOG_EN@, NO_FEED_LOG_ZH@))
                &&& holds_text(feed, "technique MISSING"@) && !holds_text(
                    feed,
                    "technique found"@,
                ) ==> bad(say(l, FX_MISSING_EN@, FX_MISSING_ZH@))
                &&& feed is Some && no_provider(feed->0) ==> bad(
                    say(l, NO_PROVIDER_EN@, NO_PROVIDER_ZH@),
                )
                &&& holds_text(feed, "MV probe"@) && holds_text(feed, "0% non-zero"@) ==> bad(
                    say(l, ZERO_VECTORS_EN@, ZERO_VECTORS_ZH@),
                )
                &&& holds_text(feed, "DLSS super sampling is not available"@) ==> bad(
                    say(l, UNAVAILABLE_EN@, UNAVAILABLE_ZH@),
                )
            }
        }),
{
    lemma_line_holds(rs, "Failed to load add-on"@, "renodx-dlss5"@);
    let d = diagnosis(l, st, s);
    assert forall|n: Note|
        n == addon_note(l, st, rs) || #[trigger] model_ran_notes(l, st, rs).contains(n)
            || feeder_notes(l, st, s).contains(n) implies d.contains(n) by {
        lemma_parts(l, st, s, rs, n);
    }
    assert(d.contains(addon_note(l, st, rs))) by {
        lemma_parts(l, st, s, rs, addon_note(l, st, rs));
    }
    if no_call(st, rs) {
        let t = if st.api == Api::Dx11 && !st.bridge {
            say(l, NO_BRIDGE_EN@, NO_BRIDGE_ZH@)
        } else {
            say(l, NO_CALL_EN@, NO_CALL_ZH@)
        };
        assert(model_ran_notes(l, st, rs).contains(Note { level: Level::Bad, text: t })) by {
            lemma_has();
        }
    }
    if st.mode == Mode::Feeder {
        lemma_feeder_failures(l, st, s, rs);
    }
}

proof fn lemma_feeder_failures(l: Lang, st: GameStatus, s: Session, rs: Seq<char>)
    requires
        is_log(st, s, rs),
        st.mode == Mode::Feeder,
    ensures
        ({
            let d = diagnosis(l, st, s);
            let bad = |t: Seq<char>| d.contains(Note { level: Level::Bad, text: t });
            let feed = opt_text(s.feed_log);
            &&& feed is None ==> bad(say(l, NO_FEED_LOG_EN@, NO_FEED_LOG_ZH@))
            &&& holds_text(feed, "technique MISSING"@) && !holds_text(
                feed,
                "technique found"@,
            ) ==> bad(say(l, FX_MISSING_EN@, FX_MISSING_ZH@))
            &&& feed is Some && no_provider(feed->0) ==> bad(
                say(l, NO_PROVIDER_EN@, NO_PROVIDER_ZH@),
            )
            &&& holds_text(feed, "MV probe"@) && holds_text(feed, "0% non-zero"@) ==> bad(
                say(l, ZERO_VECTORS_EN@, ZERO_VECTORS_ZH@),
            )
            &&& holds_text(feed, "DLSS super sampling is not available"@) ==> bad(
                say(l, UNAVAILABLE_EN@, UNAVAILABLE_ZH@),
            )
        }),
{
    let d = diagnosis(l, st, s);
    let texts = seq![
        say(l, NO_FEED_LOG_EN@, NO_FEED_LOG_ZH@),
        say(l, FX_MISSING_EN@, FX_MISSING_ZH@),
        say(l, NO_PROVIDER_EN@, NO_PROVIDER_ZH@),
        say(l, ZERO_VECTORS_EN@, ZERO_VECTORS_ZH@),
        say(l, UNAVAILABLE_EN@, UNAVAILABLE_ZH@),
    ];
    assert forall|i: int| 0 <= i < texts.len() && bad_reason(
        st,
        s,
        rs,
        if i == 0 {
            10
        } else if i == 1 {
            8
        } else if i == 2 {
            9
        } else {
            i + 8
        },
    ) implies d.contains(Note { level: Level::Bad, text: #[trigger] texts[i] }) by {
        let n = Note { level: Level::Bad, text: texts[i] };
        lemma_parts(l, st, s, rs, n);
        lemma_has();
        if let Some(fd) = opt_text(s.feed_log) {
            lemma_feeder_parts(l, st, s, fd, n);
            lemma_provider(fd);
        }
    }
    assert(texts[0] == say(l, NO_FEED_LOG_EN@, NO_FEED_LOG_ZH@));
    assert(texts[1] == say(l, FX_MISSING_EN@, FX_MISSING_ZH@));
    assert(texts[2] == say(l, NO_PROVIDER_EN@, NO_PROVIDER_ZH@));
    assert(texts[3] == say(l, ZERO_VECTORS_EN@, ZERO_VECTORS_ZH@));
    assert(texts[4] == say(l, UNAVAILABLE_EN@, UNAVAILABLE_ZH@));
}

/// Without a ReShade log the diagnosis ends with that, as a failure: for a
/// 32-bit game it is the log in `host64` that is missed.
pub proof fn law_missing_log_is_named(l: Lang, st: GameStatus, s: Session)
    requires
        ({
            let logs = if st.bitness == 32 {
                s.host_logs
            } else {
                s.game_logs
            };
            logs.reshade is None && logs.reshade2 is None
        }),
    ensures
        diagnosis(l, st, s).len() > 0,
        diagnosis(l, st, s).last() == (Note {
            level: Level::Bad,
            text: if st.bitness == 32 {
                say(l, NO_HOST_LOG_EN@, NO_HOST_LOG_ZH@)
            } else {
                say(l, NO_LOG_EN@, NO_LOG_ZH@)
            },
        }),
{
}

// ── what a finding quotes ──────────────────────────────────────────

/// Where the feeder stopped itself, its last word on that is quoted.
pub proof fn law_last_stop_of_the_feeder_is_quoted(
    l: Lang,
    st: GameStatus,
    s: Session,
    rs: Seq<char>,
    fd: Seq<char>,
    i: int,
)
    requires
        is_log(st, s, rs),
        st.mode == Mode::Feeder,
        opt_text(s.feed_log) == Some(fd),
        0 <= i < lines(fd).len(),
        contains(lines(fd)[i], "stopped:"@),
        contains(fd, "stopped:"@),
        forall|j: int| i < j < lines(fd).len() ==> !contains(#[trigger] lines(fd)[j], "stopped:"@),
    ensures
        diagnosis(l, st, s).contains(
            Note {
                level: Level::Bad,
                text: fill(
                    say(l, FEED_STOPPED_EN@, FEED_STOPPED_ZH@),
                    seq![trim(lines(fd)[i])],
                ),
            },
        ),
{
    let n = Note {
        level: Level::Bad,
        text: fill(say(l, FEED_STOPPED_EN@, FEED_STOPPED_ZH@), seq![trim(lines(fd)[i])]),
    };
    lemma_parts(l, st, s, rs, n);
    lemma_feeder_parts(l, st, s, fd, n);
    let f = |t: Seq<char>| contains(t, "stopped:"@);
    assert forall|j: int| i < j < lines(fd).len() implies !f(#[trigger] lines(fd)[j]) by {
        assert(!contains(lines(fd)[j], "stopped:"@));
    }
    lemma_last_is(lines(fd), f, i);
    assert(feed_fault_notes(l, fd).contains(n)) by {
        lemma_has();
    }
}

/// Where the bridge stopped, its last word on that is quoted.
pub proof fn law_last_stop_of_the_bridge_is_quoted(
    l: Lang,
    st: GameStatus,
    s: Session,
    rs: Seq<char>,
    bl: Seq<char>,
    i: int,
)
    requires
        is_log(st, s, rs),
        opt_text(s.bridge_log) == Some(bl),
        0 <= i < lines(bl).len(),
        contains(lines(bl)[i], "stopped:"@),
        forall|j: int| i < j < lines(bl).len() ==> !contains(#[trigger] lines(bl)[j], "stopped:"@),
    ensures
        diagnosis(l, st, s).contains(
            Note {
                level: Level::Bad,
                text: fill(
                    say(l, BRIDGE_STOPPED_EN@, BRIDGE_STOPPED_ZH@),
                    seq![trim(lines(bl)[i])],
                ),
            },
        ),
{
    let n = Note {
        level: Level::Bad,
        text: fill(say(l, BRIDGE_STOPPED_EN@, BRIDGE_STOPPED_ZH@), seq![trim(lines(bl)[i])]),
    };
    lemma_parts(l, st, s, rs, n);
    let f = |t: Seq<char>| contains(t, "stopped:"@);
    assert forall|j: int| i < j < lines(bl).len() implies !f(#[trigger] lines(bl)[j]) by {
        assert(!contains(lines(bl)[j], "stopped:"@));
    }
    lemma_last_is(lines(bl), f, i);
    assert(bridge_notes(l, s).contains(n)) by {
        lemma_has();
    }
}

/// Where the bridge could not create its device for want of a newer D3D12
/// redistributable, the line is quoted, with where the one in force is.
pub proof fn law_old_redistributable_is_named(
    l: Lang,
    st: GameStatus,
    s: Session,
    rs: Seq<char>,
    bl: Seq<char>,
    i: int,
)
    requires
        is_log(st, s, rs),
        opt_text(s.bridge_log) == Some(bl),
        0 <= i < lines(bl).len(),
        contains(lines(bl)[i], "D3D12CreateDevice failed 0x887E0003"@),
        forall|j: int|
            0 <= j < i ==> !contains(
                #[trigger] lines(bl)[j],
                "D3D12CreateDevice failed 0x887E0003"@,
            ),
    ensures
        ({
            let version = match s.redist_version {
                Some(v) => v@,
                None => say(l, NO_VERSION_EN@, NO_VERSION_ZH@),
            };
            let place = match s.redist {
                Some(p) => fill(
                    say(l, REDIST_HERE_EN@, REDIST_HERE_ZH@),
                    seq![p@, version],
                ),
                None => say(l, REDIST_NONE_EN@, REDIST_NONE_ZH@),
            };
            diagnosis(l, st, s).contains(
                Note {
                    level: Level::Bad,
                    text: fill(say(l, REDIST_EN@, REDIST_ZH@), seq![trim(lines(bl)[i]), place]),
                },
            )
        }),
{
    let word = "D3D12CreateDevice failed 0x887E0003"@;
    let f = |t: Seq<char>| contains(t, word) && contains(t, word) && contains(t, word);
    assert forall|j: int| 0 <= j < i implies !f(#[trigger] lines(bl)[j]) by {
        assert(!contains(lines(bl)[j], word));
    }
    lemma_first_is(lines(bl), f, i);
    let version = match s.redist_version {
        Some(v) => v@,
        None => say(l, NO_VERSION_EN@, NO_VERSION_ZH@),
    };
    assert(or_text(opt_text(s.redist_version), say(l, NO_VERSION_EN@, NO_VERSION_ZH@)) == version);
    assert(redist_text(l, s) == match s.redist {
        Some(p) => fill(say(l, REDIST_HERE_EN@, REDIST_HERE_ZH@), seq![p@, version]),
        None => say(l, REDIST_NONE_EN@, REDIST_NONE_ZH@),
    });
    let n = Note {
        level: Level::Bad,
        text: fill(say(l, REDIST_EN@, REDIST_ZH@), seq![trim(lines(bl)[i]), redist_text(l, s)]),
    };
    lemma_parts(l, st, s, rs, n);
    assert(bridge_notes(l, s).contains(n)) by {
        lemma_has();
    }
}

/// Where effects do not compile in a compiler that is too old, the line that
/// says so is quoted.
pub proof fn law_old_compiler_is_quoted(
    l: Lang,
    st: GameStatus,
    s: Session,
    rs: Seq<char>,
    i: int,
)
    requires
        is_log(st, s, rs),
        0 <= i < lines(rs).len(),
        contains(lines(rs)[i], "X3506"@) || contains(
            lines(rs)[i],
            "unrecognized compiler target"@,
        ),
        forall|j: int|
            0 <= j < i ==> !contains(#[trigger] lines(rs)[j], "X3506"@) && !contains(
                lines(rs)[j],
                "unrecognized compiler target"@,
            ),
    ensures
        diagnosis(l, st, s).contains(
            Note {
                level: Level::Bad,
                text: fill(
                    say(l, OLD_COMPILER_EN@, OLD_COMPILER_ZH@),
                    seq![trim(lines(rs)[i])],
                ),
            },
        ),
{
    let (a, b) = ("X3506"@, "unrecognized compiler target"@);
    let f = |t: Seq<char>| contains(t, a) || contains(t, b);
    assert forall|j: int| 0 <= j < i implies !f(#[trigger] lines(rs)[j]) by {
        assert(!contains(lines(rs)[j], a));
    }
    lemma_first_is(lines(rs), f, i);
    let n = Note {
        level: Level::Bad,
        text: fill(say(l, OLD_COMPILER_EN@, OLD_COMPILER_ZH@), seq![trim(lines(rs)[i])]),
    };
    lemma_parts(l, st, s, rs, n);
    assert(effect_notes(l, st, s, rs).contains(n)) by {
        lemma_has();
    }
}

proof fn lemma_refusal_quoted(l: Lang, log: Seq<char>, prefers: bool, s: Session, i: int)
    requires
        0 <= i < lines(log).len(),
        contains(lines(log)[i], "NVSDK_NGX"@),
        contains(lines(log)[i], "Init"@),
        contains(lines(log)[i], "0xBAD00001"@),
        forall|j: int|
            0 <= j < i ==> !(contains(#[trigger] lines(log)[j], "NVSDK_NGX"@) && contains(
                lines(log)[j],
                "Init"@,
            ) && contains(lines(log)[j], "0xBAD00001"@)),
    ensures
        refusal_notes(l, log, prefers, s).contains(
            Note {
                level: Level::Bad,
                text: fill(
                    say(l, REFUSED_EN@, REFUSED_ZH@),
                    seq![
                        trim(lines(log)[i]),
                        system_text(l, s.ngx),
                        if ngx_healthy(s.ngx) {
                            say(l, ADVICE_FEEDER_EN@, ADVICE_FEEDER_ZH@)
                        } else {
                            say(l, ADVICE_DRIVER_EN@, ADVICE_DRIVER_ZH@)
                        },
                    ],
                ),
            },
        ),
        s.hybrid ==> refusal_notes(l, log, prefers, s).contains(
            Note {
                level: Level::Bad,
                text: fill(
                    say(l, HYBRID_EN@, HYBRID_ZH@),
                    seq![
                        join(texts(s.adapters@), ", "@),
                        if prefers {
                            say(l, HIGH_NOTE_EN@, HIGH_NOTE_ZH@)
                        } else {
                            Seq::empty()
                        },
                    ],
                ),
            },
        ),
{
    let (a, b, c) = ("NVSDK_NGX"@, "Init"@, "0xBAD00001"@);
    let f = |t: Seq<char>| contains(t, a) && contains(t, b) && contains(t, c);
    assert forall|j: int| 0 <= j < i implies !f(#[trigger] lines(log)[j]) by {
        assert(!(contains(lines(log)[j], a) && contains(lines(log)[j], b) && contains(
            lines(log)[j],
            c,
        )));
    }
    lemma_first_is(lines(log), f, i);
    lemma_has();
}

/// Where NGX refused to initialise, in the game (`in_host` is false) or in the
/// helper, the first line that says so is quoted with the state of NGX and what
/// to do about it. On a hybrid machine the cards are named too, and whether
/// Windows prefers the strong one for that very process.
pub proof fn law_ngx_refusal_is_quoted(
    l: Lang,
    st: GameStatus,
    s: Session,
    rs: Seq<char>,
    in_host: bool,
    log: Seq<char>,
    i: int,
)
    requires
        is_log(st, s, rs),
        st.mode == Mode::Feeder,
        s.feed_log is Some,
        opt_text(
            if in_host {
                s.host_log
            } else {
                s.feed_log
            },
        ) == Some(log),
        0 <= i < lines(log).len(),
        contains(lines(log)[i], "NVSDK_NGX"@),
        contains(lines(log)[i], "Init"@),
        contains(lines(log)[i], "0xBAD00001"@),
        forall|j: int|
            0 <= j < i ==> !(contains(#[trigger] lines(log)[j], "NVSDK_NGX"@) && contains(
                lines(log)[j],
                "Init"@,
            ) && contains(lines(log)[j], "0xBAD00001"@)),
    ensures
        ({
            let prefers = if in_host {
                s.host_prefers
            } else {
                s.game_prefers
            };
            &&& diagnosis(l, st, s).contains(
                Note {
                    level: Level::Bad,
                    text: fill(
                        say(l, REFUSED_EN@, REFUSED_ZH@),
                        seq![
                            trim(lines(log)[i]),
                            system_text(l, s.ngx),
                            if ngx_healthy(s.ngx) {
                                say(l, ADVICE_FEEDER_EN@, ADVICE_FEEDER_ZH@)
                            } else {
                                say(l, ADVICE_DRIVER_EN@, ADVICE_DRIVER_ZH@)
                            },
                        ],
                    ),
                },
            )
            &&& s.hybrid ==> diagnosis(l, st, s).contains(
                Note {
                    level: Level::Bad,
                    text: fill(
                        say(l, HYBRID_EN@, HYBRID_ZH@),
                        seq![
                            join(texts(s.adapters@), ", "@),
                            if prefers {
                                say(l, HIGH_NOTE_EN@, HIGH_NOTE_ZH@)
                            } else {
                                Seq::empty()
                            },
                        ],
                    ),
                },
            )
        }),
{
    let fd = opt_text(s.feed_log)->0;
    let prefers = if in_host {
        s.host_prefers
    } else {
        s.game_prefers
    };
    lemma_refusal_quoted(l, log, prefers, s, i);
    assert forall|n: Note| #[trigger]
        refusal_notes(l, log, prefers, s).contains(n) implies diagnosis(l, st, s).contains(n) by {
        lemma_parts(l, st, s, rs, n);
        lemma_feeder_parts(l, st, s, fd, n);
        if in_host {
            assert(helper_notes(l, st, s).contains(n)) by {
                lemma_helper_refusal(l, st, s, n);
            }
        }
    }
}

proof fn lemma_helper_refusal(l: Lang, st: GameStatus, s: Session, n: Note)
    requires
        s.host_log is Some,
        refusal_notes(l, opt_text(s.host_log)->0, s.host_prefers, s).contains(n),
    ensures
        helper_notes(l, st, s).contains(n),
{
    let hl = opt_text(s.host_log)->0;
    let r = refusal_notes(l, hl, s.host_prefers, s);
    let k = choose|k: int| 0 <= k < r.len() && r[k] == n;
    let a = crate::diagnose::when(
        contains(hl, "feature ready"@),
        Level::Good,
        say(l, HOST_READY_EN@, HOST_READY_ZH@),
    );
    assert((a + r)[a.len() + k] == n);
}

/// A feeder is called old exactly where the version in its log is below the one
/// that is current, number by number.
pub proof fn law_old_feeder_is_named(
    l: Lang,
    st: GameStatus,
    s: Session,
    rs: Seq<char>,
    fd: Seq<char>,
    v: Seq<char>,
)
    requires
        is_log(st, s, rs),
        st.mode == Mode::Feeder,
        opt_text(s.feed_log) == Some(fd),
        feed_version(fd) == Some(v),
    ensures
        diagnosis(l, st, s).contains(
            Note {
                level: Level::Warn,
                text: fill(say(l, OLD_FEEDER_EN@, OLD_FEEDER_ZH@), seq![v, "0.12.0"@]),
            },
        ) <==> numbers_less(version_numbers(v), seq![0nat, 12, 0]),
{
    let t = fill(say(l, OLD_FEEDER_EN@, OLD_FEEDER_ZH@), seq![v, "0.12.0"@]);
    let n = Note { level: Level::Warn, text: t };
    lemma_current();
    lemma_parts(l, st, s, rs, n);
    lemma_feeder_parts(l, st, s, fd, n);
    if numbers_less(version_numbers(v), seq![0nat, 12, 0]) {
        assert(old_feeder_notes(l, fd).contains(n)) by {
            lemma_has();
        }
    } else {
        law_warnings_have_their_reason(l, st, s, rs);
        assert(is_filled(t, say(l, OLD_FEEDER_EN@, OLD_FEEDER_ZH@)));
        assert(old_feeder_notes(l, fd).len() == 0);
    }
}

proof fn lemma_current()
    ensures
        version_numbers("0.12.0"@) == seq![0nat, 12, 0],
{
    reveal_strlit("0.12.0");
    let v = "0.12.0"@;
    reveal_with_fuel(split, 7);
    assert(v.drop_last() =~= seq!['0', '.', '1', '2', '.']);
    assert(seq!['0', '.', '1', '2', '.'].drop_last() =~= seq!['0', '.', '1', '2']);
    assert(seq!['0', '.', '1', '2'].drop_last() =~= seq!['0', '.', '1']);
    assert(seq!['0', '.', '1'].drop_last() =~= seq!['0', '.']);
    assert(seq!['0', '.'].drop_last() =~= seq!['0']);
    assert(seq!['0'].drop_last() =~= Seq::<char>::empty());
    assert(split(v, '.', '-') =~~= seq![seq!['0'], seq!['1', '2'], seq!['0']]);
    reveal_with_fuel(digits_value, 3);
    assert(seq!['1', '2'].drop_last() =~= seq!['1']);
    assert(seq!['1'].drop_last() =~= Seq::<char>::empty());
    assert(digits_value(seq!['0']) == 0);
    assert(digits_value(seq!['1', '2']) == 12);
    assert(version_numbers(v) =~= seq![0nat, 12, 0]);
}

/// Where ReShade loaded into another exe than the one it was installed for, both
/// are named.
pub proof fn law_other_exe_is_named(
    l: Lang,
    st: GameStatus,
    s: Session,
    rs: Seq<char>,
    loaded: Seq<char>,
    ours: Seq<char>,
)
    requires
        is_log(st, s, rs),
        st.bitness != 32,
        host_exe(rs) == Some(loaded),
        opt_text(st.exe_name) == Some(ours),
        lower(ours) != lower(loaded),
    ensures
        diagnosis(l, st, s).contains(
            Note {
                level: Level::Warn,
                text: fill(
                    say(l, OTHER_EXE_EN@, OTHER_EXE_ZH@),
                    seq![loaded, ours, loaded],
                ),
            },
        ),
{
    let n = Note {
        level: Level::Warn,
        text: fill(say(l, OTHER_EXE_EN@, OTHER_EXE_ZH@), seq![loaded, ours, loaded]),
    };
    lemma_parts(l, st, s, rs, n);
    assert(other_exe_notes(l, st, rs).contains(n)) by {
        lemma_has();
    }
}

/// Which build of the model is installed is told where its version is known: of
/// the one beside the exe, or else of the one beside the add-on.
pub proof fn law_model_is_named(l: Lang, st: GameStatus, s: Session, rs: Seq<char>, v: Seq<char>)
    requires
        is_log(st, s, rs),
        opt_text(
            if s.model {
                s.model_version
            } else {
                s.consumer_model_version
            },
        ) == Some(v),
        s.model || s.consumer_model,
    ensures
        diagnosis(l, st, s).contains(
            Note {
                level: Level::Good,
                text: fill(
                    say(l, MODEL_EN@, MODEL_ZH@),
                    seq![
                        if !s.model && st.bitness == 32 {
                            say(l, IN_HOST_EN@, IN_HOST_ZH@)
                        } else {
                            say(l, BESIDE_EN@, BESIDE_ZH@)
                        },
                        v,
                        build_text(l, v),
                    ],
                ),
            },
        ),
{
    let place = if !s.model && st.bitness == 32 {
        say(l, IN_HOST_EN@, IN_HOST_ZH@)
    } else {
        say(l, BESIDE_EN@, BESIDE_ZH@)
    };
    let n = Note {
        level: Level::Good,
        text: fill(say(l, MODEL_EN@, MODEL_ZH@), seq![place, v, build_text(l, v)]),
    };
    lemma_parts(l, st, s, rs, n);
    assert(model_notes(l, st, s).contains(n)) by {
        lemma_has();
    }
}

/// Behind the words, in a code and its end, the words do not occur again.
proof fn lemma_no_later(p: Seq<char>, code: Seq<char>, m: int)
    requires
        all_digits(code),
        m > p.len(),
    ensures
        !occurs_at(p + "error code "@ + code + seq!['!'], "error code "@, m),
{
    reveal_strlit("error code ");
    let e = "error code "@;
    let line = p + e + code + seq!['!'];
    let k = p.len() as int;
    if occurs_at(line, e, m) {
        let t = line.subrange(m, m + 11);
        assert(t[0] == 'e' && t[1] == 'r');
        assert(line[m] == 'e' && line[m + 1] == 'r');
        if m < k + 11 {
            assert(line[m] == e[m - k]);
            assert(m - k == 9);
            assert(line[m + 1] == e[10]);
        } else {
            assert(line[m] == code[m - k - 11]);
            assert(is_digit(code[m - k - 11]));
        }
    }
}

/// The characters behind the last `error code ` of a line that ends with a code
/// and an exclamation mark are that code.
proof fn lemma_code(p: Seq<char>, code: Seq<char>)
    requires
        code.len() > 0,
        all_digits(code),
    ensures
        ({
            let line = p + "error code "@ + code + seq!['!'];
            trim_end_of(after_last(line, "error code "@), '!', '!') == code
        }),
{
    let e = "error code "@;
    let line = p + e + code + seq!['!'];
    let k = p.len() as int;
    let n = e.len() as int;
    assert(line.subrange(k, k + n) =~= e);
    assert(occurs_at(line, e, k));
    lemma_rfind_from(line, e, line.len() - n);
    let m = rfind(line, e)->0;
    if m > k {
        lemma_no_later(p, code, m);
    }
    assert(m == k);
    let t = code.push('!');
    assert(line.skip(k + n) =~= t);
    assert(is_digit(code[code.len() - 1]));
    lemma_trim_end_of(t, '!', '!', code.len() as int);
    assert(t.take(code.len() as int) =~= code);
}

/// The first line that holds both texts.
proof fn lemma_first_holding2(log: Seq<char>, a: Seq<char>, b: Seq<char>, i: int)
    requires
        0 <= i < lines(log).len(),
        contains(lines(log)[i], a),
        contains(lines(log)[i], b),
        forall|j: int|
            0 <= j < i ==> !(contains(#[trigger] lines(log)[j], a) && contains(lines(log)[j], b)),
    ensures
        line_holding3(log, a, b, b) == Some(lines(log)[i]),
{
    let f = |t: Seq<char>| contains(t, a) && contains(t, b) && contains(t, b);
    assert forall|j: int| 0 <= j < i implies !f(#[trigger] lines(log)[j]) by {
        assert(!(contains(lines(log)[j], a) && contains(lines(log)[j], b)));
    }
    lemma_first_is(lines(log), f, i);
}

/// What is told of an error code: that the process takes only signed libraries,
/// that the add-on's entry point failed, or nothing more.
pub open spec fn means(l: Lang, code: Seq<char>) -> Seq<char> {
    let en = l == Lang::En;
    if code == "2148073478"@ {
        if en {
            " (0x80090006 = the process refuses unsigned DLLs; nothing can be done)"@
        } else {
            "（0x80090006 = 进程拒绝未签名的 DLL；无能为力）"@
        }
    } else if code == "1114"@ {
        if en {
            " (the add-on's DLL entry point failed; usually a CPU without AVX2 or a mismatched ReShade version)"@
        } else {
            "（附加组件的 DLL 入口点失败；通常是 CPU 缺少 AVX2 或 ReShade 版本不匹配）"@
        }
    } else {
        Seq::empty()
    }
}

/// Where ReShade refused the add-on, that is told as a failure with the error
/// code of the first line that says so, and with what the code means.
pub proof fn law_refused_addon_is_told(
    l: Lang,
    st: GameStatus,
    s: Session,
    rs: Seq<char>,
    i: int,
    p: Seq<char>,
    code: Seq<char>,
)
    requires
        is_log(st, s, rs),
        0 <= i < lines(rs).len(),
        contains(lines(rs)[i], "Failed to load add-on"@),
        contains(lines(rs)[i], "renodx-dlss5"@),
        forall|j: int|
            0 <= j < i ==> !(contains(#[trigger] lines(rs)[j], "Failed to load add-on"@)
                && contains(lines(rs)[j], "renodx-dlss5"@)),
        lines(rs)[i] == p + "error code "@ + code + seq!['!'],
        code.len() > 0,
        all_digits(code),
    ensures
        diagnosis(l, st, s).contains(
            Note {
                level: Level::Bad,
                text: fill(
                    say(l, LOAD_FAILED_EN@, LOAD_FAILED_ZH@),
                    seq![code, means(l, code)],
                ),
            },
        ),
{
    let a = "Failed to load add-on"@;
    let b = "renodx-dlss5"@;
    let n = Note {
        level: Level::Bad,
        text: fill(say(l, LOAD_FAILED_EN@, LOAD_FAILED_ZH@), seq![code, means(l, code)]),
    };
    lemma_first_holding2(rs, a, b, i);
    lemma_code(p, code);
    assert(trim(code) == code) by {
        assert(is_digit(code[0]) && is_digit(code[code.len() - 1]));
        lemma_trim_is(code);
    }
    assert(addon_note(l, st, rs) == n);
    lemma_parts(l, st, s, rs, n);
}

/// Where the game refused a smaller work resolution, that is told as a failure.
pub proof fn law_refused_work_resolution_is_told(
    l: Lang,
    st: GameStatus,
    s: Session,
    rs: Seq<char>,
    fd: Seq<char>,
)
    requires
        is_log(st, s, rs),
        st.mode == Mode::Feeder,
        opt_text(s.feed_log) == Some(fd),
    ensures
        contains(fd, "work-resolution staging SRV failed"@) ==> diagnosis(l, st, s).contains(
            Note {
                level: Level::Bad,
                text: fill(
                    say(l, WORK_REFUSED_EN@, WORK_REFUSED_ZH@),
                    seq![work_share(l, fd)],
                ),
            },
        ),
        !some_line_holds(fd, "work resolution ("@, "work resolution ("@) && l == Lang::En ==> work_share(l, fd)
            == "below 100%"@,
        !some_line_holds(fd, "work resolution ("@, "work resolution ("@) && l == Lang::Zh ==> work_share(l, fd)
            == "低于 100%"@,
{
    let n = Note {
        level: Level::Bad,
        text: fill(say(l, WORK_REFUSED_EN@, WORK_REFUSED_ZH@), seq![work_share(l, fd)]),
    };
    lemma_parts(l, st, s, rs, n);
    lemma_feeder_parts(l, st, s, fd, n);
    if contains(fd, "work-resolution staging SRV failed"@) {
        assert(feed_fault_notes(l, fd).contains(n)) by {
            lemma_has();
        }
    }
    let w = "work resolution ("@;
    let f = |t: Seq<char>| contains(t, w) && contains(t, w) && contains(t, w);
    lemma_first_is_some(lines(fd), f);
    if line_holding3(fd, w, w, w) is Some {
        let k = choose|k: int| 0 <= k < lines(fd).len() && f(#[trigger] lines(fd)[k]);
        assert(contains(lines(fd)[k], w));
    }
}

// ── the exe that a log names ───────────────────────────────────────

/// A text behind a separator is the last field, where it holds none.
proof fn lemma_last_field(x: Seq<char>, sep: char, name: Seq<char>)
    requires
        sep == '\\' || sep == '/',
        forall|j: int| 0 <= j < name.len() ==> name[j] != '\\' && name[j] != '/',
    ensures
        split(x.push(sep) + name, '\\', '/') == split(x, '\\', '/').push(name),
        split(x, '\\', '/').len() > 0,
    decreases name.len(),
{
    let s = x.push(sep) + name;
    lemma_some_field(x);
    if name.len() == 0 {
        assert(s =~= x.push(sep));
        assert(s.drop_last() =~= x);
        assert(name =~= Seq::empty());
    } else {
        let n = name.drop_last();
        lemma_last_field(x, sep, n);
        assert(s.drop_last() =~= x.push(sep) + n);
        assert(s.last() == name.last());
        let f = split(x.push(sep) + n, '\\', '/');
        assert(f.drop_last() =~= split(x, '\\', '/'));
        assert(n.push(name.last()) =~= name);
    }
}

/// There is a first field, and it is not empty where the text does not start with
/// a separator.
proof fn lemma_some_field(x: Seq<char>)
    ensures
        split(x, '\\', '/').len() > 0,
        x.len() > 0 && x[0] != '\\' && x[0] != '/' ==> split(x, '\\', '/')[0].len() > 0,
    decreases x.len(),
{
    if x.len() > 0 {
        lemma_some_field(x.drop_last());
        if x.len() == 1 {
            assert(x.drop_last() =~= Seq::empty());
        }
    }
}

/// The exe that a path on a drive ends with is what follows its last separator, a
/// slash or a backslash.
pub proof fn law_exe_follows_the_last_separator(dir: Seq<char>, sep: char, name: Seq<char>)
    requires
        dir.len() >= 2,
        'a' <= dir[0] <= 'z' || 'A' <= dir[0] <= 'Z',
        dir[1] == ':',
        sep == '\\' || sep == '/',
        name.len() > 0,
        name != "."@,
        name != ".."@,
        forall|j: int| 0 <= j < name.len() ==> name[j] != '\\' && name[j] != '/',
    ensures
        path_file_name(dir.push(sep) + name) == Some(name),
{
    let path = dir.push(sep) + name;
    reveal_strlit(r"\\?\");
    assert(path[0] == dir[0] && path[1] == ':');
    if is_verbatim(path) {
        assert(path.subrange(0, 4)[0] == '\\');
    }
    lemma_some_field(path);
    let x = dir.skip(2);
    assert(path.skip(2) =~= x.push(sep) + name);
    lemma_last_field(x, sep, name);
    let u = split(x, '\\', '/');
    assert(!has_share(split(path, '\\', '/')));
    assert(without_drive(path) == path.skip(2));
    assert(parts_behind_prefix(path) == u.push(name));
    lemma_last_part(u, is_verbatim(path), name);
}

proof fn lemma_last_part(u: Seq<Seq<char>>, verbatim: bool, name: Seq<char>)
    requires
        name.len() > 0,
        name != "."@,
    ensures
        path_parts(u.push(name), verbatim) == path_parts(u, verbatim).push(name),
{
    let f = |p: Seq<char>| p.len() > 0 && (verbatim || p != "."@);
    let v = u.push(name);
    reveal(Seq::filter);
    assert(v.drop_last() =~= u);
    assert(f(v.last()));
    assert(v.filter(f) == u.filter(f).push(name));
}

} // verus!
