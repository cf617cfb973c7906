//! The texts of the findings. `{}` marks where an argument goes.
use vstd::prelude::*;

verus! {

/// Several GPU vendors: the adapters, and whether the preference is set.
pub const HYBRID_EN: &'static str =
    "More than one GPU vendor on this machine ({}), and Windows decides which one              a process starts on. Started on the integrated GPU, NGX does not exist and              every Init answers 0xBAD00001 — this is the most likely cause here{}.              Settings ▸ System ▸ Display ▸ Graphics ▸ Add a desktop app ▸ pick the game's exe              (and, for a 32-bit game, host64\\dlss5-feed-host64.exe) ▸ Options ▸ High performance.              Install sets that for you from this version on.";

pub const HYBRID_ZH: &'static str =
    "此机器上有多于一个 GPU 厂商（{}），由 Windows 决定进程在哪个 GPU 上启动。若在内置 GPU 上启动，NGX 不存在，每次 Init 都会返回 0xBAD00001 —— 这是此处最可能的原因{}。设置 ▸ 系统 ▸ 显示 ▸ 图形 ▸ 添加桌面应用 ▸ 选择游戏 exe（32 位游戏还需 host64\\dlss5-feed-host64.exe）▸ 选项 ▸ 高性能。从本版本起安装会自动为你设置。";

/// NGX itself is fine.
pub const ADVICE_FEEDER_EN: &'static str =
    "Your NGX runtime and driver are fine, so this is NGX refusing the Feeder's private          D3D12 device inside the game process, which has been reported on several machines.          Worth doing: install into a game that ships its own DLSS (that path opens no private          device) to confirm NGX works for you, then report this log at          github.com/jlrouzies-fr/DLSS5-Feeder, where that device is created.";

pub const ADVICE_FEEDER_ZH: &'static str =
    "你的 NGX 运行时和驱动都没问题，因此这是 NGX 拒绝了 Feeder 在游戏进程内创建的私有 D3D12 设备，多台机器上都有报告。值得一试：装进一个自带 DLSS 的游戏（该路径不创建私有设备）以确认 NGX 对你有用，然后在 github.com/jlrouzies-fr/DLSS5-Feeder 报告这份日志（该设备就是在这里创建的）。";

/// NGX is not fine.
pub const ADVICE_DRIVER_EN: &'static str =
    "Fix that first, then run Install again: reinstall the NVIDIA driver with a Custom          install that keeps every component (616.56 or newer).";

pub const ADVICE_DRIVER_ZH: &'static str =
    "先修好它，再重新安装：用自定义安装重装 NVIDIA 驱动并保留所有组件（616.56 或更新）。";

/// The line of the log, what the system says, the advice.
pub const REFUSED_EN: &'static str =
    "NGX refused to initialise: {}. 0xBAD00001 is FeatureNotSupported, which NGX also          answers when its runtime is not on the system — not a ReShade, shader or add-on          problem. {}. {}";

pub const REFUSED_ZH: &'static str =
    "NGX 拒绝初始化：{}。0xBAD00001 是 FeatureNotSupported，当系统没有 NGX 运行时时 NGX 也会这样返回 —— 这不是 ReShade、着色器或附加组件的问题。{}。{}";

/// The version of the compiler.
pub const COMPILER_EN: &'static str =
    "The game ships its own d3dcompiler_47.dll ({}), which Windows loads instead of \
             System32's. If it predates shader model 5.1 the DLSS 5 pass cannot compile \
             (error X3506). Rename it to d3dcompiler_47.dll.bak and start the game again; \
             almost every game runs fine on the system copy.";

pub const COMPILER_ZH: &'static str =
    "游戏自带 d3dcompiler_47.dll（{}），Windows 会优先加载它而不是 System32 的版本。如果它早于着色器模型 5.1，DLSS 5 通道就无法编译（错误 X3506）。请将其重命名为 d3dcompiler_47.dll.bak 再启动游戏；几乎所有游戏都能用系统版本正常运行。";

/// Where the model is, its version, which build that is.
pub const MODEL_EN: &'static str =
    "DLSS 5 model {}: {} — {}";

pub const MODEL_ZH: &'static str =
    "DLSS 5 模型 {}：{} —— {}";

pub const BESIDE_EN: &'static str =
    "beside the exe";

pub const BESIDE_ZH: &'static str =
    "在 exe 旁";

pub const IN_HOST_EN: &'static str =
    "in host64";

pub const IN_HOST_ZH: &'static str =
    "在 host64 中";

pub const NO_HOST_LOG_EN: &'static str =
    "No host64\\ReShade.log: the 64-bit helper's ReShade never loaded, which is what \
             \"host lost: pipe never appeared\" in dlss5-feed.log means. Look in \
             host64\\dlss5-feed-host.log for the reason, and check antivirus did not remove \
             anything from host64\\.";

pub const NO_HOST_LOG_ZH: &'static str =
    "没有 host64\\ReShade.log：64 位助手的 ReShade 从未加载，dlss5-feed.log 中的 \"host lost: pipe never appeared\" 就是这个意思。请在 host64\\dlss5-feed-host.log 中查看原因，并确认杀毒软件没有从 host64\\ 中删掉任何东西。";

pub const NO_LOG_EN: &'static str =
    "No ReShade.log next to the game exe: ReShade never loaded. Either the game was not \
             started since the install, or it does not load dxgi.dll (wrong exe picked, or a \
             launcher starts a different one). Check the exe with --check.";

pub const NO_LOG_ZH: &'static str =
    "游戏 exe 旁没有 ReShade.log：ReShade 从未加载。要么安装后游戏没有启动过，要么它不加载 dxgi.dll（选错了 exe，或启动器启动的是另一个）。请用 --check 检查该 exe。";

pub const LOADED_EN: &'static str =
    "ReShade loaded into the game.";

pub const LOADED_ZH: &'static str =
    "ReShade 已加载到游戏中。";

pub const UNSIGNED_EN: &'static str =
    " (0x80090006 = the process refuses unsigned DLLs; nothing can be done)";

pub const UNSIGNED_ZH: &'static str =
    "（0x80090006 = 进程拒绝未签名的 DLL；无能为力）";

pub const ENTRY_EN: &'static str =
    " (the add-on's DLL entry point failed; usually a CPU without AVX2 or a mismatched ReShade version)";

pub const ENTRY_ZH: &'static str =
    "（附加组件的 DLL 入口点失败；通常是 CPU 缺少 AVX2 或 ReShade 版本不匹配）";

/// The error code, what it means.
pub const LOAD_FAILED_EN: &'static str =
    "ReShade refused to load renodx-dlss5.addon64, error code {}{}.";

pub const LOAD_FAILED_ZH: &'static str =
    "ReShade 拒绝加载 renodx-dlss5.addon64，错误码 {}{}。";

pub const REGISTERED_EN: &'static str =
    "The DLSS 5 Neural Rendering add-on registered.";

pub const REGISTERED_ZH: &'static str =
    "DLSS 5 神经渲染附加组件已注册。";

/// Where the add-on should be.
pub const NEVER_EN: &'static str =
    "The DLSS 5 add-on never registered. renodx-dlss5.addon64 is missing from {}, disabled in ReShade's Add-ons tab, or quarantined by antivirus.";

pub const NEVER_ZH: &'static str =
    "DLSS 5 附加组件从未注册。renodx-dlss5.addon64 不在 {} 中、在 ReShade 的 Add-ons 标签页中被禁用，或被杀毒软件隔离。";

pub const HOST_PLACE_EN: &'static str =
    "host64\\ (where a 32-bit game's add-on lives)";

pub const HOST_PLACE_ZH: &'static str =
    "host64\\（32 位游戏的附加组件所在处）";

pub const GAME_PLACE_EN: &'static str =
    "the game folder";

pub const GAME_PLACE_ZH: &'static str =
    "游戏文件夹";

pub const TOGGLED_ON_EN: &'static str =
    "Neural rendering was toggled ON (F6).";

pub const TOGGLED_ON_ZH: &'static str =
    "神经渲染已开启（F6）。";

pub const TOGGLED_OFF_EN: &'static str =
    "The log's last F6 state may be OFF — press F6 in game and watch the add-on's panel.";

pub const TOGGLED_OFF_ZH: &'static str =
    "日志中最后一次 F6 状态可能是关闭 —— 请在游戏中按 F6 并观察附加组件面板。";

pub const RAN_EN: &'static str =
    "Neural rendering ran: the add-on evaluated the DLSS 5 model on real frames. If the \
             picture still looks unchanged, raise NR Intensity / Local Structure in its panel — \
             the default is subtle.";

pub const RAN_ZH: &'static str =
    "神经渲染已运行：附加组件在真实帧上评估了 DLSS 5 模型。如果画面仍无变化，请在其面板中调高 NR Intensity / Local Structure —— 默认效果很轻微。";

pub const SAW_DLSS_EN: &'static str =
    "The add-on saw the game's DLSS but has not evaluated the model yet (feature 18 never \
             created). Enable DLSS in the game's own graphics settings and enable neural rendering \
             in the add-on panel.";

pub const SAW_DLSS_ZH: &'static str =
    "附加组件看到了游戏的 DLSS，但尚未评估模型（feature 18 从未创建）。请在游戏自身的图形设置中开启 DLSS，并在附加组件面板中开启神经渲染。";

pub const STRAY_FEEDER_EN: &'static str =
    "Mode is Native DLSS (game ships its own DLSS), but dlss5-feed.addon64 is still \
                 present. Feeder Optimize does not apply here — NR is game/renodx. Run Remove \
                 (incl. Feeder leftovers) or Install again so Native cleanup drops the Feeder.";

pub const STRAY_FEEDER_ZH: &'static str =
    "模式为原生 DLSS（游戏自带 DLSS），但 dlss5-feed.addon64 仍然存在。Feeder 的 Optimize 在这里不适用 —— 神经渲染由游戏/renodx 负责。请运行「移除」（含 Feeder 残留）或重新安装，让原生清理去掉 Feeder。";

pub const NO_BRIDGE_EN: &'static str =
    "No NGX call was intercepted, and this is a Direct3D 11 game with its own \
                 DLSS: the add-on hooks the D3D12 NGX entry points, but the game calls the \
                 D3D11 ones, so it can never see them. The DX11 bridge covers exactly this \
                 and is not installed here — run Install on this exe.";

pub const NO_BRIDGE_ZH: &'static str =
    "没有拦截到 NGX 调用，而且这是一个自带 DLSS 的 Direct3D 11 游戏：附加组件挂钩的是 D3D12 NGX 入口点，但游戏调用的是 D3D11 入口点，因此它永远看不到。DX11 桥接正是为此而生，而这里没有安装 —— 请对此 exe 运行「安装」。";

pub const NO_CALL_EN: &'static str =
    "No NGX call was intercepted: this game's own DLSS never ran. Turn DLSS on \
                 in the game's graphics settings (the add-on hooks the game's DLSS calls; \
                 without them it has nothing to work with).";

pub const NO_CALL_ZH: &'static str =
    "没有拦截到 NGX 调用：此游戏自身的 DLSS 从未运行。请在游戏的图形设置中开启 DLSS（附加组件挂钩游戏的 DLSS 调用；没有它们就没有可用的东西）。";

/// The line of the log.
pub const WINE_EN: &'static str =
    "The effects failed to compile in Wine/Proton's own HLSL compiler: {} \
             That message comes from vkd3d-shader, which Wine's d3dcompiler_47.dll uses; \
             ReShade emits attributes it has not implemented. Install Microsoft's real \
             d3dcompiler_47 into the prefix — protontricks <appid> d3dcompiler_47, or \
             winetricks d3dcompiler_47 — and start the game again. If the game shipped its \
             own d3dcompiler_47.dll, leave it in place: under Proton it may be the only \
             working compiler there is.";

pub const WINE_ZH: &'static str =
    "特效在 Wine/Proton 自带的 HLSL 编译器中编译失败：{} 该消息来自 vkd3d-shader，Wine 的 d3dcompiler_47.dll 使用的就是它；ReShade 输出了它尚未实现的属性。请把微软真正的 d3dcompiler_47 安装到该前缀中 —— protontricks <appid> d3dcompiler_47，或 winetricks d3dcompiler_47 —— 然后重新启动游戏。如果游戏自带 d3dcompiler_47.dll，请保留它：在 Proton 下它可能是唯一能用的编译器。";

/// The line of the log.
pub const OLD_COMPILER_EN: &'static str =
    "{} — the HLSL compiler in this process is too old for the DLSS 5 pass. That is \
             a d3dcompiler_47.dll shipped with the game, loaded in preference to System32's. \
             Rename it (d3dcompiler_47.dll.bak) and start the game again.";

pub const OLD_COMPILER_ZH: &'static str =
    "{} —— 此进程中的 HLSL 编译器对 DLSS 5 通道来说太旧。这是游戏自带的 d3dcompiler_47.dll，被优先于 System32 的版本加载。请重命名（d3dcompiler_47.dll.bak）再启动游戏。";

/// The executable that was loaded into, the chosen one, the first again.
pub const OTHER_EXE_EN: &'static str =
    "ReShade loaded into {}, but this install was set up for {}. Those are \
                 different executables, and the install is tuned to the one you picked (the \
                 DX11 bridge in particular). Point the tool at {} and run Install again.";

pub const OTHER_EXE_ZH: &'static str =
    "ReShade 加载进了 {}，但本次安装是为 {} 配置的。这是两个不同的可执行文件，安装是针对你选择的那个调校的（尤其是 DX11 桥接）。请把工具指向 {} 再重新安装。";

/// The line of the log.
pub const BRIDGE_STOPPED_EN: &'static str =
    "The DX11 bridge stopped: {}";

pub const BRIDGE_STOPPED_ZH: &'static str =
    "DX11 桥接已停止：{}";

/// The path of the file, its version.
pub const REDIST_HERE_EN: &'static str =
    "The copy in force here is {} ({}). Rename it and start the game \
                         again: it falls back to the Windows runtime, which every device in \
                         the process can match. If the game will not start without it, verify \
                         the game files instead -- a D3D12Core.dll replaced or truncated by \
                         another tool gives exactly this error.";

pub const REDIST_HERE_ZH: &'static str =
    "此处生效的副本是 {}（{}）。请重命名它再启动游戏：它会回退到 Windows 运行时，进程中的每个设备都能匹配。如果没了它游戏无法启动，请改为校验游戏文件 —— 被其它工具替换或截断的 D3D12Core.dll 恰好会导致这个错误。";

pub const REDIST_NONE_EN: &'static str =
    "No D3D12Core.dll is next to the exe or in a D3D12 folder here, so the \
                         declaration points somewhere else or the file is missing outright. \
                         Verify the game files.";

pub const REDIST_NONE_ZH: &'static str =
    "exe 旁或这里的 D3D12 文件夹中没有 D3D12Core.dll，因此该声明指向别处或文件完全缺失。请校验游戏文件。";

/// The line of the log, where the file is.
pub const REDIST_EN: &'static str =
    "{} — 0x887E0003 is D3D12_ERROR_INVALID_REDIST: the executable declares its own \
                 DirectX 12 Agility SDK (D3D12SDKVersion/D3D12SDKPath exports), and until that \
                 declaration is satisfied no D3D12 device can be created in this process at \
                 all -- not the bridge's, not the game's. Not something this tool sets. {}";

pub const REDIST_ZH: &'static str =
    "{} —— 0x887E0003 是 D3D12_ERROR_INVALID_REDIST：可执行文件声明了自己的 DirectX 12 Agility SDK（D3D12SDKVersion/D3D12SDKPath 导出），在满足该声明之前，此进程中根本无法创建任何 D3D12 设备 —— 桥接的也不行，游戏的也不行。这不是本工具设置的。{}";

pub const BRIDGE_OK_EN: &'static str =
    "The DX11 bridge opened its D3D12 session and is delivering frames.";

pub const BRIDGE_OK_ZH: &'static str =
    "DX11 桥接已打开其 D3D12 会话并正在输出帧。";

pub const NO_FEED_LOG_EN: &'static str =
    "No dlss5-feed.log: DLSS5-Feeder never started. Its add-on is missing or disabled \
                 in ReShade's Add-ons tab.";

pub const NO_FEED_LOG_ZH: &'static str =
    "没有 dlss5-feed.log：DLSS5-Feeder 从未启动。其附加组件缺失，或在 ReShade 的 Add-ons 标签页中被禁用。";

pub const FEED_READY_EN: &'static str =
    "DLSS5-Feeder built its DLSS feature (feature ready … DLAA).";

pub const FEED_READY_ZH: &'static str =
    "DLSS5-Feeder 已构建其 DLSS 特性（feature ready … DLAA）。";

pub const DELIVERED_EN: &'static str =
    "Frames were delivered to the model.";

pub const DELIVERED_ZH: &'static str =
    "帧已交付给模型。";

pub const FX_MISSING_EN: &'static str =
    "DLSS5_Feed.fx is not compiling. Its shader files are missing from \
                 reshade-shaders\\Shaders — re-run Install.";

pub const FX_MISSING_ZH: &'static str =
    "DLSS5_Feed.fx 未能编译。其着色器文件从 reshade-shaders\\Shaders 中缺失 —— 请重新安装。";

pub const NO_PROVIDER_EN: &'static str =
    "The motion-vector provider is not enabled. In ReShade's Home tab enable \
                 \"LUMENITE: Kernel 2.0\" ABOVE \"DLSS5_Feed\", then reload effects.";

pub const NO_PROVIDER_ZH: &'static str =
    "运动矢量提供器未启用。请在 ReShade 的 Home 标签页中，把 \"LUMENITE: Kernel 2.0\" 启用在 \"DLSS5_Feed\" 上方，然后重新加载效果。";

pub const HOST_READY_EN: &'static str =
    "The host64 helper built its DLSS feature (feature ready … DLAA).";

pub const HOST_READY_ZH: &'static str =
    "host64 助手已构建其 DLSS 特性（feature ready … DLAA）。";

pub const NO_HOST_FEED_LOG_EN: &'static str =
    "No host64\\dlss5-feed-host.log yet: the 64-bit helper has not started. It is \
                 spawned by the first fed frame, so enable Lumenite_Kernel + DLSS5_Feed in \
                 ReShade's Home tab and play a moment first.";

pub const NO_HOST_FEED_LOG_ZH: &'static str =
    "还没有 host64\\dlss5-feed-host.log：64 位助手尚未启动。它由第一帧喂入时生成，因此请先在 ReShade 的 Home 标签页启用 Lumenite_Kernel + DLSS5_Feed 并玩一会儿。";

/// The version in the log, the current one.
pub const OLD_FEEDER_EN: &'static str =
    "DLSS5-Feeder {} in the log is older than {}; re-run Install \
                     to refresh it (since 0.9.1 an existing Feeder is updated).";

pub const OLD_FEEDER_ZH: &'static str =
    "日志中的 DLSS5-Feeder {} 比 {} 旧；请重新安装以刷新（自 0.9.1 起会更新已有的 Feeder）。";

pub const ZERO_VECTORS_EN: &'static str =
    "Motion vectors are all zero: the provider is enabled but writes nothing. Check \
                 that Lumenite_Kernel sits above DLSS5_Feed in the technique list.";

pub const ZERO_VECTORS_ZH: &'static str =
    "运动矢量全为零：提供器已启用但什么都没写。请检查 Lumenite_Kernel 是否位于技术列表中的 DLSS5_Feed 上方。";

pub const UNAVAILABLE_EN: &'static str =
    "NGX reported DLSS unavailable. nvngx_dlss.dll must sit next to the game exe — \
                 re-run Install, and make sure antivirus did not remove it.";

pub const UNAVAILABLE_ZH: &'static str =
    "NGX 报告 DLSS 不可用。nvngx_dlss.dll 必须放在游戏 exe 旁 —— 请重新安装，并确认杀毒软件没有删掉它。";

/// The share of the frame.
pub const WORK_REFUSED_EN: &'static str =
    "The feed could not build its textures at {} of the frame: \
                 \"work-resolution staging SRV failed\", three times, and then it stopped. This \
                 game does not accept the reduced work-resolution path. Set it back to full size \
                 — Settings ▸ Feeder knobs ▸ work_resolution = 100 and work_upscale = 0, or pick \
                 the High quality preset — and start the game again. Everything downstream of this \
                 (no DLSS create, the in-game toggle doing nothing) follows from it.";

pub const WORK_REFUSED_ZH: &'static str =
    "feed 无法以画面的 {} 构建其纹理：\"work-resolution staging SRV failed\" 出现三次后停止。此游戏不接受降低的工作分辨率。请恢复到完整尺寸 —— 设置 ▸ Feeder 参数 ▸ work_resolution = 100 且 work_upscale = 0，或选择「高」质量预设 —— 然后重新启动游戏。其后的一切（没有创建 DLSS、游戏内开关无效）都由此而来。";

/// The line of the log.
pub const FEED_STOPPED_EN: &'static str =
    "The feed stopped itself: {}";

pub const FEED_STOPPED_ZH: &'static str =
    "feed 自行停止：{}";

pub const CRASHED_EN: &'static str =
    "The feed recorded a crash inside the DLSS 5 add-on (upstream issue #16). Play in \
                 borderless/windowed rather than exclusive fullscreen, and raise create_delay in \
                 dlss5-feed.cfg.";

pub const CRASHED_ZH: &'static str =
    "feed 记录到 DLSS 5 附加组件内部崩溃（上游 issue #16）。请用无边框/窗口模式而非独占全屏游玩，并在 dlss5-feed.cfg 中调高 create_delay。";

} // verus!
