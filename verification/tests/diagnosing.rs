use dlss5oneclick::diagnose::{
    diagnose, ngx_init_failure_for, reshade_host_exe, run, version_key, Finding, Level, Logs,
    Session,
};
use dlss5oneclick::game::{Api, GameStatus, Mode};
use dlss5oneclick::lang::Lang;
use dlss5oneclick::ngx::{NgxCore, NgxSystem};

fn inspected(feeder: bool, bitness: u8) -> GameStatus {
    let mode = if feeder { Mode::Feeder } else { Mode::Native };
    GameStatus {
        exe_name: Some("game.exe".to_owned()),
        bitness,
        mode,
        mode_detected: mode,
        api: Api::Dx12,
        api_detected: Api::Dx12,
        reshade: false,
        headers: false,
        feeder: false,
        lumenite: false,
        dlss5_addon: false,
        upstream: false,
        aio: false,
        dlssnr: false,
        dlss: !feeder,
        bridge: false,
        opti: false,
        mfg: false,
        reframework: false,
        re_engine: false,
        host_exe: false,
        host_reshade: false,
        rt_likely: false,
        anticheat: false,
        gpu: None,
        problems: vec![],
        reshade_problem: None,
    }
}

fn quiet_session() -> Session {
    Session {
        game_logs: Logs { reshade: None, reshade2: None },
        host_logs: Logs { reshade: None, reshade2: None },
        compiler: false,
        compiler_version: None,
        model: false,
        model_version: None,
        consumer_model: false,
        consumer_model_version: None,
        bridge_log: None,
        redist: None,
        redist_version: None,
        feed_log: None,
        host_log: None,
        hybrid: false,
        adapters: vec![],
        game_prefers: false,
        host_prefers: false,
        ngx: NgxSystem { driver: None, core: None, core_folder: false },
    }
}

fn logged(reshade: &str, feed: &str) -> Session {
    let mut s = quiet_session();
    s.game_logs.reshade = Some(reshade.to_owned());
    if !feed.is_empty() {
        s.feed_log = Some(feed.to_owned());
    }
    s
}

fn ran(feeder: bool, s: &Session) -> Vec<Finding> {
    run(Lang::En, Ok(inspected(feeder, 64)), s).unwrap()
}

fn says(f: &[Finding], text: &str) -> bool {
    f.iter().any(|x| x.text.contains(text))
}

const REGISTERED: &str =
    "Initializing crosire's ReShade\nRegistered add-on \"DLSS 5 Neural Rendering\"\n";

/// Baldur's Gate 3 ships bg3.exe (Vulkan) and bg3_dx11.exe; installing for one
/// and playing the other leaves everything looking right and nothing hooked.
#[test]
fn reshade_host_exe_reads_the_first_line() {
    let log = "01:30:11:810 [17792] | INFO  | Initializing crosire's ReShade version '6.8.0.2155' (64-bit) loaded from 'C:\\\\Program Files (x86)\\\\Steam\\\\steamapps\\\\common\\\\Baldurs Gate 3\\\\bin\\\\dxgi.dll' into 'C:\\\\Program Files (x86)\\\\Steam\\\\steamapps\\\\common\\\\Baldurs Gate 3\\\\bin\\\\bg3_dx11.exe' (0x64317982) ...";
    assert_eq!(reshade_host_exe(log).as_deref(), Some("bg3_dx11.exe"));
    assert!(reshade_host_exe("nothing useful here").is_none());
}

#[test]
fn the_exe_is_named_behind_the_prefix_of_its_path() {
    let exe = |path: &str| reshade_host_exe(&format!("loaded from 'dxgi.dll' into '{path}'"));
    assert_eq!(exe(r"\\s\d\game.exe").as_deref(), Some("game.exe"));
    assert_eq!(exe("//s/d/game.exe").as_deref(), Some("game.exe"));
    // A server and its share are no file.
    assert_eq!(exe(r"\\s\d"), None);
    assert_eq!(exe(r"\\s\d\"), None);
    assert_eq!(exe(r"\\.\COM4"), None);
    assert_eq!(exe(r"\\?\C:"), None);
    assert_eq!(exe(r"\\?\C:\a/b.exe").as_deref(), Some("a/b.exe"));
    assert_eq!(exe(r"\\?\UNC\s\d"), None);
    assert_eq!(exe(r"\\?\UNC\s\d\b.exe").as_deref(), Some("b.exe"));
    // Two backslashes alone start no share.
    assert_eq!(exe(r"\\s").as_deref(), Some("s"));
    assert_eq!(exe(r"C:\\s\d").as_deref(), Some("d"));
    assert_eq!(exe(r"C:\a\.").as_deref(), Some("a"));
    assert_eq!(exe(r"C:\a\.."), None);
}

/// A 32-bit game runs the add-on under the 64-bit ReShade in host64\, so that
/// is the log to read.
#[test]
fn thirty_two_bit_reads_the_host64_reshade_log() {
    // The 32-bit ReShade beside the exe: no add-on, and never will have one.
    let mut s = logged("Initializing crosire's ReShade version '6.8.0'\n", "");
    // The one that matters, in host64\.
    s.host_logs.reshade = Some(
        "Initializing crosire's ReShade version '6.8.0'\nRegistered add-on \"DLSS 5 Neural Rendering\"\n"
            .to_owned(),
    );
    let f = run(Lang::En, Ok(inspected(true, 32)), &s).unwrap();
    assert!(
        f.iter().any(|x| x.level == Level::Good && x.text.contains("add-on registered")),
        "{f:?}"
    );
    assert!(!says(&f, "never registered"), "{f:?}");
}

/// And when host64\ has no ReShade log at all, say so in host64 terms.
#[test]
fn thirty_two_bit_missing_host64_log_names_host64() {
    let s = logged("Initializing crosire's ReShade version '6.8.0'\n", "");
    let f = run(Lang::En, Ok(inspected(true, 32)), &s).unwrap();
    assert!(says(&f, "host64"), "{f:?}");
}

/// Under Proton the effects are compiled by Wine's d3dcompiler_47
/// (vkd3d-shader), which has not implemented [fastopt].
#[test]
fn wine_hlsl_compiler_is_named_and_rename_advice_suppressed() {
    let mut s = logged(
        "Initializing crosire's ReShade version '6.8.0'\n\
         ERROR | Failed to compile 'DLSS5_Feed.fx':\n\
         <anonymous>:118:13: E5017: Aborting due to not yet implemented feature: Unhandled attribute 'fastopt'.\n",
        "",
    );
    s.compiler = true;
    let f = ran(true, &s);
    assert!(
        f.iter().any(|x| x.level == Level::Bad && x.text.contains("vkd3d-shader")),
        "{f:?}"
    );
    assert!(!says(&f, "d3dcompiler_47.dll.bak"), "{f:?}");
    // Without Wine's words the advice is given.
    s.game_logs.reshade = Some(REGISTERED.to_owned());
    assert!(says(&ran(true, &s), "d3dcompiler_47.dll.bak"));
}

/// Dying Light refuses the reduced work-resolution path.
#[test]
fn work_resolution_build_failure_names_the_setting() {
    let s = logged(
        REGISTERED,
        "[feed] building: 2176x1224 work resolution (85%) -> 2560x1440 backbuffer\n\
         [feed] work-resolution staging SRV failed\n\
         [feed] failure: resource build\n\
         stopped: repeated failures. The game renders normally.\n",
    );
    let f = ran(true, &s);
    let hit = f.iter().find(|x| x.text.contains("work-resolution staging SRV failed"));
    match hit {
        Some(x) => {
            assert_eq!(x.level, Level::Bad);
            assert!(x.text.contains("85%"), "{}", x.text);
            assert!(x.text.contains("work_resolution = 100"), "{}", x.text);
        }
        None => panic!("{f:?}"),
    }
}

#[test]
fn no_reshade_log_is_fatal() {
    let f = ran(true, &quiet_session());
    assert_eq!(f.len(), 1);
    assert_eq!(f[0].level, Level::Bad);
    assert!(f[0].text.contains("never loaded"));
}

#[test]
fn native_without_game_dlss_call() {
    let s = logged(
        "Initializing crosire's ReShade version '6.8.0'\nRegistered add-on \"DLSS 5 Neural Rendering\"\n",
        "",
    );
    let f = ran(false, &s);
    assert!(says(&f, "game's own DLSS never ran"));
    assert!(f.iter().any(|x| x.level == Level::Good && x.text.contains("add-on registered")));
}

#[test]
fn addon_load_failure_is_explained() {
    let s = logged(
        "Initializing crosire's ReShade\nFailed to load add-on from 'C:\\g\\renodx-dlss5.addon64' with error code 2148073478!\n",
        "",
    );
    assert!(says(&ran(false, &s), "unsigned DLLs"));
}

#[test]
fn feeder_provider_not_enabled() {
    let s = logged(
        REGISTERED,
        "[feed] effects: DLSS5_Feed.fx technique found, DLSS5_MV_PROVIDER=3 (LumeniteFX Kernel) -> none (not installed)\n",
    );
    assert!(says(&ran(true, &s), "motion-vector provider is not enabled"));
}

#[test]
fn feeder_last_effects_line_wins_and_ngx_init_failure_named() {
    let s = logged(
        REGISTERED,
        "12:33:33.151  dlss5-feed 0.7.0 (built Aug 31 2026) attached.\n\
         [feed] effects: DLSS5_Feed.fx technique MISSING, DLSS5_MV_PROVIDER=3 (LumeniteFX Kernel) -> none (not installed)\n\
         [feed] effects: DLSS5_Feed.fx technique found, DLSS5_MV_PROVIDER=3 (LumeniteFX Kernel) -> Lumenite_Kernel (enabled)\n\
         [feed] NVSDK_NGX_D3D12_Init -> 0xBAD00001 (FeatureNotSupported)\n\
         stopped: the D3D12/NGX session failed to start.\n",
    );
    let f = ran(true, &s);
    assert!(!says(&f, "motion-vector provider is not enabled"));
    assert!(says(&f, "NGX refused to initialise"));
    assert!(says(&f, "0.7.0 in the log is older"));
}

#[test]
fn healthy_session_says_so() {
    let s = logged(
        "Initializing crosire's ReShade\nRegistered add-on \"DLSS 5 Neural Rendering\"\ninline feature 18 evaluation succeeded (count=60)\n",
        "[feed] feature ready: 3840x2160 DLAA\n[feed] frame 1 delivered\n",
    );
    let f = ran(true, &s);
    assert!(f.iter().all(|x| x.level == Level::Good), "{f:?}");
    assert!(says(&f, "raise NR Intensity"));
}

// ── beyond the sessions above ──────────────────────────────────────

#[test]
fn a_failed_inspection_is_handed_on() {
    let r = run(Lang::En, Err("no such exe".to_owned()), &quiet_session());
    assert_eq!(r.unwrap_err(), "no such exe");
}

#[test]
fn the_second_log_stands_in_for_the_first() {
    let mut s = quiet_session();
    s.game_logs.reshade2 = Some(REGISTERED.to_owned());
    let f = diagnose(Lang::En, &inspected(false, 64), &s);
    assert!(says(&f, "add-on registered"));
    assert!(!says(&f, "never loaded"));
}

#[test]
fn the_diagnosis_speaks_chinese() {
    let f = diagnose(Lang::Zh, &inspected(false, 64), &logged(REGISTERED, ""));
    assert!(!f.is_empty());
    assert!(f.iter().any(|x| x.text.contains("附加组件")), "{f:?}");
}

#[test]
fn another_exe_is_named_on_64_bit_alone() {
    let log = "Initializing crosire's ReShade loaded from 'C:\\g\\dxgi.dll' into 'C:\\g\\other.exe' (0x1)\n";
    let f = diagnose(Lang::En, &inspected(true, 64), &logged(log, ""));
    assert!(says(&f, "other.exe"), "{f:?}");
    let mut host = quiet_session();
    host.host_logs.reshade = Some(log.to_owned());
    let f = diagnose(Lang::En, &inspected(true, 32), &host);
    assert!(!says(&f, "other.exe"), "{f:?}");
    // The case of the name does not matter.
    let same = "ReShade loaded from 'C:\\g\\dxgi.dll' into 'C:\\g\\GAME.EXE' (0x1)\n";
    let f = diagnose(Lang::En, &inspected(true, 64), &logged(same, ""));
    assert!(!says(&f, "GAME.EXE"), "{f:?}");
}

#[test]
fn the_toggle_and_the_stray_feeder_are_noticed() {
    let mut st = inspected(false, 64);
    st.feeder = true;
    let on = diagnose(Lang::En, &st, &logged("NR toggled ON\n", ""));
    assert!(on.iter().any(|x| x.level == Level::Good));
    let off = diagnose(Lang::En, &st, &logged("NR toggled ON\nNR toggled OFF\n", ""));
    assert!(off.iter().filter(|x| x.level == Level::Warn).count() >= 2, "{off:?}");
}

#[test]
fn a_d3d11_game_is_told_of_the_bridge() {
    let mut st = inspected(false, 64);
    st.api = Api::Dx11;
    let f = diagnose(Lang::En, &st, &logged(REGISTERED, ""));
    assert!(says(&f, "bridge"), "{f:?}");
    st.bridge = true;
    let f = diagnose(Lang::En, &st, &logged(REGISTERED, ""));
    assert!(says(&f, "game's own DLSS never ran"), "{f:?}");
}

#[test]
fn the_bridge_log_is_read() {
    let mut s = logged(REGISTERED, "");
    s.bridge_log = Some("frames: 120\n".to_owned());
    let f = diagnose(Lang::En, &inspected(false, 64), &s);
    assert!(f.iter().any(|x| x.level == Level::Good && x.text.contains("ridge")), "{f:?}");
    s.bridge_log = Some("a\nstopped: first\nb\nstopped: last\n".to_owned());
    let f = diagnose(Lang::En, &inspected(false, 64), &s);
    assert!(says(&f, "stopped: last"));
    assert!(!says(&f, "stopped: first"));
    s.bridge_log = Some("D3D12CreateDevice failed 0x887E0003\n".to_owned());
    s.redist = Some("C:\\g\\D3D12Core.dll".to_owned());
    s.redist_version = Some("1.602.0".to_owned());
    let f = diagnose(Lang::En, &inspected(false, 64), &s);
    assert!(says(&f, "1.602.0"), "{f:?}");
}

#[test]
fn ngx_refusals_name_the_hybrid_machine() {
    let mut s = quiet_session();
    s.hybrid = true;
    s.adapters = vec!["Intel UHD".to_owned(), "GeForce RTX 4070".to_owned()];
    let mut out: Vec<Finding> = vec![];
    let log = "NVSDK_NGX_D3D12_Init -> 0xBAD00001\n";
    ngx_init_failure_for(Lang::En, log, true, &s, &mut out);
    assert_eq!(out.len(), 2);
    assert!(out[0].text.contains("Intel UHD, GeForce RTX 4070"));
    assert!(out[0].text.contains("already set to high performance"));
    assert!(out[1].text.contains(log.trim()));
    s.hybrid = false;
    s.ngx = NgxSystem {
        driver: Some("616.56".to_owned()),
        core: Some(NgxCore { installed: true, path: "C:\\ngx".to_owned() }),
        core_folder: true,
    };
    let mut healthy: Vec<Finding> = vec![];
    ngx_init_failure_for(Lang::En, log, false, &s, &mut healthy);
    assert_eq!(healthy.len(), 1);
    assert_ne!(healthy[0].text, out[1].text);
    let mut none: Vec<Finding> = vec![];
    ngx_init_failure_for(Lang::En, "all is well\n", false, &s, &mut none);
    assert!(none.is_empty());
}

#[test]
fn versions_are_ordered_part_by_part() {
    assert_eq!(version_key("0.12.0"), vec![0, 12, 0]);
    assert_eq!(version_key("0.13.1-beta.1"), vec![0, 13, 1, 0, 1]);
    assert!(version_key("0.7.0") < version_key("0.12.0"));
}

/// Only the logs of the ReShade that runs the add-on change the findings.
#[test]
fn the_other_folders_log_does_not_count() {
    let texts = |f: Vec<Finding>| f.into_iter().map(|x| x.text).collect::<Vec<String>>();
    for bitness in [32, 64] {
        let mut s = quiet_session();
        let want = texts(diagnose(Lang::En, &inspected(true, bitness), &s));
        let idle = if bitness == 32 { &mut s.game_logs } else { &mut s.host_logs };
        idle.reshade = Some(REGISTERED.to_owned());
        idle.reshade2 = Some("not yet implemented feature".to_owned());
        assert_eq!(texts(diagnose(Lang::En, &inspected(true, bitness), &s)), want);
    }
}

#[test]
fn every_finding_speaks_chinese() {
    let zh = |st: &GameStatus, s: &Session| diagnose(Lang::Zh, st, s);
    let f = zh(&inspected(true, 32), &quiet_session());
    assert!(says(&f, "64 位助手的 ReShade 从未加载"), "{f:?}");
    let mut s = logged(REGISTERED, "work-resolution staging SRV failed");
    let f = zh(&inspected(true, 64), &s);
    assert!(says(&f, "画面的 低于 100% 构建"), "{f:?}");
    s.game_logs.reshade = Some(format!("{REGISTERED}\nnot yet implemented feature: x"));
    let f = zh(&inspected(true, 64), &s);
    assert!(says(&f, "编译失败：not yet implemented feature: x"), "{f:?}");
    s.game_logs.reshade = Some(REGISTERED.to_owned());
    s.compiler = true;
    assert!(says(&zh(&inspected(true, 64), &s), "未知"));
}
