use dlss5oneclick::game::{Api, GameStatus, Mode};
use dlss5oneclick::gpu::Tier;
use dlss5oneclick::install::{
    missing_install_files, run_all, run_all_with, stale_components, InstallOpts, Latest, Recorded,
    StepState,
};
use dlss5oneclick::lang::{tr, Lang};
use dlss5oneclick::plan::{plan_with, step, Action, Engine};
use dlss5oneclick::quality_preset::{QualityChoice, QualityOverrides};
use dlss5oneclick::releases::{version_of, Version};

fn game_status(bitness: u8) -> GameStatus {
    GameStatus {
        exe_name: Some("game.exe".to_owned()),
        bitness,
        mode: Mode::Feeder,
        mode_detected: Mode::Feeder,
        api: Api::Other,
        api_detected: Api::Other,
        reshade: false,
        headers: false,
        feeder: false,
        lumenite: false,
        dlss5_addon: false,
        upstream: false,
        aio: false,
        dlssnr: false,
        dlss: false,
        bridge: false,
        opti: false,
        mfg: false,
        reframework: false,
        re_engine: false,
        host_exe: false,
        host_reshade: false,
        rt_likely: false,
        anticheat: false,
        gpu: None,
        problems: vec![],
        reshade_problem: None,
    }
}

fn step_names(st: &GameStatus, engine: Engine, renodx: bool, upstream: bool) -> Vec<&'static str> {
    plan_with(st, engine, renodx, upstream).iter().map(|s| s.title(Lang::En)).collect()
}

fn auto_opts() -> InstallOpts {
    InstallOpts { quality: QualityChoice::Auto, overrides: QualityOverrides::default() }
}

fn refused(st: &GameStatus, engine: Engine, upstream: bool) -> String {
    run_all_with(Lang::En, st, engine, false, upstream, auto_opts(), None).unwrap_err()
}

#[test]
fn plan_puts_dgvoodoo_first_for_dx9() {
    let mut st = game_status(32);
    st.api = Api::Dx9;
    let names = step_names(&st, Engine::ReShade, false, false);
    assert_eq!(names[0], tr(Lang::En, "dgVoodoo 2.87.3 (DX9 → D3D11)", "dgVoodoo 2.87.3（DX9 → D3D11）"));
    assert!(names.iter().any(|n| n.starts_with("ReShade")));
}

/// The step is planned again where the DLL is there: its conf is merged anew.
#[test]
fn plan_refreshes_dgvoodoo_conf_when_already_present() {
    let mut st = game_status(32);
    st.api = Api::Dx9;
    let names = step_names(&st, Engine::ReShade, false, false);
    assert_eq!(names[0], tr(Lang::En, "dgVoodoo 2.87.3 (DX9 → D3D11)", "dgVoodoo 2.87.3（DX9 → D3D11）"));
    assert_eq!(
        dlss5oneclick::dgvoodoo::step_dgvoodoo(Lang::En, 32, true, true).unwrap(),
        dlss5oneclick::dgvoodoo::DgVoodooStep::MergeConf
    );
}

#[test]
fn plan_adds_reframework_first_and_renodx_before_config() {
    let mut st = game_status(64);
    st.re_engine = true;
    st.mode = Mode::Native;
    st.api = Api::Dx12;
    assert_eq!(
        step_names(&st, Engine::ReShade, true, false),
        [
            tr(Lang::En, "REFramework (RE Engine needs it before ReShade)", "REFramework（RE 引擎需在 ReShade 之前加载）"),
            tr(Lang::En, "ReShade (add-on build)", "ReShade（附加组件版）"),
            tr(Lang::En, "DLSS 5 add-on + models", "DLSS 5 附加组件 + 模型"),
            tr(Lang::En, "RenoDX HDR mod for this game", "本游戏的 RenoDX HDR 模组"),
            tr(Lang::En, "ReShade config", "ReShade 配置"),
            tr(Lang::En, "GPU preference", "GPU 偏好")
        ]
    );
    assert_eq!(
        step_names(&st, Engine::Opti, true, false),
        [
            tr(Lang::En, "REFramework (RE Engine needs it before ReShade)", "REFramework（RE 引擎需在 ReShade 之前加载）"),
            tr(Lang::En, "OptiScaler + DLSS Neural Rendering", "OptiScaler + DLSS 神经渲染"),
            tr(Lang::En, "DLSS 5 model (nvngx_dlssnr.dll)", "DLSS 5 模型（nvngx_dlssnr.dll）"),
            tr(Lang::En, "ReShade loaded by OptiScaler (ReShade64.dll)", "由 OptiScaler 加载的 ReShade（ReShade64.dll）"),
            tr(Lang::En, "RenoDX HDR mod for this game", "本游戏的 RenoDX HDR 模组"),
            tr(Lang::En, "GPU preference", "GPU 偏好")
        ]
    );
}

#[test]
fn plan_follows_mode_and_api() {
    let mut st = game_status(64);
    let names = step_names(&st, Engine::ReShade, false, false);
    assert_eq!(names.len(), 7); // + the GPU-preference step
    assert_eq!(names[2], "DLSS5-Feeder");
    st.mode = Mode::Native;
    st.api = Api::Dx12;
    assert_eq!(
        step_names(&st, Engine::ReShade, false, false),
        [
            tr(Lang::En, "ReShade (add-on build)", "ReShade（附加组件版）"),
            tr(Lang::En, "DLSS 5 add-on + models", "DLSS 5 附加组件 + 模型"),
            tr(Lang::En, "ReShade config", "ReShade 配置"),
            tr(Lang::En, "GPU preference", "GPU 偏好")
        ]
    );
    st.api = Api::Dx11;
    let names = step_names(&st, Engine::ReShade, false, false);
    assert_eq!(names[2], tr(Lang::En, "DLSS 5 DX11 bridge", "DLSS 5 DX11 桥接"));
}

/// Neural Upstream is the neural consumer itself, so it takes the RenoDX
/// add-on's place in the plan rather than being added next to it, and it needs
/// the model beside it.
#[test]
fn upstream_plan_replaces_the_renodx_consumer() {
    let mut st = game_status(64);
    st.mode = Mode::Native;
    let stable = step_names(&st, Engine::ReShade, false, false);
    let upstream = step_names(&st, Engine::ReShade, false, true);
    assert!(stable.contains(&"DLSS 5 add-on + models"));
    assert!(!stable.contains(&"Neural Upstream add-on (experimental)"));
    assert!(upstream.contains(&"Neural Upstream add-on (experimental)"));
    assert!(upstream.contains(&"DLSS 5 model (nvngx_dlssnr.dll)"));
    assert!(!upstream.contains(&"DLSS 5 add-on + models"));
}

/// It reads the colour buffer the game hands its own DLSS, so a game without
/// DLSS cannot feed it: refuse by name instead of installing.
#[test]
fn upstream_refuses_a_game_with_no_dlss_of_its_own() {
    let e = refused(&game_status(64), Engine::ReShade, true);
    assert!(e.contains("needs a game with DLSS of its own"), "{e}");
}

#[test]
fn opti_plan_and_engine_gate() {
    let st = game_status(64);
    assert_eq!(
        step_names(&st, Engine::Opti, false, false),
        [
            tr(Lang::En, "OptiScaler + DLSS Neural Rendering", "OptiScaler + DLSS 神经渲染"),
            tr(Lang::En, "DLSS 5 model (nvngx_dlssnr.dll)", "DLSS 5 模型（nvngx_dlssnr.dll）"),
            tr(Lang::En, "GPU preference", "GPU 偏好")
        ]
    );
    // Feeder-mode game + Opti engine is refused before any network
    assert!(refused(&st, Engine::Opti, false).contains("own DLSS"));
}

#[test]
fn run_all_refuses_opti_on_32bit_before_network() {
    assert!(refused(&game_status(32), Engine::Opti, false).contains("64-bit only"));
}

/// Only a component this tool recorded can be reported as out of date; a user's
/// own ReShade has no marker and must stay invisible.
#[test]
fn stale_components_reports_only_what_we_placed() {
    let latest = Latest {
        reshade: Some("6.8.0".into()),
        feeder: Some("v0.13.1-beta.1".into()),
        opti: Some("v0.2.0-dlssnr".into()),
        dlss: Some("dlss-310.9.0".into()),
        dlssnr: Some("dlssnr-310.8.SF-v2".into()),
    };
    let mut rec =
        Recorded { reshade: None, feeder: None, dlss: None, dlssnr: None, opti_manifest: None };
    assert!(stale_components(Lang::En, &rec, &latest).is_empty());

    rec.feeder = Some("v0.12.0".into());
    rec.dlss = Some("dlss-310.9.0".into());
    rec.opti_manifest = Some("# tag v0.1.2-dlssnr\ndxgi.dll\n".into());
    assert_eq!(
        stale_components(Lang::En, &rec, &latest),
        vec![
            "DLSS5-Feeder v0.12.0 → v0.13.1-beta.1".to_string(),
            "OptiScaler v0.1.2-dlssnr → v0.2.0-dlssnr".to_string(),
        ]
    );

    // A manifest from before the tag was recorded cannot be compared, and saying
    // nothing would leave a stale install looking current.
    rec.opti_manifest = Some("dxgi.dll\nOptiScaler.ini\n".into());
    assert!(stale_components(Lang::En, &rec, &latest)
        .iter()
        .any(|s| s == "OptiScaler unknown version → v0.2.0-dlssnr"));
}

/// A version is stale where it is behind, not where it is only another one.
#[test]
fn a_component_that_is_ahead_is_not_stale() {
    let stale = |have: &str, want: &str| {
        let rec = Recorded {
            reshade: None,
            feeder: Some(have.into()),
            dlss: None,
            dlssnr: None,
            opti_manifest: None,
        };
        let latest = Latest {
            reshade: None,
            feeder: Some(want.into()),
            opti: None,
            dlss: None,
            dlssnr: None,
        };
        !stale_components(Lang::En, &rec, &latest).is_empty()
    };
    assert!(!stale("v0.14.0", "v0.13.1"));
    assert!(stale("v0.13.1", "v0.14.0"));
    assert!(stale("v0.9.0", "v0.10.0"));
    assert!(stale("v0.13", "v0.13.1"));
    assert!(!stale(" v0.13.1\n", "v0.13.1"));
    // A beta is behind its release, and behind a later beta.
    assert!(stale("v0.13.1-beta.1", "v0.13.1"));
    assert!(!stale("v0.13.1", "v0.13.1-beta.1"));
    assert!(stale("v0.13.1-beta.1", "v0.13.1-beta.2"));
    assert!(!stale("v0.14.0-beta.1", "v0.13.1"));
    // What cannot be ranked is reported: no numbers, or the same ones.
    assert!(stale("v0.13.1", "nightly"));
    assert!(stale("nightly", "v0.13.1"));
    assert!(stale("v0.13.1", "beta2"));
    assert!(stale("v0.13.1", "v0.13.1-hotfix"));
    assert!(stale("v0.13.1-hotfix", "v0.13.1"));
    assert!(!stale("nightly", "nightly\n"));
}

/// A build of the model that is not ShortFuse's is behind one that is.
#[test]
fn the_model_is_stale_without_an_sf_build() {
    let mut rec =
        Recorded { reshade: None, feeder: None, dlss: None, dlssnr: None, opti_manifest: None };
    let mut latest = Latest::default();
    latest.dlssnr = Some("dlssnr-310.8.SF-v2".into());
    for have in ["dlssnr-310.9.0", "dlssnr-310.8.0", "dlssnr-310.8.SF"] {
        rec.dlssnr = Some(have.into());
        assert_eq!(
            stale_components(Lang::En, &rec, &latest),
            [format!("nvngx_dlssnr.dll {have} → dlssnr-310.8.SF-v2")]
        );
    }
    rec.dlssnr = Some("dlssnr-310.8.SF-v3".into());
    assert!(stale_components(Lang::En, &rec, &latest).is_empty());
    latest.dlssnr = Some("dlssnr-310.9.0".into());
    assert!(stale_components(Lang::En, &rec, &latest).is_empty());
}

/// The logic behind the numbers of two tags.
#[test]
fn versions_rank_by_their_numbers() {
    let v = |release: &[u64], numbers: &[u64], prerelease: bool| Version {
        release: release.to_vec(),
        numbers: numbers.to_vec(),
        prerelease,
    };
    let release = v(&[1, 2], &[1, 2], false);
    let beta = v(&[1, 2], &[1, 2, 1], true);
    let later = v(&[1, 2], &[1, 2, 2], true);
    assert!(release.is_above(&beta) && !beta.is_above(&release));
    assert!(later.is_above(&beta) && !beta.is_above(&later));
    assert!(v(&[1, 10], &[1, 10], true).is_above(&release));
    assert!(!release.is_above(&release));
    let none = v(&[], &[], false);
    assert!(!none.is_above(&beta) && !beta.is_above(&none));
    assert!(version_of("v1.2-beta.1").is_above(&v(&[1, 1], &[1, 1], false)));
    assert_eq!(version_of("v1.2-beta.1").numbers, [1, 2, 1]);
}

#[test]
fn an_unrecorded_version_is_unknown_in_both_languages() {
    let rec = Recorded {
        reshade: None,
        feeder: None,
        dlss: None,
        dlssnr: None,
        opti_manifest: Some("dxgi.dll\n".into()),
    };
    let latest = Latest { opti: Some("v2".into()), ..Latest::default() };
    assert_eq!(stale_components(Lang::Zh, &rec, &latest), ["OptiScaler 未知版本 → v2"]);
}

// ── gates, the run of an install, what is missing ──────────────────

#[test]
fn problems_refuse_an_install_before_anything_else() {
    let mut st = game_status(32);
    st.problems = vec!["one".to_owned(), "two".to_owned()];
    st.reshade_problem = Some("not here".to_owned());
    assert_eq!(refused(&st, Engine::Opti, true), "one\ntwo");
    st.problems.clear();
    assert_eq!(refused(&st, Engine::ReShade, false), "not here");
    st.reshade_problem = None;
    assert!(run_all(Lang::En, &st, Engine::ReShade, false, false, auto_opts(), None).is_ok());
}

#[test]
fn an_install_runs_its_steps_in_order() {
    let mut st = game_status(64);
    st.mode = Mode::Native;
    st.api = Api::Dx12;
    let mut i = run_all_with(
        Lang::En,
        &st,
        Engine::ReShade,
        false,
        false,
        auto_opts(),
        Some(Tier::Rtx50),
    )
    .unwrap();
    assert_eq!(i.quality.as_ref().unwrap().choice, QualityChoice::Auto);
    let mut seen: Vec<Action> = vec![];
    loop {
        let next = i.next_step(Lang::En);
        match next {
            Some((s, n)) => {
                assert_eq!(n.state, StepState::Start);
                assert_eq!(n.index, seen.len());
                assert_eq!(n.total, 4);
                assert_eq!(n.title, s.title(Lang::En));
                seen.push(s.action);
                let files = if seen.len() == 1 {
                    vec!["dxgi.dll".to_owned(), "ReShade.ini".to_owned()]
                } else {
                    vec![]
                };
                let d = i.step_done(Lang::En, files);
                assert_eq!(d.state, StepState::Done);
                let shown = if seen.len() == 1 { "dxgi.dll, ReShade.ini" } else { "already present" };
                assert_eq!(d.detail, shown);
            }
            None => break,
        }
    }
    assert_eq!(seen, [Action::ReShade, Action::Dlss5, Action::Config, Action::GpuPref]);
    // The game still lacks everything, so no success is reported.
    let e = i.finish(Lang::En, &st).unwrap_err();
    assert!(e.starts_with("Install finished but files are missing: "), "{e}");
    assert!(e.ends_with(". Not reporting success."), "{e}");
}

#[test]
fn a_failed_step_is_named() {
    let st = game_status(64);
    let mut i =
        run_all_with(Lang::En, &st, Engine::ReShade, false, false, auto_opts(), None).unwrap();
    let (n, e) = i.step_failed(Lang::En, "no network");
    assert_eq!(n.state, StepState::Error);
    assert_eq!(n.detail, "no network");
    assert!(e.contains("no network"), "{e}");
    assert!(e.contains("ReShade (add-on build)"), "{e}");
}

#[test]
fn a_complete_game_misses_nothing() {
    let mut st = game_status(64);
    st.mode = Mode::Native;
    st.api = Api::Dx12;
    assert!(!missing_install_files(Lang::En, &st).is_empty());
    st.reshade = true;
    st.dlss5_addon = true;
    st.dlssnr = true;
    st.dlss = true;
    assert_eq!(missing_install_files(Lang::En, &st), Vec::<String>::new());
    let mut f = game_status(64);
    let lacks = missing_install_files(Lang::En, &f);
    assert!(lacks.iter().any(|t| t.contains("dlss5-feed.addon64")), "{lacks:?}");
    f.bitness = 32;
    let lacks = missing_install_files(Lang::En, &f);
    assert!(lacks.iter().any(|t| t.contains("dlss5-feed.addon32")), "{lacks:?}");
}

#[test]
fn steps_have_names_in_both_languages() {
    assert_eq!(step(Action::Config).title(Lang::Zh), "ReShade 配置");
    assert_eq!(step(Action::Feeder).title(Lang::Zh), "DLSS5-Feeder");
    assert_eq!(Engine::default(), Engine::ReShade);
    assert!(game_status(32).is32());
    let mut st = game_status(64);
    assert!(!st.needs_bridge());
    st.mode = Mode::Native;
    st.api = Api::Dx11;
    assert!(st.needs_bridge());
}
