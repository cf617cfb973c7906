use dlss5oneclick::config::{held_quality, step_config, work_resolution_refused, write_feeder_cfg};
use dlss5oneclick::game::{Api, GameStatus, Mode};
use dlss5oneclick::gpu::Tier;
use dlss5oneclick::lang::Lang;
use dlss5oneclick::quality_preset::{
    apply_overrides, base_high, base_low, base_medium, fallback_medium, feed_fx_uniforms,
    feeder_cfg_text, nvidia_ofa_capable, resolve, QualityChoice, QualityOverrides,
};

fn stub_status(mode: Mode, api: Api) -> GameStatus {
    GameStatus {
        exe_name: Some("stub.exe".to_owned()),
        bitness: 64,
        mode,
        mode_detected: mode,
        api,
        api_detected: api,
        reshade: false,
        headers: false,
        feeder: false,
        lumenite: false,
        dlss5_addon: false,
        upstream: false,
        aio: false,
        dlssnr: false,
        dlss: false,
        bridge: false,
        opti: false,
        mfg: false,
        reframework: false,
        re_engine: false,
        host_exe: false,
        host_reshade: false,
        rt_likely: false,
        anticheat: false,
        gpu: Some(Tier::Rtx50),
        problems: vec![],
        reshade_problem: None,
    }
}

#[test]
fn auto_d3d11_rtx_enables_ofa() {
    let st = stub_status(Mode::Feeder, Api::Dx11);
    let r = resolve(Lang::En, QualityChoice::Auto, &st, None, &QualityOverrides::default());
    assert!(r.ofa_enabled);
    assert!(!r.enable_lumenite);
}

#[test]
fn auto_dx12_falls_back_medium() {
    let st = stub_status(Mode::Feeder, Api::Dx12);
    let r = resolve(Lang::En, QualityChoice::Auto, &st, None, &QualityOverrides::default());
    assert!(!r.ofa_enabled);
    assert!(r.enable_lumenite);
    assert_eq!(r.work_resolution, 100);
    assert!(r.summary.contains("DX12"));
}

#[test]
fn medium_baseline_keys() {
    let r = base_medium(Lang::En);
    assert!(!r.ofa_enabled);
    assert!(r.enable_lumenite);
    assert!(r.engine_velocity);
    assert_eq!(r.work_resolution, 85);
    let cfg = feeder_cfg_text(&r);
    assert!(cfg.contains("ofa_enabled=0"));
    assert!(cfg.contains("engine_velocity=1"));
    assert!(cfg.contains("work_resolution=85"));
    assert!(cfg.contains("quality_preset=medium"));
    assert!(cfg.contains("auto_profile_applied=0"));
}

#[test]
fn high_aggressive_masks() {
    let r = base_high(Lang::En);
    assert!(r.ofa_enabled);
    assert!(!r.enable_lumenite);
    assert!(r.engine_velocity);
    assert!(r.appearance_threshold < base_medium(Lang::En).appearance_threshold);
    let fx = feed_fx_uniforms(&r);
    assert!(fx.iter().any(|(k, v)| *k == "DETAIL_MASK" && v == "1"));
}

#[test]
fn overrides_mark_custom() {
    let o = QualityOverrides { work_resolution: Some(90), ..Default::default() };
    let r = apply_overrides(Lang::En, base_medium(Lang::En), &o);
    assert!(r.customized);
    assert_eq!(r.work_resolution, 90);
    assert!(feeder_cfg_text(&r).contains("quality_preset=custom"));
}

#[test]
fn an_override_that_repeats_the_preset_customizes_nothing() {
    let o = QualityOverrides { work_resolution: Some(85), ..Default::default() };
    let r = apply_overrides(Lang::En, base_medium(Lang::En), &o);
    assert!(!r.customized);
    assert_eq!(r.summary, base_medium(Lang::En).summary);
    assert!(feeder_cfg_text(&r).contains("quality_preset=medium"));
    // The same through a bound.
    let o = QualityOverrides { work_resolution: Some(300), ..Default::default() };
    assert!(!apply_overrides(Lang::En, base_high(Lang::En), &o).customized);
    assert!(apply_overrides(Lang::En, base_medium(Lang::En), &o).customized);
}

/// Dying Light refuses any reduced work resolution: identical failure at 90% and
/// 85%, fine at 100%.
#[test]
fn a_game_that_refused_a_smaller_work_resolution_keeps_full_size() {
    let mut q = fallback_medium(Lang::En);
    q.work_resolution = 85;
    q.work_upscale = 1;

    // No log yet: the preset is written as chosen.
    let cfg = write_feeder_cfg(Lang::En, &q, None);
    assert!(cfg.contains("work_resolution=85"), "{cfg}");

    // A log carrying the failure pins it back to full size.
    let log = "[feed] building: 2304x1296 work resolution (90%) -> 2560x1440 backbuffer\n\
               [feed] work-resolution staging SRV failed\n\
               [feed] failure: resource build\n";
    assert!(work_resolution_refused(Some(log)));
    let cfg = write_feeder_cfg(Lang::En, &q, Some(log));
    assert!(cfg.contains("work_resolution=100"), "{cfg}");
    assert!(cfg.contains("work_upscale=0"), "{cfg}");
}

// ── bounds, fallbacks and exact texts ──────────────────────────────

#[test]
fn a_held_quality_says_why_and_settles() {
    let q = base_low(Lang::En);
    let log = Some("work-resolution staging SRV failed");
    let h = held_quality(Lang::En, &q, log);
    assert_eq!(
        h.summary,
        "Low: Lumenite MV, softer masks, work 70% + FSR expand - work_resolution held at 100% (this game refused a smaller one)"
    );
    let again = held_quality(Lang::En, &h, log);
    assert_eq!(again.summary, h.summary);
    assert_eq!(again.work_resolution, 100);
    assert!(!work_resolution_refused(None));
    assert!(!work_resolution_refused(Some("all is well")));
    // A full-size quality is left alone.
    let full = held_quality(Lang::En, &base_high(Lang::En), log);
    assert_eq!(full.summary, base_high(Lang::En).summary);
}

#[test]
fn uniforms_are_written_with_their_precision() {
    let fx = feed_fx_uniforms(&base_low(Lang::En));
    let shown: Vec<String> = fx.iter().map(|(k, v)| format!("{k}={v}")).collect();
    assert_eq!(
        shown,
        [
            "APPEARANCE_MASK=1",
            "APPEARANCE_THRESHOLD=0.050",
            "APPEARANCE_STRENGTH=1.00",
            "LIGHTING_MASK=1",
            "LIGHTING_THRESHOLD=0.060",
            "LIGHTING_STRENGTH=1.00",
            "DETAIL_MASK=1",
            "DETAIL_THRESHOLD=0.028",
            "DETAIL_STRENGTH=1.00",
        ]
    );
}

#[test]
fn overrides_are_clamped_and_take_the_place_of_lumenite() {
    let o = QualityOverrides {
        work_resolution: Some(10),
        work_upscale: Some(7),
        ofa_enabled: Some(true),
        ..Default::default()
    };
    assert!(o.any_set());
    let r = apply_overrides(Lang::En, base_low(Lang::En), &o);
    assert_eq!(r.work_resolution, 50);
    assert_eq!(r.work_upscale, 2);
    assert!(r.ofa_enabled);
    assert!(!r.enable_lumenite);
    assert_eq!(r.summary, "Low (customized)");
    let o = QualityOverrides { work_resolution: Some(400), work_upscale: Some(-3), ..Default::default() };
    let r = apply_overrides(Lang::Zh, base_low(Lang::Zh), &o);
    assert_eq!(r.work_resolution, 100);
    assert_eq!(r.work_upscale, 0);
    assert_eq!(r.summary, "低（已自定义）");
    assert!(!QualityOverrides::default().any_set());
}

#[test]
fn a_likely_ray_traced_game_is_seeded_cheaper() {
    let mut st = stub_status(Mode::Feeder, Api::Dx12);
    st.rt_likely = true;
    let r = resolve(Lang::En, QualityChoice::Auto, &st, None, &QualityOverrides::default());
    assert_eq!(r.work_resolution, 90);
    assert!(r.summary.ends_with(" · RT-likely seed (work≤90%)"));
    let r = resolve(Lang::Zh, QualityChoice::High, &st, None, &QualityOverrides::default());
    assert_eq!(
        r.summary,
        "高：引擎速度 + Lumenite（光流不可用）、更强蒙版、完整分辨率 · 可能有光追的初值（工作分辨率≤90%）"
    );
    // A smaller choice, and one of the user's own, stay.
    let r = resolve(Lang::En, QualityChoice::Low, &st, None, &QualityOverrides::default());
    assert_eq!(r.work_resolution, 70);
    let o = QualityOverrides { work_resolution: Some(100), ..Default::default() };
    let r = resolve(Lang::En, QualityChoice::Auto, &st, None, &o);
    assert_eq!(r.work_resolution, 100);
}

#[test]
fn optical_flow_needs_the_card_and_the_path() {
    let mut st = stub_status(Mode::Feeder, Api::Dx11);
    assert!(nvidia_ofa_capable(&st, None));
    st.gpu = Some(Tier::Other);
    assert!(!nvidia_ofa_capable(&st, Some(Tier::Rtx50)));
    st.gpu = None;
    assert!(nvidia_ofa_capable(&st, Some(Tier::Unknown)));
    assert!(!nvidia_ofa_capable(&st, None));
    let high = resolve(Lang::En, QualityChoice::High, &st, None, &QualityOverrides::default());
    assert!(!high.ofa_enabled && high.enable_lumenite);
    assert!(high.summary.contains("Optical Flow unavailable"));
    st.gpu = Some(Tier::Rtx40);
    st.anticheat = true;
    let high = resolve(Lang::En, QualityChoice::High, &st, None, &QualityOverrides::default());
    assert!(!high.ofa_enabled);
}

#[test]
fn the_config_step_reports_what_it_wrote() {
    let q = base_medium(Lang::En);
    assert_eq!(step_config(Lang::En, Mode::Native, &q, None, Some("patched")), ["ReShade.ini"]);
    assert_eq!(
        step_config(Lang::En, Mode::Feeder, &q, None, Some("patched")),
        ["ReShade.ini", "ReShadePreset.ini", "dlss5-feed.cfg", "patched"]
    );
    let held = step_config(
        Lang::En,
        Mode::Feeder,
        &q,
        Some("work-resolution staging SRV failed"),
        None,
    );
    assert_eq!(
        held[3],
        "work_resolution held at 100%: this game's log shows it refused a smaller one"
    );
}

#[test]
fn choices_have_labels_and_names() {
    assert_eq!(QualityChoice::Auto.label(Lang::En), "Auto");
    assert_eq!(QualityChoice::High.label(Lang::Zh), "高");
    assert_eq!(QualityChoice::Low.cfg_name(), "low");
    let auto = resolve(
        Lang::En,
        QualityChoice::Auto,
        &stub_status(Mode::Native, Api::Other),
        None,
        &QualityOverrides::default(),
    );
    assert!(feeder_cfg_text(&auto).contains("quality_preset=auto"));
    assert_eq!(auto.work_resolution, 85);
}
