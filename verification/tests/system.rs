use dlss5oneclick::gpu::nvidia_driver_number;
use dlss5oneclick::lang::{get, system_default, tr, Lang};
use dlss5oneclick::ngx::{
    describe, describe_core, file_version, healthy, model_build, ngx_core, version_key, NgxCore,
    NgxSystem,
};

/// The two builds of the model differ only here: NVIDIA's reads `310,8,0,0`,
/// ShortFuse's `310.8.SF.0`.
#[test]
fn model_build_names_the_sf_repack() {
    assert_eq!(
        model_build(Lang::En, "310.8.SF.0"),
        tr(Lang::En, "ShortFuse .SF build (adds Ada/Turing paths)", "ShortFuse .SF 版本（新增 Ada/Turing 路径）")
    );
    assert_eq!(model_build(Lang::En, "310,8,0,0"), tr(Lang::En, "NVIDIA original build", "NVIDIA 原版"));
    assert_eq!(model_build(Lang::En, "310.8.0.0"), tr(Lang::En, "NVIDIA original build", "NVIDIA 原版"));
    assert_eq!(model_build(Lang::Zh, "310.8.sf.0"), "ShortFuse .SF 版本（新增 Ada/Turing 路径）");
    assert_eq!(model_build(Lang::Zh, "310.8.0.0"), "NVIDIA 原版");
}

#[test]
fn version_key_orders_driver_numbers() {
    assert!(version_key("616.56").unwrap() >= (616, 56));
    assert!(version_key("620.10").unwrap() > (616, 56));
    assert!(version_key("572.83").unwrap() < (616, 56));
    assert_eq!(version_key("nope"), None);
}

#[test]
fn describe_says_something() {
    let bare = NgxSystem { driver: None, core: None, core_folder: false };
    assert!(!describe(Lang::En, &bare).is_empty());
    assert!(!describe(Lang::Zh, &bare).is_empty());
}

#[test]
fn driver_number_maps_windows_version() {
    // 32.0.16.1656 is what the NVIDIA App calls 616.56.
    assert_eq!(nvidia_driver_number("32.0.16.1656").as_deref(), Some("616.56"));
    assert_eq!(nvidia_driver_number("31.0.15.5222").as_deref(), Some("552.22"));
    assert_eq!(nvidia_driver_number("1.2"), None);
}

// ── the registry and the version resource ──────────────────────────

fn utf16(s: &str) -> Vec<u16> {
    s.encode_utf16().collect()
}

#[test]
fn ngx_core_reads_the_registry_strings() {
    // The size counts bytes and the terminating zero.
    let mut buf = utf16("C:\\NGX Core😀");
    let n = buf.len() as u32;
    buf.push(0);
    buf.resize(64, 0);
    let c = ngx_core(Some((buf.clone(), (n + 1) * 2)), Some(1)).unwrap();
    assert!(c.installed);
    assert_eq!(c.path, "C:\\NGX Core😀");
    // A smaller size cuts the text, a larger one stops at the buffer.
    let c = ngx_core(Some((buf.clone(), 8)), Some(0)).unwrap();
    assert!(!c.installed);
    assert_eq!(c.path, "C:\\");
    let c = ngx_core(Some((buf.clone(), 4000)), None).unwrap();
    assert!(!c.installed);
    assert_eq!(c.path, "C:\\NGX Core😀");
    assert!(ngx_core(None, Some(1)).is_none());
    // An unpaired surrogate becomes the replacement character.
    let c = ngx_core(Some((vec![0x41, 0xD800, 0x42, 0], 8)), Some(1)).unwrap();
    assert_eq!(c.path, "A\u{FFFD}B");
}

#[test]
fn the_first_version_that_says_something_is_taken() {
    let blocks = vec![None, Some(utf16("  \0\0")), Some(utf16(" 310.8.SF.0\0\0")), Some(utf16("9"))];
    assert_eq!(file_version(&blocks).as_deref(), Some("310.8.SF.0"));
    assert_eq!(file_version(&vec![None]), None);
}

#[test]
fn a_system_is_healthy_with_its_core_and_a_new_driver() {
    let core = NgxCore { installed: true, path: "C:\\ngx".to_owned() };
    let mut s = NgxSystem { driver: Some("616.56".to_owned()), core: Some(core), core_folder: true };
    assert!(healthy(&s));
    assert_eq!(describe(Lang::En, &s), "NVIDIA driver 616.56; NGX Core installed (C:\\ngx)");
    assert_eq!(describe_core(Lang::Zh, &s), "NGX Core 已安装（C:\\ngx）");
    s.core_folder = false;
    assert!(!healthy(&s));
    assert!(describe(Lang::En, &s).contains("its folder is missing: C:\\ngx"));
    s.core_folder = true;
    s.driver = Some("616.55".to_owned());
    assert!(!healthy(&s));
    s.driver = Some("617.0".to_owned());
    assert!(healthy(&s));
    s.driver = None;
    assert!(!healthy(&s));
    s.core = Some(NgxCore { installed: false, path: String::new() });
    assert!(describe(Lang::En, &s).starts_with("NGX Core is registered as NOT installed"));
}

#[test]
fn driver_numbers_are_padded_and_checked() {
    assert_eq!(nvidia_driver_number("31.0.15.22").as_deref(), Some("500.22"));
    assert_eq!(nvidia_driver_number("31.0.x.5222"), None);
    assert_eq!(nvidia_driver_number("31.0.15.52222"), None);
}

#[test]
fn the_language_is_kept_in_a_byte() {
    let mut slot: u8 = 0;
    assert_eq!(get(slot), Lang::En);
    dlss5oneclick::lang::set(&mut slot, Lang::Zh);
    assert_eq!(slot, 1);
    assert_eq!(get(slot), Lang::Zh);
    dlss5oneclick::lang::set(&mut slot, Lang::En);
    assert_eq!(get(slot), Lang::En);
    assert_eq!(get(7), Lang::En);
    assert_eq!(system_default(Some(0x0804)), Lang::Zh);
    assert_eq!(system_default(Some(0x1004)), Lang::Zh);
    assert_eq!(system_default(Some(0x0004)), Lang::Zh);
    // Traditional Chinese.
    assert_eq!(system_default(Some(0x0404)), Lang::En);
    assert_eq!(system_default(Some(0x0C04)), Lang::En);
    assert_eq!(system_default(Some(0x0409)), Lang::En);
    assert_eq!(system_default(None), Lang::En);
    assert_eq!(tr(Lang::Zh, "a", "b"), "b");
}
