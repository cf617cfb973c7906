use dlss5oneclick::archive::{members, same_size, unpack, Extract, Unpacked};
use dlss5oneclick::consumers::{
    addon_current, dlss5_pieces, piece_line, step_bridge, step_dlss5, step_dlssnr_only,
    step_reframework, step_upstream, upstream_lines, upstream_preset, RemoteSize, UpstreamPreset,
};
use dlss5oneclick::config::{pref_targets, step_gpu_pref, PrefTarget, Preference};
use dlss5oneclick::dgvoodoo::{
    assert_dgvoodoo_conf_healthy, dgvoodoo_installed, install_dgvoodoo_from_zip,
    merge_dgvoodoo_conf, step_dgvoodoo, write_dgvoodoo_conf, DgVoodooStep,
};
use dlss5oneclick::folder::{FileEntry, Folder};
use dlss5oneclick::game::{Api, GameStatus, Mode, FEEDER_MARKER};
use dlss5oneclick::lang::Lang;
use dlss5oneclick::opti::{step_opti, Fetch};
use dlss5oneclick::steps::{
    copy_vulkan_feeder_kit_from_zip, feeder_tag, install_lumenite_from_zip,
    install_reshade_from_setup, install_single_from_zip, reshade_allowed, step_feeder,
    step_feeder_cleanup, step_headers, step_host_reshade, step_reshade, FeederStep,
};
use dlss5oneclick::traa::apply_traa_ui_patch;
use std::io::Write;

fn zip_bytes(entries: &[(&str, &[u8])], prefix: &[u8]) -> Vec<u8> {
    // The archive stands behind the prefix.
    let mut c = std::io::Cursor::new(prefix.to_vec());
    c.set_position(prefix.len() as u64);
    let mut w = zip::ZipWriter::new(c);
    for (name, data) in entries {
        w.start_file(*name, zip::write::SimpleFileOptions::default()).unwrap();
        w.write_all(data).unwrap();
    }
    w.finish().unwrap().into_inner()
}

fn written<'a>(u: &'a Unpacked, dest: &str) -> Option<&'a [u8]> {
    u.files.iter().find(|f| f.dest == dest).map(|f| f.bytes.as_slice())
}

#[test]
fn vulkan_feeder_kit_writes_addon_fx_and_note() {
    let z = zip_bytes(&[("dlss5-feed.addon64", b"addon"), ("DLSS5_Feed.fx", b"fx")], &[]);
    let kit = copy_vulkan_feeder_kit_from_zip(Lang::En, &z, "v0.14.0").unwrap();
    assert!(kit.files.failed.is_none());
    assert_eq!(written(&kit.files, "dlss5-feed.addon64"), Some(&b"addon"[..]));
    assert_eq!(written(&kit.files, "reshade-shaders/Shaders/DLSS5_Feed.fx"), Some(&b"fx"[..]));
    assert!(kit.note.starts_with("DLSS5oneclick — Vulkan Feeder kit"));
    assert!(kit.lines.iter().any(|s| s.contains("VULKAN-SETUP")));
    assert!(kit.lines.iter().any(|s| s.contains("v0.14.0")));
}

#[test]
fn dgvoodoo_from_zip_writes_d3d9_and_conf_ignores_off() {
    // Old ReShade rename must not be restored as dgVoodoo.
    let off: &[u8] = b"MZ old reshade not dgVoodoo";
    let z = zip_bytes(
        &[("MS/x86/D3D9.dll", b"MZ....dgVoodoo2 wrapper bytes for detect....")],
        &[],
    );
    let u = install_dgvoodoo_from_zip(Lang::En, &z, 32, false, false).unwrap();
    assert!(u.failed.is_none());
    let dll = written(&u, "d3d9.dll").unwrap();
    let detected = dll.windows(8).any(|w| w.eq_ignore_ascii_case(b"dgVoodoo"));
    assert!(detected);
    assert_ne!(off, dll, "must not restore d3d9.dll.off");
    let out = dgvoodoo_installed(Lang::En, detected).unwrap();
    assert!(out.contains(&"d3d9.dll".to_string()));
    assert!(out.contains(&"dgVoodoo.conf".to_string()));
    let conf = write_dgvoodoo_conf(Lang::En, None, false).unwrap().text;
    assert!(conf.contains("OutputAPI = d3d11_fl11_0"));
    assert!(conf.contains("VRAM = 4096"));
    assert!(conf.contains("Antialiasing = appdriven"));
    assert!(conf.contains("FastVideoMemoryAccess = false"));
}

#[test]
fn dgvoodoo_conf_merge_preserves_user_keys_and_floors_vram() {
    let existing = "[General]\nOutputAPI = bestavailable\nAdapters = all\n\
                    [DirectX]\nVRAM = 256\nFiltering = force16bit\n";
    let first = write_dgvoodoo_conf(Lang::En, Some(existing), false).unwrap();
    assert_eq!(first.backup.as_deref(), Some(existing));
    let conf = first.text;
    assert!(conf.contains("OutputAPI = d3d11_fl11_0"));
    assert!(!conf.to_ascii_lowercase().contains("bestavailable"));
    assert!(conf.contains("VRAM = 4096"));
    assert!(conf.contains("Filtering = force16bit"));
    assert!(conf.contains("Adapters = all"));
    // Second merge must not overwrite bak with already-merged text.
    let second = write_dgvoodoo_conf(Lang::En, Some(&conf), true).unwrap();
    assert!(second.backup.is_none());
    assert_eq!(second.text, conf);
    // Keep a higher user VRAM.
    let higher = "[General]\nOutputAPI = d3d11_fl11_0\n[DirectX]\nVRAM = 8192\n";
    let conf2 = write_dgvoodoo_conf(Lang::En, Some(higher), true).unwrap().text;
    assert!(conf2.contains("VRAM = 8192"));
}

#[test]
fn dgvoodoo_from_zip_picks_x64_member() {
    let z = zip_bytes(
        &[("MS/x64/D3D9.dll", b"MZ....dgVoodoo2 wrapper bytes for detect....")],
        &[],
    );
    let u = install_dgvoodoo_from_zip(Lang::En, &z, 64, false, false).unwrap();
    let dll = written(&u, "d3d9.dll").unwrap();
    assert!(dll.windows(8).any(|w| w.eq_ignore_ascii_case(b"dgVoodoo")));
}

#[test]
fn reshade_from_setup_exe_with_prepended_stub() {
    let mut dll = b"MZ".to_vec();
    dll.extend(std::iter::repeat(0u8).take(1 << 20));
    dll.extend_from_slice(b"ReShade");
    let setup = zip_bytes(
        &[("ReShade64.dll", &dll), ("ReShade32.dll", b"32")],
        &[b'M', b'Z', 0, 0, 0, 0, 0, 0],
    );
    assert_eq!(&setup[..2], b"MZ");
    let w = install_reshade_from_setup(Lang::En, "ReShade_Setup_6.8.0_Addon.exe", &setup, 64, "dxgi.dll")
        .unwrap();
    assert_eq!(w.dest, "dxgi.dll");
    assert_eq!(w.bytes, dll);
    let w = install_reshade_from_setup(Lang::En, "s", &setup, 32, "dxgi.dll").unwrap();
    assert_eq!(w.bytes, b"32");
}

#[test]
fn lumenite_zip_places_shaders_includes_texture_and_ignores_slip() {
    let z = zip_bytes(
        &[
            ("LumeniteFX-mainline/README.md", b"x"),
            ("LumeniteFX-mainline/Shaders/lumenite_Kernel.fx", b"technique Lumenite_Kernel {}"),
            ("LumeniteFX-mainline/Shaders/lumenite_TRAA.fx", b"t"),
            ("LumeniteFX-mainline/Shaders/include/lumenite_Helpers.fxh", b"h"),
            ("LumeniteFX-mainline/Textures/lumenite_bluenoise256.png", b"png"),
            ("../evil.fx", b"zip-slip"),
        ],
        &[],
    );
    let u = install_lumenite_from_zip(Lang::En, &z).unwrap();
    assert!(u.failed.is_none());
    let installed: Vec<&str> = u.files.iter().map(|f| f.dest.as_str()).collect();
    assert!(
        installed.len() >= 4,
        "expected at least Kernel/TRAA/include/png, got {installed:?}"
    );
    assert_eq!(
        written(&u, "reshade-shaders/Shaders/lumenite_Kernel.fx"),
        Some(&b"technique Lumenite_Kernel {}"[..])
    );
    assert!(written(&u, "reshade-shaders/Shaders/include/lumenite_Helpers.fxh").is_some());
    assert_eq!(
        written(&u, "reshade-shaders/Textures/lumenite_bluenoise256.png"),
        Some(&b"png"[..])
    );
    assert!(!installed.iter().any(|d| d.contains("evil.fx")));

    let bad = zip_bytes(&[("whatever.txt", b"x")], &[]);
    assert!(install_lumenite_from_zip(Lang::En, &bad).is_err());
}

#[test]
fn traa_ui_protect_patch_is_idempotent() {
    // Anchors must match stock lumenite_TRAA.fx (LumeniteFX mainline).
    let body = [
        "uniform int EDGE_MODE <\n",
        "    ui_tooltip = \"Luma: shading and texture edges as well; the classic DLAA mask.\\n\"\n",
        "                 \"Geometric: silhouettes only, ignores flat UI.\";\n",
        "    > = 0;\n",
        "/*--------------.\n",
        "| :: IMPORTS :: |\n",
        "'--------------*/\n",
        "namespace Kernel {}\n",
        "namespace LumeniteTRAA {\n",
        "    confidence = saturate(confidence + 0.11 * 4.0 * confidence * (1.0 - confidence));\n",
        "\n",
        "    float2 historyUV = texcoord + flow;\n",
        "technique Lumenite_TRAA <\n",
        "    ui_tooltip = \"Temporal Reprojection Anti-Aliasing.\";\n",
        ">\n",
        "}\n",
    ]
    .join("");
    let first = apply_traa_ui_patch(Lang::En, Some(&body)).unwrap();
    assert!(first.line.contains("UI protect patch"), "{}", first.line);
    let text = first.text.unwrap();
    assert!(text.contains("DLSS5_TRAA_UI_PROTECT"));
    assert!(text.contains("UI_PROTECT"));
    assert!(text.contains("> = 1;"));
    let second = apply_traa_ui_patch(Lang::En, Some(&text)).unwrap();
    assert!(second.line.contains("already applied"), "{}", second.line);
    assert!(second.text.is_none());
    // A shader without an anchor stays as it is.
    let other = apply_traa_ui_patch(Lang::En, Some("technique X {}")).unwrap();
    assert!(other.line.contains("skipped"), "{}", other.line);
    assert!(other.text.is_none());
    // So does one that lacks any single anchor.
    for (anchor, word) in [
        ("ignores flat UI.", "EDGE_MODE"),
        (":: IMPORTS ::", "IMPORTS"),
        ("namespace LumeniteTRAA {", "namespace"),
        ("0.11 * 4.0", "PS_TRAA"),
    ] {
        let p = apply_traa_ui_patch(Lang::En, Some(&body.replace(anchor, "?"))).unwrap();
        assert!(p.text.is_none());
        assert!(p.line.contains(word) && p.line.contains("skipped"), "{}", p.line);
    }
    let zh = apply_traa_ui_patch(Lang::Zh, Some(&text)).unwrap();
    assert!(zh.line.contains("已应用"));
    // Without the shader there is nothing to say.
    assert!(apply_traa_ui_patch(Lang::En, None).is_none());
}

// ── archives and what is taken from them ───────────────────────────

#[test]
fn an_archive_lists_sizes_and_contents() {
    let z = zip_bytes(&[("b.txt", b"hello"), ("a.txt", b"")], &[]);
    assert_eq!(members(&z, "no zip").unwrap(), ["b.txt", "a.txt"]);
    assert_eq!(members(b"not a zip", "no zip").unwrap_err(), "no zip");
    assert!(same_size(&z, "b.txt", Some(5)));
    assert!(!same_size(&z, "b.txt", Some(4)));
    assert!(!same_size(&z, "b.txt", None));
    assert!(!same_size(&z, "c.txt", Some(0)));
    assert!(same_size(&z, "a.txt", Some(0)));
    let plan = vec![
        Extract { member: "a.txt".to_owned(), dest: "x/a".to_owned() },
        Extract { member: "gone".to_owned(), dest: "x/g".to_owned() },
        Extract { member: "b.txt".to_owned(), dest: "x/b".to_owned() },
    ];
    let u = unpack(&z, &plan);
    assert_eq!(u.files.len(), 1);
    assert_eq!(u.files[0].dest, "x/a");
    assert_eq!(u.failed.as_deref(), Some("gone"));
}

#[test]
fn a_damaged_member_stops_the_extraction() {
    let mut z = zip_bytes(&[("a.txt", &[b'a'; 400]), ("b.txt", b"b")], &[]);
    // Damage the data behind the first local header.
    for k in 36..40 {
        z[k] ^= 0x5a;
    }
    let plan = vec![
        Extract { member: "b.txt".to_owned(), dest: "b".to_owned() },
        Extract { member: "a.txt".to_owned(), dest: "a".to_owned() },
    ];
    let u = unpack(&z, &plan);
    assert_eq!(u.files.len(), 1);
    assert_eq!(u.files[0].bytes, b"b");
    assert_eq!(u.failed.as_deref(), Some("a.txt"));
}

#[test]
fn one_file_is_taken_by_its_name() {
    let z = zip_bytes(&[("x/readme.txt", b"r"), ("x/ADDON.addon64", b"addon")], &[]);
    let u = install_single_from_zip(Lang::En, "a.zip", &z, "addon.addon64", "host64/addon.addon64")
        .unwrap();
    assert_eq!(written(&u, "host64/addon.addon64"), Some(&b"addon"[..]));
    assert_eq!(
        install_single_from_zip(Lang::En, "a.zip", &z, "other", "o").unwrap_err(),
        "a.zip does not contain other"
    );
    assert_eq!(
        install_single_from_zip(Lang::Zh, "a.zip", b"", "other", "o").unwrap_err(),
        "a.zip 不是有效的 zip"
    );
}

#[test]
fn a_setup_without_the_dll_is_refused() {
    let z = zip_bytes(&[("ReShade32.dll", b"32")], &[]);
    assert_eq!(
        install_reshade_from_setup(Lang::En, "s.exe", &z, 64, "dxgi.dll").unwrap_err(),
        "s.exe does not contain ReShade64.dll"
    );
    assert_eq!(
        install_reshade_from_setup(Lang::En, "s.exe", b"MZ", 64, "dxgi.dll").unwrap_err(),
        "ReShade installer has no readable archive"
    );
}

fn placed(s: FeederStep) -> (Unpacked, Vec<String>) {
    match s {
        FeederStep::Place { files, lines } => (files, lines),
        FeederStep::Current(t) => panic!("{t}"),
    }
}

#[test]
fn the_feeder_is_placed_or_left() {
    let z = zip_bytes(
        &[
            ("rel\\dlss5-feed.addon32", b"a32"),
            ("rel\\DLSS5_Feed.fx", b"fx"),
            ("rel\\dlss5-feed-host64.exe", b"host"),
            ("rel\\dlss5-feed.addon64", b"a64!"),
        ],
        &[],
    );
    let (u, lines) =
        placed(step_feeder(Lang::En, &z, true, false, "v0.13.1-beta.1", None, None).unwrap());
    let dests: Vec<&str> = u.files.iter().map(|f| f.dest.as_str()).collect();
    assert_eq!(
        dests,
        [
            "dlss5-feed.addon32",
            FEEDER_MARKER,
            "host64/dlss5-feed-host64.exe",
            "reshade-shaders/Shaders/DLSS5_Feed.fx",
        ]
    );
    assert_eq!(u.files[1].bytes, b"v0.13.1-beta.1");
    assert_eq!(
        lines,
        [
            "dlss5-feed.addon32 (v0.13.1-beta.1 (beta))",
            "host64/dlss5-feed-host64.exe (v0.13.1-beta.1 (beta))",
            "reshade-shaders/Shaders/DLSS5_Feed.fx",
        ]
    );
    // The same sizes: nothing to do. Another helper: everything again.
    match step_feeder(Lang::En, &z, true, true, "v1", Some(3), Some(4)).unwrap() {
        FeederStep::Current(t) => assert_eq!(t, "DLSS5-Feeder already current (v1)"),
        FeederStep::Place { .. } => panic!("placed"),
    }
    placed(step_feeder(Lang::En, &z, true, true, "v1", Some(3), Some(5)).unwrap());
    let (u, lines) = placed(step_feeder(Lang::En, &z, false, true, "v1", Some(3), None).unwrap());
    assert_eq!(u.files[0].bytes, b"a64!");
    assert_eq!(lines[0], "dlss5-feed.addon64 (v1)");
    let bare = zip_bytes(&[("dlss5-feed.addon32", b"a"), ("DLSS5_Feed.fx", b"f")], &[]);
    assert_eq!(
        step_feeder(Lang::En, &bare, true, false, "v1", None, None).unwrap_err(),
        "DLSS5-Feeder v1 has no dlss5-feed-host64.exe"
    );
    assert_eq!(
        step_feeder(Lang::En, b"x", true, false, "v1", None, None).unwrap_err(),
        "DLSS5-Feeder download is not a valid zip"
    );
    assert_eq!(
        copy_vulkan_feeder_kit_from_zip(Lang::En, &bare, "v1").unwrap_err(),
        "DLSS5-Feeder v1 has no dlss5-feed.addon64"
    );
}

#[test]
fn the_feeder_tag_falls_back_to_the_page() {
    let tags = vec!["v2".to_owned()];
    assert_eq!(feeder_tag(Lang::En, Some("v3".to_owned()), &tags).unwrap(), "v3");
    assert_eq!(feeder_tag(Lang::En, None, &tags).unwrap(), "v2");
    assert_eq!(feeder_tag(Lang::En, None, &vec![]).unwrap_err(), "no DLSS5-Feeder release found");
    assert_eq!(
        step_feeder_cleanup(true, true),
        ["dlss5-feed.addon64", "reshade-shaders/Shaders/DLSS5_Feed.fx"]
    );
    assert!(step_feeder_cleanup(false, false).is_empty());
}

#[test]
fn a_foreign_d3d9_is_never_overwritten() {
    let z = zip_bytes(&[("dg\\MS\\X86\\D3D9.dll", b"dg")], &[]);
    assert!(install_dgvoodoo_from_zip(Lang::En, &z, 32, true, true).is_ok());
    assert!(install_dgvoodoo_from_zip(Lang::En, &z, 32, true, false)
        .unwrap_err()
        .starts_with("a d3d9.dll that is not dgVoodoo is already present"));
    assert_eq!(
        install_dgvoodoo_from_zip(Lang::En, &z, 64, false, false).unwrap_err(),
        "dgVoodoo zip does not contain MS/x64/D3D9.dll — unexpected release layout"
    );
    assert_eq!(
        install_dgvoodoo_from_zip(Lang::En, b"", 64, false, false).unwrap_err(),
        "dgVoodoo download is not a valid zip"
    );
    assert_eq!(step_dgvoodoo(Lang::En, 32, false, false).unwrap(), DgVoodooStep::Download);
    assert!(step_dgvoodoo(Lang::En, 64, false, true).unwrap_err().contains("(MS/x64/D3D9.dll)"));
    assert!(dgvoodoo_installed(Lang::En, false).is_err());
}

#[test]
fn a_merged_conf_is_healthy_and_settles() {
    for text in ["", "[DirectX]\nVRAM = lots\n", "x\n[General]\n[DirectX]\ndgVoodooWatermark = true"] {
        let m = merge_dgvoodoo_conf(text);
        assert!(assert_dgvoodoo_conf_healthy(Lang::En, &m).is_ok(), "{m}");
        assert_eq!(merge_dgvoodoo_conf(&m), m);
    }
    assert!(assert_dgvoodoo_conf_healthy(Lang::En, "VRAM = 4096").is_err());
    let low = "[General]\nOutputAPI = d3d11_fl11_0\n[DirectX]\nVRAM = 64\n";
    assert!(assert_dgvoodoo_conf_healthy(Lang::En, low).is_err());
}

#[test]
fn merging_leaves_every_other_line() {
    let good = "[General]\nOutputAPI = d3d11_fl11_0\n[DirectX]\nVRAM = 8192\ndgVoodooWatermark = true\n";
    assert_eq!(merge_dgvoodoo_conf(good), good);
    // To the last character, but for a missing line feed at the end.
    let odd = "; a \t\r\n[General] \r\nOutputAPI = d3d11_fl11_0\r\n[DirectX]\nVRAM = 8192\n x=1  \n\
               dgVoodooWatermark=1\r";
    assert_eq!(merge_dgvoodoo_conf(odd), format!("{odd}\n"));
    assert_eq!(
        merge_dgvoodoo_conf("[General]\r\nOutputAPI=x\r\n[DirectX]\nvram=9\r\ndgVoodooWatermark=0\n"),
        "[General]\r\nOutputAPI = d3d11_fl11_0\r\n[DirectX]\nVRAM = 4096\r\ndgVoodooWatermark=0\n"
    );
    // The key is added where it is missing, once.
    assert_eq!(
        merge_dgvoodoo_conf("[DirectX]\nVRAM=1\n[General]\n[DirectX]\ndgVoodooWatermark=true\n"),
        "[DirectX]\nVRAM = 4096\ndgVoodooWatermark = false\n[General]\nOutputAPI = d3d11_fl11_0\n\
         [DirectX]\ndgVoodooWatermark=true\n"
    );
}

fn bare_folder(files: &[&str]) -> Folder {
    Folder {
        files: files
            .iter()
            .map(|p| FileEntry { path: (*p).to_owned(), text: None })
            .collect(),
        dirs: vec![],
        nocase: true,
    }
}

#[test]
fn optiscaler_keeps_its_settings_file() {
    let z = zip_bytes(
        &[
            ("OptiScaler.dll", b"dll"),
            ("OptiScaler.ini", b"ini"),
            ("./OPTISCALER.INI", b"again"),
            ("setup_windows.bat", b"no"),
        ],
        &[],
    );
    let s = step_opti(Lang::En, &z, &bare_folder(&[]), Some("v1")).unwrap();
    assert_eq!(s.files.files.len(), 2);
    assert_eq!(written(&s.files, "dxgi.dll"), Some(&b"dll"[..]));
    assert_eq!(written(&s.files, "OptiScaler.ini"), Some(&b"ini"[..]));
    let r = s.record.unwrap();
    assert_eq!(r.manifest, "# tag v1\ndxgi.dll\nOptiScaler.ini\nOPTISCALER.INI");
    // A settings file that is there stays, and is still on record.
    let s = step_opti(Lang::En, &z, &bare_folder(&["optiscaler.ini", "dxgi.dll"]), None).unwrap();
    assert_eq!(s.files.files.len(), 1);
    assert_eq!(written(&s.files, "dxgi.dll"), Some(&b"dll"[..]));
    assert_eq!(s.record.unwrap().manifest, "dxgi.dll\nOptiScaler.ini\nOPTISCALER.INI");
    let none = zip_bytes(&[("readme.txt", b"r")], &[]);
    let s = step_opti(Lang::En, &none, &bare_folder(&[]), None).unwrap();
    assert_eq!(
        s.record.unwrap_err(),
        "the OptiScaler release had no OptiScaler.dll — layout changed upstream"
    );
    assert_eq!(
        step_opti(Lang::En, b"", &bare_folder(&[]), None).unwrap_err(),
        "OptiScaler download is not a valid zip"
    );
}

#[test]
fn reframework_is_one_dll() {
    let z = zip_bytes(&[("reframework/readme.txt", b"r"), ("dinput8.dll", b"ref")], &[]);
    let u = step_reframework(Lang::En, &z).unwrap();
    assert_eq!(u.files.len(), 1);
    assert_eq!(written(&u, "dinput8.dll"), Some(&b"ref"[..]));
    let none = zip_bytes(&[("a.txt", b"")], &[]);
    assert_eq!(
        step_reframework(Lang::En, &none).unwrap_err(),
        "REFramework.zip has no dinput8.dll"
    );
    assert_eq!(
        step_reframework(Lang::En, b"").unwrap_err(),
        "REFramework download is not a valid zip"
    );
}

// ── what is fetched and what is left ───────────────────────────────

fn leaves(f: Fetch) -> String {
    match f {
        Fetch::Leave(t) => t,
        Fetch::Get(m) => panic!("{m:?}"),
    }
}

fn gets(f: Fetch) -> Option<String> {
    match f {
        Fetch::Get(m) => m,
        Fetch::Leave(t) => panic!("{t}"),
    }
}

#[test]
fn reshade_is_refreshed_by_its_marker() {
    assert_eq!(gets(step_reshade(Lang::En, false, None, "6.8.0")), None);
    assert_eq!(
        leaves(step_reshade(Lang::En, true, Some(" 6.8.0\n"), "6.8.0")),
        "ReShade already current (6.8.0)"
    );
    assert_eq!(
        gets(step_reshade(Lang::En, true, Some("6.7.0"), "6.8.0")).as_deref(),
        Some("ReShade 6.8.0 is out, refreshing")
    );
    assert_eq!(
        leaves(step_reshade(Lang::En, true, None, "6.8.0")),
        "ReShade present (not placed by this tool, left as is)"
    );
    assert_eq!(
        leaves(step_host_reshade(Lang::En, true, None, "6.8.0")),
        "host64/dxgi.dll present (not placed by this tool)"
    );
    assert!(reshade_allowed(Lang::En, true, true).is_ok());
    assert!(reshade_allowed(Lang::En, false, false).is_ok());
    assert!(reshade_allowed(Lang::En, false, true).unwrap_err().starts_with("dxgi.dll exists"));
    let d = step_headers(true, false, false);
    assert_eq!(d.len(), 2);
    assert_eq!(d[0].dest, "reshade-shaders/Shaders/ReShadeUI.fxh");
    assert!(d[1].url.ends_with("/slim/Shaders/DrawText.fxh"));
}

fn native_game() -> GameStatus {
    GameStatus {
        exe_name: None,
        bitness: 64,
        mode: Mode::Native,
        mode_detected: Mode::Native,
        api: Api::Dx12,
        api_detected: Api::Dx12,
        reshade: false,
        headers: false,
        feeder: false,
        lumenite: false,
        dlss5_addon: false,
        upstream: false,
        aio: false,
        dlssnr: true,
        dlss: false,
        bridge: false,
        opti: false,
        mfg: false,
        reframework: false,
        re_engine: false,
        host_exe: false,
        host_reshade: false,
        rt_likely: false,
        anticheat: false,
        gpu: None,
        problems: vec![],
        reshade_problem: None,
    }
}

#[test]
fn the_pieces_of_the_add_on_are_checked_each() {
    let p = dlss5_pieces(&native_game());
    assert_eq!(gets(step_dlss5(Lang::En, &p[0], None, "renodx-dlss5-4.55")), None);
    assert_eq!(
        gets(step_dlss5(Lang::En, &p[1], Some("dlssnr-1"), "dlssnr-2")).as_deref(),
        Some("nvngx_dlssnr.dll: dlssnr-2 is out, refreshing")
    );
    // A game with its own DLSS keeps its own nvngx_dlss.dll.
    assert_eq!(
        leaves(step_dlss5(Lang::En, &p[2], None, "dlss-1")),
        "nvngx_dlss.dll present (not placed by this tool)"
    );
    assert_eq!(
        leaves(step_dlssnr_only(true, Some("dlssnr-2"), "dlssnr-2")),
        "nvngx_dlssnr.dll already current (dlssnr-2)"
    );
    assert_eq!(gets(step_dlssnr_only(false, None, "dlssnr-2")), None);
    assert_eq!(piece_line(true, "a.dll", "t"), "host64/a.dll (t)");
    assert_eq!(piece_line(false, "a.dll", "t"), "a.dll (t)");
    let z = zip_bytes(&[("x/renodx-dlss5.addon64", b"addon")], &[]);
    assert_eq!(
        addon_current(Lang::En, &z, true, Some(5), "t").unwrap().as_deref(),
        Some("renodx-dlss5.addon64 already current (t)")
    );
    assert_eq!(addon_current(Lang::En, &z, true, Some(6), "t").unwrap(), None);
    assert_eq!(addon_current(Lang::En, b"", false, None, "t").unwrap(), None);
    assert_eq!(
        addon_current(Lang::En, b"", true, None, "t").unwrap_err(),
        "DLSS 5 add-on download is not a valid zip"
    );
}

#[test]
fn untagged_components_are_compared_by_size() {
    assert_eq!(gets(step_bridge(Lang::En, false, 0, RemoteSize::Failed)), None);
    assert_eq!(
        gets(step_bridge(Lang::En, true, 5, RemoteSize::Known(6))).as_deref(),
        Some("dlss5-bridge changed upstream, refreshing")
    );
    assert_eq!(
        leaves(step_bridge(Lang::En, true, 5, RemoteSize::NotGiven)),
        "dlss5-bridge.addon64 already current"
    );
    assert_eq!(
        leaves(step_upstream(Lang::En, true, 5, RemoteSize::Failed)),
        "nvngx.dll.addon64 present (could not check for a newer one)"
    );
    assert_eq!(
        leaves(step_upstream(Lang::Zh, true, 5, RemoteSize::Known(5))),
        "nvngx.dll.addon64 已是最新"
    );
}

#[test]
fn a_preset_is_seeded_where_there_is_one() {
    let presets = vec![
        UpstreamPreset { name: "Soft".to_owned(), id: 1 },
        UpstreamPreset { name: "Strong".to_owned(), id: 3 },
    ];
    assert_eq!(upstream_preset(Some("3"), &presets), 3);
    assert_eq!(upstream_preset(Some("2"), &presets), 0);
    assert_eq!(upstream_preset(Some("300"), &presets), 0);
    assert_eq!(upstream_preset(Some("x"), &presets), 0);
    assert_eq!(upstream_preset(None, &presets), 0);
    assert_eq!(
        upstream_lines(Lang::En, 3, &presets),
        ["nvngx.dll.addon64", "neural-upstream preset: Strong"]
    );
    assert_eq!(upstream_lines(Lang::En, 0, &presets), ["nvngx.dll.addon64"]);
}

#[test]
fn the_gpu_preference_is_reported() {
    assert_eq!(
        step_gpu_pref(Lang::En, "g.exe", &Preference::Changed),
        "g.exe: Windows GPU preference set to high performance"
    );
    assert_eq!(
        step_gpu_pref(Lang::Zh, "g.exe", &Preference::Already),
        "g.exe：已设为高性能 GPU"
    );
    assert_eq!(
        step_gpu_pref(Lang::En, "g.exe", &Preference::Failed("denied".to_owned())),
        "g.exe: could not set the GPU preference (denied)"
    );
}

#[test]
fn the_preference_is_set_for_the_programs_that_are_there() {
    let both = [PrefTarget::Game, PrefTarget::Host];
    assert_eq!(pref_targets(true, true, true, true), both);
    assert_eq!(pref_targets(true, true, false, true), both[1..]);
    assert_eq!(pref_targets(true, true, true, false), both[..1]);
    assert_eq!(pref_targets(true, false, true, true), both[..1]);
    assert!(pref_targets(false, true, true, true).is_empty());
}

#[test]
fn refusals_speak_chinese() {
    let e = step_dgvoodoo(Lang::Zh, 64, false, true).unwrap_err();
    assert!(e.contains("（MS/x64/D3D9.dll）"), "{e}");
    assert!(dgvoodoo_installed(Lang::Zh, false).unwrap_err().contains("未检测到"));
    let e = install_lumenite_from_zip(Lang::Zh, b"no zip").unwrap_err();
    assert_eq!(e, "LumeniteFX 下载内容不是有效的 zip");
}
