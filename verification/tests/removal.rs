use dlss5oneclick::folder::{is_same_path, FileEntry, Folder};
use dlss5oneclick::game::{
    DLSS5_ADDON, DLSSNR_DLL, DLSS_DLL, DLSS_MARKER, FEEDER_ADDON, FEEDER_ADDON32, FEEDER_FX,
    HOST_DIR, HOST_EXE, OPTI_MANIFEST, REFRAMEWORK_DLL, REFRAMEWORK_MARKER, RENODX_MANIFEST,
    RESHADE_MARKER, RESHADE_PROXY,
};
use dlss5oneclick::game::{Api, GameStatus, Mode};
use dlss5oneclick::lang::{tr, Lang};
use dlss5oneclick::order::sort;
use dlss5oneclick::plan::{plan_with, Engine};
use dlss5oneclick::steps::install_single_from_zip;
use dlss5oneclick::uninstall::{
    addon_name, lumenite_name, reshade_file_name, uninstall, uninstall_all, uninstall_files, Op,
    Removal,
};
use std::io::Write;

fn game_folder(files: &[(&str, &str)], dirs: &[&str]) -> Folder {
    Folder {
        files: files
            .iter()
            .map(|(p, t)| FileEntry { path: (*p).to_owned(), text: Some((*t).to_owned()) })
            .collect(),
        dirs: dirs.iter().map(|d| (*d).to_owned()).collect(),
        nocase: true,
    }
}

fn removed_from(folder: Folder) -> Removal {
    uninstall(Lang::En, folder, "game.exe", false, false)
}

fn reports(r: &Removal, line: &str) -> bool {
    r.removed.iter().any(|l| l == line)
}

#[test]
fn single_from_zip_and_uninstall() {
    let mut w = zip::ZipWriter::new(std::io::Cursor::new(Vec::new()));
    w.start_file("renodx-dlss5.addon64", zip::write::SimpleFileOptions::default()).unwrap();
    w.write_all(b"addon").unwrap();
    let z = w.finish().unwrap().into_inner();
    let u = install_single_from_zip(
        Lang::En,
        "renodx-dlss5-4.55.zip",
        &z,
        "renodx-dlss5.addon64",
        "renodx-dlss5.addon64",
    )
    .unwrap();
    assert_eq!(u.files[0].bytes, b"addon");
    let r = removed_from(game_folder(
        &[("game.exe", ""), (&u.files[0].dest, "addon"), (DLSS_DLL, "keep")],
        &[],
    ));
    assert!(reports(&r, "renodx-dlss5.addon64"));
    assert!(r.folder.is_file(DLSS_DLL));
}

#[test]
fn thirty_two_bit_plan_status_and_uninstall() {
    let st = GameStatus {
        exe_name: Some("game32.exe".to_owned()),
        bitness: 32,
        mode: Mode::Feeder,
        mode_detected: Mode::Feeder,
        api: Api::Other,
        api_detected: Api::Other,
        reshade: false,
        headers: false,
        feeder: false,
        lumenite: false,
        dlss5_addon: false,
        upstream: false,
        aio: false,
        dlssnr: false,
        dlss: false,
        bridge: false,
        opti: false,
        mfg: false,
        reframework: false,
        re_engine: false,
        host_exe: false,
        host_reshade: false,
        rt_likely: false,
        anticheat: false,
        gpu: None,
        problems: vec![],
        reshade_problem: None,
    };
    assert!(st.is32());
    let names: Vec<&str> = plan_with(&st, Engine::ReShade, false, false)
        .iter()
        .map(|s| s.title(Lang::En))
        .collect();
    assert_eq!(names[0], tr(Lang::En, "ReShade (add-on build)", "ReShade（附加组件版）"));
    assert_eq!(names[1], tr(Lang::En, "64-bit ReShade for the host64 helper", "host64 助手的 64 位 ReShade"));
    assert_eq!(names.len(), 8); // + the GPU-preference step

    // The 32-bit layout, and its removal.
    let host = |name: &str| format!("{HOST_DIR}/{name}");
    let fx = format!("reshade-shaders/Shaders/{FEEDER_FX}");
    let r = removed_from(game_folder(
        &[
            ("game32.exe", ""),
            (FEEDER_ADDON32, "a32"),
            (&fx, "fx"),
            (&host(HOST_EXE), "host"),
            (&host(DLSS5_ADDON), "addon"),
            (&host(DLSSNR_DLL), "nr"),
            (&host(DLSS_DLL), "dlss"),
            (&host(DLSS_MARKER), "dlss-1"),
            (&host(RESHADE_PROXY), "ReShade"),
            (&host(RESHADE_MARKER), "6.8.0"),
        ],
        &["reshade-shaders", "reshade-shaders/Shaders", HOST_DIR],
    ));
    assert!(r.removed.iter().any(|l| l.contains(HOST_EXE)));
    assert!(!r.folder.is_dir(HOST_DIR), "host64 folder should be gone: {:?}", r.removed);
    assert!(!r.folder.is_file(FEEDER_ADDON32));
}

#[test]
fn uninstall_removes_recorded_renodx_mod_and_reframework_only() {
    let mut files = vec![
        ("game.exe", ""),
        ("renodx-cp2077.addon64", "ours"),
        ("renodx-ff7rebirth.addon64", "theirs"),
        (RENODX_MANIFEST, "renodx-cp2077.addon64\n"),
        (REFRAMEWORK_DLL, "ref"),
    ];
    let r = removed_from(game_folder(&files, &[]));
    assert!(reports(&r, "renodx-cp2077.addon64"));
    assert!(r.folder.is_file("renodx-ff7rebirth.addon64"));
    // dinput8.dll without our marker is somebody else's REFramework: kept.
    assert!(r.folder.is_file(REFRAMEWORK_DLL));
    files.push((REFRAMEWORK_MARKER, ""));
    let r = removed_from(game_folder(&files, &[]));
    assert!(reports(&r, REFRAMEWORK_DLL));
}

#[test]
fn uninstall_all_removes_reshade_even_with_leftover_shaders() {
    let fx = format!("reshade-shaders/Shaders/{FEEDER_FX}");
    let folder = game_folder(
        &[
            ("game.exe", ""),
            ("dxgi.dll", "ReShade"),
            (RESHADE_MARKER, "6.8.0"),
            (FEEDER_ADDON, "x"),
            (&fx, "x"),
            ("reshade-shaders/Shaders/ReShade.fxh", "x"),
            ("ReShade.ini", "x"),
            ("ReShadePreset.ini", "x"),
            ("dlss5-feed.cfg", "x"),
            // Pre-existing shader pack (Gothic 3 etc.) must not block dxgi.dll removal.
            ("reshade-shaders/Shaders/Clarity.fx", "user shader"),
            // dgVoodoo for DX9 games must never be touched.
            ("d3d9.dll", "MZ...dgVoodoo2 wrapper..."),
            ("dgVoodoo.conf", "[DirectX]\nOutputAPI = bestavailable\n"),
        ],
        &["reshade-shaders", "reshade-shaders/Shaders"],
    );
    let (r, kept) = uninstall_all(Lang::En, folder, "game.exe", false, false, true);
    assert!(kept.is_none(), "{kept:?}");
    assert!(reports(&r, "dxgi.dll"));
    assert!(!r.folder.is_file("dxgi.dll"));
    assert!(!r.folder.is_file(RESHADE_MARKER));
    assert!(!r.folder.is_file("ReShade.ini"));
    assert!(!r.folder.is_file("dlss5-feed.cfg"));
    assert!(!r.folder.is_file(FEEDER_ADDON));
    assert!(r.folder.is_file("reshade-shaders/Shaders/Clarity.fx"));
    assert!(r.folder.is_file("d3d9.dll"), "dgVoodoo d3d9.dll must stay");
    assert!(r.folder.is_file("dgVoodoo.conf"));
}

#[test]
fn uninstall_all_cleans_empty_reshade_shaders_tree() {
    let folder = game_folder(
        &[
            ("game.exe", ""),
            ("dxgi.dll", "ReShade"),
            ("reshade-shaders/Shaders/ReShade.fxh", "x"),
            ("ReShade.ini", "x"),
        ],
        &["reshade-shaders", "reshade-shaders/Shaders"],
    );
    let (r, kept) = uninstall_all(Lang::En, folder, "game.exe", false, false, true);
    assert!(kept.is_none(), "{kept:?}");
    assert!(reports(&r, "dxgi.dll"));
    assert!(!r.folder.is_file("dxgi.dll"));
    assert!(!r.folder.is_file("ReShade.ini"));
    assert!(!r.folder.is_dir("reshade-shaders"));
    assert!(!r.folder.is_dir("reshade-shaders/Shaders"));
}

#[test]
fn uninstall_all_keeps_foreign_addons() {
    let folder = game_folder(
        &[("game.exe", ""), ("dxgi.dll", "ReShade"), ("someones-mod.addon64", "x")],
        &[],
    );
    let (r, kept) = uninstall_all(Lang::En, folder, "game.exe", false, false, true);
    assert!(kept.is_some());
    assert!(kept.unwrap().contains("someones-mod.addon64"));
    assert!(r.folder.is_file("dxgi.dll"));
}

#[test]
fn uninstall_removes_opti_manifest_files() {
    let r = removed_from(game_folder(
        &[
            ("game.exe", ""),
            ("dxgi.dll", "opti"),
            ("OptiScaler.ini", "ini"),
            ("OptiScaler/libxess.dll", "x"),
            (OPTI_MANIFEST, "dxgi.dll\nOptiScaler.ini\nOptiScaler/libxess.dll"),
        ],
        &["OptiScaler"],
    ));
    assert!(reports(&r, "dxgi.dll"));
    assert!(!r.folder.is_file("dxgi.dll"));
    assert!(!r.folder.is_dir("OptiScaler"));
    assert!(!r.folder.is_file(OPTI_MANIFEST));
}

// ── what stays, what goes, in which order ──────────────────────────

#[test]
fn a_second_removal_finds_nothing() {
    let first = uninstall_files(game_folder(
        &[
            ("game.exe", ""),
            (FEEDER_ADDON, ""),
            ("reshade-shaders/Shaders/Lumenite_Kernel.fx", ""),
            ("reshade-shaders/Shaders/include/lumenite_Helpers.fxh", ""),
            (OPTI_MANIFEST, "dxgi.dll"),
        ],
        &["reshade-shaders", "reshade-shaders/Shaders", "reshade-shaders/Shaders/include"],
    ));
    assert_eq!(first.removed.len(), 4, "{:?}", first.removed);
    assert!(!first.folder.is_dir("reshade-shaders/Shaders/include"));
    assert!(first.folder.is_dir("reshade-shaders/Shaders"));
    let second = uninstall_files(first.folder);
    assert!(second.removed.is_empty());
    assert!(second.ops.is_empty());
    assert!(second.folder.is_file("game.exe"));
}

#[test]
fn the_operations_follow_the_report() {
    let r = uninstall_files(game_folder(
        &[("Dlss5-Feed.Addon64", ""), (OPTI_MANIFEST, "# tag v1\n../x.dll"), ("x.dll", "")],
        &["OptiScaler"],
    ));
    assert_eq!(r.removed, ["../x.dll", OPTI_MANIFEST, FEEDER_ADDON]);
    let shown: Vec<String> = r
        .ops
        .iter()
        .map(|o| match o {
            Op::File(p) => format!("file {p}"),
            Op::Dir(p) => format!("dir {p}"),
            Op::Dirs(p) => format!("dirs {p}"),
        })
        .collect();
    assert_eq!(
        shown,
        [
            "file x.dll".to_owned(),
            "dir OptiScaler".to_owned(),
            format!("file {OPTI_MANIFEST}"),
            format!("file {FEEDER_ADDON}"),
        ]
    );
    assert!(r.folder.files.is_empty());
}

#[test]
fn the_games_own_dlss_and_proxy_stay() {
    let files = [("nvngx_dlss.dll", "theirs"), ("dxgi.dll", "DXVK"), ("game.exe", "")];
    let (r, kept) =
        uninstall_all(Lang::En, game_folder(&files, &[]), "game.exe", false, false, false);
    assert!(kept.is_none());
    assert!(r.removed.is_empty(), "{:?}", r.removed);
    assert_eq!(r.folder.files.len(), 3);
    let marked = [("nvngx_dlss.dll", "ours"), (DLSS_MARKER, "dlss-1")];
    let r = removed_from(game_folder(&marked, &[]));
    assert_eq!(r.removed, [DLSS_MARKER]);
    assert!(r.folder.is_file("nvngx_dlss.dll"));
}

#[test]
fn manifest_entries_go_by_the_rules_of_the_system() {
    let manifest = "# tag v1\nOptiScaler\\A.dll\nÄ.dll\n";
    let files = [("OptiScaler/a.dll", ""), ("ä.DLL", ""), (OPTI_MANIFEST, manifest)];
    let mut folder = game_folder(&files, &["OptiScaler"]);
    folder.nocase = true;
    let r = removed_from(folder);
    assert!(r.folder.files.is_empty(), "{:?}", r.folder.files);
    assert!(r.folder.dirs.is_empty());
    assert_eq!(r.removed, ["OptiScaler\\A.dll", "Ä.dll", OPTI_MANIFEST]);
    // Between backslashes `..` leads up, and what leads out names nothing here.
    let taken = |entry: &str| {
        let m = format!("{entry}\n");
        let files = [("b.dll", ""), ("a/b.dll", ""), (OPTI_MANIFEST, m.as_str())];
        let mut folder = game_folder(&files, &["a"]);
        folder.nocase = true;
        let r = removed_from(folder);
        (!r.folder.is_file("b.dll"), !r.folder.is_file("a/b.dll"))
    };
    assert_eq!(taken("a\\..\\b.dll"), (true, false));
    assert_eq!(taken("x\\..\\a\\.\\b.dll"), (false, true));
    assert_eq!(taken("a/../b.dll"), (false, true));
    assert_eq!(taken("a\\..\\..\\b.dll"), (false, false));
    assert_eq!(taken("\\b.dll"), (false, false));
    assert_eq!(taken("C:\\..\\b.dll"), (false, false));
    assert_eq!(taken("b.dll\\"), (false, false));
    // Elsewhere a backslash is part of a name, and case matters.
    let mut folder = game_folder(&files, &["OptiScaler"]);
    folder.nocase = false;
    let r = removed_from(folder);
    assert_eq!(r.removed, [OPTI_MANIFEST]);
    assert_eq!(r.folder.files.len(), 2);
}

#[test]
fn letters_fold_one_for_one() {
    let chars = |s: &str| s.chars().collect::<Vec<char>>();
    let same = |a: &str, b: &str| is_same_path(true, &chars(a), &chars(b));
    assert!(same("Ναός.dll", "ΝΑΌΣ.DLL"));
    assert!(!same("straße", "strasse"));
    // The Kelvin sign and the dotless i are no ASCII letters.
    assert!(!same("\u{212A}", "k"));
    assert!(!same("ı", "I"));
    assert!(!is_same_path(false, &chars("a"), &chars("A")));
}

#[test]
fn cleared_preferences_are_reported() {
    let r = uninstall(Lang::En, game_folder(&[], &["host64"]), "game.exe", true, true);
    assert_eq!(
        r.removed,
        [
            "Windows GPU preference for game.exe",
            "Windows GPU preference for dlss5-feed-host64.exe",
            "host64/",
        ]
    );
}

#[test]
fn case_matters_where_the_file_system_says_so() {
    let mut f = game_folder(&[("DLSS5-FEED.ADDON64", "")], &[]);
    assert!(f.is_file(FEEDER_ADDON));
    f.nocase = false;
    assert!(!f.is_file(FEEDER_ADDON));
    assert_eq!(f.read("DLSS5-FEED.ADDON64").as_deref(), Some(""));
    assert!(uninstall_files(f).removed.is_empty());
}

#[test]
fn file_names_are_told_by_their_lower_case() {
    assert!(lumenite_name("lumenite_traa.fx", ".fx"));
    assert!(!lumenite_name("lumenite_traa.fxh", ".fx"));
    assert!(addon_name("a.addon32"));
    assert!(!addon_name("addon64"));
    assert!(reshade_file_name("reshade.log"));
    assert!(!reshade_file_name("reshade.txt"));
    // Letters beyond ASCII are lowered as well.
    let f = game_folder(&[("MÖD.ADDON64", ""), ("dxgi.dll", "")], &[]);
    let (_, kept) = uninstall_all(Lang::En, f, "g.exe", false, false, true);
    assert!(kept.unwrap().contains("möd.addon64"));
    let names: Vec<String> = ["b", "a", "B", "aa"].map(String::from).to_vec();
    assert_eq!(sort(&names), ["B", "a", "aa", "b"]);
}
