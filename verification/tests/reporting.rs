use dlss5oneclick::diagnose::{Logs, Session};
use dlss5oneclick::game::{Api, GameStatus, Mode};
use dlss5oneclick::lang::Lang;
use dlss5oneclick::ngx::NgxSystem;
use dlss5oneclick::report::{
    bundle_name, carried_files, listed_folders, listing, summary, tail, write_bundle, Carried,
    Content, Entry, Inspected, Row, Section, TAIL_BYTES,
};

fn reported_game() -> Inspected {
    Inspected {
        status: GameStatus {
            exe_name: Some("game.exe".to_owned()),
            bitness: 64,
            mode: Mode::Feeder,
            mode_detected: Mode::Native,
            api: Api::Dx11,
            api_detected: Api::Dx12,
            reshade: true,
            headers: false,
            feeder: true,
            lumenite: false,
            dlss5_addon: true,
            upstream: false,
            aio: false,
            dlssnr: true,
            dlss: false,
            bridge: false,
            opti: false,
            mfg: false,
            reframework: false,
            re_engine: false,
            host_exe: false,
            host_reshade: false,
            rt_likely: false,
            anticheat: false,
            gpu: None,
            problems: vec!["too old".to_owned()],
            reshade_problem: None,
        },
        session: Session {
            game_logs: Logs {
                reshade: Some("Initializing crosire's ReShade".to_owned()),
                reshade2: None,
            },
            host_logs: Logs { reshade: None, reshade2: None },
            compiler: false,
            compiler_version: None,
            model: false,
            model_version: None,
            consumer_model: false,
            consumer_model_version: None,
            bridge_log: None,
            redist: None,
            redist_version: None,
            feed_log: None,
            host_log: None,
            hybrid: false,
            adapters: vec![],
            game_prefers: false,
            host_prefers: false,
            ngx: NgxSystem { driver: None, core: None, core_folder: false },
        },
        api: "D3D11".to_owned(),
        api_detected: "D3D12".to_owned(),
        gpu: Some(("RTX 5080".to_owned(), "RTX 50".to_owned())),
        complete: false,
    }
}

fn row(name: &str, len: u64, dir: bool) -> Row {
    Row { name: name.to_owned(), len, dir }
}

fn entry<'a>(v: &'a [Entry], name: &str) -> &'a Entry {
    match v.iter().find(|e| e.name == name) {
        Some(e) => e,
        None => panic!("{name} missing from {v:?}"),
    }
}

#[test]
fn bundle_carries_logs_markers_listing_and_summary() {
    let s = summary(Lang::En, "0.14.0", "C:\\g\\game.exe", None, &Ok(reported_game()));
    let sections = vec![Section {
        sub: String::new(),
        rows: Some(vec![row("game.exe", 4, false), row("host64", 0, true)]),
    }];
    let files = vec![
        Carried { path: "ReShade.log".to_owned(), bytes: b"Initializing crosire's ReShade".to_vec() },
        Carried { path: "host64/ReShade.log".to_owned(), bytes: b"host".to_vec() },
    ];
    let folder = vec![
        ("game.exe".to_owned(), None),
        ("nvngx_dlss.dll.dlss5oneclick".to_owned(), Some("v310.9.1".to_owned())),
    ];
    let v = write_bundle(s, listing(&sections), files, &folder, None);
    for want in [
        "summary.txt",
        "folder.txt",
        "game/ReShade.log",
        "game/host64/ReShade.log",
        "game/nvngx_dlss.dll.dlss5oneclick",
    ] {
        entry(&v, want);
    }
    match &entry(&v, "summary.txt").content {
        Content::Text(s) => {
            assert!(s.contains("--diagnose:"), "{s}");
            assert!(s.contains("64-bit"), "{s}");
        }
        Content::Bytes(_) => panic!("bytes"),
    }
}

#[test]
fn tail_keeps_the_end_of_a_big_log() {
    let mut body = vec![b'a'; (TAIL_BYTES + 10) as usize];
    body.extend_from_slice(b"THE END");
    let t = tail(body.len() as u64);
    let mut got = t.head.unwrap().into_bytes();
    got.extend_from_slice(&body[t.start as usize..]);
    assert!(got.starts_with(b"[... first 17 bytes omitted ...]"));
    assert!(got.ends_with(b"THE END"));
    let small = tail(TAIL_BYTES);
    assert!(small.head.is_none());
    assert_eq!(small.start, 0);
}

// ── exact texts ────────────────────────────────────────────────────

#[test]
fn the_summary_spells_out_the_state() {
    let s = summary(Lang::En, "0.14.0", "C:\\g\\game.exe", Some("616.56"), &Ok(reported_game()));
    let mut lines = s.lines();
    assert_eq!(lines.next(), Some("dlss5oneclick 0.14.0"));
    assert_eq!(lines.next(), Some("exe: C:\\g\\game.exe"));
    assert_eq!(lines.next(), Some("nvidia driver: 616.56"));
    assert_eq!(
        lines.next(),
        Some("64-bit | D3D11 (detected D3D12) | mode=Feeder (detected Native) | reshade=true headers=false feeder=true lumenite=false dlss5=true upstream=false aio=false dlssnr=true dlss=false bridge=false opti=false mfg=false reframework=false | gpu=RTX 5080 [RTX 50] | complete=false")
    );
    assert_eq!(lines.next(), Some("! too old"));
    assert_eq!(lines.next(), Some(""));
    assert_eq!(lines.next(), Some("--diagnose:"));
    assert!(lines.next().unwrap().starts_with("[ok  ] "));
    assert!(lines.next().unwrap().starts_with("[FAIL] "));
    let mut bare = reported_game();
    bare.gpu = None;
    assert!(summary(Lang::En, "1", "e", None, &Ok(bare)).contains("| gpu=unknown |"));
    assert_eq!(
        summary(Lang::En, "1", "e", None, &Err("not a PE".to_owned())),
        "dlss5oneclick 1\nexe: e\ninspect failed: not a PE\n"
    );
}

#[test]
fn the_listing_is_sorted_and_sized() {
    assert_eq!(listed_folders().len(), 5);
    let sections = vec![
        Section {
            sub: String::new(),
            rows: Some(vec![row("b.dll", 20, false), row("a", 0, true), row("B.dll", 3, false)]),
        },
        Section { sub: "host64".to_owned(), rows: None },
        Section { sub: "reshade-shaders/Shaders".to_owned(), rows: Some(vec![]) },
    ];
    assert_eq!(
        listing(&sections),
        "[.]\n  B.dll  3\n  a/\n  b.dll  20\n[reshade-shaders/Shaders]\n"
    );
    let same = vec![Section {
        sub: "x".to_owned(),
        rows: Some(vec![row("a", 2, false), row("a", 1, true), row("a", 1, false)]),
    }];
    assert_eq!(listing(&same), "[x]\n  a  1\n  a/\n  a  2\n");
}

#[test]
fn a_bundle_is_named_and_ordered() {
    assert_eq!(bundle_name(Some("game"), 1700000000), "dlss5oneclick-report-game-1700000000.zip");
    assert_eq!(bundle_name(None, 0), "dlss5oneclick-report-game-0.zip");
    assert_eq!(carried_files().len(), 19);
    assert_eq!(carried_files()[0], "ReShade.log");
    let folder = vec![
        ("a.dlss5oneclick".to_owned(), None),
        ("b.dlss5oneclick".to_owned(), Some("t".to_owned())),
        ("c.txt".to_owned(), Some("no".to_owned())),
    ];
    let v = write_bundle("s".to_owned(), "l".to_owned(), vec![], &folder, Some(vec![b'{', b'}']));
    let names: Vec<&str> = v.iter().map(|e| e.name.as_str()).collect();
    assert_eq!(names, ["summary.txt", "folder.txt", "game/b.dlss5oneclick", "settings.json"]);
    assert!(matches!(&v[3].content, Content::Bytes(b) if b == b"{}"));
}
