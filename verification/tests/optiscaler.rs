use dlss5oneclick::ini::{set_dlss_nr_enabled, set_ini_key, set_load_reshade};
use dlss5oneclick::lang::Lang;
use dlss5oneclick::opti::{
    manifest, manifest_entries, manifest_tag, opti_fetch, opti_placements, opti_presr, opti_record,
    opti_releases_url, opti_repo, opti_settings, record_reshade, reshade_via_opti, Fetch,
    OPTI_PRESR_REPO, OPTI_REPO,
};

/// The engine choice decides which fork is fetched, and nothing else.
#[test]
fn opti_source_selects_the_fork() {
    assert_eq!(opti_repo(None), OPTI_REPO);
    assert_eq!(opti_repo(Some("presr")), OPTI_PRESR_REPO);
    assert_eq!(opti_repo(Some("something else")), OPTI_REPO);
    assert!(opti_presr(Some("PreSR")));
    assert_eq!(
        opti_releases_url(None),
        "https://api.github.com/repos/Dagherbou/OptiScaler_DLSSNR/releases"
    );
}

#[test]
fn set_ini_key_is_section_scoped_and_appends() {
    // The RE Engine hotfixes go under [Hotfix]; the same key names exist
    // elsewhere in OptiScaler.ini, so only that section may move.
    let ini = "[Menu]
ManualInputPolling=auto

[Hotfix]
ManualInputPolling=auto
ExtendedStateRestore=true
";
    let out = set_ini_key(ini, "Hotfix", "ManualInputPolling", "true").unwrap();
    assert_eq!(
        out,
        "[Menu]
ManualInputPolling=auto

[Hotfix]
ManualInputPolling=true
ExtendedStateRestore=true
"
    );
    // A value that already reads that way is left alone.
    assert!(set_ini_key(&out, "Hotfix", "ManualInputPolling", "true").is_none());
    // Turning one back off is the same operation.
    let off = set_ini_key(&out, "Hotfix", "ExtendedStateRestore", "false").unwrap();
    assert!(off.contains("ExtendedStateRestore=false"));
    // Missing section is appended rather than dropped.
    let added = set_ini_key(
        "[Menu]
X=1
",
        "Hotfix",
        "RestoreComputeSignature",
        "true",
    )
    .unwrap();
    assert!(added.ends_with(
        "
[Hotfix]
RestoreComputeSignature=true
"
    ));
}

#[test]
fn dlss_nr_enabled_is_section_scoped() {
    // "Enabled" also lives under other headings; only DlssNr's may move.
    let ini = "[OptiFG]\nEnabled=auto\n\n[DlssNr]\n; comment\nEnabled=auto\n";
    assert_eq!(
        set_dlss_nr_enabled(ini).unwrap(),
        "[OptiFG]\nEnabled=auto\n\n[DlssNr]\n; comment\nEnabled=true\n"
    );
    assert!(set_dlss_nr_enabled("[DlssNr]\nEnabled=true\n").is_none());
    // No section at all: append one.
    assert_eq!(
        set_dlss_nr_enabled("[OptiFG]\nEnabled=auto\n").unwrap(),
        "[OptiFG]\nEnabled=auto\n\n[DlssNr]\nEnabled=true\n"
    );
}

#[test]
fn set_load_reshade_rewrites_or_appends() {
    let ini = "[Plugins]\r\n; doc\r\nLoadReshade=auto\r\nOther=1\r\n";
    assert_eq!(
        set_load_reshade(ini).unwrap(),
        "[Plugins]\r\n; doc\r\nLoadReshade=true\r\nOther=1\r\n"
    );
    assert!(set_load_reshade("LoadReshade=true\n").is_none());
    assert_eq!(
        set_load_reshade("[Upscalers]\nDx12Upscaler=auto\n").unwrap(),
        "[Upscalers]\nDx12Upscaler=auto\n\n[Plugins]\nLoadReshade=true\n"
    );
}

/// The manifest carries the tag on a comment line, and older manifests (written
/// before that) must read as "unknown" rather than as a path.
#[test]
fn manifest_tag_is_read_from_the_header() {
    let m = "# tag v0.2.0-dlssnr\nOptiScaler.dll\ndxgi.dll\n";
    assert_eq!(manifest_tag(m).as_deref(), Some("v0.2.0-dlssnr"));
    assert_eq!(manifest_tag("OptiScaler.dll\ndxgi.dll\n"), None);
}

// ── settings, manifest and placements as a whole ───────────────────

#[test]
fn a_working_scale_is_written() {
    let out = set_ini_key("[DlssNr]\nEnabled=auto\n", "DlssNr", "WorkingScale", "0.75").unwrap();
    assert_eq!(out, "[DlssNr]\nEnabled=auto\nWorkingScale=0.75\n");
    // The end of the section is not the end of the file.
    let out = set_ini_key("[DlssNr]\nEnabled=auto\n[Menu]\nX=1", "DlssNr", "WorkingScale", "0.75");
    assert_eq!(out.unwrap(), "[DlssNr]\nEnabled=auto\nWorkingScale=0.75\n[Menu]\nX=1\n");
    let out = set_ini_key("[A]\n[B]\n[A]", "A", "k", "v").unwrap();
    assert_eq!(out, "[A]\n[B]\n[A]\nk=v\n");
    assert_eq!(set_ini_key(&out, "A", "k", "v"), None);
}

#[test]
fn keys_keep_their_line_endings_and_neighbours() {
    let out = set_ini_key("[A]\r\nk = 1\r\n  j=2", "a", "k", "3").unwrap();
    assert_eq!(out, "[A]\r\nk=3\r\n  j=2");
    // A last line without a line feed gets one before a new section.
    let out = set_ini_key("[A]\nj=2", "B", "k", "3").unwrap();
    assert_eq!(out, "[A]\nj=2\n\n[B]\nk=3\n");
    assert_eq!(set_ini_key("", "B", "k", "3").unwrap(), "\n[B]\nk=3\n");
    // Keys are told apart by case, sections are not.
    let out = set_ini_key("[b]\nK=3\n", "B", "k", "3").unwrap();
    assert_eq!(out, "[b]\nK=3\nk=3\n");
}

#[test]
fn the_settings_of_an_install_settle() {
    let ini = "[Menu]\nX=1\n[DlssNr]\nEnabled=auto\nWorkingScale=1.0\n";
    let once = opti_settings(ini, "0.5", false);
    assert_eq!(once, "[Menu]\nX=1\n[DlssNr]\nEnabled=true\nWorkingScale=0.5\n");
    assert_eq!(opti_settings(&once, "0.5", false), once);
    let re = opti_settings(ini, "1.0", true);
    for key in [
        "ManualInputPolling=true",
        "RestoreComputeSignature=true",
        "RestoreGraphicSignature=false",
        "ExtendedStateRestore=false",
    ] {
        assert!(re.contains(key), "{re}");
    }
    assert_eq!(opti_settings(&re, "1.0", true), re);
}

#[test]
fn a_manifest_reads_back() {
    let files: Vec<String> = ["dxgi.dll", "OptiScaler/libxess.dll"].map(String::from).to_vec();
    let m = manifest(Some("v0.2.0 "), &files);
    assert_eq!(m, "# tag v0.2.0 \ndxgi.dll\nOptiScaler/libxess.dll");
    assert_eq!(manifest_tag(&m).as_deref(), Some("v0.2.0"));
    assert_eq!(manifest_entries(&m), files);
    let bare = manifest(None, &files);
    assert_eq!(manifest_tag(&bare), None);
    assert_eq!(manifest_entries(&bare), files);
    assert!(manifest_entries("# note\n \n\n").is_empty());
}

#[test]
fn reshade_is_recorded_once_in_the_manifest() {
    let once = record_reshade("# tag v1\ndxgi.dll").unwrap();
    assert_eq!(once, "# tag v1\ndxgi.dll\nReShade64.dll");
    assert_eq!(record_reshade(&once), None);
    assert_eq!(record_reshade("").unwrap(), "ReShade64.dll");
    assert_eq!(record_reshade("a\n").unwrap(), "a\nReShade64.dll");
}

#[test]
fn members_never_leave_the_game_folder() {
    let names: Vec<String> = [
        "OptiScaler.dll",
        "OptiScaler\\D3D12_OptiScaler\\x.dll",
        "../../evil.dll",
        "C/./a//b.txt",
        "folder/",
        "setup_windows.BAT",
        "!! READ ME.txt",
        "sub/OPTISCALER.INI",
        "..",
    ]
    .map(String::from)
    .to_vec();
    let placed = opti_placements(&names);
    let dests: Vec<&str> = placed.iter().map(|p| p.dest.as_str()).collect();
    assert_eq!(
        dests,
        ["dxgi.dll", "OptiScaler/D3D12_OptiScaler/x.dll", "evil.dll", "C/a/b.txt", "sub/OPTISCALER.INI"]
    );
    let settings: Vec<bool> = placed.iter().map(|p| p.settings).collect();
    assert_eq!(settings, [false, false, false, false, true]);
    let r = opti_record(Lang::En, &placed, Some("v1")).unwrap();
    assert!(r.manifest.starts_with("# tag v1\ndxgi.dll\n"));
    assert_eq!(r.installed.last().unwrap(), ".dlss5oneclick-optiscaler-manifest");
    let none = opti_placements(&vec!["readme.txt".to_owned()]);
    assert_eq!(
        opti_record(Lang::En, &none, None).unwrap_err(),
        "the OptiScaler release had no OptiScaler.dll — layout changed upstream"
    );
}

fn left(f: Fetch) -> String {
    match f {
        Fetch::Leave(t) => t,
        Fetch::Get(_) => panic!("fetched"),
    }
}

fn got(f: Fetch) -> Option<String> {
    match f {
        Fetch::Get(m) => m,
        Fetch::Leave(t) => panic!("{t}"),
    }
}

#[test]
fn only_our_own_optiscaler_is_refreshed() {
    let m = Some("# tag v1\ndxgi.dll");
    assert!(opti_fetch(Lang::En, true, false, None, None).unwrap_err().contains("dxgi.dll"));
    assert_eq!(got(opti_fetch(Lang::En, false, false, None, Some("v2")).unwrap()), None);
    assert_eq!(
        left(opti_fetch(Lang::En, false, true, None, Some("v2")).unwrap()),
        "OptiScaler present (not placed by this tool, left as is)"
    );
    assert_eq!(
        left(opti_fetch(Lang::En, false, true, m, Some("v1")).unwrap()),
        "OptiScaler already current (v1)"
    );
    assert_eq!(
        got(opti_fetch(Lang::En, false, true, m, Some("v2")).unwrap()).as_deref(),
        Some("OptiScaler v1 is out, v2 available")
    );
    assert_eq!(
        left(opti_fetch(Lang::En, false, true, m, None).unwrap()),
        "OptiScaler present (could not check for a newer one)"
    );
    assert_eq!(
        got(opti_fetch(Lang::En, false, true, Some("dxgi.dll"), None).unwrap()).as_deref(),
        Some("OptiScaler version not recorded, refreshing")
    );
}

#[test]
fn reshade_is_loaded_by_optiscaler() {
    let k = reshade_via_opti(Lang::En, Some("[Plugins]\nLoadReshade=auto\n"), true).unwrap();
    assert_eq!(k.ini.as_deref(), Some("[Plugins]\nLoadReshade=true\n"));
    assert_eq!(k.done, ["ReShade64.dll", "OptiScaler.ini: LoadReshade=true"]);
    let k = reshade_via_opti(Lang::En, Some("LoadReshade=true\n"), false).unwrap();
    assert!(k.ini.is_none() && k.done.is_empty());
    assert_eq!(
        reshade_via_opti(Lang::En, None, false).unwrap_err(),
        "OptiScaler.ini not found — install the OptiScaler engine first"
    );
}
