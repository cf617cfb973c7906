use dlss5oneclick::lang::Lang;
use dlss5oneclick::releases::{
    best_tag, is_prerelease_tag, opti_asset, opti_lookup, opti_tag, pick_latest_asset,
    pick_opti_zip,
    pin_missing, resolve_reshade_setup, reshade_setup, rhi_latest, rhi_newest_tag, rhi_pinned,
    ver_key, Candidate, Json, OptiAnswer, OptiLookup,
};

fn text(s: &str) -> Json {
    Json::Str(s.to_owned())
}

fn object(fields: Vec<(&str, Json)>) -> Json {
    Json::Object(fields.into_iter().map(|(k, v)| (k.to_owned(), v)).collect())
}

fn tagged(tags: &[&str]) -> Vec<Json> {
    tags.iter()
        .map(|t| {
            let url = format!("https://x/{t}.zip");
            object(vec![
                ("tag_name", text(t)),
                ("assets", Json::Array(vec![object(vec![("browser_download_url", text(&url))])])),
            ])
        })
        .collect()
}

fn rhi_releases() -> Vec<Json> {
    tagged(&[
        "streamline-2.13.0.0", "renodx-dlss5-4.55", "renodx-dlss5-4.5", "renodx-dlss5-3.3.4",
        "dlssnr-310.8.SF-v2", "dlssnr-310.8.SF", "dlssg-310.8.0", "dlssd-310.7.129",
        "dlss-310.8.0", "dlss-310.7.129", "DLSS-Enabler-4.9.0.7",
    ])
}

fn asset(name: &str, url: &str) -> Json {
    object(vec![("name", text(name)), ("browser_download_url", text(url))])
}

fn release(tag: &str, pre: bool, assets: Vec<Json>) -> Json {
    object(vec![
        ("prerelease", Json::Bool(pre)),
        ("tag_name", text(tag)),
        ("assets", Json::Array(assets)),
    ])
}

/// Both OptiScaler forks publish a rolling "nightly" release whose assets are
/// .7z, and the stable ones ship a checksum .txt beside the zip.
#[test]
fn opti_zip_is_picked_over_checksums_and_7z() {
    let releases = vec![
        release(
            "nightly",
            false,
            vec![asset("OptiScaler_v10.0.0-pre1_20260908.7z", "https://x/n.7z")],
        ),
        release(
            "v0.7.1-hybrid",
            false,
            vec![
                asset("ASSET-SHA256SUMS-v0.7.1.txt", "https://x/sums.txt"),
                asset("OptiScaler-DLSSNR-v0.7.1-hybrid.zip", "https://x/good.zip"),
            ],
        ),
    ];
    assert_eq!(pick_opti_zip(&releases).as_deref(), Some("https://x/good.zip"));
}

#[test]
fn dlssnr_prefers_multi_generation_sf_build() {
    let r = tagged(&[
        "dlssnr-310.8.0", "dlssnr-310.8.0-RTX40", "dlssnr-310.8.SF", "dlssnr-310.8.SF-v2",
        "dlssnr-310.9.0",
    ]);
    assert_eq!(pick_latest_asset(Lang::En, &r, "dlssnr-").unwrap().0, "dlssnr-310.8.SF-v2");
    assert!(pick_latest_asset(Lang::En, &r, "renodx-dlss5-").is_err());
}

#[test]
fn latest_asset_versions_and_prefix_isolation() {
    let r = rhi_releases();
    assert_eq!(pick_latest_asset(Lang::En, &r, "renodx-dlss5-").unwrap().0, "renodx-dlss5-4.55");
    assert_eq!(pick_latest_asset(Lang::En, &r, "dlssnr-").unwrap().0, "dlssnr-310.8.SF-v2");
    assert_eq!(pick_latest_asset(Lang::En, &r, "dlss-").unwrap().0, "dlss-310.8.0");
    assert!(pick_latest_asset(Lang::En, &r, "nothing-").is_err());
}

#[test]
fn prerelease_tags_are_named_by_their_tag() {
    assert!(is_prerelease_tag("v0.13.1-beta.1"));
    assert!(is_prerelease_tag("v0.12.1-beta.2"));
    assert!(is_prerelease_tag("v1.0.0-rc.1"));
    assert!(!is_prerelease_tag("v0.12.0"));
    assert!(!is_prerelease_tag("v1.4.8"));
}

// ── the calls round them ───────────────────────────────────────────

#[test]
fn prereleases_and_odd_entries_give_no_zip() {
    let releases = vec![
        Json::Null,
        release("beta", true, vec![asset("a.zip", "https://x/beta.zip")]),
        object(vec![("assets", Json::Number("3".to_owned()))]),
        release("old", false, vec![object(vec![("name", text("a.zip"))]), asset("B.ZIP", "https://x/b.zip")]),
    ];
    assert_eq!(pick_opti_zip(&releases).as_deref(), Some("https://x/b.zip"));
    assert_eq!(pick_opti_zip(&vec![]), None);
    assert_eq!(opti_asset(Lang::En, "a/b", &Json::Array(releases)).unwrap(), "https://x/b.zip");
    assert_eq!(opti_asset(Lang::En, "a/b", &Json::Null).unwrap_err(), "a/b has no release asset");
    assert_eq!(opti_asset(Lang::Zh, "a/b", &Json::Array(vec![])).unwrap_err(), "a/b 没有发布资源");
    assert_eq!(opti_tag(Lang::En, "a/b", &vec!["v2".to_owned(), "v1".to_owned()]).unwrap(), "v2");
    assert_eq!(opti_tag(Lang::En, "a/b", &vec![]).unwrap_err(), "no a/b release found");
}

#[test]
fn tags_are_keyed_by_their_numbers() {
    assert_eq!(ver_key("dlssnr-310.8.SF-v2", "dlssnr-"), vec![310, 8, 2]);
    assert_eq!(ver_key("dlss-310.10.0", "dlss-"), vec![310, 10, 0]);
    assert!(ver_key("dlss-310.10.0", "dlss-") > ver_key("dlss-310.9.9", "dlss-"));
    // A tag is cut where its prefix ends, whatever it starts with.
    assert_eq!(ver_key("1234-5.6", "dlss-"), vec![5, 6]);
    assert_eq!(ver_key("中-5", "abc"), vec![5]);
    // A number beyond the range is left out.
    assert_eq!(ver_key("x-99999999999999999999.7", "x-"), vec![7]);
}

#[test]
fn the_greatest_candidate_is_taken() {
    let c = |k: Vec<u64>, tag: &str| Candidate {
        key: k,
        tag: tag.to_owned(),
        url: format!("https://x/{tag}"),
    };
    let v = vec![c(vec![1, 2], "a"), c(vec![1, 10], "b"), c(vec![1, 10], "a")];
    assert_eq!(best_tag(&v), ("b".to_owned(), "https://x/b".to_owned()));
    // A longer key of the same start comes after.
    let v = vec![c(vec![1, 2, 0], "a"), c(vec![1, 2], "b")];
    assert_eq!(best_tag(&v).0, "a");
}

#[test]
fn the_list_of_releases_comes_before_the_page() {
    let list = Some(Json::Array(rhi_releases()));
    assert_eq!(
        rhi_latest(Lang::En, &list, "dlss-"),
        Some(("dlss-310.8.0".to_owned(), "https://x/dlss-310.8.0.zip".to_owned()))
    );
    assert_eq!(rhi_latest(Lang::En, &list, "nothing-"), None);
    assert_eq!(rhi_latest(Lang::En, &None, "dlss-"), None);
    assert_eq!(rhi_latest(Lang::En, &Some(Json::Null), "dlss-"), None);
    let tags: Vec<String> = ["dlss-310.7.0", "dlssg-400.0", "dlss-310.8.0"].map(String::from).to_vec();
    assert_eq!(rhi_newest_tag(Lang::En, &tags, "dlss-").unwrap(), "dlss-310.8.0");
    assert_eq!(
        rhi_newest_tag(Lang::En, &vec!["dlssg-400.0".to_owned()], "dlss-").unwrap_err(),
        "no release with tag prefix 'dlss-' found on github.com/RankFTW/rhi-repo/releases"
    );
    assert!(rhi_newest_tag(Lang::Zh, &vec![], "nope-").unwrap_err().contains("'nope-'"));
    // A tag is cut where the prefix ends, by its bytes.
    assert_eq!(rhi_newest_tag(Lang::En, &vec!["é-7".to_owned()], "ab-").unwrap(), "é-7");
}

#[test]
fn the_add_on_build_can_be_pinned() {
    assert_eq!(
        rhi_pinned("renodx-dlss5-", Some("renodx-dlss5-4.55")).as_deref(),
        Some("renodx-dlss5-4.55")
    );
    assert_eq!(rhi_pinned("renodx-dlss5-", None), None);
    assert_eq!(rhi_pinned("dlss-", Some("renodx-dlss5-4.55")), None);
    assert!(pin_missing(Lang::En, "renodx-dlss5-9").contains("renodx-dlss5-9"));
}

#[test]
fn the_reshade_installer_is_found_on_its_page() {
    let html = "<a href=\"/downloads/ReShade_Setup_6.8.0.exe\">x</a> <a href=\"/downloads/ReShade_Setup_6.8.0_Addon.exe\">y</a>";
    assert_eq!(
        resolve_reshade_setup(Lang::En, html).unwrap(),
        (
            "6.8.0".to_owned(),
            "https://reshade.me/downloads/ReShade_Setup_6.8.0_Addon.exe".to_owned()
        )
    );
    assert_eq!(
        resolve_reshade_setup(Lang::En, "nothing").unwrap_err(),
        "ReShade add-on installer link not found on reshade.me"
    );
    assert_eq!(
        reshade_setup(Lang::En, Some(("/d/x.exe".to_owned(), Some("1.0".to_owned())))).unwrap(),
        ("1.0".to_owned(), "https://reshade.me/d/x.exe".to_owned())
    );
    assert!(reshade_setup(Lang::Zh, None).is_err());
}

/// The latest release goes first; the releases page is the last resort.
#[test]
fn the_optiscaler_zip_is_looked_up_in_order() {
    let next = |a: OptiAnswer| opti_lookup(Lang::En, "me/it", &a);
    let is_asset = |r: Result<OptiLookup, String>, want: &str| {
        matches!(r, Ok(OptiLookup::AskAsset(t)) if t == want)
    };
    assert!(is_asset(next(OptiAnswer::Latest(Some("v3".to_owned()))), "v3"));
    assert!(matches!(next(OptiAnswer::Latest(None)), Ok(OptiLookup::AskReleases)));
    assert!(matches!(next(OptiAnswer::Releases(None)), Ok(OptiLookup::AskTags)));
    let asset = Json::Object(vec![
        ("name".to_owned(), Json::Str("Opti.ZIP".to_owned())),
        ("browser_download_url".to_owned(), Json::Str("https://x/o.zip".to_owned())),
    ]);
    let release = Json::Object(vec![("assets".to_owned(), Json::Array(vec![asset]))]);
    let list = OptiAnswer::Releases(Some(Json::Array(vec![release])));
    assert!(matches!(next(list), Ok(OptiLookup::Fetch(u)) if u == "https://x/o.zip"));
    let none = OptiAnswer::Releases(Some(Json::Null));
    assert_eq!(next(none).unwrap_err(), "me/it has no release asset");
    let tags = vec!["v2".to_owned(), "v1".to_owned()];
    assert!(is_asset(next(OptiAnswer::Tags(tags)), "v2"));
    assert_eq!(next(OptiAnswer::Tags(vec![])).unwrap_err(), "no me/it release found");
}
