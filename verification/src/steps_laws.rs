//! What the install steps take, leave and report, said of the archives, records
//! and sizes that they are given.
use vstd::prelude::*;
use vstd::utf8::encode_utf8;
use crate::archive::{zip_size, ExtractView, UnpackedView, WrittenView};
use crate::consumers::{
    addon_piece, addon_same, by_size, chosen_preset, dlss_piece, model_piece, piece_text,
    placed_upstream, preset_at, PieceView, RemoteSize, UpstreamPreset, UP_PRESET_EN, UP_PRESET_ZH,
};
use crate::game::{
    GameStatus, Mode, DLSSNR_DLL, DLSSNR_MARKER, DLSS_DLL, DLSS_MARKER, FEEDER_MARKER, REFRAMEWORK_DLL,
    REFRAMEWORK_MARKER, RESHADE_MARKER, RESHADE_PROXY,
};
use crate::install::need;
use crate::lang::Lang;
use crate::lines::first_line;
use crate::message::{
    are_holes, fill, is_hole, lemma_fill_hole, lemma_fill_one, lemma_fill_two,
};
use crate::number::parse_unsigned;
use crate::opti::FetchView;
use crate::outside::regex_match;
use crate::paths::{file_name, slashed};
use crate::releases::tag_is_prerelease;
use crate::steps::{
    beta_note, by_marker, feeder_addon, feeder_chosen, feeder_current, feeder_lacks, feeder_lines,
    feeder_plan, first_ending, first_named, header_download, header_downloads, left_over,
    lemma_in_folder, lumenite_plan, marked, matching, placed_in, proxy_refusal, reshade_member,
    taken_tag, DownloadView, NOT_RESHADE_EN, NOT_RESHADE_ZH, SHADER_FILE, TAGGED, WITH_TAG,
};
use crate::text::{contains, lower, same_nocase, trim};

verus! {

// ── what is fetched ────────────────────────────────────────────────

/// A component that is not there is fetched without a word. One that is there is
/// left alone, as foreign where nothing was recorded of it and as current where
/// the record is of the version that is out; any other record has it refreshed.
pub proof fn law_record_decides_what_is_fetched(
    present: bool,
    marker: Option<Seq<char>>,
    version: Seq<char>,
    current: Seq<char>,
    newer: Seq<char>,
    foreign: Seq<char>,
)
    ensures
        ({
            let f = by_marker(present, marker, version, current, newer, foreign);
            &&& !present ==> f == FetchView::Get(None)
            &&& present && marker is None ==> f == FetchView::Leave(foreign)
            &&& present && marker == Some(version) && trim(version) == version ==> f
                == FetchView::Leave(current)
            &&& present && marker is Some && trim(marker->0) != version ==> f == FetchView::Get(
                Some(newer),
            )
        }),
{
}

/// A component without a version is fetched where it is not there or the
/// published file is of another size; a size that is not given or not to be had
/// leaves it as it is.
pub proof fn law_size_decides_what_is_fetched(
    present: bool,
    local: u64,
    remote: RemoteSize,
    changed: Seq<char>,
    current: Seq<char>,
    unchecked: Seq<char>,
)
    ensures
        ({
            let f = by_size(present, local, remote, changed, current, unchecked);
            &&& !present ==> f == FetchView::Get(None)
            &&& present && remote == RemoteSize::Known(local) ==> f == FetchView::Leave(current)
            &&& present && remote == RemoteSize::NotGiven ==> f == FetchView::Leave(current)
            &&& present && remote == RemoteSize::Failed ==> f == FetchView::Leave(unchecked)
            &&& remote matches RemoteSize::Known(n) ==> present && n != local ==> f
                == FetchView::Get(Some(changed))
        }),
{
}

/// Beside each placed file the record of its release has the file's name.
pub proof fn law_records_are_named_by_their_files()
    ensures
        RESHADE_MARKER@ == RESHADE_PROXY@ + ".dlss5oneclick"@,
        DLSSNR_MARKER@ == DLSSNR_DLL@ + ".dlss5oneclick"@,
        DLSS_MARKER@ == DLSS_DLL@ + ".dlss5oneclick"@,
        REFRAMEWORK_MARKER@ == REFRAMEWORK_DLL@ + ".dlss5oneclick"@,
        FEEDER_MARKER@ == "dlss5-feed"@ + ".dlss5oneclick"@,
        RESHADE_PROXY@ == "dxgi.dll"@,
        DLSSNR_DLL@ == "nvngx_dlssnr.dll"@,
        DLSS_DLL@ == "nvngx_dlss.dll"@,
        REFRAMEWORK_DLL@ == "dinput8.dll"@,
{
    reveal_strlit(".dlss5oneclick");
    reveal_strlit("dxgi.dll");
    reveal_strlit("nvngx_dlssnr.dll");
    reveal_strlit("nvngx_dlss.dll");
    reveal_strlit("dinput8.dll");
    reveal_strlit("dlss5-feed");
    reveal_strlit("dxgi.dll.dlss5oneclick");
    reveal_strlit("nvngx_dlssnr.dll.dlss5oneclick");
    reveal_strlit("nvngx_dlss.dll.dlss5oneclick");
    reveal_strlit("dinput8.dll.dlss5oneclick");
    reveal_strlit("dlss5-feed.dlss5oneclick");
    assert(RESHADE_MARKER@ =~= RESHADE_PROXY@ + ".dlss5oneclick"@);
    assert(DLSSNR_MARKER@ =~= DLSSNR_DLL@ + ".dlss5oneclick"@);
    assert(DLSS_MARKER@ =~= DLSS_DLL@ + ".dlss5oneclick"@);
    assert(REFRAMEWORK_MARKER@ =~= REFRAMEWORK_DLL@ + ".dlss5oneclick"@);
    assert(FEEDER_MARKER@ =~= "dlss5-feed"@ + ".dlss5oneclick"@);
}

// ── members of an archive ──────────────────────────────────────────

proof fn lemma_first(v: Seq<Seq<char>>, f: spec_fn(Seq<char>) -> bool)
    ensures
        first_line(v, f) is None ==> forall|i: int| 0 <= i < v.len() ==> !f(#[trigger] v[i]),
        first_line(v, f) matches Some(m) ==> exists|i: int|
            0 <= i < v.len() && #[trigger] v[i] == m && f(v[i]) && forall|j: int|
                0 <= j < i ==> !f(#[trigger] v[j]),
    decreases v.len(),
{
    if v.len() > 0 {
        let u = v.drop_last();
        lemma_first(u, f);
        match first_line(u, f) {
            Some(m) => {
                let i = choose|i: int|
                    0 <= i < u.len() && #[trigger] u[i] == m && f(u[i]) && forall|j: int|
                        0 <= j < i ==> !f(#[trigger] u[j]);
                assert(v[i] == m && f(v[i]));
                assert forall|j: int| 0 <= j < i implies !f(#[trigger] v[j]) by {
                    assert(u[j] == v[j]);
                }
            },
            None => {
                assert forall|j: int| 0 <= j < v.len() - 1 implies !f(#[trigger] v[j]) by {
                    assert(u[j] == v[j]);
                }
                let i = v.len() - 1;
                if f(v.last()) {
                    assert(v[i] == v.last());
                } else {
                    assert forall|j: int| 0 <= j < v.len() implies !f(#[trigger] v[j]) by {
                        if j < u.len() {
                            assert(u[j] == v[j]);
                        }
                    }
                }
            },
        }
    }
}

/// The file name of a member is the wanted one, whatever its case.
pub open spec fn is_called(member: Seq<char>, want: Seq<char>) -> bool {
    lower(file_name(member)) == lower(want)
}

/// The member that is picked is the first of that file name in the archive, and
/// one is picked wherever there is one; slashes and backslashes alike where both
/// count.
pub proof fn law_picked_member_is_the_first(v: Seq<Seq<char>>, want: Seq<char>)
    ensures
        first_ending(v, want) is Some <==> exists|i: int|
            0 <= i < v.len() && is_called(#[trigger] v[i], want),
        first_ending(v, want) matches Some(m) ==> exists|i: int|
            0 <= i < v.len() && #[trigger] v[i] == m && is_called(v[i], want) && forall|j: int|
                0 <= j < i ==> !is_called(#[trigger] v[j], want),
        first_named(v, want) is Some <==> exists|i: int|
            0 <= i < v.len() && is_called(slashed(#[trigger] v[i]), want),
        first_named(v, want) matches Some(m) ==> exists|i: int|
            0 <= i < v.len() && #[trigger] v[i] == m && is_called(slashed(v[i]), want)
                && forall|j: int| 0 <= j < i ==> !is_called(slashed(#[trigger] v[j]), want),
{
    let f = |m: Seq<char>| same_nocase(file_name(m), want);
    let g = |m: Seq<char>| same_nocase(file_name(slashed(m)), want);
    lemma_first(v, f);
    lemma_first(v, g);
    assert forall|i: int| 0 <= i < v.len() implies f(v[i]) == is_called(#[trigger] v[i], want) by {}
    assert forall|i: int| 0 <= i < v.len() implies g(v[i]) == is_called(
        slashed(#[trigger] v[i]),
        want,
    ) by {}
    if let Some(m) = first_ending(v, want) {
        let i = choose|i: int|
            0 <= i < v.len() && #[trigger] v[i] == m && f(v[i]) && forall|j: int|
                0 <= j < i ==> !f(#[trigger] v[j]);
        assert(is_called(v[i], want));
    }
    if let Some(m) = first_named(v, want) {
        let i = choose|i: int|
            0 <= i < v.len() && #[trigger] v[i] == m && g(v[i]) && forall|j: int|
                0 <= j < i ==> !g(#[trigger] v[j]);
        assert(is_called(slashed(v[i]), want));
    }
}

/// A 64-bit game gets the 64-bit ReShade, any other the 32-bit one.
pub proof fn law_reshade_is_of_the_bitness(bitness: u8)
    ensures
        bitness == 64 ==> reshade_member(bitness) == "ReShade64.dll"@,
        bitness != 64 ==> reshade_member(bitness) == "ReShade32.dll"@,
{
}

/// A shader header that is there is not fetched; one that is not comes from the
/// ReShade shaders and goes to the shader folder, both under its name.
pub proof fn law_missing_header_is_fetched(there: bool, name: Seq<char>)
    ensures
        there ==> header_download(there, name).len() == 0,
        !there ==> header_download(there, name) == seq![
            DownloadView {
                url: "https://raw.githubusercontent.com/crosire/reshade-shaders/slim/Shaders/"@
                    + name,
                dest: "reshade-shaders/Shaders/"@ + name,
            },
        ],
{
    lemma_shader_file(name);
}

proof fn lemma_shader_file(name: Seq<char>)
    ensures
        fill(SHADER_FILE@, seq![name]) == "reshade-shaders/Shaders/"@ + name,
{
    reveal_strlit("reshade-shaders/Shaders/{}");
    reveal_strlit("reshade-shaders/Shaders/");
    lemma_fill_one(SHADER_FILE@, name, 24);
    assert(fill(SHADER_FILE@, seq![name]) =~= "reshade-shaders/Shaders/"@ + name);
}

// ── DLSS5-Feeder ───────────────────────────────────────────────────

/// A release of the Feeder is refused exactly where it lacks the add-on of the
/// game's bitness, the effect or, for a 32-bit game, the helper; what is named is
/// the first of these that it lacks.
pub proof fn law_feeder_release_is_whole(names: Seq<Seq<char>>, is_32: bool)
    ensures
        ({
            let holds = |want: Seq<char>| first_named(names, want) is Some;
            let addon = if is_32 {
                "dlss5-feed.addon32"@
            } else {
                "dlss5-feed.addon64"@
            };
            &&& feeder_lacks(names, is_32) is None <==> holds(addon) && holds("DLSS5_Feed.fx"@) && (
            is_32 ==> holds("dlss5-feed-host64.exe"@))
            &&& !holds(addon) ==> feeder_lacks(names, is_32) == Some(addon)
            &&& holds(addon) && !holds("DLSS5_Feed.fx"@) ==> feeder_lacks(names, is_32) == Some(
                "DLSS5_Feed.fx"@,
            )
            &&& holds(addon) && holds("DLSS5_Feed.fx"@) && is_32 && !holds("dlss5-feed-host64.exe"@)
                ==> feeder_lacks(names, is_32) == Some("dlss5-feed-host64.exe"@)
        }),
{
}

/// The add-on goes into the game folder, the effect to the shaders and the helper
/// of a 32-bit game into `host64`, each from the member of its name; nothing else
/// is taken.
pub proof fn law_feeder_goes_to_its_places(names: Seq<Seq<char>>, is_32: bool)
    requires
        feeder_lacks(names, is_32) is None,
    ensures
        ({
            let p = feeder_plan(feeder_chosen(names, is_32), is_32);
            let takes = |want: Seq<char>, dest: Seq<char>|
                p.contains(ExtractView { member: first_named(names, want)->0, dest });
            &&& is_32 ==> takes("dlss5-feed.addon32"@, "dlss5-feed.addon32"@)
            &&& !is_32 ==> takes("dlss5-feed.addon64"@, "dlss5-feed.addon64"@)
            &&& takes("DLSS5_Feed.fx"@, "reshade-shaders/Shaders/DLSS5_Feed.fx"@)
            &&& is_32 ==> takes("dlss5-feed-host64.exe"@, "host64/dlss5-feed-host64.exe"@)
            &&& p.len() == if is_32 {
                3nat
            } else {
                2nat
            }
        }),
{
    let m = feeder_chosen(names, is_32);
    let p = feeder_plan(m, is_32);
    lemma_shader_file("DLSS5_Feed.fx"@);
    lemma_in_folder("host64"@, "dlss5-feed-host64.exe"@);
    reveal_strlit("reshade-shaders/Shaders/");
    reveal_strlit("DLSS5_Feed.fx");
    reveal_strlit("reshade-shaders/Shaders/DLSS5_Feed.fx");
    reveal_strlit("host64");
    reveal_strlit("/");
    reveal_strlit("dlss5-feed-host64.exe");
    reveal_strlit("host64/dlss5-feed-host64.exe");
    assert("reshade-shaders/Shaders/"@ + "DLSS5_Feed.fx"@
        =~= "reshade-shaders/Shaders/DLSS5_Feed.fx"@);
    assert("host64"@ + "/"@ + "dlss5-feed-host64.exe"@ =~= "host64/dlss5-feed-host64.exe"@);
    assert(p[0] == (ExtractView { member: m.addon, dest: feeder_addon(is_32) }));
    assert(p[p.len() - 1] == (ExtractView {
        member: m.fx,
        dest: "reshade-shaders/Shaders/DLSS5_Feed.fx"@,
    }));
    if is_32 {
        assert(p[1] == (ExtractView {
            member: m.host->0,
            dest: "host64/dlss5-feed-host64.exe"@,
        }));
    }
}

/// Once a file of the release is written its tag is recorded right behind that
/// file; nothing else that was written changes, and where nothing was written
/// nothing is recorded.
pub proof fn law_feeder_release_is_recorded(u: UnpackedView, tag: Seq<char>)
    ensures
        u.files.len() == 0 ==> marked(u, tag) == u,
        u.files.len() > 0 ==> {
            let v = marked(u, tag).files;
            &&& v.len() == u.files.len() + 1
            &&& v[0] == u.files[0]
            &&& v[1] == (WrittenView {
                dest: "dlss5-feed.dlss5oneclick"@,
                bytes: encode_utf8(tag),
            })
            &&& forall|k: int| 1 <= k < u.files.len() ==> v[k + 1] == #[trigger] u.files[k]
        },
{
    if u.files.len() > 0 {
        let v = marked(u, tag).files;
        assert forall|k: int| 1 <= k < u.files.len() implies v[k + 1] == #[trigger] u.files[k] by {}
    }
}

/// The installed Feeder counts as that of the release exactly where its add-on
/// has the size of the release's and, for a 32-bit game, its helper does too.
pub proof fn law_feeder_is_current_by_size(
    archive: Seq<u8>,
    names: Seq<Seq<char>>,
    is_32: bool,
    addon_len: Option<u64>,
    host_len: Option<u64>,
)
    requires
        feeder_lacks(names, is_32) is None,
    ensures
        ({
            let fits = |want: Seq<char>, len: Option<u64>|
                len is Some && zip_size(archive, first_named(names, want)->0) == len;
            let same = feeder_current(archive, feeder_chosen(names, is_32), addon_len, host_len);
            &&& is_32 ==> (same <==> fits("dlss5-feed.addon32"@, addon_len) && fits(
                "dlss5-feed-host64.exe"@,
                host_len,
            ))
            &&& !is_32 ==> (same <==> fits("dlss5-feed.addon64"@, addon_len))
        }),
{
}

/// What is written behind the tag of a release: nothing, or that it is a beta
/// where the tag says alpha, beta or a release candidate.
pub proof fn law_beta_is_never_silent(l: Lang, tag: Seq<char>)
    ensures
        ({
            let early = contains(lower(tag), "beta"@) || contains(lower(tag), "alpha"@) || contains(
                lower(tag),
                "-rc"@,
            );
            &&& tag_is_prerelease(tag) <==> early
            &&& !early ==> beta_note(l, tag).len() == 0
            &&& early && l == Lang::En ==> beta_note(l, tag) == " (beta)"@
            &&& early && l == Lang::Zh ==> beta_note(l, tag) == "（测试版）"@
        }),
{
}

proof fn lemma_tagged_holes()
    ensures
        are_holes(TAGGED@, seq![0int, 4, 6]),
        TAGGED@.subrange(0, 0) == Seq::<char>::empty(),
        TAGGED@.subrange(2, 4) == " ("@,
        TAGGED@.subrange(6, 6) == Seq::<char>::empty(),
        TAGGED@.skip(8) == ")"@,
{
    reveal_strlit("{} ({}{})");
    reveal_strlit(" (");
    reveal_strlit(")");
    let t = TAGGED@;
    let h = seq![0int, 4, 6];
    assert(is_hole(t, h, 0));
    assert(is_hole(t, h, 1));
    assert(is_hole(t, h, 2));
    assert(t.subrange(0, 0) =~= Seq::<char>::empty());
    assert(t.subrange(2, 4) =~= " ("@);
    assert(t.subrange(6, 6) =~= Seq::<char>::empty());
    assert(t.skip(8) =~= ")"@);
}

proof fn lemma_tagged(name: Seq<char>, tag: Seq<char>, note: Seq<char>)
    ensures
        fill(TAGGED@, seq![name, tag, note]) == name + " ("@ + tag + note + ")"@,
{
    let t = TAGGED@;
    let h = seq![0int, 4, 6];
    let args = seq![name, tag, note];
    lemma_tagged_holes();
    lemma_fill_hole(t, args, h, 0);
    lemma_fill_hole(t, args, h, 1);
    lemma_fill_hole(t, args, h, 2);
    assert(t.skip(0) =~= t);
    assert(args.skip(0) =~= args);
    assert(args.skip(3) =~= Seq::<Seq<char>>::empty());
    let none = Seq::<char>::empty();
    let x1 = fill(t.skip(2), args.skip(1));
    let x2 = fill(t.skip(6), args.skip(2));
    assert(x2 == none + note + ")"@);
    assert(x1 == " ("@ + tag + x2);
    assert(fill(t, args) == none + name + x1);
    lemma_sum(name, " ("@, tag, note, ")"@);
}

proof fn lemma_sum(a: Seq<char>, b: Seq<char>, c: Seq<char>, d: Seq<char>, e: Seq<char>)
    ensures
        Seq::<char>::empty() + a + (b + c + (Seq::<char>::empty() + d + e)) == a + b + c + d + e,
{
    assert(Seq::<char>::empty() + a + (b + c + (Seq::<char>::empty() + d + e)) =~= a + b + c + d
        + e);
}

/// Every file that the step places is reported, the add-on and the helper with
/// the tag of their release.
pub proof fn law_feeder_lines_tell_the_files(l: Lang, is_32: bool, tag: Seq<char>)
    ensures
        ({
            let v = feeder_lines(l, is_32, tag);
            let note = beta_note(l, tag);
            let told = |name: Seq<char>| v.contains(name + " ("@ + tag + note + ")"@);
            &&& is_32 ==> told("dlss5-feed.addon32"@) && told("host64/dlss5-feed-host64.exe"@)
            &&& !is_32 ==> told("dlss5-feed.addon64"@)
            &&& v.contains("reshade-shaders/Shaders/DLSS5_Feed.fx"@)
            &&& v.len() == if is_32 {
                3nat
            } else {
                2nat
            }
        }),
{
    let v = feeder_lines(l, is_32, tag);
    let note = beta_note(l, tag);
    let host = "host64/dlss5-feed-host64.exe"@;
    let fx = "reshade-shaders/Shaders/DLSS5_Feed.fx"@;
    lemma_shader_file("DLSS5_Feed.fx"@);
    lemma_in_folder("host64"@, "dlss5-feed-host64.exe"@);
    reveal_strlit("reshade-shaders/Shaders/");
    reveal_strlit("DLSS5_Feed.fx");
    reveal_strlit("reshade-shaders/Shaders/DLSS5_Feed.fx");
    reveal_strlit("host64");
    reveal_strlit("/");
    reveal_strlit("dlss5-feed-host64.exe");
    reveal_strlit("host64/dlss5-feed-host64.exe");
    assert("reshade-shaders/Shaders/"@ + "DLSS5_Feed.fx"@ =~= fx);
    assert("host64"@ + "/"@ + "dlss5-feed-host64.exe"@ =~= host);
    lemma_tagged(feeder_addon(is_32), tag, note);
    lemma_tagged(host, tag, note);
    assert(v[0] == feeder_addon(is_32) + " ("@ + tag + note + ")"@);
    assert(v[v.len() - 1] == fx);
    if is_32 {
        assert(v[1] == host + " ("@ + tag + note + ")"@);
    }
}

// ── LumeniteFX ─────────────────────────────────────────────────────

proof fn lemma_matching(v: Seq<Seq<char>>, pattern: Seq<char>, m: Seq<char>)
    ensures
        matching(v, pattern).contains(m) <==> v.contains(m) && regex_match(pattern, m) == Some(
            true,
        ),
    decreases v.len(),
{
    let f = |m: Seq<char>| regex_match(pattern, m) == Some(true);
    reveal(Seq::filter);
    let r = v.filter(f);
    if v.len() > 0 {
        let u = v.drop_last();
        let s = u.filter(f);
        lemma_matching(u, pattern, m);
        if v.contains(m) {
            let k = choose|k: int| 0 <= k < v.len() && v[k] == m;
            if k < u.len() {
                assert(u[k] == m);
            }
        }
        if u.contains(m) {
            let k = choose|k: int| 0 <= k < u.len() && u[k] == m;
            assert(v[k] == m);
        }
        if s.contains(m) {
            let k = choose|k: int| 0 <= k < s.len() && s[k] == m;
            assert(r[k] == m);
        }
        if f(v.last()) {
            assert(r[r.len() - 1] == v.last());
            assert(v[v.len() - 1] == v.last());
            if r.contains(m) {
                let k = choose|k: int| 0 <= k < r.len() && r[k] == m;
                if k < s.len() {
                    assert(s[k] == m);
                }
            }
        }
    } else {
        assert(r.len() == 0);
    }
}

proof fn lemma_placed_in(v: Seq<Seq<char>>, dir: Seq<char>, m: Seq<char>)
    ensures
        v.contains(m) ==> placed_in(v, dir).contains(
            ExtractView { member: m, dest: dir + "/"@ + file_name(m) },
        ),
{
    if v.contains(m) {
        let k = choose|k: int| 0 <= k < v.len() && v[k] == m;
        lemma_in_folder(dir, file_name(m));
        assert(placed_in(v, dir)[k] == (ExtractView {
            member: m,
            dest: dir + "/"@ + file_name(m),
        }));
    }
}

/// Every shader, every include and the texture of LumeniteFX that the archive
/// holds is taken, each into its folder under its file name.
pub proof fn law_lumenite_is_taken_whole(names: Seq<Seq<char>>, m: Seq<char>)
    requires
        names.contains(m),
    ensures
        ({
            let takes = |dir: Seq<char>|
                lumenite_plan(names).contains(
                    ExtractView { member: m, dest: dir + "/"@ + file_name(m) },
                );
            &&& regex_match(r"(?i)/Shaders/lumenite_[^/]+\.fx$"@, m) == Some(true) ==> takes(
                "reshade-shaders/Shaders"@,
            )
            &&& regex_match(r"(?i)/Shaders/include/[^/]+\.fxh$"@, m) == Some(true) ==> takes(
                "reshade-shaders/Shaders/include"@,
            )
            &&& regex_match(r"(?i)/Textures/lumenite_bluenoise256\.png$"@, m) == Some(true)
                ==> takes("reshade-shaders/Textures"@)
        }),
{
    let x = r"(?i)/Shaders/lumenite_[^/]+\.fx$"@;
    let h = r"(?i)/Shaders/include/[^/]+\.fxh$"@;
    let p = r"(?i)/Textures/lumenite_bluenoise256\.png$"@;
    let a = placed_in(matching(names, x), "reshade-shaders/Shaders"@);
    let b = placed_in(matching(names, h), "reshade-shaders/Shaders/include"@);
    let c = placed_in(matching(names, p), "reshade-shaders/Textures"@);
    lemma_matching(names, x, m);
    lemma_matching(names, h, m);
    lemma_matching(names, p, m);
    lemma_placed_in(matching(names, x), "reshade-shaders/Shaders"@, m);
    lemma_placed_in(matching(names, h), "reshade-shaders/Shaders/include"@, m);
    lemma_placed_in(matching(names, p), "reshade-shaders/Textures"@, m);
    let v = lumenite_plan(names);
    assert(v =~= a + b + c);
    assert forall|e: ExtractView|
        a.contains(e) || b.contains(e) || c.contains(e) implies #[trigger] v.contains(e) by {
        if a.contains(e) {
            let k = choose|k: int| 0 <= k < a.len() && a[k] == e;
            assert(v[k] == e);
        } else if b.contains(e) {
            let k = choose|k: int| 0 <= k < b.len() && b[k] == e;
            assert(v[a.len() + k] == e);
        } else {
            let k = choose|k: int| 0 <= k < c.len() && c[k] == e;
            assert(v[a.len() + b.len() + k] == e);
        }
    }
}

// ── Neural Upstream ────────────────────────────────────────────────

proof fn lemma_preset(v: Seq<UpstreamPreset>, id: nat)
    ensures
        preset_at(v, id) is Some <==> exists|i: int| 0 <= i < v.len() && (#[trigger] v[i]).id == id,
        preset_at(v, id) matches Some(i) ==> 0 <= i < v.len() && v[i].id == id,
    decreases v.len(),
{
    if v.len() > 0 {
        let u = v.drop_last();
        lemma_preset(u, id);
        if exists|i: int| 0 <= i < v.len() && (#[trigger] v[i]).id == id {
            let i = choose|i: int| 0 <= i < v.len() && (#[trigger] v[i]).id == id;
            if i < u.len() {
                assert(u[i].id == id);
            }
        }
        if preset_at(u, id) is Some {
            assert(v[preset_at(u, id)->0].id == id);
        } else if v.last().id == id {
            assert(v[v.len() - 1].id == id);
        }
    }
}

/// A preset that is asked for by the number of one that there is, is taken; any
/// other wish leaves the overlay's own.
pub proof fn law_preset_is_one_that_there_is(
    asked: Option<Seq<char>>,
    presets: Seq<UpstreamPreset>,
    n: nat,
)
    ensures
        asked is None ==> chosen_preset(asked, presets) == 0,
        asked is Some && parse_unsigned(asked->0, 255) is None ==> chosen_preset(asked, presets)
            == 0,
        asked is Some && parse_unsigned(asked->0, 255) == Some(n) ==> {
            let there = exists|i: int| 0 <= i < presets.len() && (#[trigger] presets[i]).id == n;
            &&& there ==> chosen_preset(asked, presets) == n
            &&& !there ==> chosen_preset(asked, presets) == 0
        },
{
    lemma_preset(presets, n);
}

/// The installed add-on counts as that of its download exactly where the first
/// member of its name has its size.
pub proof fn law_addon_is_current_by_size(
    names: Seq<Seq<char>>,
    archive: Seq<u8>,
    local: Option<u64>,
)
    ensures
        addon_same(names, archive, local) <==> local is Some && first_ending(
            names,
            "renodx-dlss5.addon64"@,
        ) is Some && zip_size(archive, first_ending(names, "renodx-dlss5.addon64"@)->0) == local,
{
}

// ── what a game keeps ──────────────────────────────────────────────

/// Whether a piece of which nothing is recorded is fetched.
pub open spec fn is_fetched(p: PieceView) -> bool {
    by_marker(p.present, None, ""@, ""@, ""@, ""@) is Get
}

/// A game with DLSS of its own keeps its `nvngx_dlss.dll`, and so does one that
/// has the file; any other game is given it. The model is given to every game that
/// lacks it. The add-on is fetched always, and compared where the game has one.
pub proof fn law_game_keeps_its_own_dlss(st: GameStatus)
    ensures
        is_fetched(dlss_piece(st)) <==> st.mode == Mode::Feeder && !st.dlss,
        is_fetched(model_piece(st)) <==> !st.dlssnr,
        is_fetched(addon_piece(st)),
        addon_piece(st).compared <==> st.dlss5_addon,
        !model_piece(st).compared && !dlss_piece(st).compared,
{
}

/// Each piece comes from the releases of its own prefix, is placed under its own
/// name, and is recorded beside it; the add-on has no record.
pub proof fn law_pieces_are_told_apart(st: GameStatus)
    ensures
        addon_piece(st).prefix == "renodx-dlss5-"@,
        addon_piece(st).file == "renodx-dlss5.addon64"@,
        addon_piece(st).marker is None,
        model_piece(st).prefix == "dlssnr-"@,
        model_piece(st).file == "nvngx_dlssnr.dll"@,
        model_piece(st).marker == Some("nvngx_dlssnr.dll"@ + ".dlss5oneclick"@),
        dlss_piece(st).prefix == "dlss-"@,
        dlss_piece(st).file == "nvngx_dlss.dll"@,
        dlss_piece(st).marker == Some("nvngx_dlss.dll"@ + ".dlss5oneclick"@),
{
    law_records_are_named_by_their_files();
}

/// A `dxgi.dll` that is not ReShade's is never replaced: the game is refused, and
/// the refusal names the file. Nothing else is refused.
pub proof fn law_foreign_proxy_is_refused(l: Lang, reshade: bool, proxy_there: bool)
    ensures
        proxy_refusal(l, reshade, proxy_there) is Some <==> proxy_there && !reshade,
        l == Lang::En && proxy_there && !reshade ==> proxy_refusal(l, reshade, proxy_there)->0
            == "dxgi.dll"@
            + " exists but is not ReShade (DXVK, Special K, another injector?). Remove it first."@,
        l == Lang::Zh && proxy_there && !reshade ==> proxy_refusal(l, reshade, proxy_there)->0
            == "dxgi.dll"@
            + " 已存在但不是 ReShade（DXVK、Special K 或其它注入器？）。请先移除它。"@,
{
    if l == Lang::En {
        reveal_strlit(
            "{} exists but is not ReShade (DXVK, Special K, another injector?). Remove it first.",
        );
        reveal_strlit(
            " exists but is not ReShade (DXVK, Special K, another injector?). Remove it first.",
        );
        lemma_fill_one(NOT_RESHADE_EN@, "dxgi.dll"@, 0);
        assert(fill(NOT_RESHADE_EN@, seq!["dxgi.dll"@]) =~= "dxgi.dll"@
            + " exists but is not ReShade (DXVK, Special K, another injector?). Remove it first."@);
    } else {
        reveal_strlit("{} 已存在但不是 ReShade（DXVK、Special K 或其它注入器？）。请先移除它。");
        reveal_strlit(" 已存在但不是 ReShade（DXVK、Special K 或其它注入器？）。请先移除它。");
        lemma_fill_one(NOT_RESHADE_ZH@, "dxgi.dll"@, 0);
        assert(fill(NOT_RESHADE_ZH@, seq!["dxgi.dll"@]) =~= "dxgi.dll"@
            + " 已存在但不是 ReShade（DXVK、Special K 或其它注入器？）。请先移除它。"@);
    }
}

/// The headers that are fetched are exactly those of the three that a game lacks.
pub proof fn law_lacking_headers_are_fetched(
    header: bool,
    header_ui: bool,
    header_text: bool,
    x: DownloadView,
)
    ensures
        header_downloads(header, header_ui, header_text).contains(x) <==> {
            ||| !header && x == header_download(false, "ReShade.fxh"@)[0]
            ||| !header_ui && x == header_download(false, "ReShadeUI.fxh"@)[0]
            ||| !header_text && x == header_download(false, "DrawText.fxh"@)[0]
        },
{
    let a = header_download(header, "ReShade.fxh"@);
    let b = header_download(header_ui, "ReShadeUI.fxh"@);
    let c = header_download(header_text, "DrawText.fxh"@);
    let v = header_downloads(header, header_ui, header_text);
    assert(v =~= a + b + c);
    if !header {
        assert(v[0] == a[0]);
    }
    if !header_ui {
        assert(v[a.len() as int] == b[0]);
    }
    if !header_text {
        assert(v[(a.len() + b.len()) as int] == c[0]);
    }
}

/// The latest release goes before the tags of the releases page, and of these the
/// first is taken; there is no tag only where neither gives one.
pub proof fn law_latest_release_goes_first(latest: Option<Seq<char>>, tags: Seq<Seq<char>>)
    ensures
        latest is Some ==> taken_tag(latest, tags) == latest,
        latest is None && tags.len() > 0 ==> taken_tag(latest, tags) == Some(tags[0]),
        taken_tag(latest, tags) is None <==> latest is None && tags.len() == 0,
{
}

/// Of a Feeder that is left over exactly the files that are there are removed.
pub proof fn law_left_over_feeder_is_removed(addon_there: bool, fx_there: bool, x: Seq<char>)
    ensures
        left_over(addon_there, fx_there).contains(x) <==> {
            ||| addon_there && x == "dlss5-feed.addon64"@
            ||| fx_there && x == "reshade-shaders/Shaders/"@ + "DLSS5_Feed.fx"@
        },
{
    lemma_shader_file("DLSS5_Feed.fx"@);
    let a = need(addon_there, "dlss5-feed.addon64"@);
    let b = need(fx_there, "reshade-shaders/Shaders/"@ + "DLSS5_Feed.fx"@);
    let v = left_over(addon_there, fx_there);
    assert(v =~= a + b);
    if addon_there {
        assert(v[0] == a[0]);
    }
    if fx_there {
        assert(v[a.len() as int] == b[0]);
    }
}

/// A placed piece is reported with its tag, in a 32-bit game below `host64`.
pub proof fn law_placed_piece_is_told(is_32: bool, file: Seq<char>, tag: Seq<char>)
    ensures
        is_32 ==> piece_text(is_32, file, tag) == "host64"@ + "/"@ + file + " ("@ + tag + ")"@,
        !is_32 ==> piece_text(is_32, file, tag) == file + " ("@ + tag + ")"@,
{
    reveal_strlit("{} ({})");
    reveal_strlit(" (");
    reveal_strlit(")");
    lemma_in_folder("host64"@, file);
    let name = if is_32 {
        "host64"@ + "/"@ + file
    } else {
        file
    };
    lemma_fill_two(WITH_TAG@, name, tag, 0, 4);
    assert(piece_text(is_32, file, tag) =~= name + " ("@ + tag + ")"@);
}

/// The lines of Neural Upstream tell the add-on, and the preset by its name where
/// one other than the overlay's own was taken.
pub proof fn law_taken_preset_is_told(l: Lang, preset: u8, presets: Seq<UpstreamPreset>, i: int)
    requires
        0 <= i < presets.len(),
        presets[i].id == preset,
        forall|j: int| 0 <= j < i ==> (#[trigger] presets[j]).id != preset,
    ensures
        ({
            let v = placed_upstream(l, preset, presets);
            &&& v[0] == "nvngx.dll.addon64"@
            &&& preset == 0 ==> v.len() == 1
            &&& preset != 0 ==> v.len() == 2
            &&& preset != 0 && l == Lang::En ==> v[1] == "neural-upstream preset: "@
                + presets[i].name@
            &&& preset != 0 && l == Lang::Zh ==> v[1] == "neural-upstream 预设："@
                + presets[i].name@
        }),
{
    lemma_preset_is(presets, preset as nat, i);
    let n = presets[i].name@;
    if l == Lang::En {
        reveal_strlit("neural-upstream preset: {}");
        reveal_strlit("neural-upstream preset: ");
        lemma_fill_one(UP_PRESET_EN@, n, 24);
        assert(fill(UP_PRESET_EN@, seq![n]) =~= "neural-upstream preset: "@ + n);
    } else {
        reveal_strlit("neural-upstream 预设：{}");
        reveal_strlit("neural-upstream 预设：");
        lemma_fill_one(UP_PRESET_ZH@, n, 19);
        assert(fill(UP_PRESET_ZH@, seq![n]) =~= "neural-upstream 预设："@ + n);
    }
}

proof fn lemma_preset_is(v: Seq<UpstreamPreset>, id: nat, i: int)
    requires
        0 <= i < v.len(),
        v[i].id == id,
        forall|j: int| 0 <= j < i ==> (#[trigger] v[j]).id != id,
    ensures
        preset_at(v, id) == Some(i),
    decreases v.len(),
{
    let u = v.drop_last();
    if i < u.len() {
        assert forall|j: int| 0 <= j < i implies (#[trigger] u[j]).id != id by {
            assert(u[j] == v[j]);
        }
        lemma_preset_is(u, id, i);
    } else {
        lemma_preset(u, id);
        if preset_at(u, id) is Some {
            let k = preset_at(u, id)->0;
            assert(v[k].id == id);
        }
    }
}

} // verus!
