//! What a bug report holds, said of the files, the findings and the folders that
//! go into it.
use vstd::prelude::*;
use crate::config::FEED_CFG;
use crate::diagnose::{diagnosis, Level, Note};
use crate::game::{GameStatus, Mode, OPTI_MANIFEST, RESHADE_INI, RESHADE_PRESET};
use crate::lang::Lang;
use crate::message::{
    are_holes, fill, hole_start, is_hole, lemma_fill_hole, lemma_fill_one, lemma_fill_two,
    lemma_filled_in,
};
use crate::number::decimal;
use crate::opti::OPTI_INI;
use crate::report::{
    bundle, carried, file_entries, finding_lines, game_text, law_listing_is_sorted, listed,
    listing_text, parts, problem_lines, row_line, row_lines, row_views, section_text,
    sidecar_entries, sidecar_entry, sorted_rows, status_line, stem_name, summary_text, tail_start,
    yes_nos, Carried, ContentView, EntryView, Inspected, RowView, Section, BUNDLE_NAME, DIAGNOSE,
    DIR_ROW, DRIVER, FILE_ROW, FINDING, HEAD, IN_GAME, NOT_INSPECTED, OMITTED, PROBLEM, SECTION,
    SIDECAR, STATUS,
};
use crate::text::{contains, ends_with, occurs_at, starts_with, texts};

verus! {

// ── the files ──────────────────────────────────────────────────────

/// A name among those given.
pub open spec fn is_among(t: Seq<char>, names: Seq<Seq<char>>) -> bool {
    names.contains(t)
}

/// A report carries the logs that Diagnose reads, the configurations that the
/// install writes and the lists of what was placed, in the game folder and in
/// `host64`, and no file besides.
pub proof fn law_report_carries_logs_and_settings()
    ensures
        is_among("ReShade.log"@, carried()),
        is_among("ReShade.log1"@, carried()),
        is_among("ReShade.log2"@, carried()),
        is_among("ReShade.ini"@, carried()),
        is_among("ReShadePreset.ini"@, carried()),
        is_among("ReShadeVR.ini"@, carried()),
        is_among("dlss5-feed.log"@, carried()),
        is_among("dlss5-feed.cfg"@, carried()),
        is_among("OptiScaler.log"@, carried()),
        is_among("OptiScaler.ini"@, carried()),
        is_among("re2_framework_log.txt"@, carried()),
        is_among("nrpre-ring.txt"@, carried()),
        is_among("dgVoodoo.conf"@, carried()),
        is_among("host64/ReShade.log"@, carried()),
        is_among("host64/ReShade.ini"@, carried()),
        is_among("host64/dlss5-feed-host.log"@, carried()),
        is_among("host64/ReShadePreset.ini"@, carried()),
        is_among(".dlss5oneclick-optiscaler-manifest"@, carried()),
        is_among(".dlss5oneclick-aio-manifest"@, carried()),
        is_among(FEED_CFG@, carried()),
        is_among(RESHADE_INI@, carried()),
        is_among(RESHADE_PRESET@, carried()),
        is_among(OPTI_INI@, carried()),
        is_among(OPTI_MANIFEST@, carried()),
        carried().len() == 19,
        carried().no_duplicates(),
{
    let v = carried();
    assert(v[0] == "ReShade.log"@);
    assert(v[1] == "ReShade.log1"@);
    assert(v[2] == "ReShade.log2"@);
    assert(v[3] == "ReShade.ini"@);
    assert(v[4] == "ReShadePreset.ini"@);
    assert(v[5] == "ReShadeVR.ini"@);
    assert(v[6] == "dlss5-feed.log"@);
    assert(v[7] == "dlss5-feed.cfg"@);
    assert(v[8] == "OptiScaler.log"@);
    assert(v[9] == "OptiScaler.ini"@);
    assert(v[10] == "re2_framework_log.txt"@);
    assert(v[11] == "nrpre-ring.txt"@);
    assert(v[12] == "dgVoodoo.conf"@);
    assert(v[13] == "host64/ReShade.log"@);
    assert(v[14] == "host64/ReShade.ini"@);
    assert(v[15] == "host64/dlss5-feed-host.log"@);
    assert(v[16] == "host64/ReShadePreset.ini"@);
    assert(v[17] == ".dlss5oneclick-optiscaler-manifest"@);
    assert(v[18] == ".dlss5oneclick-aio-manifest"@);
    lemma_carried_differ();
}

proof fn lemma_carried_differ()
    ensures
        carried().no_duplicates(),
{
    reveal_strlit("ReShade.log");
    reveal_strlit("ReShade.log1");
    reveal_strlit("ReShade.log2");
    reveal_strlit("ReShade.ini");
    reveal_strlit("ReShadePreset.ini");
    reveal_strlit("ReShadeVR.ini");
    reveal_strlit("dlss5-feed.log");
    reveal_strlit("dlss5-feed.cfg");
    reveal_strlit("OptiScaler.log");
    reveal_strlit("OptiScaler.ini");
    reveal_strlit("re2_framework_log.txt");
    reveal_strlit("nrpre-ring.txt");
    reveal_strlit("dgVoodoo.conf");
    reveal_strlit("host64/ReShade.log");
    reveal_strlit("host64/ReShade.ini");
    reveal_strlit("host64/dlss5-feed-host.log");
    reveal_strlit("host64/ReShadePreset.ini");
    reveal_strlit(".dlss5oneclick-optiscaler-manifest");
    reveal_strlit(".dlss5oneclick-aio-manifest");
    let v = carried();
    assert forall|i: int, j: int| 0 <= i < v.len() && 0 <= j < v.len() && i != j implies v[i]
        != v[j] by {
        assert(mark(v[i]) != mark(v[j]));
    }
}

/// Enough of a name to tell the carried files apart.
spec fn mark(t: Seq<char>) -> (nat, char, char, char) {
    (t.len(), t[0], t[t.len() - 1], t[t.len() - 3])
}

/// A report lists the game folder, `host64` and the three shader folders.
pub proof fn law_report_lists_the_folders()
    ensures
        is_among(""@, listed()),
        is_among("host64"@, listed()),
        is_among("reshade-shaders/Shaders"@, listed()),
        is_among("reshade-shaders/Shaders/include"@, listed()),
        is_among("reshade-shaders/Textures"@, listed()),
        listed().len() == 5,
{
    let v = listed();
    assert(v[0] == ""@);
    assert(v[1] == "host64"@);
    assert(v[2] == "reshade-shaders/Shaders"@);
    assert(v[3] == "reshade-shaders/Shaders/include"@);
    assert(v[4] == "reshade-shaders/Textures"@);
}

// ── the bundle ─────────────────────────────────────────────────────

/// The entry for a file of the game folder.
pub open spec fn in_game(path: Seq<char>, content: ContentView) -> EntryView {
    EntryView { name: "game/"@ + path, content }
}

proof fn lemma_in_game(path: Seq<char>)
    ensures
        fill(IN_GAME@, seq![path]) == "game/"@ + path,
{
    reveal_strlit("game/{}");
    reveal_strlit("game/");
    lemma_fill_one(IN_GAME@, path, 5);
    assert(fill(IN_GAME@, seq![path]) =~= "game/"@ + path);
}

proof fn lemma_sidecars(folder: Seq<(String, Option<String>)>, i: int)
    requires
        0 <= i < folder.len(),
        ends_with(folder[i].0@, ".dlss5oneclick"@),
        folder[i].1 is Some,
    ensures
        sidecar_entries(folder).contains(
            in_game(folder[i].0@, ContentView::Text(folder[i].1->0@)),
        ),
    decreases folder.len(),
{
    let front = sidecar_entries(folder.drop_last());
    let all = sidecar_entries(folder);
    let e = in_game(folder[i].0@, ContentView::Text(folder[i].1->0@));
    lemma_in_game(folder[i].0@);
    if i == folder.len() - 1 {
        assert(sidecar_entry(folder.last())[0] == e);
        assert(all[front.len() as int] == e);
    } else {
        lemma_sidecars(folder.drop_last(), i);
        let k = choose|k: int| 0 <= k < front.len() && front[k] == e;
        assert(all[k] == e);
    }
}

/// The file that an entry was made of.
proof fn lemma_sidecar_of(folder: Seq<(String, Option<String>)>, e: EntryView) -> (i: int)
    requires
        sidecar_entries(folder).contains(e),
    ensures
        0 <= i < folder.len(),
        ends_with(folder[i].0@, ".dlss5oneclick"@),
        folder[i].1 is Some,
        e == in_game(folder[i].0@, ContentView::Text(folder[i].1->0@)),
    decreases folder.len(),
{
    let front = sidecar_entries(folder.drop_last());
    let all = sidecar_entries(folder);
    let k = choose|k: int| 0 <= k < all.len() && all[k] == e;
    if k < front.len() {
        assert(front[k] == e);
        lemma_sidecar_of(folder.drop_last(), e)
    } else {
        lemma_in_game(folder.last().0@);
        assert(sidecar_entry(folder.last())[k - front.len()] == e);
        folder.len() - 1
    }
}

/// Every entry of a report is one of those that belong there.
pub open spec fn is_reported(
    e: EntryView,
    summary: Seq<char>,
    listing: Seq<char>,
    files: Seq<Carried>,
    folder: Seq<(String, Option<String>)>,
    settings: Option<Vec<u8>>,
) -> bool {
    ||| e == (EntryView { name: "summary.txt"@, content: ContentView::Text(summary) })
    ||| e == (EntryView { name: "folder.txt"@, content: ContentView::Text(listing) })
    ||| exists|i: int|
        0 <= i < files.len() && e == in_game(
            (#[trigger] files[i]).path@,
            ContentView::Bytes(files[i].bytes@),
        )
    ||| exists|i: int|
        0 <= i < folder.len() && ends_with((#[trigger] folder[i]).0@, ".dlss5oneclick"@)
            && folder[i].1 is Some && e == in_game(
            folder[i].0@,
            ContentView::Text(folder[i].1->0@),
        )
    ||| settings is Some && e == (EntryView {
        name: "settings.json"@,
        content: ContentView::Bytes(settings->0@),
    })
}

/// A report holds the summary, the listing, every file that was read with its
/// bytes, the text of every sidecar of the game folder, and the settings where
/// there are any; and nothing else.
pub proof fn law_report_holds_what_was_read(
    summary: Seq<char>,
    listing: Seq<char>,
    files: Seq<Carried>,
    folder: Seq<(String, Option<String>)>,
    settings: Option<Vec<u8>>,
)
    ensures
        ({
            let b = bundle(summary, listing, files, folder, settings);
            &&& b.len() >= 2
            &&& b[0] == (EntryView { name: "summary.txt"@, content: ContentView::Text(summary) })
            &&& b[1] == (EntryView { name: "folder.txt"@, content: ContentView::Text(listing) })
            &&& forall|i: int|
                #![trigger files[i]]
                0 <= i < files.len() ==> b.contains(
                    in_game(files[i].path@, ContentView::Bytes(files[i].bytes@)),
                )
            &&& forall|i: int|
                #![trigger folder[i]]
                0 <= i < folder.len() && ends_with(folder[i].0@, ".dlss5oneclick"@)
                    && folder[i].1 is Some ==> b.contains(
                    in_game(folder[i].0@, ContentView::Text(folder[i].1->0@)),
                )
            &&& settings is Some ==> b.contains(
                EntryView {
                    name: "settings.json"@,
                    content: ContentView::Bytes(settings->0@),
                },
            )
            &&& forall|k: int|
                0 <= k < b.len() ==> is_reported(
                    #[trigger] b[k],
                    summary,
                    listing,
                    files,
                    folder,
                    settings,
                )
        }),
{
    let b = bundle(summary, listing, files, folder, settings);
    let f = file_entries(files);
    let s = sidecar_entries(folder);
    assert forall|i: int| #![trigger files[i]] 0 <= i < files.len() implies b.contains(
        in_game(files[i].path@, ContentView::Bytes(files[i].bytes@)),
    ) by {
        lemma_in_game(files[i].path@);
        assert(b[2 + i] == f[i]);
    }
    assert forall|i: int|
        #![trigger folder[i]]
        0 <= i < folder.len() && ends_with(folder[i].0@, ".dlss5oneclick"@)
            && folder[i].1 is Some implies b.contains(
        in_game(folder[i].0@, ContentView::Text(folder[i].1->0@)),
    ) by {
        lemma_sidecars(folder, i);
        let e = in_game(folder[i].0@, ContentView::Text(folder[i].1->0@));
        let k = choose|k: int| 0 <= k < s.len() && s[k] == e;
        assert(b[2 + f.len() + k] == e);
    }
    if settings is Some {
        let e = EntryView { name: "settings.json"@, content: ContentView::Bytes(settings->0@) };
        assert(b[(2 + f.len() + s.len()) as int] == e);
    }
    assert forall|k: int| 0 <= k < b.len() implies is_reported(
        #[trigger] b[k],
        summary,
        listing,
        files,
        folder,
        settings,
    ) by {
        if 2 <= k < 2 + f.len() {
            lemma_in_game(files[k - 2].path@);
            assert(b[k] == f[k - 2]);
        } else if 2 + f.len() <= k < 2 + f.len() + s.len() {
            assert(b[k] == s[k - 2 - f.len()]);
            assert(s.contains(b[k]));
            let i = lemma_sidecar_of(folder, b[k]);
            assert(ends_with(folder[i].0@, ".dlss5oneclick"@));
        }
    }
}

/// A report is named by the game and the time, or `game` where that has no name.
pub proof fn law_report_is_named_by_the_game(stem: Option<Seq<char>>, stamp: u64)
    ensures
        fill(BUNDLE_NAME@, seq![stem_name(stem), decimal(stamp as nat)])
            == "dlss5oneclick-report-"@ + (match stem {
            Some(t) => t,
            None => "game"@,
        }) + "-"@ + decimal(stamp as nat) + ".zip"@,
{
    reveal_strlit("dlss5oneclick-report-{}-{}.zip");
    reveal_strlit("dlss5oneclick-report-");
    reveal_strlit("-");
    reveal_strlit(".zip");
    let n = stem_name(stem);
    lemma_fill_two(BUNDLE_NAME@, n, decimal(stamp as nat), 21, 24);
    assert(fill(BUNDLE_NAME@, seq![n, decimal(stamp as nat)]) =~= "dlss5oneclick-report-"@ + n
        + "-"@ + decimal(stamp as nat) + ".zip"@);
}

/// Of a file of more than four mebibytes the last four are carried, below a line
/// that tells how many bytes are not; a smaller one is carried whole.
pub proof fn law_long_logs_keep_their_last_part(len: u64)
    ensures
        len <= 4194304 ==> tail_start(len) == 0,
        len > 4194304 ==> tail_start(len) + 4194304 == len,
        forall|n: Seq<char>| #[trigger]
            fill(OMITTED@, seq![n]) == "[... first "@ + n + " bytes omitted ...]\n"@,
{
    reveal_strlit("[... first {} bytes omitted ...]\n");
    reveal_strlit("[... first ");
    reveal_strlit(" bytes omitted ...]\n");
    assert forall|n: Seq<char>| #[trigger]
        fill(OMITTED@, seq![n]) == "[... first "@ + n + " bytes omitted ...]\n"@ by {
        lemma_fill_one(OMITTED@, n, 11);
        assert(fill(OMITTED@, seq![n]) =~= "[... first "@ + n + " bytes omitted ...]\n"@);
    }
}

// ── the listing ────────────────────────────────────────────────────

/// How a folder or a file is shown.
pub open spec fn shows(r: RowView) -> Seq<char> {
    if r.dir {
        "  "@ + r.name + "/\n"@
    } else {
        "  "@ + r.name + "  "@ + decimal(r.len as nat) + "\n"@
    }
}

proof fn lemma_row_line(r: RowView)
    ensures
        row_line(r) == shows(r),
{
    reveal_strlit("  {}/\n");
    reveal_strlit("  {}  {}\n");
    reveal_strlit("  ");
    reveal_strlit("/\n");
    reveal_strlit("\n");
    if r.dir {
        lemma_fill_one(DIR_ROW@, r.name, 2);
        assert(row_line(r) =~= shows(r));
    } else {
        lemma_fill_two(FILE_ROW@, r.name, decimal(r.len as nat), 2, 6);
        assert(row_line(r) =~= shows(r));
    }
}

proof fn lemma_inside(a: Seq<char>, b: Seq<char>, c: Seq<char>, t: Seq<char>)
    requires
        contains(b, t),
    ensures
        contains(a + b + c, t),
{
    let i = choose|i: int| occurs_at(b, t, i);
    let all = a + b + c;
    assert(all.subrange(a.len() + i, a.len() + i + t.len()) =~= b.subrange(i, i + t.len()));
    assert(occurs_at(all, t, a.len() + i));
}

proof fn lemma_itself(t: Seq<char>)
    ensures
        contains(t, t),
{
    assert(t.subrange(0, t.len() as int) =~= t);
    assert(occurs_at(t, t, 0));
}

proof fn lemma_front(a: Seq<char>, b: Seq<char>, t: Seq<char>)
    requires
        contains(a, t),
    ensures
        contains(a + b, t),
{
    lemma_inside(Seq::empty(), a, b, t);
    assert(Seq::<char>::empty() + a + b =~= a + b);
}

proof fn lemma_back(a: Seq<char>, b: Seq<char>, t: Seq<char>)
    requires
        contains(b, t),
    ensures
        contains(a + b, t),
{
    lemma_inside(a, b, Seq::empty(), t);
    assert(a + b + Seq::<char>::empty() =~= a + b);
}

proof fn lemma_row_lines(v: Seq<RowView>, k: int)
    requires
        0 <= k < v.len(),
    ensures
        contains(row_lines(v), shows(v[k])),
    decreases v.len(),
{
    let front = row_lines(v.drop_last());
    if k == v.len() - 1 {
        lemma_row_line(v[k]);
        lemma_itself(shows(v[k]));
        lemma_back(front, row_line(v.last()), shows(v[k]));
    } else {
        lemma_row_lines(v.drop_last(), k);
        lemma_front(front, row_line(v.last()), shows(v[k]));
    }
}

proof fn lemma_listing_has(v: Seq<Section>, k: int, t: Seq<char>)
    requires
        0 <= k < v.len(),
        contains(section_text(v[k]), t),
    ensures
        contains(listing_text(v), t),
    decreases v.len(),
{
    if k == v.len() - 1 {
        lemma_back(listing_text(v.drop_last()), section_text(v.last()), t);
    } else {
        lemma_listing_has(v.drop_last(), k, t);
        lemma_front(listing_text(v.drop_last()), section_text(v.last()), t);
    }
}

proof fn lemma_section_head(sub: Seq<char>)
    ensures
        ({
            let head = fill(SECTION@, seq![crate::report::section_name(sub)]);
            &&& sub.len() == 0 ==> head == "[.]\n"@
            &&& sub.len() > 0 ==> head == "["@ + sub + "]\n"@
        }),
{
    reveal_strlit("[{}]\n");
    reveal_strlit("[");
    reveal_strlit("]\n");
    reveal_strlit("[.]\n");
    reveal_strlit(".");
    let name = crate::report::section_name(sub);
    lemma_fill_one(SECTION@, name, 1);
    assert(fill(SECTION@, seq![name]) =~= "["@ + name + "]\n"@);
    if sub.len() == 0 {
        assert("["@ + name + "]\n"@ =~= "[.]\n"@);
    }
}

proof fn lemma_sorted_has(rows: Seq<RowView>, i: int) -> (j: int)
    requires
        0 <= i < rows.len(),
    ensures
        0 <= j < sorted_rows(rows).len(),
        sorted_rows(rows)[j] == rows[i],
{
    broadcast use vstd::seq_lib::group_to_multiset_ensures;

    law_listing_is_sorted(rows);
    let r = rows[i];
    assert(rows.contains(r));
    assert(rows.to_multiset().count(r) > 0);
    assert(sorted_rows(rows).contains(r));
    choose|j: int| 0 <= j < sorted_rows(rows).len() && sorted_rows(rows)[j] == r
}

/// The listing shows every folder that could be read under its name, the game
/// folder as a dot, and every entry of it: a folder with a slash, a file with its
/// size.
pub proof fn law_listing_shows_every_entry(v: Seq<Section>, k: int)
    requires
        0 <= k < v.len(),
        v[k].rows is Some,
    ensures
        v[k].sub@.len() == 0 ==> contains(listing_text(v), "[.]\n"@),
        v[k].sub@.len() > 0 ==> contains(listing_text(v), "["@ + v[k].sub@ + "]\n"@),
        forall|i: int|
            #![trigger v[k].rows->0@[i]]
            0 <= i < v[k].rows->0@.len() ==> contains(
                listing_text(v),
                shows(v[k].rows->0@[i]@),
            ),
{
    let rows = row_views(v[k].rows->0@);
    let head = fill(SECTION@, seq![crate::report::section_name(v[k].sub@)]);
    let body = row_lines(sorted_rows(rows));
    lemma_section_head(v[k].sub@);
    lemma_itself(head);
    lemma_front(head, body, head);
    lemma_listing_has(v, k, head);
    assert forall|i: int|
        #![trigger v[k].rows->0@[i]]
        0 <= i < v[k].rows->0@.len() implies contains(
        listing_text(v),
        shows(v[k].rows->0@[i]@),
    ) by {
        let r = v[k].rows->0@[i]@;
        assert(rows[i] == r);
        let j = lemma_sorted_has(rows, i);
        lemma_row_lines(sorted_rows(rows), j);
        lemma_back(head, body, shows(r));
        lemma_listing_has(v, k, shows(r));
    }
}

// ── the summary ────────────────────────────────────────────────────

/// How a problem is shown.
pub open spec fn tells_problem(t: Seq<char>) -> Seq<char> {
    "! "@ + t + "\n"@
}

/// How a finding is shown.
pub open spec fn tells_finding(n: Note) -> Seq<char> {
    (match n.level {
        Level::Good => "[ok  ] "@,
        Level::Warn => "[warn] "@,
        Level::Bad => "[FAIL] "@,
    }) + n.text + "\n"@
}

proof fn lemma_problem_lines(v: Seq<Seq<char>>, k: int)
    requires
        0 <= k < v.len(),
    ensures
        contains(problem_lines(v), tells_problem(v[k])),
    decreases v.len(),
{
    let front = problem_lines(v.drop_last());
    let last = fill(PROBLEM@, seq![v.last()]);
    let t = tells_problem(v[k]);
    if k == v.len() - 1 {
        reveal_strlit("! {}\n");
        reveal_strlit("! ");
        reveal_strlit("\n");
        lemma_fill_one(PROBLEM@, v.last(), 2);
        assert(last =~= t);
        lemma_itself(t);
        lemma_back(front, last, t);
    } else {
        lemma_problem_lines(v.drop_last(), k);
        lemma_front(front, last, t);
    }
}

proof fn lemma_finding_line(n: Note)
    ensures
        fill(FINDING@, seq![crate::report::level_tag(n.level), n.text]) == tells_finding(n),
{
    reveal_strlit("[{}] {}\n");
    reveal_strlit("[ok  ] ");
    reveal_strlit("[warn] ");
    reveal_strlit("[FAIL] ");
    reveal_strlit("ok  ");
    reveal_strlit("warn");
    reveal_strlit("FAIL");
    reveal_strlit("\n");
    let tag = crate::report::level_tag(n.level);
    lemma_fill_two(FINDING@, tag, n.text, 1, 5);
    assert(fill(FINDING@, seq![tag, n.text]) =~= tells_finding(n));
}

proof fn lemma_finding_lines(v: Seq<Note>, k: int)
    requires
        0 <= k < v.len(),
    ensures
        contains(finding_lines(v), tells_finding(v[k])),
    decreases v.len(),
{
    let front = finding_lines(v.drop_last());
    let last = fill(FINDING@, seq![crate::report::level_tag(v.last().level), v.last().text]);
    let t = tells_finding(v[k]);
    if k == v.len() - 1 {
        lemma_finding_line(v.last());
        lemma_itself(t);
        lemma_back(front, last, t);
    } else {
        lemma_finding_lines(v.drop_last(), k);
        lemma_front(front, last, t);
    }
}

/// The first lines of the summary.
pub open spec fn tells_game(version: Seq<char>, exe: Seq<char>) -> Seq<char> {
    "dlss5oneclick "@ + version + "\nexe: "@ + exe + "\n"@
}

proof fn lemma_head(version: Seq<char>, exe: Seq<char>)
    ensures
        fill(HEAD@, seq![version, exe]) == tells_game(version, exe),
{
    reveal_strlit("dlss5oneclick {}\nexe: {}\n");
    reveal_strlit("dlss5oneclick ");
    reveal_strlit("\nexe: ");
    reveal_strlit("\n");
    lemma_fill_two(HEAD@, version, exe, 14, 22);
    assert(fill(HEAD@, seq![version, exe]) =~= tells_game(version, exe));
}

proof fn lemma_driver(v: Seq<char>)
    ensures
        fill(DRIVER@, seq![v]) == "nvidia driver: "@ + v + "\n"@,
{
    reveal_strlit("nvidia driver: {}\n");
    reveal_strlit("nvidia driver: ");
    reveal_strlit("\n");
    lemma_fill_one(DRIVER@, v, 15);
    assert(fill(DRIVER@, seq![v]) =~= "nvidia driver: "@ + v + "\n"@);
}

/// A summary starts with the version and the exe, then names the driver where one
/// is known, then tells of the game.
pub proof fn law_summary_names_the_game(
    l: Lang,
    version: Seq<char>,
    exe: Seq<char>,
    driver: Option<Seq<char>>,
    inspected: Result<Inspected, String>,
)
    ensures
        ({
            let s = summary_text(l, version, exe, driver, inspected);
            &&& driver matches Some(v) ==> s == tells_game(version, exe) + ("nvidia driver: "@ + v
                + "\n"@) + game_text(l, inspected)
            &&& driver is None ==> s == tells_game(version, exe) + game_text(l, inspected)
            &&& inspected matches Err(e) ==> ends_with(s, "inspect failed: "@ + e@ + "\n"@)
        }),
{
    let s = summary_text(l, version, exe, driver, inspected);
    lemma_head(version, exe);
    match driver {
        Some(v) => {
            lemma_driver(v);
        },
        None => {
            assert(tells_game(version, exe) + Seq::<char>::empty() =~= tells_game(version, exe));
        },
    }
    if let Err(e) = inspected {
        reveal_strlit("inspect failed: {}\n");
        reveal_strlit("inspect failed: ");
        reveal_strlit("\n");
        lemma_fill_one(NOT_INSPECTED@, e@, 16);
        let t = "inspect failed: "@ + e@ + "\n"@;
        assert(game_text(l, inspected) =~= t);
        assert(s.subrange(s.len() - t.len(), s.len() as int) =~= t);
    }
}

/// A summary tells every problem of the game and everything that Diagnose finds,
/// each finding with its level, the findings below their title.
pub proof fn law_summary_tells_what_was_found(l: Lang, i: Inspected)
    ensures
        ({
            let s = game_text(l, Ok(i));
            let v = diagnosis(l, i.status, i.session);
            &&& starts_with(s, status_line(i))
            &&& contains(s, "\n--diagnose:\n"@)
            &&& forall|k: int|
                #![trigger i.status.problems@[k]]
                0 <= k < i.status.problems@.len() ==> contains(
                    s,
                    tells_problem(i.status.problems@[k]@),
                )
            &&& forall|k: int|
                #![trigger v[k]]
                0 <= k < v.len() ==> contains(s, tells_finding(v[k]))
        }),
{
    let v = diagnosis(l, i.status, i.session);
    let a = status_line(i);
    let p = texts(i.status.problems@);
    let b = problem_lines(p);
    let c = DIAGNOSE@;
    let d = finding_lines(v);
    let s = game_text(l, Ok(i));
    assert(s =~= a + b + (c + d));
    assert(s =~= a + b + c + d);
    assert(s.subrange(0, a.len() as int) =~= a);
    lemma_itself(c);
    lemma_inside(a + b, c, d, c);
    assert forall|k: int|
        #![trigger i.status.problems@[k]]
        0 <= k < i.status.problems@.len() implies contains(
        s,
        tells_problem(i.status.problems@[k]@),
    ) by {
        assert(p[k] == i.status.problems@[k]@);
        lemma_problem_lines(p, k);
        lemma_inside(a, b, c + d, tells_problem(p[k]));
    }
    assert forall|k: int| #![trigger v[k]] 0 <= k < v.len() implies contains(
        s,
        tells_finding(v[k]),
    ) by {
        lemma_finding_lines(v, k);
        lemma_back(a + b + c, d, tells_finding(v[k]));
    }
}

/// A yes or a no, as it is told.
pub open spec fn truth(b: bool) -> Seq<char> {
    if b {
        "true"@
    } else {
        "false"@
    }
}

/// A mode, as it is told.
pub open spec fn tells_mode(m: Mode) -> Seq<char> {
    if m == Mode::Feeder {
        "Feeder"@
    } else {
        "Native"@
    }
}

/// Where the status line has its parts.
spec fn status_holes() -> Seq<int> {
    seq![0, 9, 22, 33, 46, 60, 71, 81, 93, 102, 114, 121, 131, 139, 149, 157, 164, 179, 188, 202]
}

proof fn lemma_status_holes()
    ensures
        are_holes(STATUS@, status_holes()),
        status_holes().len() == 20,
        STATUS@.len() == 205,
{
    let t = STATUS@;
    let h = status_holes();
    reveal_strlit(
        "{}-bit | {} (detected {}) | mode={} (detected {}) | reshade={} headers={} feeder={} lumenite={} dlss5={} upstream={} aio={} dlssnr={} dlss={} bridge={} opti={} mfg={} reframework={} | gpu={} | complete={}\n",
    );
    assert forall|k: int| 0 <= k < h.len() implies #[trigger] is_hole(t, h, k) by {
        lemma_status_hole(k);
    }
}

proof fn lemma_status_hole(k: int)
    requires
        0 <= k < 20,
    ensures
        is_hole(STATUS@, status_holes(), k),
{
    reveal_strlit(
        "{}-bit | {} (detected {}) | mode={} (detected {}) | reshade={} headers={} feeder={} lumenite={} dlss5={} upstream={} aio={} dlssnr={} dlss={} bridge={} opti={} mfg={} reframework={} | gpu={} | complete={}\n",
    );
}

spec fn status_args(i: Inspected) -> Seq<Seq<char>> {
    seq![
        decimal(i.status.bitness as nat),
        i.api@,
        i.api_detected@,
        crate::report::mode_name(i.status.mode),
        crate::report::mode_name(i.status.mode_detected),
    ] + yes_nos(parts(i.status)) + seq![
        crate::report::gpu_name(i.gpu),
        crate::report::yes_no(i.complete),
    ]
}

proof fn lemma_status_key(i: Inspected, k: int, before: Seq<char>, behind: char)
    requires
        0 <= k < 20,
        hole_start(status_holes(), k) <= status_holes()[k] - before.len(),
        STATUS@.subrange(status_holes()[k] - before.len(), status_holes()[k]) == before,
        STATUS@[status_holes()[k] + 2] == behind,
        behind != '{',
    ensures
        contains(status_line(i), before + status_args(i)[k] + seq![behind]),
{
    lemma_status_holes();
    lemma_filled_in(STATUS@, status_args(i), status_holes(), k, before);
}

/// The status line tells of every piece whether it is there.
pub proof fn law_status_tells_every_piece(i: Inspected)
    ensures
        contains(status_line(i), " reshade="@ + truth(i.status.reshade) + seq![' ']),
        contains(status_line(i), " headers="@ + truth(i.status.headers) + seq![' ']),
        contains(status_line(i), " feeder="@ + truth(i.status.feeder) + seq![' ']),
        contains(status_line(i), " lumenite="@ + truth(i.status.lumenite) + seq![' ']),
        contains(status_line(i), " dlss5="@ + truth(i.status.dlss5_addon) + seq![' ']),
        contains(status_line(i), " upstream="@ + truth(i.status.upstream) + seq![' ']),
        contains(status_line(i), " aio="@ + truth(i.status.aio) + seq![' ']),
        contains(status_line(i), " dlssnr="@ + truth(i.status.dlssnr) + seq![' ']),
        contains(status_line(i), " dlss="@ + truth(i.status.dlss) + seq![' ']),
        contains(status_line(i), " bridge="@ + truth(i.status.bridge) + seq![' ']),
        contains(status_line(i), " opti="@ + truth(i.status.opti) + seq![' ']),
        contains(status_line(i), " mfg="@ + truth(i.status.mfg) + seq![' ']),
        contains(status_line(i), " reframework="@ + truth(i.status.reframework) + seq![' ']),
        contains(status_line(i), " complete="@ + truth(i.complete) + seq!['\n']),
        i.gpu is None ==> contains(status_line(i), " gpu=unknown "@),
        i.gpu matches Some(g) ==> contains(
            status_line(i),
            " gpu="@ + (g.0@ + " ["@ + g.1@ + "]"@) + seq![' '],
        ),
{
    reveal_strlit(
        "{}-bit | {} (detected {}) | mode={} (detected {}) | reshade={} headers={} feeder={} lumenite={} dlss5={} upstream={} aio={} dlssnr={} dlss={} bridge={} opti={} mfg={} reframework={} | gpu={} | complete={}\n",
    );
    reveal_strlit(" reshade=");
    reveal_strlit(" headers=");
    reveal_strlit(" feeder=");
    reveal_strlit(" lumenite=");
    reveal_strlit(" dlss5=");
    reveal_strlit(" upstream=");
    reveal_strlit(" aio=");
    reveal_strlit(" dlssnr=");
    reveal_strlit(" dlss=");
    reveal_strlit(" bridge=");
    reveal_strlit(" opti=");
    reveal_strlit(" mfg=");
    reveal_strlit(" reframework=");
    reveal_strlit(" gpu=");
    reveal_strlit(" complete=");
    let t = STATUS@;
    let h = status_holes();
    assert(t.subrange(51, 60) =~= " reshade="@);
    lemma_status_key(i, 5, " reshade="@, ' ');
    assert(t.subrange(62, 71) =~= " headers="@);
    lemma_status_key(i, 6, " headers="@, ' ');
    assert(t.subrange(73, 81) =~= " feeder="@);
    lemma_status_key(i, 7, " feeder="@, ' ');
    assert(t.subrange(83, 93) =~= " lumenite="@);
    lemma_status_key(i, 8, " lumenite="@, ' ');
    assert(t.subrange(95, 102) =~= " dlss5="@);
    lemma_status_key(i, 9, " dlss5="@, ' ');
    assert(t.subrange(104, 114) =~= " upstream="@);
    lemma_status_key(i, 10, " upstream="@, ' ');
    assert(t.subrange(116, 121) =~= " aio="@);
    lemma_status_key(i, 11, " aio="@, ' ');
    assert(t.subrange(123, 131) =~= " dlssnr="@);
    lemma_status_key(i, 12, " dlssnr="@, ' ');
    assert(t.subrange(133, 139) =~= " dlss="@);
    lemma_status_key(i, 13, " dlss="@, ' ');
    assert(t.subrange(141, 149) =~= " bridge="@);
    lemma_status_key(i, 14, " bridge="@, ' ');
    assert(t.subrange(151, 157) =~= " opti="@);
    lemma_status_key(i, 15, " opti="@, ' ');
    assert(t.subrange(159, 164) =~= " mfg="@);
    lemma_status_key(i, 16, " mfg="@, ' ');
    assert(t.subrange(166, 179) =~= " reframework="@);
    lemma_status_key(i, 17, " reframework="@, ' ');
    assert(t.subrange(183, 188) =~= " gpu="@);
    lemma_status_key(i, 18, " gpu="@, ' ');
    assert(t.subrange(192, 202) =~= " complete="@);
    lemma_status_key(i, 19, " complete="@, '\n');
    match i.gpu {
        Some(g) => {
            reveal_strlit("{} [{}]");
            reveal_strlit(" [");
            reveal_strlit("]");
            lemma_fill_two(crate::report::GPU@, g.0@, g.1@, 0, 4);
            assert(crate::report::gpu_name(i.gpu) =~= g.0@ + " ["@ + g.1@ + "]"@);
        },
        None => {
            reveal_strlit(" gpu=unknown ");
            reveal_strlit("unknown");
            assert(" gpu="@ + "unknown"@ + seq![' '] =~= " gpu=unknown "@);
        },
    }
}

proof fn lemma_status_texts()
    ensures
        STATUS@.subrange(0, 0) == Seq::<char>::empty(),
        STATUS@.subrange(2, 9) == "-bit | "@,
        STATUS@.subrange(11, 22) == " (detected "@,
        STATUS@.subrange(24, 33) == ") | mode="@,
        STATUS@.subrange(35, 46) == " (detected "@,
        STATUS@.subrange(48, 60) == ") | reshade="@,
{
    reveal_strlit(
        "{}-bit | {} (detected {}) | mode={} (detected {}) | reshade={} headers={} feeder={} lumenite={} dlss5={} upstream={} aio={} dlssnr={} dlss={} bridge={} opti={} mfg={} reframework={} | gpu={} | complete={}\n",
    );
    reveal_strlit("-bit | ");
    reveal_strlit(" (detected ");
    reveal_strlit(") | mode=");
    reveal_strlit(") | reshade=");
    let t = STATUS@;
    assert(t.subrange(0, 0) =~= Seq::<char>::empty());
    assert(t.subrange(2, 9) =~= "-bit | "@);
    assert(t.subrange(11, 22) =~= " (detected "@);
    assert(t.subrange(24, 33) =~= ") | mode="@);
    assert(t.subrange(35, 46) =~= " (detected "@);
    assert(t.subrange(48, 60) =~= ") | reshade="@);
}

/// What starts with a text goes on to do so when that has more behind it.
proof fn lemma_start_on(front: Seq<char>, a: Seq<char>, b: Seq<char>, rest: Seq<char>)
    ensures
        front + (a + b + rest) == front + a + b + rest,
{
    assert(front + (a + b + rest) =~= front + a + b + rest);
}

/// The status line starts with the kind of exe, the graphics API and the mode,
/// each with what was detected.
pub proof fn law_status_tells_api_and_mode(i: Inspected)
    ensures
        starts_with(
            status_line(i),
            decimal(i.status.bitness as nat) + "-bit | "@ + i.api@ + " (detected "@
                + i.api_detected@ + ") | mode="@ + tells_mode(i.status.mode) + " (detected "@
                + tells_mode(i.status.mode_detected) + ") | reshade="@,
        ),
{
    lemma_status_holes();
    lemma_status_texts();
    let t = STATUS@;
    let h = status_holes();
    let args = status_args(i);
    let s = status_line(i);
    lemma_fill_hole(t, args, h, 0);
    lemma_fill_hole(t, args, h, 1);
    lemma_fill_hole(t, args, h, 2);
    lemma_fill_hole(t, args, h, 3);
    lemma_fill_hole(t, args, h, 4);
    lemma_fill_hole(t, args, h, 5);
    assert(t.skip(0) =~= t);
    assert(args.skip(0) =~= args);
    let x1 = fill(t.skip(2), args.skip(1));
    let x2 = fill(t.skip(11), args.skip(2));
    let x3 = fill(t.skip(24), args.skip(3));
    let x4 = fill(t.skip(35), args.skip(4));
    let x5 = fill(t.skip(48), args.skip(5));
    let x6 = fill(t.skip(62), args.skip(6));
    let f0 = args[0];
    assert(s =~= f0 + x1) by {
        assert(s == Seq::<char>::empty() + f0 + x1);
    }
    let f1 = f0 + "-bit | "@ + args[1];
    lemma_start_on(f0, "-bit | "@, args[1], x2);
    let f2 = f1 + " (detected "@ + args[2];
    lemma_start_on(f1, " (detected "@, args[2], x3);
    let f3 = f2 + ") | mode="@ + args[3];
    lemma_start_on(f2, ") | mode="@, args[3], x4);
    let f4 = f3 + " (detected "@ + args[4];
    lemma_start_on(f3, " (detected "@, args[4], x5);
    lemma_start_on(f4, ") | reshade="@, args[5], x6);
    let front = f4 + ") | reshade="@;
    assert(s == front + args[5] + x6);
    lemma_starts(front, args[5], x6);
}

proof fn lemma_starts(front: Seq<char>, a: Seq<char>, rest: Seq<char>)
    ensures
        starts_with(front + a + rest, front),
{
    assert((front + a + rest).subrange(0, front.len() as int) =~= front);
}

} // verus!
