//! One zip with everything a bug report needs: the logs and inis this tool and
//! its components write, Diagnose's findings, a listing of the game folder,
//! and what the machine is.
use vstd::prelude::*;
use crate::diagnose::{diagnose, diagnosis, notes, Finding, Level, Note, Session};
use crate::game::{GameStatus, Mode};
use crate::lang::Lang;
use crate::lines::lemma_texts_push;
use crate::message::{fill, fill1, fill2, filled};
use crate::number::{decimal, decimal_text};
use crate::order::lemma_less_trans;
use crate::text::{chars, ends, ends_with, equal, less, opt_str, opt_text, text_less, texts};

verus! {

// ── the summary ────────────────────────────────────────────────────

/// What was found out about a game, with the names that are shown for it.
#[derive(Debug)]
pub struct Inspected {
    pub status: GameStatus,
    pub session: Session,
    pub api: String,
    pub api_detected: String,
    /// Name and class of the graphics card.
    pub gpu: Option<(String, String)>,
    pub complete: bool,
}

pub const HEAD: &'static str = "dlss5oneclick {}\nexe: {}\n";

pub const DRIVER: &'static str = "nvidia driver: {}\n";

pub const STATUS: &'static str =
    "{}-bit | {} (detected {}) | mode={} (detected {}) | reshade={} headers={} feeder={} lumenite={} dlss5={} upstream={} aio={} dlssnr={} dlss={} bridge={} opti={} mfg={} reframework={} | gpu={} | complete={}\n";

pub const GPU: &'static str = "{} [{}]";

pub const PROBLEM: &'static str = "! {}\n";

pub const DIAGNOSE: &'static str = "\n--diagnose:\n";

pub const FINDING: &'static str = "[{}] {}\n";

pub const NOT_INSPECTED: &'static str = "inspect failed: {}\n";

pub open spec fn mode_name(m: Mode) -> Seq<char> {
    match m {
        Mode::Feeder => "Feeder"@,
        Mode::Native => "Native"@,
    }
}

pub open spec fn yes_no(b: bool) -> Seq<char> {
    if b {
        "true"@
    } else {
        "false"@
    }
}

pub open spec fn level_tag(l: Level) -> Seq<char> {
    match l {
        Level::Good => "ok  "@,
        Level::Warn => "warn"@,
        Level::Bad => "FAIL"@,
    }
}

pub open spec fn gpu_name(gpu: Option<(String, String)>) -> Seq<char> {
    match gpu {
        Some(g) => fill(GPU@, seq![g.0@, g.1@]),
        None => "unknown"@,
    }
}

/// What is there, in the order in which it is shown.
pub open spec fn parts(st: GameStatus) -> Seq<bool> {
    seq![
        st.reshade,
        st.headers,
        st.feeder,
        st.lumenite,
        st.dlss5_addon,
        st.upstream,
        st.aio,
        st.dlssnr,
        st.dlss,
        st.bridge,
        st.opti,
        st.mfg,
        st.reframework,
    ]
}

pub open spec fn yes_nos(v: Seq<bool>) -> Seq<Seq<char>> {
    Seq::new(v.len(), |i: int| yes_no(v[i]))
}

pub open spec fn status_line(i: Inspected) -> Seq<char> {
    fill(
        STATUS@,
        seq![
            decimal(i.status.bitness as nat),
            i.api@,
            i.api_detected@,
            mode_name(i.status.mode),
            mode_name(i.status.mode_detected),
        ] + yes_nos(parts(i.status)) + seq![gpu_name(i.gpu), yes_no(i.complete)],
    )
}

pub open spec fn problem_lines(v: Seq<Seq<char>>) -> Seq<char>
    decreases v.len(),
{
    if v.len() == 0 {
        Seq::empty()
    } else {
        problem_lines(v.drop_last()) + fill(PROBLEM@, seq![v.last()])
    }
}

pub open spec fn finding_lines(v: Seq<Note>) -> Seq<char>
    decreases v.len(),
{
    if v.len() == 0 {
        Seq::empty()
    } else {
        finding_lines(v.drop_last()) + fill(
            FINDING@,
            seq![level_tag(v.last().level), v.last().text],
        )
    }
}

/// The summary of a game: what it is, what is wrong with it, and what Diagnose
/// finds; or why it could not be looked at.
pub open spec fn game_text(l: Lang, inspected: Result<Inspected, String>) -> Seq<char> {
    match inspected {
        Ok(i) => status_line(i) + problem_lines(texts(i.status.problems@)) + DIAGNOSE@
            + finding_lines(diagnosis(l, i.status, i.session)),
        Err(e) => fill(NOT_INSPECTED@, seq![e@]),
    }
}

pub open spec fn summary_text(
    l: Lang,
    version: Seq<char>,
    exe: Seq<char>,
    driver: Option<Seq<char>>,
    inspected: Result<Inspected, String>,
) -> Seq<char> {
    fill(HEAD@, seq![version, exe]) + (match driver {
        Some(v) => fill(DRIVER@, seq![v]),
        None => Seq::empty(),
    }) + game_text(l, inspected)
}

fn shown_mode(m: Mode) -> (r: String)
    ensures
        r@ == mode_name(m),
{
    match m {
        Mode::Feeder => "Feeder".to_owned(),
        Mode::Native => "Native".to_owned(),
    }
}

fn shown(b: bool) -> (r: String)
    ensures
        r@ == yes_no(b),
{
    if b {
        "true".to_owned()
    } else {
        "false".to_owned()
    }
}

fn tag_of(l: Level) -> (r: &'static str)
    ensures
        r@ == level_tag(l),
{
    match l {
        Level::Good => "ok  ",
        Level::Warn => "warn",
        Level::Bad => "FAIL",
    }
}

fn shown_gpu(gpu: &Option<(String, String)>) -> (r: String)
    ensures
        r@ == gpu_name(*gpu),
{
    match gpu {
        Some(g) => fill2(GPU, g.0.as_str(), g.1.as_str()),
        None => "unknown".to_owned(),
    }
}

fn parts_of(st: &GameStatus) -> (r: Vec<bool>)
    ensures
        r@ == parts(*st),
{
    vec![
        st.reshade,
        st.headers,
        st.feeder,
        st.lumenite,
        st.dlss5_addon,
        st.upstream,
        st.aio,
        st.dlssnr,
        st.dlss,
        st.bridge,
        st.opti,
        st.mfg,
        st.reframework,
    ]
}

fn put_yes_nos(out: &mut Vec<String>, v: &Vec<bool>)
    ensures
        texts(final(out)@) == texts(old(out)@) + yes_nos(v@),
{
    let ghost start = texts(out@);
    let ghost all = yes_nos(v@);
    let mut i: usize = 0;
    assert(start + all.take(0) =~= start);
    while i < v.len()
        invariant
            i <= v@.len(),
            all == yes_nos(v@),
            texts(out@) == start + all.take(i as int),
        decreases v@.len() - i,
    {
        let t = shown(v[i]);
        proof {
            lemma_texts_push(out@, t);
            assert((start + all.take(i as int)).push(all[i as int]) =~= start + all.take(i + 1));
        }
        out.push(t);
        i = i + 1;
    }
    assert(all.take(all.len() as int) =~= all);
}

fn shown_status(i: &Inspected) -> (r: String)
    ensures
        r@ == status_line(*i),
{
    let mut args: Vec<String> = vec![
        decimal_text(i.status.bitness as u64),
        i.api.as_str().to_owned(),
        i.api_detected.as_str().to_owned(),
        shown_mode(i.status.mode),
        shown_mode(i.status.mode_detected),
    ];
    let ghost head = seq![
        decimal(i.status.bitness as nat),
        i.api@,
        i.api_detected@,
        mode_name(i.status.mode),
        mode_name(i.status.mode_detected),
    ];
    assert(texts(args@) =~= head);
    let there = parts_of(&i.status);
    put_yes_nos(&mut args, &there);
    let ghost mid = texts(args@);
    let gpu = shown_gpu(&i.gpu);
    let complete = shown(i.complete);
    proof {
        lemma_texts_push(args@, gpu);
        lemma_texts_push(args@.push(gpu), complete);
        assert(mid.push(gpu@).push(complete@) =~= mid + seq![gpu@, complete@]);
    }
    args.push(gpu);
    args.push(complete);
    filled(STATUS, &args)
}

fn put_problems(out: &mut String, v: &Vec<String>)
    ensures
        final(out)@ == old(out)@ + problem_lines(texts(v@)),
{
    let ghost before = out@;
    let ghost all = texts(v@);
    let mut i: usize = 0;
    assert(all.take(0) =~= Seq::empty());
    assert(before + problem_lines(all.take(0)) =~= before);
    while i < v.len()
        invariant
            i <= v@.len(),
            all == texts(v@),
            out@ == before + problem_lines(all.take(i as int)),
        decreases v@.len() - i,
    {
        proof {
            assert(all.take(i + 1).drop_last() =~= all.take(i as int));
            assert(all.take(i + 1).last() == v@[i as int]@);
        }
        let line = fill1(PROBLEM, v[i].as_str());
        out.append(line.as_str());
        assert(out@ =~= before + (problem_lines(all.take(i as int)) + line@));
        i = i + 1;
    }
    assert(all.take(all.len() as int) =~= all);
}

fn put_findings(out: &mut String, v: &Vec<Finding>)
    ensures
        final(out)@ == old(out)@ + finding_lines(notes(v@)),
{
    let ghost before = out@;
    let ghost all = notes(v@);
    let mut i: usize = 0;
    assert(all.take(0) =~= Seq::empty());
    assert(before + finding_lines(all.take(0)) =~= before);
    while i < v.len()
        invariant
            i <= v@.len(),
            all == notes(v@),
            out@ == before + finding_lines(all.take(i as int)),
        decreases v@.len() - i,
    {
        proof {
            assert(all.take(i + 1).drop_last() =~= all.take(i as int));
            assert(all.take(i + 1).last() == all[i as int]);
        }
        let line = fill2(FINDING, tag_of(v[i].level), v[i].text.as_str());
        out.append(line.as_str());
        assert(out@ =~= before + (finding_lines(all.take(i as int)) + line@));
        i = i + 1;
    }
    assert(all.take(all.len() as int) =~= all);
}

proof fn lemma_sum4(b: Seq<char>, v: Seq<char>, w: Seq<char>, x: Seq<char>, y: Seq<char>)
    ensures
        b + v + w + x + y == b + (v + w + x + y),
{
    assert(b + v + w + x + y =~= b + (v + w + x + y));
}

fn put_game(out: &mut String, l: Lang, i: &Inspected)
    ensures
        final(out)@ == old(out)@ + (status_line(*i) + problem_lines(texts(i.status.problems@))
            + DIAGNOSE@ + finding_lines(diagnosis(l, i.status, i.session))),
{
    let line = shown_status(i);
    out.append(line.as_str());
    put_problems(out, &i.status.problems);
    out.append(DIAGNOSE);
    let found = diagnose(l, &i.status, &i.session);
    put_findings(out, &found);
    proof {
        lemma_sum4(
            old(out)@,
            status_line(*i),
            problem_lines(texts(i.status.problems@)),
            DIAGNOSE@,
            finding_lines(diagnosis(l, i.status, i.session)),
        );
    }
}

/// The text of `summary.txt`.
pub fn summary(
    l: Lang,
    version: &str,
    exe: &str,
    driver: Option<&str>,
    inspected: &Result<Inspected, String>,
) -> (r: String)
    ensures
        r@ == summary_text(l, version@, exe@, opt_str(driver), *inspected),
{
    let mut s = fill2(HEAD, version, exe);
    let ghost head = s@;
    match driver {
        Some(v) => {
            let line = fill1(DRIVER, v);
            s.append(line.as_str());
        },
        None => {
            assert(head + Seq::empty() =~= head);
        },
    }
    match inspected {
        Ok(i) => {
            put_game(&mut s, l, i);
        },
        Err(e) => {
            let line = fill1(NOT_INSPECTED, e.as_str());
            s.append(line.as_str());
        },
    }
    s
}

// ── the listing ────────────────────────────────────────────────────

/// An entry of a folder.
#[derive(Debug)]
pub struct Row {
    pub name: String,
    pub len: u64,
    pub dir: bool,
}

/// A [`Row`], its name as characters.
pub struct RowView {
    pub name: Seq<char>,
    pub len: u64,
    pub dir: bool,
}

impl View for Row {
    type V = RowView;

    open spec fn view(&self) -> RowView {
        RowView { name: self.name@, len: self.len, dir: self.dir }
    }
}

pub open spec fn row_views(v: Seq<Row>) -> Seq<RowView> {
    Seq::new(v.len(), |i: int| v[i]@)
}

/// Rows are ordered by their names, then by their sizes, files before folders.
pub open spec fn row_less(a: RowView, b: RowView) -> bool {
    if a.name != b.name {
        text_less(a.name, b.name)
    } else if a.len != b.len {
        a.len < b.len
    } else {
        !a.dir && b.dir
    }
}

/// Sorted rows with one row more, after those that are not greater.
pub open spec fn row_inserted(v: Seq<RowView>, t: RowView) -> Seq<RowView>
    decreases v.len(),
{
    if v.len() > 0 && row_less(t, v.last()) {
        row_inserted(v.drop_last(), t).push(v.last())
    } else {
        v.push(t)
    }
}

/// The rows in order.
pub open spec fn sorted_rows(v: Seq<RowView>) -> Seq<RowView>
    decreases v.len(),
{
    if v.len() == 0 {
        Seq::empty()
    } else {
        row_inserted(sorted_rows(v.drop_last()), v.last())
    }
}

proof fn lemma_row_inserted_at(v: Seq<RowView>, t: RowView, k: int)
    requires
        0 <= k <= v.len(),
        forall|j: int| k <= j < v.len() ==> row_less(t, #[trigger] v[j]),
        k > 0 ==> !row_less(t, v[k - 1]),
    ensures
        row_inserted(v, t) == v.insert(k, t),
    decreases v.len() - k,
{
    if k < v.len() {
        let u = v.drop_last();
        assert(row_less(t, v[v.len() - 1]));
        lemma_row_inserted_at(u, t, k);
        assert(u.insert(k, t).push(v.last()) =~= v.insert(k, t));
    } else {
        assert(v.push(t) =~= v.insert(k, t));
    }
}

fn before(a: &Row, b: &Row) -> (r: bool)
    ensures
        r == row_less(a@, b@),
{
    let x = chars(a.name.as_str());
    let y = chars(b.name.as_str());
    if !equal(x.as_slice(), y.as_slice()) {
        less(x.as_slice(), y.as_slice())
    } else if a.len != b.len {
        a.len < b.len
    } else {
        !a.dir && b.dir
    }
}

fn insert_row(v: &mut Vec<Row>, row: Row)
    ensures
        row_views(final(v)@) == row_inserted(row_views(old(v)@), row@),
{
    let ghost all = row_views(v@);
    let mut k: usize = v.len();
    let mut go = k > 0;
    while go
        invariant
            k <= v@.len(),
            all == row_views(v@),
            go ==> k > 0,
            forall|j: int| k <= j < v@.len() ==> row_less(row@, #[trigger] all[j]),
            !go && k > 0 ==> !row_less(row@, all[k - 1]),
        decreases
                k + (if go {
                    1int
                } else {
                    0int
                }),
    {
        assert(all[k - 1] == v@[k - 1]@);
        if before(&row, &v[k - 1]) {
            k = k - 1;
            go = k > 0;
        } else {
            go = false;
        }
    }
    proof {
        lemma_row_inserted_at(all, row@, k as int);
    }
    v.insert(k, row);
    assert(row_views(v@) =~= all.insert(k as int, row@));
}

fn sort_rows(v: &Vec<Row>) -> (r: Vec<Row>)
    ensures
        row_views(r@) == sorted_rows(row_views(v@)),
{
    let ghost all = row_views(v@);
    let mut out: Vec<Row> = Vec::new();
    let mut i: usize = 0;
    assert(all.take(0) =~= Seq::empty());
    assert(row_views(out@) =~= Seq::empty());
    while i < v.len()
        invariant
            i <= v@.len(),
            all == row_views(v@),
            row_views(out@) == sorted_rows(all.take(i as int)),
        decreases v@.len() - i,
    {
        proof {
            assert(all.take(i + 1).drop_last() =~= all.take(i as int));
            assert(all.take(i + 1).last() == v@[i as int]@);
        }
        let row = Row { name: v[i].name.as_str().to_owned(), len: v[i].len, dir: v[i].dir };
        insert_row(&mut out, row);
        i = i + 1;
    }
    assert(all.take(all.len() as int) =~= all);
    out
}

pub const SECTION: &'static str = "[{}]\n";

pub const DIR_ROW: &'static str = "  {}/\n";

pub const FILE_ROW: &'static str = "  {}  {}\n";

pub open spec fn row_line(r: RowView) -> Seq<char> {
    if r.dir {
        fill(DIR_ROW@, seq![r.name])
    } else {
        fill(FILE_ROW@, seq![r.name, decimal(r.len as nat)])
    }
}

pub open spec fn row_lines(v: Seq<RowView>) -> Seq<char>
    decreases v.len(),
{
    if v.len() == 0 {
        Seq::empty()
    } else {
        row_lines(v.drop_last()) + row_line(v.last())
    }
}

/// A folder to list, relative to the game folder; `rows` is `None` where it is
/// not there or cannot be read.
#[derive(Debug)]
pub struct Section {
    pub sub: String,
    pub rows: Option<Vec<Row>>,
}

pub open spec fn section_name(sub: Seq<char>) -> Seq<char> {
    if sub.len() == 0 {
        "."@
    } else {
        sub
    }
}

pub open spec fn section_text(s: Section) -> Seq<char> {
    match s.rows {
        Some(v) => fill(SECTION@, seq![section_name(s.sub@)]) + row_lines(
            sorted_rows(row_views(v@)),
        ),
        None => Seq::empty(),
    }
}

pub open spec fn listing_text(v: Seq<Section>) -> Seq<char>
    decreases v.len(),
{
    if v.len() == 0 {
        Seq::empty()
    } else {
        listing_text(v.drop_last()) + section_text(v.last())
    }
}

/// The folders that are listed: the game folder, `host64` and the shader
/// folders, one level each. Enough to see which proxy DLLs are there.
pub open spec fn listed() -> Seq<Seq<char>> {
    seq![
        ""@,
        "host64"@,
        "reshade-shaders/Shaders"@,
        "reshade-shaders/Shaders/include"@,
        "reshade-shaders/Textures"@,
    ]
}

pub fn listed_folders() -> (r: Vec<String>)
    ensures
        texts(r@) == listed(),
{
    let v: Vec<String> = vec![
        "".to_owned(),
        "host64".to_owned(),
        "reshade-shaders/Shaders".to_owned(),
        "reshade-shaders/Shaders/include".to_owned(),
        "reshade-shaders/Textures".to_owned(),
    ];
    assert(texts(v@) =~= listed());
    v
}

fn put_rows(out: &mut String, v: &Vec<Row>)
    ensures
        final(out)@ == old(out)@ + row_lines(row_views(v@)),
{
    let ghost start = out@;
    let ghost all = row_views(v@);
    let mut i: usize = 0;
    assert(all.take(0) =~= Seq::empty());
    assert(start + row_lines(all.take(0)) =~= start);
    while i < v.len()
        invariant
            i <= v@.len(),
            all == row_views(v@),
            out@ == start + row_lines(all.take(i as int)),
        decreases v@.len() - i,
    {
        proof {
            assert(all.take(i + 1).drop_last() =~= all.take(i as int));
            assert(all.take(i + 1).last() == v@[i as int]@);
        }
        let name = v[i].name.as_str();
        let line = if v[i].dir {
            fill1(DIR_ROW, name)
        } else {
            let len = decimal_text(v[i].len);
            fill2(FILE_ROW, name, len.as_str())
        };
        out.append(line.as_str());
        assert(out@ =~= start + (row_lines(all.take(i as int)) + line@));
        i = i + 1;
    }
    assert(all.take(all.len() as int) =~= all);
}

/// The text of `folder.txt`: name and size of everything in the folders.
pub fn listing(sections: &Vec<Section>) -> (r: String)
    ensures
        r@ == listing_text(sections@),
{
    let mut out = String::new();
    let mut i: usize = 0;
    assert(sections@.take(0) =~= Seq::empty());
    assert(out@ =~= Seq::empty());
    while i < sections.len()
        invariant
            i <= sections@.len(),
            out@ == listing_text(sections@.take(i as int)),
        decreases sections@.len() - i,
    {
        let ghost was = out@;
        proof {
            assert(sections@.take(i + 1).drop_last() =~= sections@.take(i as int));
            assert(sections@.take(i + 1).last() == sections@[i as int]);
        }
        let s = &sections[i];
        match &s.rows {
            Some(v) => {
                let name: &str = if chars(s.sub.as_str()).len() == 0 {
                    "."
                } else {
                    s.sub.as_str()
                };
                let head = fill1(SECTION, name);
                out.append(head.as_str());
                let rows = sort_rows(v);
                put_rows(&mut out, &rows);
                assert(out@ =~= was + section_text(sections@[i as int]));
            },
            None => {
                assert(out@ =~= was + section_text(sections@[i as int]));
            },
        }
        i = i + 1;
    }
    assert(sections@.take(sections@.len() as int) =~= sections@);
    out
}

// ── the bundle ─────────────────────────────────────────────────────

/// A log can run to hundreds of megabytes; the end is where the answer is.
pub const TAIL_BYTES: u64 = 4 * 1024 * 1024;

pub const OMITTED: &'static str = "[... first {} bytes omitted ...]\n";

/// The part of a file that is carried: what is put before it, and where it
/// starts.
#[derive(Debug)]
pub struct Tail {
    pub head: Option<String>,
    pub start: u64,
}

/// Where the carried part of a file of that length starts.
pub open spec fn tail_start(len: u64) -> u64 {
    if len > TAIL_BYTES {
        (len - TAIL_BYTES) as u64
    } else {
        0
    }
}

/// The last [`TAIL_BYTES`] of a file of that length, or all of it when smaller.
pub fn tail(len: u64) -> (r: Tail)
    ensures
        r.start == tail_start(len),
        opt_text(r.head) == (if tail_start(len) > 0 {
            Some(fill(OMITTED@, seq![decimal(tail_start(len) as nat)]))
        } else {
            None
        }),
{
    if len > TAIL_BYTES {
        let gone = decimal_text(len - TAIL_BYTES);
        Tail { head: Some(fill1(OMITTED, gone.as_str())), start: len - TAIL_BYTES }
    } else {
        Tail { head: None, start: 0 }
    }
}

/// The files worth carrying, relative to the game folder.
pub open spec fn carried() -> Seq<Seq<char>> {
    seq![
        "ReShade.log"@,
        "ReShade.log1"@,
        "ReShade.log2"@,
        "ReShade.ini"@,
        "ReShadePreset.ini"@,
        "ReShadeVR.ini"@,
        "dlss5-feed.log"@,
        "dlss5-feed.cfg"@,
        "OptiScaler.log"@,
        "OptiScaler.ini"@,
        "re2_framework_log.txt"@,
        "nrpre-ring.txt"@,
        "dgVoodoo.conf"@,
        "host64/ReShade.log"@,
        "host64/ReShade.ini"@,
        "host64/dlss5-feed-host.log"@,
        "host64/ReShadePreset.ini"@,
        ".dlss5oneclick-optiscaler-manifest"@,
        ".dlss5oneclick-aio-manifest"@,
    ]
}

pub fn carried_files() -> (r: Vec<String>)
    ensures
        texts(r@) == carried(),
{
    let v: Vec<String> = vec![
        "ReShade.log".to_owned(),
        "ReShade.log1".to_owned(),
        "ReShade.log2".to_owned(),
        "ReShade.ini".to_owned(),
        "ReShadePreset.ini".to_owned(),
        "ReShadeVR.ini".to_owned(),
        "dlss5-feed.log".to_owned(),
        "dlss5-feed.cfg".to_owned(),
        "OptiScaler.log".to_owned(),
        "OptiScaler.ini".to_owned(),
        "re2_framework_log.txt".to_owned(),
        "nrpre-ring.txt".to_owned(),
        "dgVoodoo.conf".to_owned(),
        "host64/ReShade.log".to_owned(),
        "host64/ReShade.ini".to_owned(),
        "host64/dlss5-feed-host.log".to_owned(),
        "host64/ReShadePreset.ini".to_owned(),
        ".dlss5oneclick-optiscaler-manifest".to_owned(),
        ".dlss5oneclick-aio-manifest".to_owned(),
    ];
    assert(texts(v@) =~= carried());
    v
}

pub const BUNDLE_NAME: &'static str = "dlss5oneclick-report-{}-{}.zip";

pub open spec fn stem_name(stem: Option<Seq<char>>) -> Seq<char> {
    match stem {
        Some(t) => t,
        None => "game"@,
    }
}

/// The file name of a bundle, by the exe without its extension and the seconds
/// since 1970.
pub fn bundle_name(stem: Option<&str>, stamp: u64) -> (r: String)
    ensures
        r@ == fill(BUNDLE_NAME@, seq![stem_name(opt_str(stem)), decimal(stamp as nat)]),
{
    let name: &str = match stem {
        Some(t) => t,
        None => "game",
    };
    let n = decimal_text(stamp);
    fill2(BUNDLE_NAME, name, n.as_str())
}

/// A file that could be read, by its path below the game folder.
#[derive(Debug)]
pub struct Carried {
    pub path: String,
    pub bytes: Vec<u8>,
}

/// What an entry of the bundle holds.
#[derive(Debug)]
pub enum Content {
    Text(String),
    Bytes(Vec<u8>),
}

/// A [`Content`] as characters or bytes.
pub enum ContentView {
    Text(Seq<char>),
    Bytes(Seq<u8>),
}

/// An entry of the bundle.
#[derive(Debug)]
pub struct Entry {
    pub name: String,
    pub content: Content,
}

/// An [`Entry`] as characters and bytes.
pub struct EntryView {
    pub name: Seq<char>,
    pub content: ContentView,
}

impl View for Content {
    type V = ContentView;

    open spec fn view(&self) -> ContentView {
        match self {
            Content::Text(t) => ContentView::Text(t@),
            Content::Bytes(b) => ContentView::Bytes(b@),
        }
    }
}

impl View for Entry {
    type V = EntryView;

    open spec fn view(&self) -> EntryView {
        EntryView { name: self.name@, content: self.content@ }
    }
}

pub open spec fn entry_views(v: Seq<Entry>) -> Seq<EntryView> {
    Seq::new(v.len(), |i: int| v[i]@)
}

pub const IN_GAME: &'static str = "game/{}";

pub const SIDECAR: &'static str = ".dlss5oneclick";

/// The files that were read, each below `game/`.
pub open spec fn file_entries(files: Seq<Carried>) -> Seq<EntryView> {
    Seq::new(
        files.len(),
        |i: int|
            EntryView {
                name: fill(IN_GAME@, seq![files[i].path@]),
                content: ContentView::Bytes(files[i].bytes@),
            },
    )
}

/// A file of the game folder: its name, and its text where it is one.
pub open spec fn sidecar_entry(f: (String, Option<String>)) -> Seq<EntryView> {
    if ends_with(f.0@, SIDECAR@) && f.1 is Some {
        seq![
            EntryView {
                name: fill(IN_GAME@, seq![f.0@]),
                content: ContentView::Text(f.1->0@),
            },
        ]
    } else {
        Seq::empty()
    }
}

/// The sidecars among the files of the game folder: which release of each piece
/// this tool placed.
pub open spec fn sidecar_entries(folder: Seq<(String, Option<String>)>) -> Seq<EntryView>
    decreases folder.len(),
{
    if folder.len() == 0 {
        Seq::empty()
    } else {
        sidecar_entries(folder.drop_last()) + sidecar_entry(folder.last())
    }
}

/// The entries of a bundle, in their order.
pub open spec fn bundle(
    summary: Seq<char>,
    listing: Seq<char>,
    files: Seq<Carried>,
    folder: Seq<(String, Option<String>)>,
    settings: Option<Vec<u8>>,
) -> Seq<EntryView> {
    seq![
        EntryView { name: "summary.txt"@, content: ContentView::Text(summary) },
        EntryView { name: "folder.txt"@, content: ContentView::Text(listing) },
    ] + file_entries(files) + sidecar_entries(folder) + (match settings {
        Some(b) => seq![
            EntryView { name: "settings.json"@, content: ContentView::Bytes(b@) },
        ],
        None => Seq::empty(),
    })
}

fn put_entry(out: &mut Vec<Entry>, e: Entry)
    ensures
        entry_views(final(out)@) == entry_views(old(out)@).push(e@),
{
    out.push(e);
    assert(entry_views(out@) =~= entry_views(old(out)@).push(e@));
}

fn put_files(out: &mut Vec<Entry>, files: Vec<Carried>)
    ensures
        entry_views(final(out)@) == entry_views(old(out)@) + file_entries(files@),
{
    let ghost start = entry_views(out@);
    let ghost all = file_entries(files@);
    let mut i: usize = 0;
    assert(start + all.take(0) =~= start);
    while i < files.len()
        invariant
            i <= files@.len(),
            all == file_entries(files@),
            entry_views(out@) == start + all.take(i as int),
        decreases files@.len() - i,
    {
        let mut bytes: Vec<u8> = Vec::new();
        let n: usize = files[i].bytes.len();
        let mut k: usize = 0;
        while k < n
            invariant
                i < files@.len(),
                k <= n == files@[i as int].bytes@.len(),
                bytes@ == files@[i as int].bytes@.take(k as int),
            decreases n - k,
        {
            bytes.push(files[i].bytes[k]);
            k = k + 1;
        }
        assert(bytes@ =~= files@[i as int].bytes@);
        let e = Entry {
            name: fill1(IN_GAME, files[i].path.as_str()),
            content: Content::Bytes(bytes),
        };
        put_entry(out, e);
        proof {
            assert(all[i as int] == e@);
            assert((start + all.take(i as int)).push(e@) =~= start + all.take(i + 1));
        }
        i = i + 1;
    }
    assert(all.take(all.len() as int) =~= all);
}

fn put_sidecars(out: &mut Vec<Entry>, folder: &Vec<(String, Option<String>)>)
    ensures
        entry_views(final(out)@) == entry_views(old(out)@) + sidecar_entries(folder@),
{
    let ghost start = entry_views(out@);
    let mut i: usize = 0;
    assert(folder@.take(0) =~= Seq::empty());
    assert(start + sidecar_entries(folder@.take(0)) =~= start);
    while i < folder.len()
        invariant
            i <= folder@.len(),
            entry_views(out@) == start + sidecar_entries(folder@.take(i as int)),
        decreases folder@.len() - i,
    {
        let ghost was = sidecar_entries(folder@.take(i as int));
        proof {
            assert(folder@.take(i + 1).drop_last() =~= folder@.take(i as int));
            assert(folder@.take(i + 1).last() == folder@[i as int]);
        }
        let name = chars(folder[i].0.as_str());
        let hit = ends(name.as_slice(), SIDECAR);
        match &folder[i].1 {
            Some(t) => {
                if hit {
                    let e = Entry {
                        name: fill1(IN_GAME, folder[i].0.as_str()),
                        content: Content::Text(t.as_str().to_owned()),
                    };
                    put_entry(out, e);
                    assert((start + was).push(e@) =~= start + (was + sidecar_entry(
                        folder@[i as int],
                    )));
                } else {
                    assert(start + was =~= start + (was + sidecar_entry(folder@[i as int])));
                }
            },
            None => {
                assert(start + was =~= start + (was + sidecar_entry(folder@[i as int])));
            },
        }
        i = i + 1;
    }
    assert(folder@.take(folder@.len() as int) =~= folder@);
}

/// What the bundle holds. `files` are those of [`carried_files`] that could be
/// read, their ends where they are long; `folder` are the files of the game
/// folder, with their texts.
pub fn write_bundle(
    summary: String,
    listing: String,
    files: Vec<Carried>,
    folder: &Vec<(String, Option<String>)>,
    settings: Option<Vec<u8>>,
) -> (r: Vec<Entry>)
    ensures
        entry_views(r@) == bundle(summary@, listing@, files@, folder@, settings),
{
    let ghost all = bundle(summary@, listing@, files@, folder@, settings);
    let mut out: Vec<Entry> = Vec::new();
    put_entry(&mut out, Entry { name: "summary.txt".to_owned(), content: Content::Text(summary) });
    put_entry(&mut out, Entry { name: "folder.txt".to_owned(), content: Content::Text(listing) });
    let ghost head = entry_views(out@);
    assert(head =~= seq![
        EntryView { name: "summary.txt"@, content: ContentView::Text(summary@) },
        EntryView { name: "folder.txt"@, content: ContentView::Text(listing@) },
    ]);
    put_files(&mut out, files);
    put_sidecars(&mut out, folder);
    if let Some(b) = settings {
        put_entry(
            &mut out,
            Entry { name: "settings.json".to_owned(), content: Content::Bytes(b) },
        );
    }
    assert(entry_views(out@) =~= all);
    out
}

// ── laws ───────────────────────────────────────────────────────────

/// No row comes before one above it.
pub open spec fn rows_in_order(v: Seq<RowView>) -> bool {
    forall|i: int, j: int| 0 <= i < j < v.len() ==> !row_less(#[trigger] v[j], #[trigger] v[i])
}

/// A row that comes before one comes before everything that is not before it.
proof fn lemma_row_trans(a: RowView, b: RowView, c: RowView)
    ensures
        row_less(a, b) && !row_less(c, b) ==> row_less(a, c),
        !row_less(b, a) && !row_less(c, b) ==> !row_less(c, a),
        !(row_less(a, b) && row_less(b, a)),
{
    lemma_name_trans(a.name, b.name, c.name);
    lemma_name_trans(b.name, a.name, c.name);
    lemma_name_trans(c.name, b.name, a.name);
    lemma_name_trans(a.name, c.name, b.name);
}

proof fn lemma_name_trans(a: Seq<char>, b: Seq<char>, c: Seq<char>)
    ensures
        text_less(a, b) && !text_less(c, b) ==> text_less(a, c),
        !text_less(b, a) && !text_less(c, b) ==> !text_less(c, a),
        !(text_less(a, b) && text_less(b, a)),
        a != b ==> text_less(a, b) || text_less(b, a),
{
    lemma_less_trans(a, b, c);
    lemma_less_total(a, b);
}

proof fn lemma_less_total(a: Seq<char>, b: Seq<char>)
    ensures
        a != b ==> text_less(a, b) || text_less(b, a),
    decreases a.len(),
{
    if a.len() > 0 && b.len() > 0 {
        lemma_less_total(a.drop_first(), b.drop_first());
        if a.drop_first() == b.drop_first() && a[0] == b[0] {
            assert(a =~= seq![a[0]] + a.drop_first());
            assert(b =~= seq![b[0]] + b.drop_first());
        }
    } else if a.len() == 0 && b.len() == 0 {
        assert(a =~= b);
    }
}

proof fn lemma_row_inserted(v: Seq<RowView>, t: RowView)
    requires
        rows_in_order(v),
    ensures
        rows_in_order(row_inserted(v, t)),
        row_inserted(v, t).to_multiset() == v.to_multiset().insert(t),
        forall|x: RowView| #[trigger]
            row_inserted(v, t).contains(x) ==> v.contains(x) || x == t,
    decreases v.len(),
{
    broadcast use vstd::seq_lib::group_to_multiset_ensures;

    let r = row_inserted(v, t);
    let last = v.len() - 1;
    if v.len() > 0 && row_less(t, v.last()) {
        let u = v.drop_last();
        let w = row_inserted(u, t);
        lemma_row_inserted(u, t);
        assert(u.push(v.last()) =~= v);
        assert forall|i: int, j: int| 0 <= i < j < r.len() implies !row_less(
            #[trigger] r[j],
            #[trigger] r[i],
        ) by {
            if j == r.len() - 1 {
                assert(w.contains(w[i]));
                assert(r[i] == w[i]);
                if w[i] == t {
                    lemma_row_trans(t, v.last(), t);
                } else {
                    let k = choose|k: int| 0 <= k < u.len() && u[k] == w[i];
                    assert(!row_less(v[last], v[k]));
                }
            } else {
                assert(r[i] == w[i] && r[j] == w[j]);
            }
        }
        assert forall|x: RowView| #[trigger] r.contains(x) implies v.contains(x) || x == t by {
            let k = choose|k: int| 0 <= k < r.len() && r[k] == x;
            if k < w.len() {
                assert(w[k] == x);
                assert(w.contains(x));
                if u.contains(x) {
                    let m = choose|m: int| 0 <= m < u.len() && u[m] == x;
                    assert(v[m] == x);
                }
            } else {
                assert(v[last] == x);
            }
        }
        assert(v.to_multiset() =~= u.to_multiset().insert(v.last()));
        assert(r.to_multiset() =~= v.to_multiset().insert(t));
    } else {
        assert forall|i: int, j: int| 0 <= i < j < r.len() implies !row_less(
            #[trigger] r[j],
            #[trigger] r[i],
        ) by {
            if j == v.len() {
                if i < last {
                    assert(!row_less(v[last], v[i]));
                    lemma_row_trans(v[i], v[last], t);
                }
            } else {
                assert(r[i] == v[i] && r[j] == v[j]);
            }
        }
        assert forall|x: RowView| #[trigger] r.contains(x) implies v.contains(x) || x == t by {
            let k = choose|k: int| 0 <= k < r.len() && r[k] == x;
            if k < v.len() {
                assert(v[k] == x);
            }
        }
    }
}

/// A listing shows every entry of a folder, each once, in order.
pub proof fn law_listing_is_sorted(v: Seq<RowView>)
    ensures
        rows_in_order(sorted_rows(v)),
        sorted_rows(v).to_multiset() == v.to_multiset(),
    decreases v.len(),
{
    broadcast use vstd::seq_lib::group_to_multiset_ensures;

    if v.len() > 0 {
        law_listing_is_sorted(v.drop_last());
        lemma_row_inserted(sorted_rows(v.drop_last()), v.last());
        assert(v.drop_last().push(v.last()) =~= v);
    } else {
        assert(v =~= Seq::empty());
    }
}

/// A file is carried to its end: what is left out is only its start, and no
/// more than is needed to keep the carried part to the limit.
pub proof fn law_tail_keeps_the_end(len: u64)
    ensures
        ({
            let start = tail_start(len);
            &&& start <= len
            &&& len - start <= TAIL_BYTES
            &&& start > 0 ==> len - start == TAIL_BYTES
        }),
{
}

} // verus!
