//! `dgVoodoo.conf`: merging the keys that the feed needs into a file that the
//! user may have tuned, and the check that the result is usable.
use vstd::prelude::*;
use crate::archive::{members, unpack_one, unpacked, zip_names, ExtractView, Unpacked};
use vstd::slice::slice_subrange;
use crate::dgvoodoo_laws::law_merged_is_healthy;
use crate::dgvoodoo_template::law_template_is_healthy;
use crate::lang::{say, tr, Lang};
use crate::lines::{
    cut, first_line, flat, lemma_first_line, lemma_flat_push, lines, lines_of, pieces, words,
    words_of,
};
use crate::message::{fill, fill1, said};
use crate::number::{decimal, parse_unsigned, parsed_unsigned, push_decimal};
use crate::paths::slashed;
use crate::text::{
    chars, contains, copied, ends, ends_with, equal_nocase, head, head_of, holds, lower, lowered,
    opt_str, opt_text, put, replaced_char, rest, rest_of, rows, same_nocase, string, texts, trim, trimmed,
};

verus! {

/// Minimum emulated VRAM (MB). Stock dgVoodoo is 256 — too low for Gothic 3 VH @ 1080p.
pub const VRAM_FLOOR: u32 = 4096;

/// Feeder/ReShade need D3D11; never leave `bestavailable` (may pick D3D12).
pub const API_LINE: &'static str = "OutputAPI = d3d11_fl11_0";

pub const MARK_LINE: &'static str = "dgVoodooWatermark = false";

/// Full template used only when no `dgVoodoo.conf` exists yet.
pub const CONF_TEMPLATE: &'static str = "\
; Written by DLSS5oneclick — official dgVoodoo 2.87.3 (DX9 → D3D11 for ReShade dxgi.dll)
; https://github.com/dege-diosg/dgVoodoo2/releases/tag/v2.87.3
[General]
OutputAPI = d3d11_fl11_0
Adapters = all
FullScreenOutput = default
ScalingMode = unspecified
[DirectX]
VideoCard = internal3D
VRAM = 4096
Filtering = appdriven
Mipmapping = appdriven
Resolution = unforced
Antialiasing = appdriven
AppControlledScreenMode = true
ForceVerticalSync = false
dgVoodooWatermark = false
FastVideoMemoryAccess = false
[DirectXExt]
RTTexturesForceScaleAndMSAA = false
";

// ── what the merge does ────────────────────────────────────────────

/// The merge after some lines: the open section, what has been seen and
/// written, and the lines written.
pub struct Merge {
    pub section: Seq<char>,
    pub saw_general: bool,
    pub saw_directx: bool,
    pub api: bool,
    pub vram: bool,
    pub mark: bool,
    pub out: Seq<Seq<char>>,
}

pub open spec fn start() -> Merge {
    Merge {
        section: Seq::empty(),
        saw_general: false,
        saw_directx: false,
        api: false,
        vram: false,
        mark: false,
        out: Seq::empty(),
    }
}

/// `[…]`.
pub open spec fn is_header(t: Seq<char>) -> bool {
    t.len() >= 2 && t[0] == '[' && t.last() == ']'
}

pub open spec fn in_general(section: Seq<char>) -> bool {
    same_nocase(section, "General"@)
}

pub open spec fn in_directx(section: Seq<char>) -> bool {
    same_nocase(section, "DirectX"@)
}

/// The line gives the key `name` a value.
pub open spec fn gives(t: Seq<char>, name: Seq<char>) -> bool {
    rest(t, '=') is Some && same_nocase(trim(head(t, '=')), name)
}

/// The number that a value starts with, zero where it starts with none.
pub open spec fn leading_number(v: Seq<char>) -> nat {
    if words(v).len() > 0 {
        match parse_unsigned(words(v)[0], u32::MAX as nat) {
            Some(n) => n,
            None => 0,
        }
    } else {
        0
    }
}

pub open spec fn vram_line(n: nat) -> Seq<char> {
    "VRAM = "@ + decimal(n)
}

pub open spec fn at_least(n: nat, floor: nat) -> nat {
    if n < floor {
        floor
    } else {
        n
    }
}

/// A forced line: it has a carriage return where the line that it replaces has.
pub open spec fn in_place_of(l: Seq<char>, raw: Seq<char>) -> Seq<char> {
    if raw.len() > 0 && raw.last() == '\r' {
        l.push('\r')
    } else {
        l
    }
}

/// The keys that the open section still lacks.
pub open spec fn lacking(m: Merge) -> Seq<Seq<char>> {
    (if in_general(m.section) && !m.api {
        seq![API_LINE@]
    } else {
        Seq::empty()
    }) + (if in_directx(m.section) && !m.vram {
        seq![vram_line(VRAM_FLOOR as nat)]
    } else {
        Seq::empty()
    }) + (if in_directx(m.section) && !m.mark {
        seq![MARK_LINE@]
    } else {
        Seq::empty()
    })
}

/// The open section completed.
pub open spec fn completed(m: Merge) -> Merge {
    Merge {
        api: m.api || in_general(m.section),
        vram: m.vram || in_directx(m.section),
        mark: m.mark || in_directx(m.section),
        out: m.out + lacking(m),
        ..m
    }
}

/// One line: a heading completes the section before it, the two forced keys are
/// rewritten in their sections, every other line is kept as it is.
pub open spec fn merge_line(m: Merge, raw: Seq<char>) -> Merge {
    let t = trim(raw);
    if is_header(t) {
        let c = completed(m);
        let name = t.subrange(1, t.len() - 1);
        Merge {
            section: name,
            saw_general: c.saw_general || in_general(name),
            saw_directx: c.saw_directx || in_directx(name),
            out: c.out.push(raw),
            ..c
        }
    } else if in_general(m.section) && gives(t, "OutputAPI"@) {
        Merge { api: true, out: m.out.push(in_place_of(API_LINE@, raw)), ..m }
    } else if in_directx(m.section) && gives(t, "VRAM"@) {
        let n = at_least(leading_number(trim(rest(t, '=')->0)), VRAM_FLOOR as nat);
        Merge { vram: true, out: m.out.push(in_place_of(vram_line(n), raw)), ..m }
    } else if in_directx(m.section) && gives(t, "dgVoodooWatermark"@) {
        Merge { mark: true, out: m.out.push(raw), ..m }
    } else {
        Merge { out: m.out.push(raw), ..m }
    }
}

pub open spec fn merge_lines(m: Merge, ls: Seq<Seq<char>>) -> Merge
    decreases ls.len(),
{
    if ls.len() == 0 {
        m
    } else {
        merge_line(merge_lines(m, ls.drop_last()), ls.last())
    }
}

pub open spec fn general_section() -> Seq<Seq<char>> {
    seq![Seq::empty(), "[General]"@, API_LINE@]
}

pub open spec fn directx_section() -> Seq<Seq<char>> {
    seq![
        Seq::empty(),
        "[DirectX]"@,
        "VideoCard = internal3D"@,
        vram_line(VRAM_FLOOR as nat),
        MARK_LINE@,
        "Antialiasing = appdriven"@,
        "FastVideoMemoryAccess = false"@,
    ]
}

/// The last section completed, and the missing sections added.
pub open spec fn finished(m: Merge) -> Seq<Seq<char>> {
    completed(m).out + (if !m.saw_general {
        general_section()
    } else {
        Seq::empty()
    }) + (if !m.saw_directx {
        directx_section()
    } else {
        Seq::empty()
    })
}

/// A line without its line feed.
pub open spec fn bare(p: Seq<char>) -> Seq<char> {
    if p.len() > 0 && p.last() == '\n' {
        p.drop_last()
    } else {
        p
    }
}

/// The lines of a text, each as it is but for its line feed.
pub open spec fn bare_lines(s: Seq<char>) -> Seq<Seq<char>> {
    Seq::new(pieces(s).len(), |i: int| bare(pieces(s)[i]))
}

/// The lines of the merged file.
pub open spec fn merged_lines(existing: Seq<char>) -> Seq<Seq<char>> {
    finished(merge_lines(start(), bare_lines(existing)))
}

/// Lines as text, each ended by a line feed.
pub open spec fn unlines(ls: Seq<Seq<char>>) -> Seq<char> {
    flat(Seq::new(ls.len(), |i: int| ls[i].push('\n')))
}

pub open spec fn merged(existing: Seq<char>) -> Seq<char> {
    unlines(merged_lines(existing))
}

// ── the health check ───────────────────────────────────────────────

/// The heading that is open after the lines `ls`.
pub open spec fn open_heading(ls: Seq<Seq<char>>) -> Seq<char>
    decreases ls.len(),
{
    if ls.len() == 0 {
        Seq::empty()
    } else if is_header(trim(ls.last())) {
        trim(ls.last())
    } else {
        open_heading(ls.drop_last())
    }
}

/// The last `VRAM` under `[DirectX]` is at least the floor.
pub open spec fn vram_enough(ls: Seq<Seq<char>>) -> bool
    decreases ls.len(),
{
    if ls.len() == 0 {
        false
    } else {
        let t = trim(ls.last());
        if !is_header(t) && same_nocase(open_heading(ls.drop_last()), "[DirectX]"@) && gives(
            t,
            "VRAM"@,
        ) {
            leading_number(rest(t, '=')->0) >= VRAM_FLOOR
        } else {
            vram_enough(ls.drop_last())
        }
    }
}

pub open spec fn api_named(text: Seq<char>) -> bool {
    contains(lower(text), "outputapi"@) && contains(lower(text), "d3d11_fl11_0"@)
}

pub open spec fn healthy_conf(text: Seq<char>) -> bool {
    api_named(text) && vram_enough(lines(text))
}

pub proof fn lemma_unlines_push(ls: Seq<Seq<char>>, l: Seq<char>)
    ensures
        unlines(ls.push(l)) == unlines(ls) + l + seq!['\n'],
{
    let f = Seq::new(ls.len(), |i: int| ls[i].push('\n'));
    let g = Seq::new(ls.push(l).len(), |i: int| ls.push(l)[i].push('\n'));
    assert(g =~= f.push(l.push('\n')));
    lemma_flat_push(f, l.push('\n'));
    assert(flat(f) + l.push('\n') =~= unlines(ls) + l + seq!['\n']);
}

/// Appends a line.
fn put_line(out: &mut Vec<char>, l: &[char], Ghost(ls): Ghost<Seq<Seq<char>>>)
    requires
        old(out)@ == unlines(ls),
    ensures
        final(out)@ == unlines(ls.push(l@)),
{
    put(out, l);
    out.push('\n');
    proof {
        lemma_unlines_push(ls, l@);
        assert(out@ =~= unlines(ls) + l@ + seq!['\n']);
    }
}

fn put_text_line(out: &mut Vec<char>, l: &str, Ghost(ls): Ghost<Seq<Seq<char>>>)
    requires
        old(out)@ == unlines(ls),
    ensures
        final(out)@ == unlines(ls.push(l@)),
{
    put_line(out, chars(l).as_slice(), Ghost(ls));
}

fn put_forced(out: &mut Vec<char>, l: &str, raw: &[char], Ghost(ls): Ghost<Seq<Seq<char>>>)
    requires
        old(out)@ == unlines(ls),
    ensures
        final(out)@ == unlines(ls.push(in_place_of(l@, raw@))),
{
    let mut v = chars(l);
    if raw.len() > 0 && raw[raw.len() - 1] == '\r' {
        v.push('\r');
    }
    put_line(out, v.as_slice(), Ghost(ls));
}

fn bare_of(p: &[char]) -> (r: &[char])
    ensures
        r@ == bare(p@),
{
    let n: usize = p.len();
    if n > 0 && p[n - 1] == '\n' {
        let r = slice_subrange(p, 0, n - 1);
        assert(r@ =~= p@.drop_last());
        r
    } else {
        p
    }
}

fn vram_text(n: u32) -> (r: String)
    ensures
        r@ == vram_line(n as nat),
{
    let mut t = String::new();
    t.append("VRAM = ");
    push_decimal(&mut t, n as u64);
    assert(t@ =~= vram_line(n as nat));
    t
}

/// The number that a value starts with, zero where it starts with none.
fn leading_number_of(v: &[char]) -> (r: u32)
    ensures
        r == leading_number(v@),
{
    let ws = words_of(v);
    assert(rows(ws@).len() == ws@.len());
    if ws.len() > 0 {
        assert(rows(ws@)[0] == ws@[0]@);
        match parsed_unsigned(ws[0].as_slice(), u32::MAX as u64) {
            Some(n) => n as u32,
            None => 0,
        }
    } else {
        0
    }
}

fn gives_key(t: &[char], name: &str) -> (r: bool)
    ensures
        r == gives(t@, name@),
{
    rest_of(t, '=').is_some() && equal_nocase(trimmed(head_of(t, '=')), name)
}

fn header_line(t: &[char]) -> (r: bool)
    ensures
        r == is_header(t@),
{
    t.len() >= 2 && t[0] == '[' && t[t.len() - 1] == ']'
}

/// The keys that the open section still lacks, appended.
fn complete_section(
    out: &mut Vec<char>,
    general: bool,
    directx: bool,
    api: bool,
    vram: bool,
    mark: bool,
    Ghost(m): Ghost<Merge>,
)
    requires
        old(out)@ == unlines(m.out),
        general == in_general(m.section),
        directx == in_directx(m.section),
        api == m.api,
        vram == m.vram,
        mark == m.mark,
    ensures
        final(out)@ == unlines(completed(m).out),
{
    let ghost mut ls = m.out;
    if general && !api {
        put_text_line(out, API_LINE, Ghost(ls));
        proof {
            ls = ls.push(API_LINE@);
        }
    }
    if directx && !vram {
        let t = vram_text(VRAM_FLOOR);
        put_text_line(out, t.as_str(), Ghost(ls));
        proof {
            ls = ls.push(t@);
        }
    }
    if directx && !mark {
        put_text_line(out, MARK_LINE, Ghost(ls));
        proof {
            ls = ls.push(MARK_LINE@);
        }
    }
    assert(ls =~= completed(m).out);
}

/// Appends a `[General]` section.
fn put_general(out: &mut Vec<char>, Ghost(ls): Ghost<Seq<Seq<char>>>)
    requires
        old(out)@ == unlines(ls),
    ensures
        final(out)@ == unlines(ls + general_section()),
{
    let ghost l1 = ls.push(""@);
    let ghost l2 = l1.push("[General]"@);
    put_text_line(out, "", Ghost(ls));
    put_text_line(out, "[General]", Ghost(l1));
    put_text_line(out, API_LINE, Ghost(l2));
    proof {
        reveal_strlit("");
        assert(""@ =~= Seq::empty());
        assert(l2.push(API_LINE@) =~= ls + general_section());
    }
}

/// Appends a `[DirectX]` section.
fn put_directx(out: &mut Vec<char>, Ghost(ls): Ghost<Seq<Seq<char>>>)
    requires
        old(out)@ == unlines(ls),
    ensures
        final(out)@ == unlines(ls + directx_section()),
{
    let v = vram_text(VRAM_FLOOR);
    let ghost l1 = ls.push(""@);
    let ghost l2 = l1.push("[DirectX]"@);
    let ghost l3 = l2.push("VideoCard = internal3D"@);
    let ghost l4 = l3.push(v@);
    let ghost l5 = l4.push(MARK_LINE@);
    let ghost l6 = l5.push("Antialiasing = appdriven"@);
    put_text_line(out, "", Ghost(ls));
    put_text_line(out, "[DirectX]", Ghost(l1));
    put_text_line(out, "VideoCard = internal3D", Ghost(l2));
    put_text_line(out, v.as_str(), Ghost(l3));
    put_text_line(out, MARK_LINE, Ghost(l4));
    put_text_line(out, "Antialiasing = appdriven", Ghost(l5));
    put_text_line(out, "FastVideoMemoryAccess = false", Ghost(l6));
    proof {
        reveal_strlit("");
        assert(""@ =~= Seq::empty());
        assert(l6.push("FastVideoMemoryAccess = false"@) =~= ls + directx_section());
    }
}

/// Parse a loose dgVoodoo-style INI and ensure Feeder-safe keys without wiping CPL settings.
/// - Force `OutputAPI = d3d11_fl11_0` under `[General]`
/// - Floor `VRAM` under `[DirectX]` to at least [`VRAM_FLOOR`]
/// - Create missing sections/keys; leave every other line untouched
pub fn merge_dgvoodoo_conf(existing: &str) -> (r: String)
    ensures
        r@ == merged(existing@),
{
    let text = chars(existing);
    let ps = cut(text.as_slice());
    let ghost all = bare_lines(existing@);
    let ghost mut m = start();
    let mut out: Vec<char> = Vec::new();
    let mut section: Vec<char> = Vec::new();
    let mut saw_general = false;
    let mut saw_directx = false;
    let mut api = false;
    let mut vram = false;
    let mut mark = false;
    let mut i: usize = 0;
    proof {
        assert(all.take(0) =~= Seq::empty());
        assert(Seq::new(0, |i: int| m.out[i].push('\n')) =~= Seq::<Seq<char>>::empty());
        assert(out@ =~= unlines(m.out));
        assert(section@ =~= m.section);
    }
    while i < ps.len()
        invariant
            i <= ps@.len(),
            rows(ps@) == pieces(existing@),
            all == bare_lines(existing@),
            m == merge_lines(start(), all.take(i as int)),
            out@ == unlines(m.out),
            section@ == m.section,
            saw_general == m.saw_general,
            saw_directx == m.saw_directx,
            api == m.api,
            vram == m.vram,
            mark == m.mark,
        decreases ps@.len() - i,
    {
        let raw = bare_of(ps[i].as_slice());
        let t = trimmed(raw);
        let general = equal_nocase(section.as_slice(), "General");
        let directx = equal_nocase(section.as_slice(), "DirectX");
        proof {
            assert(rows(ps@)[i as int] == ps@[i as int]@);
            assert(all.take(i + 1).drop_last() =~= all.take(i as int));
            assert(all.take(i + 1).last() == raw@);
        }
        if header_line(t) {
            // Flush required keys before leaving a section.
            complete_section(&mut out, general, directx, api, vram, mark, Ghost(m));
            put_line(&mut out, raw, Ghost(completed(m).out));
            api = api || general;
            vram = vram || directx;
            mark = mark || directx;
            section = copied(slice_subrange(t, 1, t.len() - 1));
            saw_general = saw_general || equal_nocase(section.as_slice(), "General");
            saw_directx = saw_directx || equal_nocase(section.as_slice(), "DirectX");
        } else if general && gives_key(t, "OutputAPI") {
            put_forced(&mut out, API_LINE, raw, Ghost(m.out));
            api = true;
        } else if directx && gives_key(t, "VRAM") {
            let cur: u32 = match rest_of(t, '=') {
                Some(v) => leading_number_of(trimmed(v)),
                None => 0,
            };
            let floor: u32 = if cur < VRAM_FLOOR {
                VRAM_FLOOR
            } else {
                cur
            };
            let v = vram_text(floor);
            put_forced(&mut out, v.as_str(), raw, Ghost(m.out));
            vram = true;
        } else if directx && gives_key(t, "dgVoodooWatermark") {
            put_line(&mut out, raw, Ghost(m.out));
            mark = true;
        } else {
            put_line(&mut out, raw, Ghost(m.out));
        }
        proof {
            m = merge_line(m, raw@);
        }
        i = i + 1;
    }
    assert(all.take(all.len() as int) =~= all);
    let general = equal_nocase(section.as_slice(), "General");
    let directx = equal_nocase(section.as_slice(), "DirectX");
    complete_section(&mut out, general, directx, api, vram, mark, Ghost(m));
    let ghost mut done = completed(m).out;
    if !saw_general {
        put_general(&mut out, Ghost(done));
        proof {
            done = done + general_section();
        }
    } else {
        assert(done + Seq::empty() =~= done);
    }
    if !saw_directx {
        put_directx(&mut out, Ghost(done));
        proof {
            done = done + directx_section();
        }
    } else {
        assert(done + Seq::empty() =~= done);
    }
    assert(done == finished(m));
    string(out.as_slice())
}

pub const API_MUST_EN: &'static str =
    "dgVoodoo.conf health check failed: OutputAPI must be d3d11_fl11_0";

pub const API_MUST_ZH: &'static str = "dgVoodoo.conf 健康检查失败：OutputAPI 必须为 d3d11_fl11_0";

pub const VRAM_MUST_EN: &'static str = "dgVoodoo.conf health check failed: VRAM must be >= 4096";

pub const VRAM_MUST_ZH: &'static str = "dgVoodoo.conf 健康检查失败：VRAM 必须 >= 4096";

/// The last `VRAM` under `[DirectX]` is at least the floor.
fn enough_vram(text: &[char]) -> (r: bool)
    ensures
        r == vram_enough(lines(text@)),
{
    let ls = lines_of(text);
    let ghost all = lines(text@);
    let mut enough = false;
    let mut heading: Vec<char> = Vec::new();
    let mut i: usize = 0;
    assert(all.take(0) =~= Seq::empty());
    assert(heading@ =~= Seq::empty());
    while i < ls.len()
        invariant
            i <= ls@.len(),
            rows(ls@) == all,
            heading@ == open_heading(all.take(i as int)),
            enough == vram_enough(all.take(i as int)),
        decreases ls@.len() - i,
    {
        let t = trimmed(ls[i].as_slice());
        proof {
            assert(rows(ls@)[i as int] == ls@[i as int]@);
            assert(all.take(i + 1).drop_last() =~= all.take(i as int));
            assert(all.take(i + 1).last() == ls@[i as int]@);
        }
        if header_line(t) {
            heading = copied(t);
        } else if equal_nocase(heading.as_slice(), "[DirectX]") && gives_key(t, "VRAM") {
            let n: u32 = match rest_of(t, '=') {
                Some(v) => leading_number_of(v),
                None => 0,
            };
            enough = n >= VRAM_FLOOR;
        }
        i = i + 1;
    }
    assert(all.take(all.len() as int) =~= all);
    enough
}

/// Refuses a file that names no D3D11 output or too little VRAM.
pub fn assert_dgvoodoo_conf_healthy(l: Lang, text: &str) -> (r: Result<(), String>)
    ensures
        r is Ok <==> healthy_conf(text@),
        r matches Err(e) ==> e@ == if !api_named(text@) {
            say(l, API_MUST_EN@, API_MUST_ZH@)
        } else {
            say(l, VRAM_MUST_EN@, VRAM_MUST_ZH@)
        },
{
    let cs = chars(text);
    let low = lowered(cs.as_slice());
    if !holds(low.as_slice(), "outputapi") || !holds(low.as_slice(), "d3d11_fl11_0") {
        return Err(tr(l, API_MUST_EN, API_MUST_ZH).to_owned());
    }
    if !enough_vram(cs.as_slice()) {
        return Err(tr(l, VRAM_MUST_EN, VRAM_MUST_ZH).to_owned());
    }
    Ok(())
}

/// What is written for a `dgVoodoo.conf`: a copy of the file as it was, where
/// there is one and none was kept before, and the new text.
#[derive(Debug)]
pub struct ConfWrite {
    pub backup: Option<String>,
    pub text: String,
}

/// The text that `dgVoodoo.conf` gets.
pub open spec fn conf_text(existing: Option<&str>) -> Seq<char> {
    match existing {
        Some(t) => merged(t@),
        None => CONF_TEMPLATE@,
    }
}

/// The copy that is kept of a `dgVoodoo.conf` before it is edited.
pub open spec fn conf_backup(existing: Option<Seq<char>>, backup_there: bool) -> Option<Seq<char>> {
    match existing {
        Some(t) => if backup_there {
            None
        } else {
            Some(t)
        },
        None => None,
    }
}

/// Smart-merge (or create) `dgVoodoo.conf`: force OutputAPI, floor VRAM, preserve the rest.
/// `dgVoodoo.conf.bak` is written once, before the first edit of an existing file.
///
/// The text is always healthy, so this never fails.
pub fn write_dgvoodoo_conf(l: Lang, existing: Option<&str>, backup_there: bool) -> (r: Result<
    ConfWrite,
    String,
>)
    ensures
        r is Ok,
        r matches Ok(w) ==> w.text@ == conf_text(existing) && healthy_conf(w.text@) && opt_text(
            w.backup,
        ) == match existing {
            Some(t) => if backup_there {
                None
            } else {
                Some(t@)
            },
            None => None,
        },
        r matches Ok(w) ==> opt_text(w.backup) == conf_backup(opt_str(existing), backup_there),
{
    let (backup, text) = match existing {
        Some(t) => {
            proof {
                law_merged_is_healthy(t@);
            }
            let kept = if backup_there {
                None
            } else {
                Some(t.to_owned())
            };
            (kept, merge_dgvoodoo_conf(t))
        },
        None => {
            proof {
                law_template_is_healthy();
            }
            (None, CONF_TEMPLATE.to_owned())
        },
    };
    match assert_dgvoodoo_conf_healthy(l, text.as_str()) {
        Ok(_) => Ok(ConfWrite { backup, text }),
        Err(e) => Err(e),
    }
}

// ── the DLL ────────────────────────────────────────────────────────

/// Official dgVoodoo 2.87.3 release zip (not bundled — downloaded into the game
/// folder at Install time). License allows shipping individual DLLs with a
/// game; forbids bundling inside launchers for general multi-app use.
pub const DGVOODOO_TAG: &'static str = "v2.87.3";

pub const DGVOODOO_ZIP: &'static str =
    "https://github.com/dege-diosg/dgVoodoo2/releases/download/v2.87.3/dgVoodoo2_87_3.zip";

/// Zip members for D3D9 (32-bit Gothic-class vs rare 64-bit DX9).
pub const MEMBER_X86: &'static str = "MS/x86/D3D9.dll";

pub const MEMBER_X64: &'static str = "MS/x64/D3D9.dll";

pub open spec fn wanted_member(bitness: u8) -> Seq<char> {
    if bitness == 64 {
        MEMBER_X64@
    } else {
        MEMBER_X86@
    }
}

/// The member of the zip is the DLL: at the root of the archive, or below a
/// folder.
pub open spec fn is_member(name: Seq<char>, bitness: u8) -> bool {
    ||| same_nocase(slashed(name), wanted_member(bitness))
    ||| bitness != 64 && ends_with(lower(slashed(name)), "/ms/x86/d3d9.dll"@)
    ||| bitness == 64 && ends_with(lower(slashed(name)), "/ms/x64/d3d9.dll"@)
}

pub open spec fn first_member(names: Seq<Seq<char>>, bitness: u8) -> Option<Seq<char>> {
    first_line(names, |n: Seq<char>| is_member(n, bitness))
}

pub fn dgvoodoo_d3d9_member(bitness: u8) -> (r: &'static str)
    ensures
        r@ == wanted_member(bitness),
{
    if bitness == 64 {
        MEMBER_X64
    } else {
        MEMBER_X86
    }
}

fn member(name: &str, bitness: u8) -> (r: bool)
    ensures
        r == is_member(name@, bitness),
{
    let cs = chars(name);
    let norm = replaced_char(cs.as_slice(), '\\', '/');
    let low = lowered(norm.as_slice());
    equal_nocase(norm.as_slice(), dgvoodoo_d3d9_member(bitness)) || (bitness != 64 && ends(
        low.as_slice(),
        "/ms/x86/d3d9.dll",
    )) || (bitness == 64 && ends(low.as_slice(), "/ms/x64/d3d9.dll"))
}

pub const NO_MEMBER_EN: &'static str =
    "dgVoodoo zip does not contain {} — unexpected release layout";

pub const NO_MEMBER_ZH: &'static str = "dgVoodoo zip 中没有 {} —— 发布布局异常";

pub const FOREIGN_D3D9_EN: &'static str =
    "a d3d9.dll that is not dgVoodoo is already present; remove or replace it, then Install again";

pub const FOREIGN_D3D9_ZH: &'static str =
    "已存在不属于 dgVoodoo 的 d3d9.dll；请移除或替换它，然后重新安装";

pub const UNDETECTED_EN: &'static str =
    "wrote d3d9.dll + dgVoodoo.conf but dgVoodoo was not detected afterward";

pub const UNDETECTED_ZH: &'static str =
    "已写入 d3d9.dll + dgVoodoo.conf，但之后未检测到 dgVoodoo";

/// The member of the release zip to extract as `d3d9.dll`. `d3d9_there` tells
/// that the game folder has a file of that name, `dgvoodoo_there` that it is
/// dgVoodoo's; a foreign wrapper is never overwritten.
pub fn dgvoodoo_member(
    l: Lang,
    names: &Vec<String>,
    bitness: u8,
    d3d9_there: bool,
    dgvoodoo_there: bool,
) -> (r: Result<String, String>)
    ensures
        r is Ok <==> first_member(texts(names@), bitness) is Some && !(d3d9_there
            && !dgvoodoo_there),
        r matches Ok(m) ==> first_member(texts(names@), bitness) == Some(m@),
        r matches Err(e) ==> e@ == if first_member(texts(names@), bitness) is None {
            fill(say(l, NO_MEMBER_EN@, NO_MEMBER_ZH@), seq![wanted_member(bitness)])
        } else {
            say(l, FOREIGN_D3D9_EN@, FOREIGN_D3D9_ZH@)
        },
{
    let ghost all = texts(names@);
    let ghost f = |n: Seq<char>| is_member(n, bitness);
    let mut i: usize = 0;
    assert(all.take(0) =~= Seq::empty());
    while i < names.len()
        invariant
            i <= names@.len(),
            all == texts(names@),
            f == (|n: Seq<char>| is_member(n, bitness)),
            first_line(all.take(i as int), f) is None,
        decreases names@.len() - i,
    {
        proof {
            assert(all.take(i + 1).drop_last() =~= all.take(i as int));
            assert(all.take(i + 1).last() == names@[i as int]@);
        }
        if member(names[i].as_str(), bitness) {
            proof {
                lemma_first_line(all, f, i + 1);
            }
            if d3d9_there && !dgvoodoo_there {
                return Err(said(l, FOREIGN_D3D9_EN, FOREIGN_D3D9_ZH));
            }
            return Ok(names[i].as_str().to_owned());
        }
        i = i + 1;
    }
    assert(all.take(all.len() as int) =~= all);
    Err(fill1(tr(l, NO_MEMBER_EN, NO_MEMBER_ZH), dgvoodoo_d3d9_member(bitness)))
}

pub const NOT_ZIP_EN: &'static str = "dgVoodoo download is not a valid zip";

pub const NOT_ZIP_ZH: &'static str = "dgVoodoo 下载内容不是有效的 zip";

/// Why a release cannot be installed, if it cannot.
pub open spec fn dgvoodoo_refusal(
    l: Lang,
    archive: Seq<u8>,
    bitness: u8,
    foreign: bool,
) -> Option<Seq<char>> {
    match zip_names(archive) {
        None => Some(say(l, NOT_ZIP_EN@, NOT_ZIP_ZH@)),
        Some(names) => if first_member(names, bitness) is None {
            Some(fill(say(l, NO_MEMBER_EN@, NO_MEMBER_ZH@), seq![wanted_member(bitness)]))
        } else if foreign {
            Some(say(l, FOREIGN_D3D9_EN@, FOREIGN_D3D9_ZH@))
        } else {
            None
        },
    }
}

/// Extracts the DLL of the game's bitness from the release zip as `d3d9.dll`;
/// the conf is merged after it, by [`write_dgvoodoo_conf`].
pub fn install_dgvoodoo_from_zip(
    l: Lang,
    archive: &[u8],
    bitness: u8,
    d3d9_there: bool,
    dgvoodoo_there: bool,
) -> (r: Result<Unpacked, String>)
    ensures
        ({
            let refusal = dgvoodoo_refusal(l, archive@, bitness, d3d9_there && !dgvoodoo_there);
            &&& r is Ok <==> refusal is None
            &&& r matches Ok(u) ==> u@ == unpacked(
                archive@,
                seq![
                    ExtractView {
                        member: first_member(zip_names(archive@)->0, bitness)->0,
                        dest: "d3d9.dll"@,
                    },
                ],
            )
            &&& r matches Err(e) ==> refusal == Some(e@)
        }),
{
    let names = match members(archive, tr(l, NOT_ZIP_EN, NOT_ZIP_ZH)) {
        Ok(v) => v,
        Err(e) => {
            return Err(e);
        },
    };
    match dgvoodoo_member(l, &names, bitness, d3d9_there, dgvoodoo_there) {
        Ok(m) => Ok(unpack_one(archive, m, "d3d9.dll")),
        Err(e) => Err(e),
    }
}

/// What to report once the DLL and the conf are written, which must then be
/// detected as dgVoodoo.
pub fn dgvoodoo_installed(l: Lang, detected: bool) -> (r: Result<Vec<String>, String>)
    ensures
        r is Ok <==> detected,
        r matches Ok(v) ==> texts(v@) == seq!["d3d9.dll"@, "dgVoodoo.conf"@],
        r matches Err(e) ==> e@ == say(l, UNDETECTED_EN@, UNDETECTED_ZH@),
{
    if !detected {
        return Err(said(l, UNDETECTED_EN, UNDETECTED_ZH));
    }
    let v: Vec<String> = vec!["d3d9.dll".to_owned(), "dgVoodoo.conf".to_owned()];
    assert(texts(v@) =~= seq!["d3d9.dll"@, "dgVoodoo.conf"@]);
    Ok(v)
}

/// What the dgVoodoo step does: merge the conf of the copy that is there, or
/// fetch a copy.
#[derive(Debug, Clone, Copy, PartialEq, Eq, Structural)]
pub enum DgVoodooStep {
    MergeConf,
    Download,
}

pub const FOREIGN_STEP_EN: &'static str =
    "a d3d9.dll that is not dgVoodoo is already present; remove or replace it with \
                 dgVoodoo 2.87.3 ({}), then Install again";

pub const FOREIGN_STEP_ZH: &'static str =
    "已存在不属于 dgVoodoo 的 d3d9.dll；请移除它，或用 dgVoodoo 2.87.3（{}）替换，然后重新安装";

pub const CONF_MERGED_EN: &'static str = "dgVoodoo.conf (OutputAPI/VRAM merged)";

pub const CONF_MERGED_ZH: &'static str = "dgVoodoo.conf（已合并 OutputAPI/VRAM）";

/// What the step does; `None` where it is refused.
pub open spec fn dgvoodoo_action(dgvoodoo_there: bool, d3d9_there: bool) -> Option<DgVoodooStep> {
    if dgvoodoo_there {
        Some(DgVoodooStep::MergeConf)
    } else if d3d9_there {
        None
    } else {
        Some(DgVoodooStep::Download)
    }
}

/// `d3d9.dll.off` (an old ReShade) is never taken for dgVoodoo: what is there
/// is dgVoodoo, or a foreign `d3d9.dll`, or nothing.
pub fn step_dgvoodoo(l: Lang, bitness: u8, dgvoodoo_there: bool, d3d9_there: bool) -> (r:
    Result<DgVoodooStep, String>)
    ensures
        r is Err <==> !dgvoodoo_there && d3d9_there,
        r matches Err(e) ==> e@ == fill(
            say(l, FOREIGN_STEP_EN@, FOREIGN_STEP_ZH@),
            seq![wanted_member(bitness)],
        ),
        r matches Ok(s) ==> s == if dgvoodoo_there {
            DgVoodooStep::MergeConf
        } else {
            DgVoodooStep::Download
        },
        match r {
            Ok(s) => dgvoodoo_action(dgvoodoo_there, d3d9_there) == Some(s),
            Err(_) => dgvoodoo_action(dgvoodoo_there, d3d9_there) is None,
        },
{
    if dgvoodoo_there {
        Ok(DgVoodooStep::MergeConf)
    } else if d3d9_there {
        Err(fill1(tr(l, FOREIGN_STEP_EN, FOREIGN_STEP_ZH), dgvoodoo_d3d9_member(bitness)))
    } else {
        Ok(DgVoodooStep::Download)
    }
}

/// What to report once the conf of a copy that was there is merged.
pub fn conf_merged(l: Lang) -> (r: &'static str)
    ensures
        r@ == say(l, CONF_MERGED_EN@, CONF_MERGED_ZH@),
{
    tr(l, CONF_MERGED_EN, CONF_MERGED_ZH)
}

} // verus!
