//! What the system says about NGX, without creating a device.
//!
//! NGX Core ships with the NVIDIA driver ("during an advanced driver
//! installation the module is called NGX Core", NVIDIA's NGX Programming
//! Guide) and registers itself at
//! `HKLM\SOFTWARE\NVIDIA Corporation\Global\NGXCore` with `Installed` and
//! `FullPath`. When it is absent, `NVSDK_NGX_D3D12_Init` answers
//! `0xBAD00001` (FeatureNotSupported) on hardware that is otherwise fine.
use vstd::prelude::*;
use vstd::slice::slice_subrange;
use crate::lang::{say, tr, Lang};
use crate::message::{fill, fill1, lemma_fill_one, lemma_fill_some, said};
use crate::number::{decimal, lemma_decimal_reads_back, parse_unsigned, parsed_unsigned};
use crate::outside::utf16_text;
use crate::text::{
    chars, contains, head, head_of, holds, is_digit, lemma_position_is, occurs_at, opt_text, rest,
    rest_of, starts_with, string, trim, trim_end_of, trimmed, trimmed_end_of, upper, upper_char,
    uppered,
};

verus! {

/// `(installed, full path)` from the NGX Core registry key.
#[derive(Debug, Clone, PartialEq, Eq)]
pub struct NgxCore {
    pub installed: bool,
    pub path: String,
}

/// The characters of a registry string: the size counts bytes and the
/// terminating zero.
pub open spec fn value_units(size: nat, capacity: nat) -> nat {
    let n = if size / 2 > 0 {
        (size / 2 - 1) as nat
    } else {
        0
    };
    if n < capacity {
        n
    } else {
        capacity
    }
}

/// The text in a buffer that `FullPath` was read into.
pub open spec fn value_text(buf: Seq<u16>, size: nat) -> Seq<char> {
    trim_end_of(utf16_text(buf.take(value_units(size, buf.len()) as int)), '\0', '\0')
}

/// NGX Core is registered as installed: the number is one.
pub open spec fn flag_installed(flag: Option<u32>) -> bool {
    flag == Some(1u32)
}

/// NGX Core as the registry has it, from what the two reads gave: for
/// `FullPath` the buffer and the size in bytes, for `Installed` the number.
/// Each is `None` where its read failed.
pub fn ngx_core(full_path: Option<(Vec<u16>, u32)>, flag: Option<u32>) -> (r: Option<NgxCore>)
    ensures
        r is Some <==> full_path is Some,
        r matches Some(c) ==> c.installed == (flag == Some(1u32)) && c.path@ == value_text(
            (full_path->0).0@,
            (full_path->0).1 as nat,
        ),
        r matches Some(c) ==> c.installed == flag_installed(flag),
{
    match full_path {
        None => None,
        Some((buf, size)) => {
            let cap: usize = buf.len();
            let half: usize = (size / 2) as usize;
            let n: usize = if half == 0 {
                0
            } else if half - 1 < cap {
                half - 1
            } else {
                cap
            };
            let units = slice_subrange(buf.as_slice(), 0, n);
            assert(units@ =~= buf@.take(n as int));
            let text = String::from_utf16_lossy(units);
            let cs = chars(text.as_str());
            let path = string(trimmed_end_of(cs.as_slice(), '\0', '\0'));
            let installed = match flag {
                Some(f) => f == 1,
                None => false,
            };
            Some(NgxCore { installed, path })
        },
    }
}

/// What the system says: the driver's number, the registry key, and whether
/// the folder that it names is there.
#[derive(Debug, Clone)]
pub struct NgxSystem {
    pub driver: Option<String>,
    pub core: Option<NgxCore>,
    pub core_folder: bool,
}

/// `a.b` as two numbers.
pub open spec fn driver_key(v: Seq<char>) -> Option<(nat, nat)> {
    match rest(v, '.') {
        Some(b) => match (
            parse_unsigned(head(v, '.'), u32::MAX as nat),
            parse_unsigned(b, u32::MAX as nat),
        ) {
            (Some(x), Some(y)) => Some((x, y)),
            _ => None,
        },
        None => None,
    }
}

/// The oldest driver that the neural runtime takes: 616.56.
pub open spec fn new_enough(k: (nat, nat)) -> bool {
    k.0 > 616 || k.0 == 616 && k.1 >= 56
}

pub open spec fn ngx_healthy(s: NgxSystem) -> bool {
    &&& s.core is Some && s.core->0.installed && s.core_folder
    &&& s.driver is Some && driver_key(s.driver->0@) is Some && new_enough(
        driver_key(s.driver->0@)->0,
    )
}

/// A driver number as two numbers, to be ordered by.
pub fn version_key(v: &str) -> (r: Option<(u32, u32)>)
    ensures
        match r {
            Some(k) => driver_key(v@) == Some((k.0 as nat, k.1 as nat)),
            None => driver_key(v@) is None,
        },
{
    let cs = chars(v);
    let b = match rest_of(cs.as_slice(), '.') {
        Some(b) => b,
        None => {
            return None;
        },
    };
    match (
        parsed_unsigned(head_of(cs.as_slice(), '.'), u32::MAX as u64),
        parsed_unsigned(b, u32::MAX as u64),
    ) {
        (Some(x), Some(y)) => Some((x as u32, y as u32)),
        _ => None,
    }
}

/// NGX Core registered, its folder present, and the driver at or past the
/// version the neural runtime needs (616.56, the minimum OptiScaler's fork
/// documents for DLSS-NR). When this is true, an NGX init failure is not the
/// system's NGX being absent.
pub fn healthy(s: &NgxSystem) -> (r: bool)
    ensures
        r == ngx_healthy(*s),
{
    let core_ok = match &s.core {
        Some(c) => c.installed && s.core_folder,
        None => false,
    };
    let driver_ok = match &s.driver {
        Some(v) => match version_key(v.as_str()) {
            Some((a, b)) => a > 616 || a == 616 && b >= 56,
            None => false,
        },
        None => false,
    };
    core_ok && driver_ok
}

pub const DRIVER_EN: &'static str = "NVIDIA driver {}; ";

pub const DRIVER_ZH: &'static str = "NVIDIA 驱动 {}；";

pub const CORE_OK_EN: &'static str = "NGX Core installed ({})";

pub const CORE_OK_ZH: &'static str = "NGX Core 已安装（{}）";

pub const CORE_GONE_EN: &'static str =
    "NGX Core registered but its folder is missing: {} — reinstall the NVIDIA driver \
             (Custom install, keep every component)";

pub const CORE_GONE_ZH: &'static str =
    "NGX Core 已注册但其文件夹缺失：{} —— 请重新安装 NVIDIA 驱动（自定义安装，保留所有组件）";

pub const CORE_OFF_EN: &'static str =
    "NGX Core is registered as NOT installed — reinstall the NVIDIA driver \
             (Custom install, keep every component; NVCleanstall and \"minimal\" installs drop it)";

pub const CORE_OFF_ZH: &'static str =
    "NGX Core 注册为未安装 —— 请重新安装 NVIDIA 驱动（自定义安装，保留所有组件；NVCleanstall 和「最小」安装会丢弃它）";

pub const CORE_NONE_EN: &'static str =
    "NGX Core is not registered on this system (no HKLM\\SOFTWARE\\NVIDIA \
             Corporation\\Global\\NGXCore) — the NVIDIA driver was installed without it, so no \
             DLSS-based tool can start. Reinstall the driver with a Custom install and keep \
             every component.";

pub const CORE_NONE_ZH: &'static str =
    "此系统未注册 NGX Core（没有 HKLM\\SOFTWARE\\NVIDIA Corporation\\Global\\NGXCore）—— NVIDIA 驱动在安装时没有包含它，因此任何基于 DLSS 的工具都无法启动。请用自定义安装重装驱动并保留所有组件。";

/// The state of NGX Core in words.
pub open spec fn core_text(l: Lang, s: NgxSystem) -> Seq<char> {
    match s.core {
        Some(c) => if c.installed && s.core_folder {
            fill(say(l, CORE_OK_EN@, CORE_OK_ZH@), seq![c.path@])
        } else if c.installed {
            fill(say(l, CORE_GONE_EN@, CORE_GONE_ZH@), seq![c.path@])
        } else {
            say(l, CORE_OFF_EN@, CORE_OFF_ZH@)
        },
        None => say(l, CORE_NONE_EN@, CORE_NONE_ZH@),
    }
}

pub open spec fn system_text(l: Lang, s: NgxSystem) -> Seq<char> {
    (match s.driver {
        Some(v) => fill(say(l, DRIVER_EN@, DRIVER_ZH@), seq![v@]),
        None => Seq::empty(),
    }) + core_text(l, s)
}

/// One line for a report: driver number, NGX Core state and where it points.
pub fn describe(l: Lang, s: &NgxSystem) -> (r: String)
    ensures
        r@ == system_text(l, *s),
{
    let mut out = match &s.driver {
        Some(v) => fill1(tr(l, DRIVER_EN, DRIVER_ZH), v.as_str()),
        None => String::new(),
    };
    let core = describe_core(l, s);
    out.append(core.as_str());
    assert(out@ =~= system_text(l, *s));
    out
}

/// The state of NGX Core in words.
pub fn describe_core(l: Lang, s: &NgxSystem) -> (r: String)
    ensures
        r@ == core_text(l, *s),
{
    match &s.core {
        Some(c) => if c.installed && s.core_folder {
            fill1(tr(l, CORE_OK_EN, CORE_OK_ZH), c.path.as_str())
        } else if c.installed {
            fill1(tr(l, CORE_GONE_EN, CORE_GONE_ZH), c.path.as_str())
        } else {
            said(l, CORE_OFF_EN, CORE_OFF_ZH)
        },
        None => said(l, CORE_NONE_EN, CORE_NONE_ZH),
    }
}

// ── which neural model is installed ────────────────────────────────

/// A version string as the version resource holds it.
pub open spec fn version_text(units: Seq<u16>) -> Seq<char> {
    trim(trim_end_of(utf16_text(units), '\0', '\0'))
}

/// The first block that gives a version.
pub open spec fn first_version(blocks: Seq<Option<Vec<u16>>>) -> Option<Seq<char>>
    decreases blocks.len(),
{
    if blocks.len() == 0 {
        None
    } else {
        match first_version(blocks.drop_last()) {
            Some(v) => Some(v),
            None => match blocks.last() {
                Some(units) => if version_text(units@).len() > 0 {
                    Some(version_text(units@))
                } else {
                    None
                },
                None => None,
            },
        }
    }
}

/// The DLSS 5 model's own version string, e.g. `310.8.0.0` for NVIDIA's build
/// and `310.8.SF.0` for ShortFuse's repack, from the blocks of the file's
/// version resource in the order they were asked for. A block that the file
/// does not have is `None`.
pub fn file_version(blocks: &Vec<Option<Vec<u16>>>) -> (r: Option<String>)
    ensures
        opt_text(r) == first_version(blocks@),
{
    let mut i: usize = 0;
    assert(blocks@.take(0) =~= Seq::empty());
    while i < blocks.len()
        invariant
            i <= blocks@.len(),
            first_version(blocks@.take(i as int)) is None,
        decreases blocks@.len() - i,
    {
        proof {
            assert(blocks@.take(i + 1).drop_last() =~= blocks@.take(i as int));
            assert(blocks@.take(i + 1).last() == blocks@[i as int]);
        }
        match &blocks[i] {
            Some(units) => {
                let text = String::from_utf16_lossy(units.as_slice());
                let cs = chars(text.as_str());
                let v = trimmed(trimmed_end_of(cs.as_slice(), '\0', '\0'));
                if v.len() > 0 {
                    proof {
                        lemma_first_version(blocks@, i + 1);
                    }
                    return Some(string(v));
                }
            },
            None => {},
        }
        i = i + 1;
    }
    assert(blocks@.take(blocks@.len() as int) =~= blocks@);
    None
}

proof fn lemma_first_version(blocks: Seq<Option<Vec<u16>>>, k: int)
    requires
        0 <= k <= blocks.len(),
        first_version(blocks.take(k)) is Some,
    ensures
        first_version(blocks) == first_version(blocks.take(k)),
    decreases blocks.len() - k,
{
    if k < blocks.len() {
        assert(blocks.take(k + 1).drop_last() =~= blocks.take(k));
        lemma_first_version(blocks, k + 1);
    } else {
        assert(blocks.take(k) =~= blocks);
    }
}

pub const SF_EN: &'static str = "ShortFuse .SF build (adds Ada/Turing paths)";

pub const SF_ZH: &'static str = "ShortFuse .SF 版本（新增 Ada/Turing 路径）";

pub const NV_EN: &'static str = "NVIDIA original build";

pub const NV_ZH: &'static str = "NVIDIA 原版";

pub open spec fn build_text(l: Lang, version: Seq<char>) -> Seq<char> {
    if contains(upper(version), ".SF"@) {
        say(l, SF_EN@, SF_ZH@)
    } else {
        say(l, NV_EN@, NV_ZH@)
    }
}

/// How that version string reads to a user: ShortFuse's multi-generation build
/// or NVIDIA's original.
pub fn model_build(l: Lang, version: &str) -> (r: &'static str)
    ensures
        r@ == build_text(l, version@),
{
    let cs = chars(version);
    let up = uppered(cs.as_slice());
    if holds(up.as_slice(), ".SF") {
        tr(l, SF_EN, SF_ZH)
    } else {
        tr(l, NV_EN, NV_ZH)
    }
}

// ── laws ───────────────────────────────────────────────────────────

/// The report line always says something, whatever the system answers.
pub proof fn law_describe_says_something(l: Lang, s: NgxSystem)
    ensures
        system_text(l, s).len() > 0,
{
    reveal_strlit("NGX Core installed ({})");
    reveal_strlit("NGX Core 已安装（{}）");
    lemma_core_literals();
    if let Some(c) = s.core {
        lemma_fill_some(CORE_OK_EN@, seq![c.path@]);
        lemma_fill_some(CORE_OK_ZH@, seq![c.path@]);
        lemma_fill_some(CORE_GONE_EN@, seq![c.path@]);
        lemma_fill_some(CORE_GONE_ZH@, seq![c.path@]);
    }
}

proof fn lemma_core_literals()
    ensures
        CORE_GONE_EN@.len() > 0 && CORE_GONE_EN@[0] != '{',
        CORE_GONE_ZH@.len() > 0 && CORE_GONE_ZH@[0] != '{',
        CORE_OFF_EN@.len() > 0,
        CORE_OFF_ZH@.len() > 0,
        CORE_NONE_EN@.len() > 0,
        CORE_NONE_ZH@.len() > 0,
{
    reveal_strlit(
        "NGX Core registered but its folder is missing: {} — reinstall the NVIDIA driver \
             (Custom install, keep every component)",
    );
    reveal_strlit(
        "NGX Core 已注册但其文件夹缺失：{} —— 请重新安装 NVIDIA 驱动（自定义安装，保留所有组件）",
    );
    reveal_strlit(
        "NGX Core is registered as NOT installed — reinstall the NVIDIA driver \
             (Custom install, keep every component; NVCleanstall and \"minimal\" installs drop it)",
    );
    reveal_strlit(
        "NGX Core 注册为未安装 —— 请重新安装 NVIDIA 驱动（自定义安装，保留所有组件；NVCleanstall 和「最小」安装会丢弃它）",
    );
    reveal_strlit(
        "NGX Core is not registered on this system (no HKLM\\SOFTWARE\\NVIDIA \
             Corporation\\Global\\NGXCore) — the NVIDIA driver was installed without it, so no \
             DLSS-based tool can start. Reinstall the driver with a Custom install and keep \
             every component.",
    );
    reveal_strlit(
        "此系统未注册 NGX Core（没有 HKLM\\SOFTWARE\\NVIDIA Corporation\\Global\\NGXCore）—— NVIDIA 驱动在安装时没有包含它，因此任何基于 DLSS 的工具都无法启动。请用自定义安装重装驱动并保留所有组件。",
    );
}

/// A driver number, two numbers with a point between them, reads as these.
proof fn lemma_driver_key(v: Seq<char>, a: nat, b: nat)
    requires
        a <= u32::MAX,
        b <= u32::MAX,
        v == decimal(a) + seq!['.'] + decimal(b),
    ensures
        driver_key(v) == Some((a, b)),
{
    let x = decimal(a);
    let y = decimal(b);
    lemma_decimal_reads_back(a);
    lemma_decimal_reads_back(b);
    assert forall|j: int| 0 <= j < x.len() implies v[j] != '.' by {
        assert(v[j] == x[j]);
        assert(is_digit(x[j]));
    }
    assert(v[x.len() as int] == '.');
    lemma_position_is(v, '.', x.len() as int);
    assert(head(v, '.') =~= x);
    assert(rest(v, '.')->0 =~= y);
    assert(is_digit(x[0]) && is_digit(y[0]));
}

/// NGX is in order exactly where NGX Core is registered as installed, its folder
/// is there and the driver is 616.56 or newer.
pub proof fn law_healthy_needs_core_and_driver(s: NgxSystem, a: nat, b: nat)
    requires
        a <= u32::MAX,
        b <= u32::MAX,
        s.driver matches Some(v) ==> v@ == decimal(a) + seq!['.'] + decimal(b),
    ensures
        ngx_healthy(s) <==> {
            &&& s.core is Some
            &&& s.core->0.installed
            &&& s.core_folder
            &&& s.driver is Some
            &&& a > 616 || a == 616 && b >= 56
        },
{
    if let Some(v) = s.driver {
        lemma_driver_key(v@, a, b);
    }
}

/// A letter, whatever its case.
pub open spec fn is_letter(c: char, lower_case: char, upper_case: char) -> bool {
    c == lower_case || c == upper_case
}

/// A model is ShortFuse's exactly where its version has a point followed by the
/// letters SF, in either case; any other is NVIDIA's.
pub proof fn law_model_build_is_by_its_mark(l: Lang, version: Seq<char>)
    ensures
        ({
            let marked = |i: int|
                0 <= i && i + 2 < version.len() && version[i] == '.' && is_letter(
                    version[i + 1],
                    's',
                    'S',
                ) && is_letter(version[i + 2], 'f', 'F');
            &&& (exists|i: int| #[trigger] marked(i)) ==> build_text(l, version) == (if l
                == Lang::En {
                "ShortFuse .SF build (adds Ada/Turing paths)"@
            } else {
                "ShortFuse .SF 版本（新增 Ada/Turing 路径）"@
            })
            &&& !(exists|i: int| #[trigger] marked(i)) ==> build_text(l, version) == (if l
                == Lang::En {
                "NVIDIA original build"@
            } else {
                "NVIDIA 原版"@
            })
        }),
{
    let marked = |i: int|
        0 <= i && i + 2 < version.len() && version[i] == '.' && is_letter(
            version[i + 1],
            's',
            'S',
        ) && is_letter(version[i + 2], 'f', 'F');
    let up = upper(version);
    reveal_strlit(".SF");
    if exists|i: int| #[trigger] marked(i) {
        let i = choose|i: int| #[trigger] marked(i);
        assert(up.subrange(i, i + 3) =~= ".SF"@);
        assert(occurs_at(up, ".SF"@, i));
    }
    if contains(up, ".SF"@) {
        let i = choose|i: int| occurs_at(up, ".SF"@, i);
        let t = up.subrange(i, i + 3);
        assert(t[0] == '.' && t[1] == 'S' && t[2] == 'F');
        assert(up[i] == '.' && up[i + 1] == 'S' && up[i + 2] == 'F');
        lemma_upper(version[i], '.');
        lemma_upper(version[i + 1], 'S');
        lemma_upper(version[i + 2], 'F');
        assert(marked(i));
    }
}

proof fn lemma_upper(c: char, u: char)
    requires
        upper_char(c) == u,
    ensures
        u == '.' ==> c == '.',
        u == 'S' ==> c == 's' || c == 'S',
        u == 'F' ==> c == 'f' || c == 'F',
{
}

/// The line about the system names the driver where one is known, and tells the
/// state of NGX Core: installed and where, registered without its folder, not
/// installed, or not registered.
pub proof fn law_describe_tells_the_state(s: NgxSystem)
    ensures
        ({
            let t = system_text(Lang::En, s);
            let core = core_text(Lang::En, s);
            &&& s.driver matches Some(v) ==> t == "NVIDIA driver "@ + v@ + "; "@ + core
            &&& s.driver is None ==> t == core
            &&& s.core matches Some(c) ==> {
                &&& c.installed && s.core_folder ==> core == "NGX Core installed ("@ + c.path@
                    + ")"@
                &&& c.installed && !s.core_folder ==> starts_with(
                    core,
                    "NGX Core registered but its folder is missing: "@ + c.path@,
                )
                &&& !c.installed ==> starts_with(core, "NGX Core is registered as NOT installed"@)
            }
            &&& s.core is None ==> starts_with(
                core,
                "NGX Core is not registered on this system"@,
            )
        }),
{
    let core = core_text(Lang::En, s);
    match s.driver {
        Some(v) => {
            reveal_strlit("NVIDIA driver {}; ");
            reveal_strlit("NVIDIA driver ");
            reveal_strlit("; ");
            lemma_fill_one(DRIVER_EN@, v@, 14);
            assert(fill(DRIVER_EN@, seq![v@]) =~= "NVIDIA driver "@ + v@ + "; "@);
        },
        None => {
            assert(Seq::<char>::empty() + core =~= core);
        },
    }
    lemma_core_states(s);
}

proof fn lemma_core_states(s: NgxSystem)
    ensures
        ({
            let core = core_text(Lang::En, s);
            &&& s.core matches Some(c) ==> {
                &&& c.installed && s.core_folder ==> core == "NGX Core installed ("@ + c.path@
                    + ")"@
                &&& c.installed && !s.core_folder ==> starts_with(
                    core,
                    "NGX Core registered but its folder is missing: "@ + c.path@,
                )
                &&& !c.installed ==> starts_with(core, "NGX Core is registered as NOT installed"@)
            }
            &&& s.core is None ==> starts_with(
                core,
                "NGX Core is not registered on this system"@,
            )
        }),
{
    let core = core_text(Lang::En, s);
    match s.core {
        Some(c) => {
            if c.installed && s.core_folder {
                reveal_strlit("NGX Core installed ({})");
                reveal_strlit("NGX Core installed (");
                reveal_strlit(")");
                lemma_fill_one(CORE_OK_EN@, c.path@, 20);
                assert(core =~= "NGX Core installed ("@ + c.path@ + ")"@);
            } else if c.installed {
                reveal_strlit(
                    "NGX Core registered but its folder is missing: {} — reinstall the NVIDIA driver \
             (Custom install, keep every component)",
                );
                reveal_strlit("NGX Core registered but its folder is missing: ");
                lemma_fill_one(CORE_GONE_EN@, c.path@, 47);
                let start = "NGX Core registered but its folder is missing: "@ + c.path@;
                assert(core.subrange(0, start.len() as int) =~= start);
            } else {
                reveal_strlit(
                    "NGX Core is registered as NOT installed — reinstall the NVIDIA driver \
             (Custom install, keep every component; NVCleanstall and \"minimal\" installs drop it)",
                );
                reveal_strlit("NGX Core is registered as NOT installed");
                assert(core.subrange(0, 39) =~= "NGX Core is registered as NOT installed"@);
            }
        },
        None => {
            reveal_strlit(
                "NGX Core is not registered on this system (no HKLM\\SOFTWARE\\NVIDIA \
             Corporation\\Global\\NGXCore) — the NVIDIA driver was installed without it, so no \
             DLSS-based tool can start. Reinstall the driver with a Custom install and keep \
             every component.",
            );
            reveal_strlit("NGX Core is not registered on this system");
            assert(core.subrange(0, 41) =~= "NGX Core is not registered on this system"@);
        },
    }
}

/// The version of a model is that of the first block that gives one.
pub proof fn law_first_block_gives_the_version(blocks: Seq<Option<Vec<u16>>>)
    ensures
        first_version(blocks) is None <==> forall|i: int|
            0 <= i < blocks.len() ==> ((#[trigger] blocks[i]) is Some ==> version_text(
                blocks[i]->0@,
            ).len() == 0),
        first_version(blocks) matches Some(v) ==> exists|i: int|
            0 <= i < blocks.len() && (#[trigger] blocks[i]) is Some && v == version_text(
                blocks[i]->0@,
            ) && v.len() > 0 && forall|j: int|
                0 <= j < i ==> ((#[trigger] blocks[j]) is Some ==> version_text(
                    blocks[j]->0@,
                ).len() == 0),
    decreases blocks.len(),
{
    if blocks.len() > 0 {
        let u = blocks.drop_last();
        let last = blocks.len() - 1;
        law_first_block_gives_the_version(u);
        match first_version(u) {
            Some(v) => {
                let i = choose|i: int|
                    0 <= i < u.len() && (#[trigger] u[i]) is Some && v == version_text(u[i]->0@)
                        && v.len() > 0 && forall|j: int|
                        0 <= j < i ==> ((#[trigger] u[j]) is Some ==> version_text(
                            u[j]->0@,
                        ).len() == 0);
                assert(blocks[i] == u[i]);
                assert forall|j: int| 0 <= j < i implies ((#[trigger] blocks[j]) is Some
                    ==> version_text(blocks[j]->0@).len() == 0) by {
                    assert(u[j] == blocks[j]);
                }
            },
            None => {
                assert forall|j: int| 0 <= j < last implies ((#[trigger] blocks[j]) is Some
                    ==> version_text(blocks[j]->0@).len() == 0) by {
                    assert(u[j] == blocks[j]);
                }
                assert(blocks[last] == blocks.last());
            },
        }
    }
}

/// Only the number one stands for an installed NGX Core; a read that failed does
/// not.
pub proof fn law_only_one_means_installed(flag: Option<u32>)
    ensures
        flag is None ==> !flag_installed(flag),
        flag matches Some(n) ==> (flag_installed(flag) <==> n == 1),
{
}

/// A registry string of `n` characters is read whole from a buffer that has room
/// for it: its size counts two bytes each and two for the end.
pub proof fn law_value_is_read_whole(n: nat, capacity: nat)
    ensures
        n <= capacity ==> value_units(2 * n + 2, capacity) == n,
        n > capacity ==> value_units(2 * n + 2, capacity) == capacity,
        value_units(0, capacity) == 0,
        value_units(1, capacity) == 0,
{
    assert((2 * n + 2) / 2 == n + 1);
}

} // verus!
