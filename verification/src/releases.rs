//! Picking a release: the newest tag of a component, the asset to download, and
//! the ReShade installer's link.
use vstd::prelude::*;
use vstd::slice::slice_subrange;
use crate::lang::{say, tr, Lang};
use crate::message::{fill, fill1, fill2, said};
use crate::number::{
    lemma_numbers_trans, naturals, numbers_before, numbers_less, parse_unsigned, parsed_unsigned,
};
use crate::order::lemma_less_trans;
use crate::outside::{digit_matches, first_groups, matches_in, regex_groups};
use crate::text::{
    before, begins, chars, contains, ends, ends_with, holds, is_digit, less, lower, lowered, same,
    starts_with, string, text_before, text_less, texts,
};

verus! {

pub const RESHADE_HOME: &'static str = "https://reshade.me";

pub const RESHADE_LINK: &'static str = r"/downloads/ReShade_Setup_([\d.]+)_Addon\.exe";

pub const RHI_RELEASES: &'static str =
    "https://api.github.com/repos/RankFTW/rhi-repo/releases?per_page=100";

pub const RHI_REPO: &'static str = "RankFTW/rhi-repo";

/// Tag of the DLSS 5 add-on build to install; unset means the newest one.
pub const RENODX_TAG_ENV: &'static str = "DLSS5ONECLICK_RENODX_TAG";

/// The classic-engine add-on. The Feeder's own host measured v4.7 to fault
/// inside the driver's NGX runtime on NVIDIA 616.64 — an access violation in
/// D3D12Core.dll reached through nvngx_dlssnr.dll — and names this build as one
/// that passes there.
pub const RENODX_CLASSIC_TAG: &'static str = "renodx-dlss5-4.55";

// ── JSON values ────────────────────────────────────────────────────

/// A JSON value. A number is kept as it is written.
#[derive(Debug)]
pub enum Json {
    Null,
    Bool(bool),
    Number(String),
    Str(String),
    Array(Vec<Json>),
    Object(Vec<(String, Json)>),
}

/// The value of the first field of that name.
pub open spec fn field_of(fields: Seq<(String, Json)>, key: Seq<char>) -> Option<Json>
    decreases fields.len(),
{
    if fields.len() == 0 {
        None
    } else {
        match field_of(fields.drop_last(), key) {
            Some(v) => Some(v),
            None => if fields.last().0@ == key {
                Some(fields.last().1)
            } else {
                None
            },
        }
    }
}

impl Json {
    /// The field of an object.
    pub open spec fn field(self, key: Seq<char>) -> Option<Json> {
        match self {
            Json::Object(f) => field_of(f@, key),
            _ => None,
        }
    }

    /// The characters of a string.
    pub open spec fn text(self) -> Option<Seq<char>> {
        match self {
            Json::Str(s) => Some(s@),
            _ => None,
        }
    }

    /// The items of an array.
    pub open spec fn items(self) -> Option<Seq<Json>> {
        match self {
            Json::Array(v) => Some(v@),
            _ => None,
        }
    }

    /// A field that is a string.
    pub open spec fn text_field(self, key: Seq<char>) -> Option<Seq<char>> {
        match self.field(key) {
            Some(v) => v.text(),
            None => None,
        }
    }

    /// A field that is an array.
    pub open spec fn array_field(self, key: Seq<char>) -> Option<Seq<Json>> {
        match self.field(key) {
            Some(v) => v.items(),
            None => None,
        }
    }

    fn get(&self, key: &str) -> (r: Option<&Json>)
        ensures
            match r {
                Some(v) => self.field(key@) == Some(*v),
                None => self.field(key@) is None,
            },
    {
        match self {
            Json::Object(f) => {
                let mut i: usize = 0;
                assert(f@.take(0) =~= Seq::empty());
                while i < f.len()
                    invariant
                        i <= f@.len(),
                        self.field(key@) == field_of(f@, key@),
                        field_of(f@.take(i as int), key@) is None,
                    decreases f@.len() - i,
                {
                    proof {
                        assert(f@.take(i + 1).drop_last() =~= f@.take(i as int));
                        assert(f@.take(i + 1).last() == f@[i as int]);
                    }
                    if same(f[i].0.as_str(), key) {
                        proof {
                            lemma_field_of(f@, key@, i + 1);
                        }
                        return Some(&f[i].1);
                    }
                    i = i + 1;
                }
                assert(f@.take(f@.len() as int) =~= f@);
                None
            },
            _ => None,
        }
    }

    fn text_of(&self, key: &str) -> (r: Option<&String>)
        ensures
            match r {
                Some(t) => self.text_field(key@) == Some(t@),
                None => self.text_field(key@) is None,
            },
    {
        match self.get(key) {
            Some(v) => match v {
                Json::Str(t) => Some(t),
                _ => None,
            },
            None => None,
        }
    }

    fn array_of(&self, key: &str) -> (r: Option<&Vec<Json>>)
        ensures
            match r {
                Some(t) => self.array_field(key@) == Some(t@),
                None => self.array_field(key@) is None,
            },
    {
        match self.get(key) {
            Some(v) => match v {
                Json::Array(t) => Some(t),
                _ => None,
            },
            None => None,
        }
    }
}

proof fn lemma_field_of(f: Seq<(String, Json)>, key: Seq<char>, k: int)
    requires
        0 <= k <= f.len(),
        field_of(f.take(k), key) is Some,
    ensures
        field_of(f, key) == field_of(f.take(k), key),
    decreases f.len() - k,
{
    if k < f.len() {
        assert(f.take(k + 1).drop_last() =~= f.take(k));
        lemma_field_of(f, key, k + 1);
    } else {
        assert(f.take(k) =~= f);
    }
}

// ── the OptiScaler zip ─────────────────────────────────────────────

/// The URL of an asset that is a zip and no checksum list.
pub open spec fn zip_url(a: Json) -> Option<Seq<char>> {
    match (a.text_field("browser_download_url"@), a.text_field("name"@)) {
        (Some(url), Some(name)) => if ends_with(lower(name), ".zip"@) && !contains(
            lower(name),
            "sha256"@,
        ) {
            Some(url)
        } else {
            None
        },
        _ => None,
    }
}

/// The first such asset.
pub open spec fn first_zip(assets: Seq<Json>) -> Option<Seq<char>>
    decreases assets.len(),
{
    if assets.len() == 0 {
        None
    } else {
        match first_zip(assets.drop_last()) {
            Some(u) => Some(u),
            None => zip_url(assets.last()),
        }
    }
}

/// The zip of a release that is no pre-release.
pub open spec fn release_zip(r: Json) -> Option<Seq<char>> {
    if r.field("prerelease"@) == Some(Json::Bool(true)) {
        None
    } else {
        match r.array_field("assets"@) {
            Some(a) => first_zip(a),
            None => None,
        }
    }
}

/// The first release that has one.
pub open spec fn first_release_zip(releases: Seq<Json>) -> Option<Seq<char>>
    decreases releases.len(),
{
    if releases.len() == 0 {
        None
    } else {
        match first_release_zip(releases.drop_last()) {
            Some(u) => Some(u),
            None => release_zip(releases.last()),
        }
    }
}

proof fn lemma_first_zip(v: Seq<Json>, k: int)
    requires
        0 <= k <= v.len(),
        first_zip(v.take(k)) is Some,
    ensures
        first_zip(v) == first_zip(v.take(k)),
    decreases v.len() - k,
{
    if k < v.len() {
        assert(v.take(k + 1).drop_last() =~= v.take(k));
        lemma_first_zip(v, k + 1);
    } else {
        assert(v.take(k) =~= v);
    }
}

proof fn lemma_first_release_zip(v: Seq<Json>, k: int)
    requires
        0 <= k <= v.len(),
        first_release_zip(v.take(k)) is Some,
    ensures
        first_release_zip(v) == first_release_zip(v.take(k)),
    decreases v.len() - k,
{
    if k < v.len() {
        assert(v.take(k + 1).drop_last() =~= v.take(k));
        lemma_first_release_zip(v, k + 1);
    } else {
        assert(v.take(k) =~= v);
    }
}

fn zip_url_of(a: &Json) -> (r: Option<String>)
    ensures
        crate::text::opt_text(r) == zip_url(*a),
{
    let url = match a.text_of("browser_download_url") {
        Some(u) => u,
        None => {
            return None;
        },
    };
    let name = match a.text_of("name") {
        Some(n) => n,
        None => {
            return None;
        },
    };
    let cs = chars(name.as_str());
    let low = lowered(cs.as_slice());
    if ends(low.as_slice(), ".zip") && !holds(low.as_slice(), "sha256") {
        Some(url.as_str().to_owned())
    } else {
        None
    }
}

fn first_zip_of(assets: &Vec<Json>) -> (r: Option<String>)
    ensures
        crate::text::opt_text(r) == first_zip(assets@),
{
    let mut i: usize = 0;
    assert(assets@.take(0) =~= Seq::empty());
    while i < assets.len()
        invariant
            i <= assets@.len(),
            first_zip(assets@.take(i as int)) is None,
        decreases assets@.len() - i,
    {
        proof {
            assert(assets@.take(i + 1).drop_last() =~= assets@.take(i as int));
            assert(assets@.take(i + 1).last() == assets@[i as int]);
        }
        let u = zip_url_of(&assets[i]);
        if u.is_some() {
            proof {
                lemma_first_zip(assets@, i + 1);
            }
            return u;
        }
        i = i + 1;
    }
    assert(assets@.take(assets@.len() as int) =~= assets@);
    None
}

fn is_prerelease(r: &Json) -> (b: bool)
    ensures
        b == (r.field("prerelease"@) == Some(Json::Bool(true))),
{
    match r.get("prerelease") {
        Some(v) => match v {
            Json::Bool(b) => *b,
            _ => false,
        },
        None => false,
    }
}

/// The first stable release carrying a `.zip`. Both forks also publish rolling
/// "nightly" releases whose assets are `.7z`, and taking a release's first
/// asset blindly picked a checksum text file or an archive the installer
/// cannot open.
pub fn pick_opti_zip(releases: &Vec<Json>) -> (r: Option<String>)
    ensures
        crate::text::opt_text(r) == first_release_zip(releases@),
{
    let mut i: usize = 0;
    assert(releases@.take(0) =~= Seq::empty());
    while i < releases.len()
        invariant
            i <= releases@.len(),
            first_release_zip(releases@.take(i as int)) is None,
        decreases releases@.len() - i,
    {
        proof {
            assert(releases@.take(i + 1).drop_last() =~= releases@.take(i as int));
            assert(releases@.take(i + 1).last() == releases@[i as int]);
        }
        if !is_prerelease(&releases[i]) {
            if let Some(assets) = releases[i].array_of("assets") {
                let u = first_zip_of(assets);
                if u.is_some() {
                    proof {
                        lemma_first_release_zip(releases@, i + 1);
                    }
                    return u;
                }
            }
        }
        i = i + 1;
    }
    assert(releases@.take(releases@.len() as int) =~= releases@);
    None
}

pub const NO_ASSET_EN: &'static str = "{} has no release asset";

pub const NO_ASSET_ZH: &'static str = "{} 没有发布资源";

/// The zip of a list of releases, where it gives one.
pub open spec fn listed_zip(releases: Json) -> Option<Seq<char>> {
    match releases.items() {
        Some(v) => first_release_zip(v),
        None => None,
    }
}

/// The zip that a repository's list of releases gives.
pub fn opti_asset(l: Lang, repo: &str, releases: &Json) -> (r: Result<String, String>)
    ensures
        ({
            let zip = listed_zip(*releases);
            &&& r is Ok <==> zip is Some
            &&& r matches Ok(u) ==> zip == Some(u@)
            &&& r matches Err(e) ==> e@ == fill(say(l, NO_ASSET_EN@, NO_ASSET_ZH@), seq![repo@])
        }),
{
    let hit = match releases {
        Json::Array(v) => pick_opti_zip(v),
        _ => None,
    };
    match hit {
        Some(u) => Ok(u),
        None => Err(fill1(tr(l, NO_ASSET_EN, NO_ASSET_ZH), repo)),
    }
}

pub const NO_TAGS_EN: &'static str = "no {} release found";

pub const NO_TAGS_ZH: &'static str = "未找到 {} 版本";

/// The first tag of a repository's releases page.
pub fn opti_tag(l: Lang, repo: &str, tags: &Vec<String>) -> (r: Result<String, String>)
    ensures
        r is Ok <==> tags@.len() > 0,
        r matches Ok(t) ==> t@ == tags@[0]@,
        r matches Err(e) ==> e@ == fill(say(l, NO_TAGS_EN@, NO_TAGS_ZH@), seq![repo@]),
{
    if tags.len() > 0 {
        Ok(tags[0].as_str().to_owned())
    } else {
        Err(fill1(tr(l, NO_TAGS_EN, NO_TAGS_ZH), repo))
    }
}

/// What is known of the zip to fetch: a tag was asked for, the list of releases
/// (`None` where it could not be had), or the tags of the releases page.
#[derive(Debug)]
pub enum OptiAnswer {
    Latest(Option<String>),
    Releases(Option<Json>),
    Tags(Vec<String>),
}

/// What to do for the zip: ask for the list of releases, for the tags of the
/// releases page, or for the zip of a tag; or fetch it from a URL.
#[derive(Debug)]
pub enum OptiLookup {
    AskReleases,
    AskTags,
    AskAsset(String),
    Fetch(String),
}

/// An [`OptiLookup`] as characters.
pub enum OptiNext {
    AskReleases,
    AskTags,
    AskAsset(Seq<char>),
    Fetch(Seq<char>),
}

impl View for OptiLookup {
    type V = OptiNext;

    open spec fn view(&self) -> OptiNext {
        match self {
            OptiLookup::AskReleases => OptiNext::AskReleases,
            OptiLookup::AskTags => OptiNext::AskTags,
            OptiLookup::AskAsset(t) => OptiNext::AskAsset(t@),
            OptiLookup::Fetch(u) => OptiNext::Fetch(u@),
        }
    }
}

/// The latest stable release goes first: the list of releases and the releases
/// page both put betas first. The page is asked only where the list cannot be
/// had. `Err` is the message.
pub open spec fn opti_next(l: Lang, repo: Seq<char>, a: OptiAnswer) -> Result<OptiNext, Seq<char>> {
    match a {
        OptiAnswer::Latest(Some(tag)) => Ok(OptiNext::AskAsset(tag@)),
        OptiAnswer::Latest(None) => Ok(OptiNext::AskReleases),
        OptiAnswer::Releases(Some(list)) => match listed_zip(list) {
            Some(u) => Ok(OptiNext::Fetch(u)),
            None => Err(fill(say(l, NO_ASSET_EN@, NO_ASSET_ZH@), seq![repo])),
        },
        OptiAnswer::Releases(None) => Ok(OptiNext::AskTags),
        OptiAnswer::Tags(tags) => if tags@.len() > 0 {
            Ok(OptiNext::AskAsset(tags@[0]@))
        } else {
            Err(fill(say(l, NO_TAGS_EN@, NO_TAGS_ZH@), seq![repo]))
        },
    }
}

/// The next step on the way to the zip.
pub fn opti_lookup(l: Lang, repo: &str, answer: &OptiAnswer) -> (r: Result<OptiLookup, String>)
    ensures
        match r {
            Ok(n) => opti_next(l, repo@, *answer) == Ok::<OptiNext, Seq<char>>(n@),
            Err(e) => opti_next(l, repo@, *answer) == Err::<OptiNext, Seq<char>>(e@),
        },
{
    match answer {
        OptiAnswer::Latest(Some(tag)) => Ok(OptiLookup::AskAsset(tag.as_str().to_owned())),
        OptiAnswer::Latest(None) => Ok(OptiLookup::AskReleases),
        OptiAnswer::Releases(Some(list)) => match opti_asset(l, repo, list) {
            Ok(u) => Ok(OptiLookup::Fetch(u)),
            Err(e) => Err(e),
        },
        OptiAnswer::Releases(None) => Ok(OptiLookup::AskTags),
        OptiAnswer::Tags(tags) => match opti_tag(l, repo, tags) {
            Ok(t) => Ok(OptiLookup::AskAsset(t)),
            Err(e) => Err(e),
        },
    }
}

// ── version keys ───────────────────────────────────────────────────

/// The numbers among some texts; one that is too great is left out.
pub open spec fn numbers(v: Seq<Seq<char>>) -> Seq<nat>
    decreases v.len(),
{
    if v.len() == 0 {
        Seq::empty()
    } else {
        match parse_unsigned(v.last(), u64::MAX as nat) {
            Some(n) => numbers(v.drop_last()).push(n),
            None => numbers(v.drop_last()),
        }
    }
}

/// The bytes that a character takes in UTF-8.
pub open spec fn char_bytes(c: char) -> nat {
    if c as int <= 0x7F {
        1
    } else if c as int <= 0x7FF {
        2
    } else if c as int <= 0xFFFF {
        3
    } else {
        4
    }
}

/// The bytes that a text takes in UTF-8.
pub open spec fn byte_len(s: Seq<char>) -> nat
    decreases s.len(),
{
    if s.len() == 0 {
        0
    } else {
        byte_len(s.drop_last()) + char_bytes(s.last())
    }
}

/// The first `k` characters take `n` bytes.
pub open spec fn cut_at(s: Seq<char>, n: nat, k: int) -> bool {
    0 <= k <= s.len() && byte_len(s.take(k)) == n
}

/// The text can be cut behind `n` bytes: it has as many, and no character
/// reaches across.
pub open spec fn cuts(s: Seq<char>, n: nat) -> bool {
    exists|k: int| cut_at(s, n, k)
}

/// What follows as many bytes of a tag as its prefix has.
pub open spec fn after_prefix(tag: Seq<char>, prefix: Seq<char>) -> Seq<char> {
    tag.skip(choose|k: int| cut_at(tag, byte_len(prefix), k))
}

proof fn lemma_bytes_grow(s: Seq<char>, i: int, j: int)
    requires
        0 <= i < j <= s.len(),
    ensures
        byte_len(s.take(i)) < byte_len(s.take(j)),
    decreases j,
{
    assert(s.take(j).drop_last() =~= s.take(j - 1));
    if i < j - 1 {
        lemma_bytes_grow(s, i, j - 1);
    }
}

proof fn lemma_one_cut(tag: Seq<char>, prefix: Seq<char>, k: int)
    requires
        cut_at(tag, byte_len(prefix), k),
    ensures
        after_prefix(tag, prefix) == tag.skip(k),
{
    let c = choose|c: int| cut_at(tag, byte_len(prefix), c);
    if c < k {
        lemma_bytes_grow(tag, c, k);
    } else if k < c {
        lemma_bytes_grow(tag, k, c);
    }
}

/// A tag that starts with its prefix can be cut there.
proof fn lemma_prefix_cuts(tag: Seq<char>, prefix: Seq<char>)
    requires
        starts_with(tag, prefix),
    ensures
        cuts(tag, byte_len(prefix)),
        after_prefix(tag, prefix) == tag.skip(prefix.len() as int),
{
    assert(tag.take(prefix.len() as int) =~= prefix);
    assert(cut_at(tag, byte_len(prefix), prefix.len() as int));
    lemma_one_cut(tag, prefix, prefix.len() as int);
}

/// The numbers in a text.
pub open spec fn text_numbers(text: Seq<char>) -> Seq<nat> {
    match digit_matches(text) {
        Some(runs) => numbers(runs),
        None => Seq::empty(),
    }
}

/// What a tag is ordered by: the numbers in what follows its prefix.
pub open spec fn tag_key(tag: Seq<char>, prefix: Seq<char>) -> Seq<nat> {
    text_numbers(after_prefix(tag, prefix))
}

/// The numbers among some texts.
pub fn numbers_of(v: &Vec<String>) -> (r: Vec<u64>)
    ensures
        naturals(r@) == numbers(texts(v@)),
{
    let ghost all = texts(v@);
    let mut out: Vec<u64> = Vec::new();
    let mut i: usize = 0;
    assert(all.take(0) =~= Seq::empty());
    assert(naturals(out@) =~= Seq::empty());
    while i < v.len()
        invariant
            i <= v@.len(),
            all == texts(v@),
            naturals(out@) == numbers(all.take(i as int)),
        decreases v@.len() - i,
    {
        proof {
            assert(all.take(i + 1).drop_last() =~= all.take(i as int));
            assert(all.take(i + 1).last() == v@[i as int]@);
        }
        let cs = chars(v[i].as_str());
        if let Some(n) = parsed_unsigned(cs.as_slice(), u64::MAX) {
            let ghost before = naturals(out@);
            out.push(n);
            assert(naturals(out@) =~= before.push(n as nat));
        }
        i = i + 1;
    }
    assert(all.take(all.len() as int) =~= all);
    out
}

/// The numbers in a text.
pub fn numbers_in(text: &str) -> (r: Vec<u64>)
    ensures
        naturals(r@) == text_numbers(text@),
{
    match matches_in(r"\d+", text) {
        Some(runs) => numbers_of(&runs),
        None => {
            let none: Vec<u64> = Vec::new();
            assert(naturals(none@) =~= Seq::empty());
            none
        },
    }
}

fn bytes_of_char(c: char) -> (r: u128)
    ensures
        r == char_bytes(c),
{
    let n: u32 = c as u32;
    if n <= 0x7F {
        1
    } else if n <= 0x7FF {
        2
    } else if n <= 0xFFFF {
        3
    } else {
        4
    }
}

fn bytes_of(s: &[char]) -> (r: u128)
    ensures
        r == byte_len(s@),
        r <= 4 * s@.len(),
{
    let mut n: u128 = 0;
    let mut i: usize = 0;
    assert(s@.take(0) =~= Seq::empty());
    while i < s.len()
        invariant
            i <= s@.len(),
            n == byte_len(s@.take(i as int)),
            n <= 4 * i,
        decreases s@.len() - i,
    {
        assert(s@.take(i + 1).drop_last() =~= s@.take(i as int));
        n = n + bytes_of_char(s[i]);
        i = i + 1;
    }
    assert(s@.take(s@.len() as int) =~= s@);
    n
}

/// What follows as many bytes of a tag as its prefix has.
fn tail_of(tag: &str, prefix: &str) -> (r: String)
    requires
        cuts(tag@, byte_len(prefix@)),
    ensures
        r@ == after_prefix(tag@, prefix@),
{
    let t = chars(tag);
    let p = chars(prefix);
    let want = bytes_of(p.as_slice());
    let len: usize = t.len();
    let ghost cut = choose|c: int| cut_at(tag@, byte_len(prefix@), c);
    let mut n: u128 = 0;
    let mut k: usize = 0;
    assert(tag@.take(0) =~= Seq::empty());
    while n < want
        invariant
            t@ == tag@,
            len == t@.len(),
            want == byte_len(prefix@),
            cut_at(tag@, byte_len(prefix@), cut),
            k <= cut,
            n == byte_len(tag@.take(k as int)),
            n <= 4 * k,
        decreases cut - k,
    {
        assert(k < cut);
        assert(tag@.take(k + 1).drop_last() =~= tag@.take(k as int));
        n = n + bytes_of_char(t[k]);
        k = k + 1;
    }
    proof {
        if k < cut {
            lemma_bytes_grow(tag@, k as int, cut);
        }
        lemma_one_cut(tag@, prefix@, k as int);
    }
    let tail = string(slice_subrange(t.as_slice(), k, len));
    assert(tail@ =~= tag@.skip(k as int));
    tail
}

/// What a tag is ordered by. It is cut where its prefix ends, whatever it starts
/// with.
pub fn ver_key(tag: &str, prefix: &str) -> (r: Vec<u64>)
    requires
        cuts(tag@, byte_len(prefix@)),
    ensures
        naturals(r@) == tag_key(tag@, prefix@),
{
    let tail = tail_of(tag, prefix);
    numbers_in(tail.as_str())
}

// ── the newest tag ─────────────────────────────────────────────────

/// A release that may be taken: its key, its tag, the URL of its asset.
#[derive(Debug)]
pub struct Candidate {
    pub key: Vec<u64>,
    pub tag: String,
    pub url: String,
}

/// A [`Candidate`] as values.
pub struct Cand {
    pub key: Seq<nat>,
    pub tag: Seq<char>,
    pub url: Seq<char>,
}

impl View for Candidate {
    type V = Cand;

    open spec fn view(&self) -> Cand {
        Cand { key: naturals(self.key@), tag: self.tag@, url: self.url@ }
    }
}

pub open spec fn cands(v: Seq<Candidate>) -> Seq<Cand> {
    Seq::new(v.len(), |i: int| v[i]@)
}

/// Ordered by key, then by tag, then by URL.
pub open spec fn cand_less(a: Cand, b: Cand) -> bool {
    if a.key != b.key {
        numbers_less(a.key, b.key)
    } else if a.tag != b.tag {
        text_less(a.tag, b.tag)
    } else {
        text_less(a.url, b.url)
    }
}

/// The greatest of some candidates.
pub open spec fn greatest(v: Seq<Cand>) -> Cand
    recommends
        v.len() > 0,
    decreases v.len(),
{
    if v.len() <= 1 {
        v[0]
    } else {
        let g = greatest(v.drop_last());
        if cand_less(g, v.last()) {
            v.last()
        } else {
            g
        }
    }
}

/// A build for several generations of cards.
pub open spec fn is_sf(tag: Seq<char>) -> bool {
    contains(tag, ".SF"@)
}

pub open spec fn has_sf_model(v: Seq<Cand>) -> bool {
    exists|i: int|
        0 <= i < v.len() && starts_with((#[trigger] v[i]).tag, "dlssnr-"@) && is_sf(v[i].tag)
}

/// The candidates that are considered: for the DLSS 5 model, ShortFuse's `.SF`
/// builds alone where there are some.
pub open spec fn eligible(v: Seq<Cand>) -> Seq<Cand> {
    if has_sf_model(v) {
        v.filter(|c: Cand| is_sf(c.tag))
    } else {
        v
    }
}

pub open spec fn best(v: Seq<Cand>) -> Cand {
    greatest(eligible(v))
}

fn same_key(a: &Vec<u64>, b: &Vec<u64>) -> (r: bool)
    ensures
        r == (naturals(a@) == naturals(b@)),
{
    if a.len() != b.len() {
        assert(naturals(a@).len() != naturals(b@).len());
        return false;
    }
    let mut i: usize = 0;
    while i < a.len()
        invariant
            i <= a@.len(),
            a@.len() == b@.len(),
            forall|j: int| 0 <= j < i ==> #[trigger] a@[j] == b@[j],
        decreases a@.len() - i,
    {
        if a[i] != b[i] {
            assert(naturals(a@)[i as int] != naturals(b@)[i as int]);
            return false;
        }
        i = i + 1;
    }
    assert(naturals(a@) =~= naturals(b@));
    true
}

fn comes_before(a: &Candidate, b: &Candidate) -> (r: bool)
    ensures
        r == cand_less(a@, b@),
{
    if !same_key(&a.key, &b.key) {
        return numbers_before(&a.key, &b.key);
    }
    if !same(a.tag.as_str(), b.tag.as_str()) {
        let (x, y) = (chars(a.tag.as_str()), chars(b.tag.as_str()));
        return less(x.as_slice(), y.as_slice());
    }
    let (x, y) = (chars(a.url.as_str()), chars(b.url.as_str()));
    less(x.as_slice(), y.as_slice())
}

fn sf(tag: &str) -> (r: bool)
    ensures
        r == is_sf(tag@),
{
    holds(chars(tag).as_slice(), ".SF")
}

fn any_sf_model(v: &Vec<Candidate>) -> (r: bool)
    ensures
        r == has_sf_model(cands(v@)),
{
    let ghost all = cands(v@);
    let mut i: usize = 0;
    while i < v.len()
        invariant
            i <= v@.len(),
            all == cands(v@),
            forall|j: int|
                0 <= j < i ==> !(starts_with((#[trigger] all[j]).tag, "dlssnr-"@) && is_sf(
                    all[j].tag,
                )),
        decreases v@.len() - i,
    {
        let t = v[i].tag.as_str();
        assert(all[i as int].tag == t@);
        if begins(chars(t).as_slice(), "dlssnr-") && sf(t) {
            return true;
        }
        i = i + 1;
    }
    false
}

/// Filtering up to one more candidate.
proof fn lemma_eligible_step(all: Seq<Cand>, i: int, f: spec_fn(Cand) -> bool)
    requires
        0 <= i < all.len(),
    ensures
        all.take(i + 1).filter(f) == if f(all[i]) {
            all.take(i).filter(f).push(all[i])
        } else {
            all.take(i).filter(f)
        },
{
    reveal(Seq::filter);
    assert(all.take(i + 1).drop_last() =~= all.take(i));
}

/// Newest by version; for the DLSS 5 model prefer ShortFuse's multi-generation
/// `.SF` builds over NVIDIA's RTX-50-only originals or single-generation ports.
pub fn best_tag(v: &Vec<Candidate>) -> (r: (String, String))
    requires
        v@.len() > 0,
    ensures
        r.0@ == best(cands(v@)).tag,
        r.1@ == best(cands(v@)).url,
{
    let only_sf = any_sf_model(v);
    let ghost all = cands(v@);
    let ghost f = |c: Cand| !only_sf || is_sf(c.tag);
    let mut at: Option<usize> = None;
    let mut i: usize = 0;
    proof {
        reveal(Seq::filter);
        assert(all.take(0).filter(f) =~= Seq::empty());
    }
    while i < v.len()
        invariant
            i <= v@.len(),
            all == cands(v@),
            f == (|c: Cand| !only_sf || is_sf(c.tag)),
            match at {
                Some(k) => k < i && all.take(i as int).filter(f).len() > 0 && greatest(
                    all.take(i as int).filter(f),
                ) == all[k as int],
                None => all.take(i as int).filter(f).len() == 0,
            },
        decreases v@.len() - i,
    {
        let ghost g = all.take(i as int).filter(f);
        proof {
            lemma_eligible_step(all, i as int, f);
            assert(all[i as int] == v@[i as int]@);
            assert(g.push(all[i as int]).drop_last() =~= g);
        }
        if !only_sf || sf(v[i].tag.as_str()) {
            match at {
                Some(k) => {
                    assert(all[k as int] == v@[k as int]@);
                    if comes_before(&v[k], &v[i]) {
                        at = Some(i);
                    }
                },
                None => {
                    at = Some(i);
                },
            }
        }
        i = i + 1;
    }
    proof {
        assert(all.take(all.len() as int) =~= all);
        lemma_eligible(all, f, only_sf);
    }
    match at {
        Some(k) => {
            assert(all[k as int] == v@[k as int]@);
            (v[k].tag.as_str().to_owned(), v[k].url.as_str().to_owned())
        },
        None => (String::new(), String::new()),
    }
}

/// The loop's filter gives the eligible candidates, and there is one.
proof fn lemma_eligible(all: Seq<Cand>, f: spec_fn(Cand) -> bool, only_sf: bool)
    requires
        all.len() > 0,
        only_sf == has_sf_model(all),
        f == (|c: Cand| !only_sf || is_sf(c.tag)),
    ensures
        all.filter(f) == eligible(all),
        all.filter(f).len() > 0,
{
    if only_sf {
        assert(f =~= |c: Cand| is_sf(c.tag));
        let i = choose|i: int|
            0 <= i < all.len() && starts_with((#[trigger] all[i]).tag, "dlssnr-"@) && is_sf(
                all[i].tag,
            );
        assert(f(all[i]));
        all.lemma_filter_contains(f, i);
    } else {
        lemma_filter_all(all, f);
    }
}

proof fn lemma_filter_all(v: Seq<Cand>, f: spec_fn(Cand) -> bool)
    requires
        forall|c: Cand| #[trigger] f(c),
    ensures
        v.filter(f) == v,
    decreases v.len(),
{
    reveal(Seq::filter);
    if v.len() > 0 {
        lemma_filter_all(v.drop_last(), f);
        assert(v.drop_last().push(v.last()) =~= v);
    }
}

// ── the releases of rhi-repo ───────────────────────────────────────

/// What follows the prefix starts with a digit: "dlss-" must not match "dlssg-".
pub open spec fn is_tag_of(tag: Seq<char>, prefix: Seq<char>) -> bool {
    starts_with(tag, prefix) && tag.len() > prefix.len() && is_digit(tag[prefix.len() as int])
}

/// The URL of the first asset of a release.
pub open spec fn first_asset(r: Json) -> Option<Seq<char>> {
    match r.array_field("assets"@) {
        Some(a) => if a.len() > 0 {
            a[0].text_field("browser_download_url"@)
        } else {
            None
        },
        None => None,
    }
}

/// A release as a candidate, where it is one.
pub open spec fn candidate_of(r: Json, prefix: Seq<char>) -> Option<Cand> {
    match (r.text_field("tag_name"@), first_asset(r)) {
        (Some(tag), Some(url)) => if is_tag_of(tag, prefix) {
            Some(Cand { key: tag_key(tag, prefix), tag, url })
        } else {
            None
        },
        _ => None,
    }
}

pub open spec fn candidates_of(releases: Seq<Json>, prefix: Seq<char>) -> Seq<Cand>
    decreases releases.len(),
{
    if releases.len() == 0 {
        Seq::empty()
    } else {
        match candidate_of(releases.last(), prefix) {
            Some(c) => candidates_of(releases.drop_last(), prefix).push(c),
            None => candidates_of(releases.drop_last(), prefix),
        }
    }
}

fn tag_of(tag: &str, prefix: &str) -> (r: bool)
    ensures
        r == is_tag_of(tag@, prefix@),
{
    let t = chars(tag);
    let p = chars(prefix);
    if !begins(t.as_slice(), prefix) || t.len() <= p.len() {
        return false;
    }
    let c = t[p.len()];
    '0' <= c && c <= '9'
}

fn candidate(r: &Json, prefix: &str) -> (o: Option<Candidate>)
    ensures
        match o {
            Some(c) => candidate_of(*r, prefix@) == Some(c@),
            None => candidate_of(*r, prefix@) is None,
        },
{
    let tag = match r.text_of("tag_name") {
        Some(t) => t,
        None => {
            return None;
        },
    };
    if !tag_of(tag.as_str(), prefix) {
        return None;
    }
    let assets = match r.array_of("assets") {
        Some(a) => a,
        None => {
            return None;
        },
    };
    if assets.len() == 0 {
        return None;
    }
    match assets[0].text_of("browser_download_url") {
        Some(url) => {
            proof {
                lemma_prefix_cuts(tag@, prefix@);
            }
            let key = ver_key(tag.as_str(), prefix);
            Some(
                Candidate { key, tag: tag.as_str().to_owned(), url: url.as_str().to_owned() },
            )
        },
        None => None,
    }
}

pub const NO_RELEASE_EN: &'static str = "no release with tag prefix '{}' found";

pub const NO_RELEASE_ZH: &'static str = "未找到标签前缀为 '{}' 的版本";

/// Newest rhi-repo release whose tag is `prefix` + digits; returns (tag, first asset URL).
pub fn pick_latest_asset(l: Lang, releases: &Vec<Json>, prefix: &str) -> (r: Result<
    (String, String),
    String,
>)
    ensures
        r is Ok <==> candidates_of(releases@, prefix@).len() > 0,
        r matches Ok(p) ==> p.0@ == best(candidates_of(releases@, prefix@)).tag && p.1@ == best(
            candidates_of(releases@, prefix@),
        ).url,
        r matches Err(e) ==> e@ == fill(say(l, NO_RELEASE_EN@, NO_RELEASE_ZH@), seq![prefix@]),
{
    let mut found: Vec<Candidate> = Vec::new();
    let mut i: usize = 0;
    assert(releases@.take(0) =~= Seq::empty());
    assert(cands(found@) =~= Seq::empty());
    while i < releases.len()
        invariant
            i <= releases@.len(),
            cands(found@) == candidates_of(releases@.take(i as int), prefix@),
        decreases releases@.len() - i,
    {
        proof {
            assert(releases@.take(i + 1).drop_last() =~= releases@.take(i as int));
            assert(releases@.take(i + 1).last() == releases@[i as int]);
        }
        if let Some(c) = candidate(&releases[i], prefix) {
            let ghost was = cands(found@);
            found.push(c);
            assert(cands(found@) =~= was.push(c@));
        }
        i = i + 1;
    }
    assert(releases@.take(releases@.len() as int) =~= releases@);
    assert(cands(found@).len() == found@.len());
    if found.len() == 0 {
        return Err(fill1(tr(l, NO_RELEASE_EN, NO_RELEASE_ZH), prefix));
    }
    Ok(best_tag(&found))
}

/// The tag that is pinned for `prefix`: only the DLSS 5 add-on can be. `asked`
/// is the value of the environment variable.
pub open spec fn pinned(prefix: Seq<char>, asked: Option<&str>) -> Option<Seq<char>> {
    if prefix == "renodx-dlss5-"@ && asked is Some && asked->0@.len() > 0 {
        Some(asked->0@)
    } else {
        None
    }
}

/// A pinned add-on build, when one was asked for.
pub fn rhi_pinned(prefix: &str, asked: Option<&str>) -> (r: Option<String>)
    ensures
        crate::text::opt_text(r) == pinned(prefix@, asked),
{
    match asked {
        Some(tag) => if same(prefix, "renodx-dlss5-") && chars(tag).len() > 0 {
            Some(tag.to_owned())
        } else {
            None
        },
        None => None,
    }
}

pub const PIN_MISSING_EN: &'static str = "DLSS 5 add-on build {} not found on {}";

pub const PIN_MISSING_ZH: &'static str = "未找到 DLSS 5 附加组件版本 {}（{}）";

/// Why a pinned build could not be had.
pub fn pin_missing(l: Lang, tag: &str) -> (r: String)
    ensures
        r@ == fill(say(l, PIN_MISSING_EN@, PIN_MISSING_ZH@), seq![tag@, RHI_REPO@]),
{
    fill2(tr(l, PIN_MISSING_EN, PIN_MISSING_ZH), tag, RHI_REPO)
}

/// What the list of releases gives, where it could be had and gives something.
pub open spec fn from_list(releases: Option<Json>, prefix: Seq<char>) -> Option<Cand> {
    match releases {
        Some(j) => match j.items() {
            Some(v) => if candidates_of(v, prefix).len() > 0 {
                Some(best(candidates_of(v, prefix)))
            } else {
                None
            },
            None => None,
        },
        None => None,
    }
}

/// The newest release of a component by the list of releases: (tag, URL).
/// `None` where the list could not be had or names none; then the tags of the
/// releases page are looked at.
pub fn rhi_latest(l: Lang, releases: &Option<Json>, prefix: &str) -> (r: Option<(String, String)>)
    ensures
        match r {
            Some(p) => from_list(*releases, prefix@) is Some && p.0@ == from_list(
                *releases,
                prefix@,
            )->0.tag && p.1@ == from_list(*releases, prefix@)->0.url,
            None => from_list(*releases, prefix@) is None,
        },
{
    match releases {
        Some(j) => match j {
            Json::Array(v) => match pick_latest_asset(l, v, prefix) {
                Ok(p) => Some(p),
                Err(_) => None,
            },
            _ => None,
        },
        None => None,
    }
}

/// A digit follows as many bytes as the prefix has.
pub open spec fn numbered(tag: Seq<char>, prefix: Seq<char>) -> bool {
    after_prefix(tag, prefix).len() > 0 && is_digit(after_prefix(tag, prefix)[0])
}

/// The tags of the releases page that are candidates: those with a digit where
/// the prefix ends.
pub open spec fn tag_candidates(tags: Seq<Seq<char>>, prefix: Seq<char>) -> Seq<Cand>
    decreases tags.len(),
{
    if tags.len() == 0 {
        Seq::empty()
    } else {
        let v = tag_candidates(tags.drop_last(), prefix);
        let t = tags.last();
        if numbered(t, prefix) {
            v.push(Cand { key: tag_key(t, prefix), tag: t, url: Seq::empty() })
        } else {
            v
        }
    }
}

pub const NO_TAG_EN: &'static str =
    "no release with tag prefix '{}' found on github.com/{}/releases";

pub const NO_TAG_ZH: &'static str = "未在 github.com/{}/releases 找到标签前缀为 '{}' 的版本";

pub open spec fn no_tag_text(l: Lang, prefix: Seq<char>) -> Seq<char> {
    match l {
        Lang::En => fill(NO_TAG_EN@, seq![prefix, RHI_REPO@]),
        Lang::Zh => fill(NO_TAG_ZH@, seq![RHI_REPO@, prefix]),
    }
}

/// The newest tag among those of the releases page, which is asked for the tags
/// that start with `prefix`.
pub fn rhi_newest_tag(l: Lang, tags: &Vec<String>, prefix: &str) -> (r: Result<String, String>)
    requires
        forall|i: int| 0 <= i < tags@.len() ==> cuts((#[trigger] tags@[i])@, byte_len(prefix@)),
    ensures
        r is Ok <==> tag_candidates(texts(tags@), prefix@).len() > 0,
        r matches Ok(t) ==> t@ == best(tag_candidates(texts(tags@), prefix@)).tag,
        r matches Err(e) ==> e@ == no_tag_text(l, prefix@),
{
    let ghost all = texts(tags@);
    let mut found: Vec<Candidate> = Vec::new();
    let mut i: usize = 0;
    assert(all.take(0) =~= Seq::empty());
    assert(cands(found@) =~= Seq::empty());
    while i < tags.len()
        invariant
            i <= tags@.len(),
            all == texts(tags@),
            forall|j: int|
                0 <= j < tags@.len() ==> cuts((#[trigger] tags@[j])@, byte_len(prefix@)),
            cands(found@) == tag_candidates(all.take(i as int), prefix@),
        decreases tags@.len() - i,
    {
        proof {
            assert(all.take(i + 1).drop_last() =~= all.take(i as int));
            assert(all.take(i + 1).last() == tags@[i as int]@);
        }
        let tail = tail_of(tags[i].as_str(), prefix);
        let rest = chars(tail.as_str());
        if rest.len() > 0 && '0' <= rest[0] && rest[0] <= '9' {
            let key = ver_key(tags[i].as_str(), prefix);
            let url = String::new();
            let c = Candidate { key, tag: tags[i].as_str().to_owned(), url };
            let ghost was = cands(found@);
            found.push(c);
            assert(c@.url =~= Seq::empty());
            assert(cands(found@) =~= was.push(c@));
        }
        i = i + 1;
    }
    assert(all.take(all.len() as int) =~= all);
    assert(cands(found@).len() == found@.len());
    if found.len() == 0 {
        return Err(
            match l {
                Lang::En => fill2(NO_TAG_EN, prefix, RHI_REPO),
                Lang::Zh => fill2(NO_TAG_ZH, RHI_REPO, prefix),
            },
        );
    }
    Ok(best_tag(&found).0)
}

// ── the ReShade installer ──────────────────────────────────────────

pub const NO_LINK_EN: &'static str = "ReShade add-on installer link not found on reshade.me";

pub const NO_LINK_ZH: &'static str = "在 reshade.me 上未找到 ReShade 附加组件安装器链接";

/// The version and the URL of the installer, from the link that was found: the
/// whole of it and the version in it.
pub fn reshade_setup(l: Lang, link: Option<(String, Option<String>)>) -> (r: Result<
    (String, String),
    String,
>)
    ensures
        r is Ok <==> link is Some && (link->0).1 is Some,
        r matches Ok(p) ==> p.0@ == (link->0).1->0@ && p.1@ == RESHADE_HOME@ + (link->0).0@,
        r matches Err(e) ==> e@ == say(l, NO_LINK_EN@, NO_LINK_ZH@),
{
    match link {
        Some((whole, Some(version))) => {
            let mut url = RESHADE_HOME.to_owned();
            url.append(whole.as_str());
            Ok((version, url))
        },
        _ => Err(said(l, NO_LINK_EN, NO_LINK_ZH)),
    }
}

/// The version and the URL of the newest add-on build of ReShade, from the
/// text of its home page.
pub fn resolve_reshade_setup(l: Lang, html: &str) -> (r: Result<(String, String), String>)
    ensures
        ({
            let link = regex_groups(RESHADE_LINK@, html@);
            &&& r is Ok <==> link is Some && (link->0).1 is Some
            &&& r matches Ok(p) ==> p.0@ == (link->0).1->0 && p.1@ == RESHADE_HOME@ + (link->0).0
            &&& r matches Err(e) ==> e@ == say(l, NO_LINK_EN@, NO_LINK_ZH@)
        }),
{
    reshade_setup(l, first_groups(RESHADE_LINK, html))
}

/// A release whose tag says beta or rc. Upstream does not flag all of them
/// as prereleases, so the name is what the install log goes by.
pub open spec fn tag_is_prerelease(tag: Seq<char>) -> bool {
    contains(lower(tag), "beta"@) || contains(lower(tag), "-rc"@) || contains(
        lower(tag),
        "alpha"@,
    )
}

pub fn is_prerelease_tag(tag: &str) -> (r: bool)
    ensures
        r == tag_is_prerelease(tag@),
{
    let cs = chars(tag);
    let t = lowered(cs.as_slice());
    holds(t.as_slice(), "beta") || holds(t.as_slice(), "-rc") || holds(t.as_slice(), "alpha")
}

/// A tag up to the word that makes it a prerelease, in lower case.
pub open spec fn release_part(tag: Seq<char>) -> Seq<char> {
    before(before(before(lower(tag), "beta"@), "-rc"@), "alpha"@)
}

/// What the text of a tag says of a version: the numbers up to the word that
/// makes it a prerelease, all its numbers, and whether there is such a word.
#[derive(Debug)]
pub struct Version {
    pub release: Vec<u64>,
    pub numbers: Vec<u64>,
    pub prerelease: bool,
}

/// A [`Version`] as numbers.
pub struct Ver {
    pub release: Seq<nat>,
    pub numbers: Seq<nat>,
    pub prerelease: bool,
}

impl View for Version {
    type V = Ver;

    open spec fn view(&self) -> Ver {
        Ver {
            release: naturals(self.release@),
            numbers: naturals(self.numbers@),
            prerelease: self.prerelease,
        }
    }
}

/// The version that a tag names.
pub open spec fn tag_version(tag: Seq<char>) -> Ver {
    Ver {
        release: text_numbers(release_part(tag)),
        numbers: text_numbers(tag),
        prerelease: tag_is_prerelease(tag),
    }
}

/// The numbers rank `a` above `b`: those of the release come after those of
/// `b`'s, or both are of one release and `b` is a prerelease of it, an earlier
/// one where `a` is a prerelease too. A version without numbers is not ranked.
pub open spec fn ranks_above(a: Ver, b: Ver) -> bool {
    if a.release.len() == 0 || b.release.len() == 0 {
        false
    } else if a.release != b.release {
        numbers_less(b.release, a.release)
    } else if a.prerelease && b.prerelease {
        numbers_less(b.numbers, a.numbers)
    } else {
        !a.prerelease && b.prerelease
    }
}

/// A `.SF` build of the DLSS 5 model.
pub open spec fn is_sf_model(tag: Seq<char>) -> bool {
    starts_with(tag, "dlssnr-"@) && is_sf(tag)
}

/// The tag `a` is known to be newer than the tag `b`. A `.SF` build of the
/// DLSS 5 model goes before everything else, as where a release is picked.
pub open spec fn newer(a: Seq<char>, b: Seq<char>) -> bool {
    if is_sf_model(a) != is_sf_model(b) {
        is_sf_model(a)
    } else {
        ranks_above(tag_version(a), tag_version(b))
    }
}

/// The tag `a` is behind the newest tag `b`: it is another one, and not known
/// to be newer.
pub open spec fn behind(a: Seq<char>, b: Seq<char>) -> bool {
    a != b && !newer(a, b)
}

fn release_numbers(tag: &str) -> (r: Vec<u64>)
    ensures
        naturals(r@) == text_numbers(release_part(tag@)),
{
    let cs = chars(tag);
    let t = lowered(cs.as_slice());
    let part = text_before(text_before(text_before(t.as_slice(), "beta"), "-rc"), "alpha");
    let text = string(part);
    numbers_in(text.as_str())
}

/// The version that a tag names.
pub fn version_of(tag: &str) -> (r: Version)
    ensures
        r@ == tag_version(tag@),
{
    Version {
        release: release_numbers(tag),
        numbers: numbers_in(tag),
        prerelease: is_prerelease_tag(tag),
    }
}

impl Version {
    /// Whether the numbers rank this version above `b`.
    pub fn is_above(&self, b: &Version) -> (r: bool)
        ensures
            r == ranks_above(self@, b@),
    {
        if self.release.len() == 0 || b.release.len() == 0 {
            false
        } else if !same_key(&self.release, &b.release) {
            numbers_before(&b.release, &self.release)
        } else if self.prerelease && b.prerelease {
            numbers_before(&b.numbers, &self.numbers)
        } else {
            !self.prerelease && b.prerelease
        }
    }
}

fn sf_model(tag: &str) -> (r: bool)
    ensures
        r == is_sf_model(tag@),
{
    begins(chars(tag).as_slice(), "dlssnr-") && sf(tag)
}

/// Whether the tag `a` is known to be newer than the tag `b`.
pub fn is_newer(a: &str, b: &str) -> (r: bool)
    ensures
        r == newer(a@, b@),
{
    let x = sf_model(a);
    if x != sf_model(b) {
        x
    } else {
        version_of(a).is_above(&version_of(b))
    }
}

/// Whether the tag `a` is behind the newest tag `b`.
pub fn is_behind(a: &str, b: &str) -> (r: bool)
    ensures
        r == behind(a@, b@),
{
    !same(a, b) && !is_newer(a, b)
}

// ── laws ───────────────────────────────────────────────────────────

proof fn lemma_rank_trans(a: Ver, b: Ver, c: Ver)
    ensures
        ranks_above(a, b) && ranks_above(b, c) ==> ranks_above(a, c),
        !ranks_above(a, a),
{
    lemma_numbers_trans(c.release, b.release, a.release);
    lemma_numbers_trans(b.release, a.release, b.release);
    lemma_numbers_trans(c.release, b.release, c.release);
    lemma_numbers_trans(a.release, a.release, a.release);
    lemma_numbers_trans(c.numbers, b.numbers, a.numbers);
    lemma_numbers_trans(a.numbers, a.numbers, a.numbers);
}

/// Being newer is an order: no tag is newer than itself, of two tags at most
/// one is newer than the other, and what is newer than a newer tag is newer.
pub proof fn law_newer_is_an_order(a: Seq<char>, b: Seq<char>, c: Seq<char>)
    ensures
        !newer(a, a),
        newer(a, b) ==> !newer(b, a),
        newer(a, b) && newer(b, c) ==> newer(a, c),
{
    let (x, y, z) = (tag_version(a), tag_version(b), tag_version(c));
    lemma_rank_trans(x, y, z);
    lemma_rank_trans(x, y, x);
}

/// Of two different tags that the numbers cannot rank each is behind the other:
/// both without a `.SF` build or both with one, and one has no numbers, or the
/// numbers are the same and both or neither are prereleases.
pub proof fn law_unranked_tags_are_behind(a: Seq<char>, b: Seq<char>)
    requires
        a != b,
        is_sf_model(a) == is_sf_model(b),
        ({
            let (x, y) = (tag_version(a), tag_version(b));
            ||| x.release.len() == 0
            ||| y.release.len() == 0
            ||| x.release == y.release && x.numbers == y.numbers && x.prerelease == y.prerelease
        }),
    ensures
        behind(a, b),
        behind(b, a),
{
    lemma_rank_trans(tag_version(a), tag_version(a), tag_version(a));
    lemma_rank_trans(tag_version(b), tag_version(b), tag_version(b));
}

/// A build of the DLSS 5 model that is not a `.SF` one is behind every `.SF`
/// build, whatever its numbers; no `.SF` build is behind it.
pub proof fn law_sf_build_goes_first(a: Seq<char>, b: Seq<char>)
    requires
        !is_sf_model(a),
        is_sf_model(b),
    ensures
        behind(a, b),
        !behind(b, a),
{
}

proof fn lemma_cand_trans(a: Cand, b: Cand, c: Cand)
    ensures
        cand_less(a, b) && cand_less(b, c) ==> cand_less(a, c),
        !cand_less(a, a),
{
    lemma_numbers_trans(a.key, b.key, c.key);
    lemma_numbers_trans(a.key, b.key, a.key);
    lemma_numbers_trans(b.key, c.key, b.key);
    lemma_text_trans(a.tag, b.tag, c.tag);
    lemma_text_trans(a.tag, b.tag, a.tag);
    lemma_text_trans(b.tag, c.tag, b.tag);
    lemma_text_trans(a.url, b.url, c.url);
}

proof fn lemma_text_trans(a: Seq<char>, b: Seq<char>, c: Seq<char>)
    ensures
        text_less(a, b) && text_less(b, c) ==> text_less(a, c),
        !text_less(a, a),
{
    lemma_less_trans(a, b, c);
    lemma_less_trans(b, c, b);
    lemma_less_trans(a, a, a);
}

/// The greatest candidate is one of them, and none comes after it.
pub proof fn law_greatest_is_the_last_in_order(v: Seq<Cand>)
    requires
        v.len() > 0,
    ensures
        v.contains(greatest(v)),
        forall|i: int| 0 <= i < v.len() ==> !cand_less(greatest(v), #[trigger] v[i]),
    decreases v.len(),
{
    if v.len() == 1 {
        assert(v[0] == greatest(v));
        lemma_cand_trans(v[0], v[0], v[0]);
    } else {
        let u = v.drop_last();
        let last = v.last();
        law_greatest_is_the_last_in_order(u);
        let g = greatest(u);
        let k = choose|k: int| 0 <= k < u.len() && u[k] == g;
        assert(v[k] == g);
        assert(v[v.len() - 1] == last);
        assert forall|i: int| 0 <= i < v.len() implies !cand_less(greatest(v), #[trigger] v[i]) by {
            if i < u.len() {
                assert(v[i] == u[i]);
                lemma_cand_trans(g, last, v[i]);
            } else {
                lemma_cand_trans(last, last, last);
            }
        }
    }
}

proof fn lemma_filter_keeps(v: Seq<Cand>, f: spec_fn(Cand) -> bool)
    ensures
        forall|i: int|
            0 <= i < v.filter(f).len() ==> v.contains(#[trigger] v.filter(f)[i]),
    decreases v.len(),
{
    reveal(Seq::filter);
    if v.len() > 0 {
        let u = v.drop_last();
        lemma_filter_keeps(u, f);
        assert forall|i: int| 0 <= i < v.filter(f).len() implies v.contains(
            #[trigger] v.filter(f)[i],
        ) by {
            if i < u.filter(f).len() {
                let x = u.filter(f)[i];
                assert(v.filter(f)[i] == x);
                let k = choose|k: int| 0 <= k < u.len() && u[k] == x;
                assert(v[k] == x);
            } else {
                assert(v[v.len() - 1] == v.last());
            }
        }
    }
}

/// The release that is taken is a candidate, and no newer one is passed over:
/// for the DLSS 5 model it is a `.SF` build where there is one, and then no
/// `.SF` build is newer; for everything else no candidate is.
pub proof fn law_best_is_the_newest(v: Seq<Cand>)
    requires
        v.len() > 0,
    ensures
        v.contains(best(v)),
        has_sf_model(v) ==> is_sf(best(v).tag),
        forall|i: int|
            0 <= i < v.len() && (has_sf_model(v) ==> is_sf((#[trigger] v[i]).tag)) ==> !cand_less(
                best(v),
                v[i],
            ),
{
    let only_sf = has_sf_model(v);
    let f = |c: Cand| !only_sf || is_sf(c.tag);
    lemma_eligible(v, f, only_sf);
    let e = eligible(v);
    law_greatest_is_the_last_in_order(e);
    let k = choose|k: int| 0 <= k < e.len() && e[k] == best(v);
    v.lemma_filter_pred(f, k);
    lemma_filter_keeps(v, f);
    assert(v.contains(v.filter(f)[k]));
    assert forall|i: int|
        0 <= i < v.len() && (has_sf_model(v) ==> is_sf((#[trigger] v[i]).tag)) implies !cand_less(
        best(v),
        v[i],
    ) by {
        assert(f(v[i]));
        v.lemma_filter_contains(f, i);
        let j = choose|j: int| 0 <= j < e.len() && e[j] == v[i];
        assert(!cand_less(best(v), e[j]));
    }
}

/// The releases of one component never answer for another: what is picked has
/// a tag of the component, the prefix with a digit behind it.
pub proof fn law_picked_release_is_of_the_component(releases: Seq<Json>, prefix: Seq<char>)
    requires
        candidates_of(releases, prefix).len() > 0,
    ensures
        is_tag_of(best(candidates_of(releases, prefix)).tag, prefix),
{
    let v = candidates_of(releases, prefix);
    lemma_candidates(releases, prefix);
    law_best_is_the_newest(v);
    let k = choose|k: int| 0 <= k < v.len() && v[k] == best(v);
    assert(is_tag_of(v[k].tag, prefix));
}

/// Where the releases page gives tags that start with the prefix, the newest one
/// is of the component too: a digit follows the prefix.
pub proof fn law_newest_tag_is_of_the_component(tags: Seq<Seq<char>>, prefix: Seq<char>)
    requires
        forall|i: int| 0 <= i < tags.len() ==> starts_with(#[trigger] tags[i], prefix),
        tag_candidates(tags, prefix).len() > 0,
    ensures
        is_tag_of(best(tag_candidates(tags, prefix)).tag, prefix),
        tags.contains(best(tag_candidates(tags, prefix)).tag),
{
    let v = tag_candidates(tags, prefix);
    lemma_tag_candidates(tags, prefix);
    law_best_is_the_newest(v);
    let k = choose|k: int| 0 <= k < v.len() && v[k] == best(v);
    assert(is_tag_of(v[k].tag, prefix));
}

proof fn lemma_tag_candidates(tags: Seq<Seq<char>>, prefix: Seq<char>)
    requires
        forall|i: int| 0 <= i < tags.len() ==> starts_with(#[trigger] tags[i], prefix),
    ensures
        forall|i: int|
            0 <= i < tag_candidates(tags, prefix).len() ==> is_tag_of(
                (#[trigger] tag_candidates(tags, prefix)[i]).tag,
                prefix,
            ) && tags.contains(tag_candidates(tags, prefix)[i].tag),
    decreases tags.len(),
{
    if tags.len() > 0 {
        let v = tag_candidates(tags, prefix);
        let u = tag_candidates(tags.drop_last(), prefix);
        assert forall|i: int| 0 <= i < tags.drop_last().len() implies starts_with(
            #[trigger] tags.drop_last()[i],
            prefix,
        ) by {
            assert(starts_with(tags[i], prefix));
        }
        lemma_tag_candidates(tags.drop_last(), prefix);
        assert forall|i: int| 0 <= i < v.len() implies is_tag_of((#[trigger] v[i]).tag, prefix)
            && tags.contains(v[i].tag) by {
            if i < u.len() {
                assert(v[i] == u[i]);
                let k = choose|k: int|
                    0 <= k < tags.drop_last().len() && tags.drop_last()[k] == u[i].tag;
                assert(tags[k] == v[i].tag);
            } else {
                assert(v[i].tag == tags[tags.len() - 1]);
                lemma_prefix_cuts(v[i].tag, prefix);
            }
        }
    }
}

proof fn lemma_candidates(releases: Seq<Json>, prefix: Seq<char>)
    ensures
        forall|i: int|
            0 <= i < candidates_of(releases, prefix).len() ==> is_tag_of(
                (#[trigger] candidates_of(releases, prefix)[i]).tag,
                prefix,
            ),
    decreases releases.len(),
{
    if releases.len() > 0 {
        let v = candidates_of(releases, prefix);
        let u = candidates_of(releases.drop_last(), prefix);
        lemma_candidates(releases.drop_last(), prefix);
        assert forall|i: int| 0 <= i < v.len() implies is_tag_of((#[trigger] v[i]).tag, prefix) by {
            if i < u.len() {
                assert(v[i] == u[i]);
            } else {
                assert(candidate_of(releases.last(), prefix) == Some(v[i]));
            }
        }
    }
}

} // verus!
