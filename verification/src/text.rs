//! Text as sequences of characters: the comparisons, searches and trims that
//! the rest of the library is written in.
//!
//! A `&str` is turned into a `Vec<char>` once (`chars`) and worked on as
//! `&[char]`; `string` turns the result back.
use vstd::prelude::*;
use vstd::slice::slice_subrange;

verus! {

/// Unicode `White_Space`, the class that `char::is_whitespace` tests.
pub open spec fn is_space(c: char) -> bool {
    ||| '\u{9}' <= c <= '\u{d}'
    ||| c == '\u{20}'
    ||| c == '\u{85}'
    ||| c == '\u{a0}'
    ||| c == '\u{1680}'
    ||| '\u{2000}' <= c <= '\u{200a}'
    ||| c == '\u{2028}'
    ||| c == '\u{2029}'
    ||| c == '\u{202f}'
    ||| c == '\u{205f}'
    ||| c == '\u{3000}'
}

pub open spec fn is_digit(c: char) -> bool {
    '0' <= c <= '9'
}

/// The ASCII lower-case form of a character; every other character is itself.
pub open spec fn lower_char(c: char) -> char {
    if 'A' <= c <= 'Z' {
        ((c as u8) + 32) as u8 as char
    } else {
        c
    }
}

/// The ASCII upper-case form of a character; every other character is itself.
pub open spec fn upper_char(c: char) -> char {
    if 'a' <= c <= 'z' {
        ((c as u8) - 32) as u8 as char
    } else {
        c
    }
}

pub open spec fn lower(s: Seq<char>) -> Seq<char> {
    Seq::new(s.len(), |i: int| lower_char(s[i]))
}

pub open spec fn upper(s: Seq<char>) -> Seq<char> {
    Seq::new(s.len(), |i: int| upper_char(s[i]))
}

/// Equal but for ASCII case.
pub open spec fn same_nocase(a: Seq<char>, b: Seq<char>) -> bool {
    lower(a) == lower(b)
}

pub open spec fn trim_start(s: Seq<char>) -> Seq<char>
    decreases s.len(),
{
    if s.len() > 0 && is_space(s[0]) {
        trim_start(s.drop_first())
    } else {
        s
    }
}

pub open spec fn trim_end(s: Seq<char>) -> Seq<char>
    decreases s.len(),
{
    if s.len() > 0 && is_space(s.last()) {
        trim_end(s.drop_last())
    } else {
        s
    }
}

/// The text without leading and trailing white space.
pub open spec fn trim(s: Seq<char>) -> Seq<char> {
    trim_end(trim_start(s))
}

/// The text without its trailing run of the characters `a` and `b`.
pub open spec fn trim_end_of(s: Seq<char>, a: char, b: char) -> Seq<char>
    decreases s.len(),
{
    if s.len() > 0 && (s.last() == a || s.last() == b) {
        trim_end_of(s.drop_last(), a, b)
    } else {
        s
    }
}

pub open spec fn occurs_at(s: Seq<char>, p: Seq<char>, i: int) -> bool {
    &&& 0 <= i
    &&& i + p.len() <= s.len()
    &&& s.subrange(i, i + p.len()) == p
}

pub open spec fn contains(s: Seq<char>, p: Seq<char>) -> bool {
    exists|i: int| occurs_at(s, p, i)
}

pub open spec fn starts_with(s: Seq<char>, p: Seq<char>) -> bool {
    occurs_at(s, p, 0)
}

pub open spec fn ends_with(s: Seq<char>, p: Seq<char>) -> bool {
    occurs_at(s, p, s.len() - p.len())
}

/// The first position from `i` on at which `p` occurs.
pub open spec fn find_from(s: Seq<char>, p: Seq<char>, i: int) -> Option<int>
    decreases s.len() + 1 - i,
{
    if i < 0 || i + p.len() > s.len() {
        None
    } else if occurs_at(s, p, i) {
        Some(i)
    } else {
        find_from(s, p, i + 1)
    }
}

/// The first position at which `p` occurs.
pub open spec fn find(s: Seq<char>, p: Seq<char>) -> Option<int> {
    find_from(s, p, 0)
}

/// The last position up to `i` at which `p` occurs.
pub open spec fn rfind_from(s: Seq<char>, p: Seq<char>, i: int) -> Option<int>
    decreases i + 1,
{
    if i < 0 {
        None
    } else if occurs_at(s, p, i) {
        Some(i)
    } else {
        rfind_from(s, p, i - 1)
    }
}

/// The last position at which `p` occurs.
pub open spec fn rfind(s: Seq<char>, p: Seq<char>) -> Option<int> {
    rfind_from(s, p, s.len() - p.len())
}

/// The text after the first occurrence of `p`.
pub open spec fn after(s: Seq<char>, p: Seq<char>) -> Option<Seq<char>> {
    match find(s, p) {
        Some(i) => Some(s.skip(i + p.len())),
        None => None,
    }
}

/// The text before the first occurrence of `p`, all of it where there is none.
pub open spec fn before(s: Seq<char>, p: Seq<char>) -> Seq<char> {
    match find(s, p) {
        Some(i) => s.take(i),
        None => s,
    }
}

/// The text after the last occurrence of `p`, all of it where there is none.
pub open spec fn after_last(s: Seq<char>, p: Seq<char>) -> Seq<char> {
    match rfind(s, p) {
        Some(i) => s.skip(i + p.len()),
        None => s,
    }
}

/// The position of the first `c`, the length where there is none.
pub open spec fn position(s: Seq<char>, c: char) -> int
    decreases s.len(),
{
    if s.len() == 0 || s[0] == c {
        0
    } else {
        1 + position(s.drop_first(), c)
    }
}

/// The text before the first `c`, all of it where there is none.
pub open spec fn head(s: Seq<char>, c: char) -> Seq<char> {
    s.take(position(s, c))
}

/// The text after the first `c`.
pub open spec fn rest(s: Seq<char>, c: char) -> Option<Seq<char>> {
    if position(s, c) < s.len() {
        Some(s.skip(position(s, c) + 1))
    } else {
        None
    }
}

/// The text between the first and the second `c` (to the end where there is
/// no second one).
pub open spec fn second(s: Seq<char>, c: char) -> Option<Seq<char>> {
    match rest(s, c) {
        Some(r) => Some(head(r, c)),
        None => None,
    }
}

/// Every occurrence of `from`, found from the left and without overlap,
/// replaced by `to`.
pub open spec fn replace(s: Seq<char>, from: Seq<char>, to: Seq<char>) -> Seq<char>
    decreases s.len(),
{
    match find(s, from) {
        Some(i) => if from.len() > 0 && 0 <= i && i + from.len() <= s.len() {
            s.take(i) + to + replace(s.skip(i + from.len()), from, to)
        } else {
            s
        },
        None => s,
    }
}

/// Every character `a` replaced by `b`.
pub open spec fn replace_char(s: Seq<char>, a: char, b: char) -> Seq<char> {
    Seq::new(s.len(), |i: int| if s[i] == a { b } else { s[i] })
}

/// Code-point order, shorter first among prefixes: the order of `str`.
pub open spec fn text_less(a: Seq<char>, b: Seq<char>) -> bool
    decreases a.len(),
{
    if b.len() == 0 {
        false
    } else if a.len() == 0 {
        true
    } else if a[0] != b[0] {
        a[0] < b[0]
    } else {
        text_less(a.drop_first(), b.drop_first())
    }
}

/// The texts of a list of strings.
pub open spec fn texts(v: Seq<String>) -> Seq<Seq<char>> {
    Seq::new(v.len(), |i: int| v[i]@)
}

/// The texts of a list of character vectors.
pub open spec fn rows(v: Seq<Vec<char>>) -> Seq<Seq<char>> {
    Seq::new(v.len(), |i: int| v[i]@)
}

/// The text of an optional string.
pub open spec fn opt_text(o: Option<String>) -> Option<Seq<char>> {
    match o {
        Some(s) => Some(s@),
        None => None,
    }
}

pub open spec fn opt_str(o: Option<&str>) -> Option<Seq<char>> {
    match o {
        Some(t) => Some(t@),
        None => None,
    }
}

// ── facts about the definitions ────────────────────────────────────

pub proof fn lemma_find_from(s: Seq<char>, p: Seq<char>, i: int)
    requires
        0 <= i,
    ensures
        match find_from(s, p, i) {
            Some(k) => i <= k && occurs_at(s, p, k) && forall|j: int|
                i <= j < k ==> !occurs_at(s, p, j),
            None => forall|j: int| i <= j ==> !occurs_at(s, p, j),
        },
    decreases s.len() + 1 - i,
{
    if i + p.len() <= s.len() && !occurs_at(s, p, i) {
        lemma_find_from(s, p, i + 1);
    }
}

pub proof fn lemma_find(s: Seq<char>, p: Seq<char>)
    ensures
        contains(s, p) <==> find(s, p) is Some,
        find(s, p) matches Some(k) ==> occurs_at(s, p, k) && forall|j: int|
            0 <= j < k ==> !occurs_at(s, p, j),
{
    lemma_find_from(s, p, 0);
    if contains(s, p) {
        let i = choose|i: int| occurs_at(s, p, i);
        assert(occurs_at(s, p, i));
    }
}

pub proof fn lemma_rfind_from(s: Seq<char>, p: Seq<char>, i: int)
    ensures
        match rfind_from(s, p, i) {
            Some(k) => k <= i && occurs_at(s, p, k) && forall|j: int|
                k < j <= i ==> !occurs_at(s, p, j),
            None => forall|j: int| j <= i ==> !occurs_at(s, p, j),
        },
    decreases i + 1,
{
    if i >= 0 && !occurs_at(s, p, i) {
        lemma_rfind_from(s, p, i - 1);
    }
}

pub proof fn lemma_position(s: Seq<char>, c: char)
    ensures
        0 <= position(s, c) <= s.len(),
        position(s, c) < s.len() ==> s[position(s, c)] == c,
        forall|j: int| 0 <= j < position(s, c) ==> s[j] != c,
    decreases s.len(),
{
    if s.len() > 0 && s[0] != c {
        lemma_position(s.drop_first(), c);
        assert forall|j: int| 0 <= j < position(s, c) implies s[j] != c by {
            if j > 0 {
                assert(s.drop_first()[j - 1] == s[j]);
            }
        }
    }
}

pub proof fn lemma_position_is(s: Seq<char>, c: char, k: int)
    requires
        0 <= k <= s.len(),
        k < s.len() ==> s[k] == c,
        forall|j: int| 0 <= j < k ==> s[j] != c,
    ensures
        position(s, c) == k,
{
    lemma_position(s, c);
}

pub proof fn lemma_trim_start(s: Seq<char>, k: int)
    requires
        0 <= k <= s.len(),
        forall|j: int| 0 <= j < k ==> is_space(s[j]),
        k < s.len() ==> !is_space(s[k]),
    ensures
        trim_start(s) == s.skip(k),
    decreases k,
{
    if k > 0 {
        lemma_trim_start(s.drop_first(), k - 1);
        assert(s.drop_first().skip(k - 1) =~= s.skip(k));
    } else {
        assert(s.skip(0) =~= s);
    }
}

pub proof fn lemma_trim_end(s: Seq<char>, k: int)
    requires
        0 <= k <= s.len(),
        forall|j: int| k <= j < s.len() ==> is_space(s[j]),
        0 < k ==> !is_space(s[k - 1]),
    ensures
        trim_end(s) == s.take(k),
    decreases s.len() - k,
{
    if k < s.len() {
        lemma_trim_end(s.drop_last(), k);
        assert(s.drop_last().take(k) =~= s.take(k));
    } else {
        assert(s.take(k) =~= s);
    }
}

pub proof fn lemma_trim_end_of(s: Seq<char>, a: char, b: char, k: int)
    requires
        0 <= k <= s.len(),
        forall|j: int| k <= j < s.len() ==> s[j] == a || s[j] == b,
        0 < k ==> s[k - 1] != a && s[k - 1] != b,
    ensures
        trim_end_of(s, a, b) == s.take(k),
    decreases s.len() - k,
{
    if k < s.len() {
        lemma_trim_end_of(s.drop_last(), a, b, k);
        assert(s.drop_last().take(k) =~= s.take(k));
    } else {
        assert(s.take(k) =~= s);
    }
}

pub proof fn lemma_trim_end_of_shape(s: Seq<char>, a: char, b: char)
    ensures
        trim_end_of(s, a, b).len() <= s.len(),
        trim_end_of(s, a, b) == s.take(trim_end_of(s, a, b).len() as int),
        forall|j: int| trim_end_of(s, a, b).len() <= j < s.len() ==> s[j] == a || s[j] == b,
        trim_end_of(s, a, b).len() > 0 ==> trim_end_of(s, a, b).last() != a && trim_end_of(
            s,
            a,
            b,
        ).last() != b,
    decreases s.len(),
{
    if s.len() > 0 && (s.last() == a || s.last() == b) {
        let t = s.drop_last();
        lemma_trim_end_of_shape(t, a, b);
        assert forall|j: int| trim_end_of(s, a, b).len() <= j < s.len() implies s[j] == a || s[j]
            == b by {
            if j < t.len() {
                assert(t[j] == s[j]);
            }
        }
        assert(t.take(trim_end_of(t, a, b).len() as int) =~= s.take(
            trim_end_of(s, a, b).len() as int,
        ));
    } else {
        assert(s.take(s.len() as int) =~= s);
    }
}

/// A text that neither starts nor ends with white space is its own trim.
pub proof fn lemma_trim_is(s: Seq<char>)
    requires
        s.len() > 0 ==> !is_space(s[0]) && !is_space(s.last()),
    ensures
        trim(s) == s,
{
}

pub proof fn lemma_trim_end_shape(s: Seq<char>)
    ensures
        trim_end(s).len() <= s.len(),
        trim_end(s) == s.take(trim_end(s).len() as int),
        forall|j: int| trim_end(s).len() <= j < s.len() ==> is_space(s[j]),
        trim_end(s).len() > 0 ==> !is_space(trim_end(s).last()),
    decreases s.len(),
{
    if s.len() > 0 && is_space(s.last()) {
        let t = s.drop_last();
        lemma_trim_end_shape(t);
        assert forall|j: int| trim_end(s).len() <= j < s.len() implies is_space(s[j]) by {
            if j < t.len() {
                assert(t[j] == s[j]);
            }
        }
        assert(t.take(trim_end(t).len() as int) =~= s.take(trim_end(s).len() as int));
    } else {
        assert(s.take(s.len() as int) =~= s);
    }
}

pub proof fn lemma_trim_start_shape(s: Seq<char>)
    ensures
        trim_start(s).len() <= s.len(),
        trim_start(s) == s.skip(s.len() - trim_start(s).len()),
        forall|j: int| 0 <= j < s.len() - trim_start(s).len() ==> is_space(s[j]),
        trim_start(s).len() > 0 ==> !is_space(trim_start(s)[0]),
    decreases s.len(),
{
    if s.len() > 0 && is_space(s[0]) {
        let t = s.drop_first();
        lemma_trim_start_shape(t);
        assert forall|j: int| 0 <= j < s.len() - trim_start(s).len() implies is_space(s[j]) by {
            if j > 0 {
                assert(t[j - 1] == s[j]);
            }
        }
        assert(t.skip(t.len() - trim_start(t).len()) =~= s.skip(s.len() - trim_start(s).len()));
    } else {
        assert(s.skip(0) =~= s);
    }
}

/// A trimmed text neither starts nor ends with white space, and is a run of
/// the text.
pub proof fn lemma_trim_shape(s: Seq<char>)
    ensures
        trim(s).len() > 0 ==> !is_space(trim(s)[0]) && !is_space(trim(s).last()),
        trim(trim(s)) == trim(s),
        exists|i: int|
            0 <= i && i + trim(s).len() <= s.len() && trim(s) == #[trigger] s.subrange(
                i,
                i + trim(s).len(),
            ),
{
    lemma_trim_start_shape(s);
    lemma_trim_end_shape(trim_start(s));
    lemma_trim_is(trim(s));
    let i = s.len() - trim_start(s).len();
    assert(trim(s) =~= s.subrange(i, i + trim(s).len()));
}

// ── the executable side ────────────────────────────────────────────

/// The characters of a string.
pub fn chars(s: &str) -> (r: Vec<char>)
    ensures
        r@ == s@,
{
    let mut out: Vec<char> = Vec::new();
    for c in it: s.chars()
        invariant
            out@ == s@.take(it.index() as int),
            it.seq() == s@,
    {
        out.push(c);
    }
    out
}

/// The string of a run of characters.
pub fn string(s: &[char]) -> (r: String)
    ensures
        r@ == s@,
{
    let mut out = String::new();
    let mut i: usize = 0;
    while i < s.len()
        invariant
            i <= s@.len(),
            out@ == s@.take(i as int),
        decreases s@.len() - i,
    {
        out.push(s[i]);
        i = i + 1;
    }
    out
}

/// A copy of a run of characters.
pub fn copied(s: &[char]) -> (r: Vec<char>)
    ensures
        r@ == s@,
{
    let mut out: Vec<char> = Vec::new();
    let mut i: usize = 0;
    while i < s.len()
        invariant
            i <= s@.len(),
            out@ == s@.take(i as int),
        decreases s@.len() - i,
    {
        out.push(s[i]);
        i = i + 1;
    }
    out
}

/// Appends a run of characters.
pub fn put(out: &mut Vec<char>, s: &[char])
    ensures
        final(out)@ == old(out)@ + s@,
{
    let mut i: usize = 0;
    while i < s.len()
        invariant
            i <= s@.len(),
            out@ == old(out)@ + s@.take(i as int),
        decreases s@.len() - i,
    {
        out.push(s[i]);
        i = i + 1;
    }
    assert(s@.take(s@.len() as int) =~= s@);
}

/// Appends a string.
pub fn put_str(out: &mut Vec<char>, s: &str)
    ensures
        final(out)@ == old(out)@ + s@,
{
    put(out, chars(s).as_slice());
}

pub fn whitespace(c: char) -> (r: bool)
    ensures
        r == is_space(c),
{
    ('\u{9}' <= c && c <= '\u{d}') || c == '\u{20}' || c == '\u{85}' || c == '\u{a0}' || c
        == '\u{1680}' || ('\u{2000}' <= c && c <= '\u{200a}') || c == '\u{2028}' || c == '\u{2029}'
        || c == '\u{202f}' || c == '\u{205f}' || c == '\u{3000}'
}

pub fn lowered_char(c: char) -> (r: char)
    ensures
        r == lower_char(c),
{
    if 'A' <= c && c <= 'Z' {
        (c as u8 + 32) as char
    } else {
        c
    }
}

/// The ASCII lower-case form of a text (`to_ascii_lowercase`).
pub fn lowered(s: &[char]) -> (r: Vec<char>)
    ensures
        r@ == lower(s@),
{
    let mut out: Vec<char> = Vec::new();
    let mut i: usize = 0;
    while i < s.len()
        invariant
            i <= s@.len(),
            out@ == lower(s@).take(i as int),
        decreases s@.len() - i,
    {
        out.push(lowered_char(s[i]));
        i = i + 1;
    }
    out
}

/// The ASCII upper-case form of a text (`to_ascii_uppercase`).
pub fn uppered(s: &[char]) -> (r: Vec<char>)
    ensures
        r@ == upper(s@),
{
    let mut out: Vec<char> = Vec::new();
    let mut i: usize = 0;
    while i < s.len()
        invariant
            i <= s@.len(),
            out@ == upper(s@).take(i as int),
        decreases s@.len() - i,
    {
        let c = s[i];
        if 'a' <= c && c <= 'z' {
            out.push((c as u8 - 32) as char);
        } else {
            out.push(c);
        }
        i = i + 1;
    }
    out
}

pub fn equal(a: &[char], b: &[char]) -> (r: bool)
    ensures
        r == (a@ == b@),
{
    if a.len() != b.len() {
        return false;
    }
    let mut i: usize = 0;
    while i < a.len()
        invariant
            i <= a@.len(),
            a@.len() == b@.len(),
            forall|j: int| 0 <= j < i ==> a@[j] == b@[j],
        decreases a@.len() - i,
    {
        if a[i] != b[i] {
            return false;
        }
        i = i + 1;
    }
    assert(a@ =~= b@);
    true
}

/// The text is `b`.
pub fn equals(a: &[char], b: &str) -> (r: bool)
    ensures
        r == (a@ == b@),
{
    equal(a, chars(b).as_slice())
}

pub fn same(a: &str, b: &str) -> (r: bool)
    ensures
        r == (a@ == b@),
{
    equal(chars(a).as_slice(), chars(b).as_slice())
}

/// `eq_ignore_ascii_case`.
pub fn equal_nocase(a: &[char], b: &str) -> (r: bool)
    ensures
        r == same_nocase(a@, b@),
{
    let x = lowered(a);
    let y = lowered(chars(b).as_slice());
    equal(x.as_slice(), y.as_slice())
}

/// The text with trailing white space removed.
pub fn trimmed_end(s: &[char]) -> (r: &[char])
    ensures
        r@ == trim_end(s@),
{
    let mut k: usize = s.len();
    while k > 0 && whitespace(s[k - 1])
        invariant
            k <= s@.len(),
            forall|j: int| k <= j < s@.len() ==> is_space(s@[j]),
        decreases k,
    {
        k = k - 1;
    }
    proof {
        lemma_trim_end(s@, k as int);
    }
    slice_subrange(s, 0, k)
}

/// The text with leading and trailing white space removed.
pub fn trimmed(s: &[char]) -> (r: &[char])
    ensures
        r@ == trim(s@),
{
    let mut k: usize = 0;
    while k < s.len() && whitespace(s[k])
        invariant
            k <= s@.len(),
            forall|j: int| 0 <= j < k ==> is_space(s@[j]),
        decreases s@.len() - k,
    {
        k = k + 1;
    }
    proof {
        lemma_trim_start(s@, k as int);
        assert(s@.subrange(k as int, s@.len() as int) =~= s@.skip(k as int));
    }
    trimmed_end(slice_subrange(s, k, s.len()))
}

/// `trim_end_matches` of two characters.
pub fn trimmed_end_of(s: &[char], a: char, b: char) -> (r: &[char])
    ensures
        r@ == trim_end_of(s@, a, b),
        r@.len() <= s@.len(),
        r@ == s@.take(r@.len() as int),
{
    let mut k: usize = s.len();
    while k > 0 && (s[k - 1] == a || s[k - 1] == b)
        invariant
            k <= s@.len(),
            forall|j: int| k <= j < s@.len() ==> s@[j] == a || s@[j] == b,
        decreases k,
    {
        k = k - 1;
    }
    proof {
        lemma_trim_end_of(s@, a, b, k as int);
    }
    slice_subrange(s, 0, k)
}

/// `p` stands in `s` at position `i`.
pub fn matches_at(s: &[char], p: &[char], i: usize) -> (r: bool)
    ensures
        r == occurs_at(s@, p@, i as int),
{
    let n: usize = s.len();
    if i > n || n - i < p.len() {
        return false;
    }
    let mut k: usize = 0;
    while k < p.len()
        invariant
            k <= p@.len(),
            i + p@.len() <= s@.len() == n,
            forall|j: int| 0 <= j < k ==> s@[i + j] == p@[j],
        decreases p@.len() - k,
    {
        if s[i + k] != p[k] {
            assert(s@.subrange(i as int, i + p@.len())[k as int] != p@[k as int]);
            return false;
        }
        k = k + 1;
    }
    assert(s@.subrange(i as int, i + p@.len()) =~= p@);
    true
}

/// The first position of `p` in `s`.
pub fn found(s: &[char], p: &str) -> (r: Option<usize>)
    ensures
        match r {
            Some(i) => find(s@, p@) == Some(i as int) && i + p@.len() <= s@.len(),
            None => find(s@, p@) is None,
        },
        r is Some <==> contains(s@, p@),
{
    let pat = chars(p);
    proof {
        lemma_find(s@, p@);
    }
    if pat.len() > s.len() {
        return None;
    }
    let last: usize = s.len() - pat.len();
    let mut i: usize = 0;
    loop
        invariant
            pat@ == p@,
            i <= last,
            last + p@.len() == s@.len(),
            find_from(s@, p@, i as int) == find(s@, p@),
            contains(s@, p@) <==> find(s@, p@) is Some,
        decreases last - i,
    {
        if matches_at(s, pat.as_slice(), i) {
            return Some(i);
        }
        if i == last {
            assert(find_from(s@, p@, i + 1) is None);
            return None;
        }
        i = i + 1;
    }
}

/// The last position of `p` in `s`.
pub fn found_last(s: &[char], p: &str) -> (r: Option<usize>)
    ensures
        match r {
            Some(i) => rfind(s@, p@) == Some(i as int) && i + p@.len() <= s@.len(),
            None => rfind(s@, p@) is None,
        },
{
    let pat = chars(p);
    if pat.len() > s.len() {
        return None;
    }
    let mut i: usize = s.len() - pat.len();
    loop
        invariant
            pat@ == p@,
            i + p@.len() <= s@.len(),
            rfind_from(s@, p@, i as int) == rfind(s@, p@),
        decreases i,
    {
        if matches_at(s, pat.as_slice(), i) {
            return Some(i);
        }
        if i == 0 {
            assert(rfind_from(s@, p@, -1) is None);
            return None;
        }
        i = i - 1;
    }
}

pub fn holds(s: &[char], p: &str) -> (r: bool)
    ensures
        r == contains(s@, p@),
{
    found(s, p).is_some()
}

pub fn begins(s: &[char], p: &str) -> (r: bool)
    ensures
        r == starts_with(s@, p@),
{
    matches_at(s, chars(p).as_slice(), 0)
}

pub fn ends(s: &[char], p: &str) -> (r: bool)
    ensures
        r == ends_with(s@, p@),
{
    let pat = chars(p);
    if pat.len() > s.len() {
        return false;
    }
    matches_at(s, pat.as_slice(), s.len() - pat.len())
}

pub fn text_after<'a>(s: &'a [char], p: &str) -> (r: Option<&'a [char]>)
    ensures
        match r {
            Some(t) => after(s@, p@) == Some(t@),
            None => after(s@, p@) is None,
        },
{
    match found(s, p) {
        Some(i) => {
            let end: usize = s.len();
            let n: usize = chars(p).len();
            let t = slice_subrange(s, i + n, end);
            assert(t@ =~= s@.skip(i + n));
            Some(t)
        },
        None => None,
    }
}

pub fn text_before<'a>(s: &'a [char], p: &str) -> (r: &'a [char])
    ensures
        r@ == before(s@, p@),
{
    match found(s, p) {
        Some(i) => {
            let t = slice_subrange(s, 0, i);
            assert(t@ =~= s@.take(i as int));
            t
        },
        None => s,
    }
}

pub fn text_after_last<'a>(s: &'a [char], p: &str) -> (r: &'a [char])
    ensures
        r@ == after_last(s@, p@),
{
    match found_last(s, p) {
        Some(i) => {
            let end: usize = s.len();
            let n: usize = chars(p).len();
            let t = slice_subrange(s, i + n, end);
            assert(t@ =~= s@.skip(i + n));
            t
        },
        None => s,
    }
}

pub fn position_of(s: &[char], c: char) -> (r: usize)
    ensures
        r == position(s@, c),
        r <= s@.len(),
        r < s@.len() ==> s@[r as int] == c,
{
    let mut i: usize = 0;
    while i < s.len() && s[i] != c
        invariant
            i <= s@.len(),
            forall|j: int| 0 <= j < i ==> s@[j] != c,
        decreases s@.len() - i,
    {
        i = i + 1;
    }
    proof {
        lemma_position_is(s@, c, i as int);
    }
    i
}

pub fn head_of(s: &[char], c: char) -> (r: &[char])
    ensures
        r@ == head(s@, c),
{
    let i: usize = position_of(s, c);
    slice_subrange(s, 0, i)
}

pub fn rest_of(s: &[char], c: char) -> (r: Option<&[char]>)
    ensures
        match r {
            Some(t) => rest(s@, c) == Some(t@),
            None => rest(s@, c) is None,
        },
{
    let i: usize = position_of(s, c);
    if i < s.len() {
        let t = slice_subrange(s, i + 1, s.len());
        assert(t@ =~= s@.skip(i + 1));
        Some(t)
    } else {
        None
    }
}

pub fn second_of(s: &[char], c: char) -> (r: Option<&[char]>)
    ensures
        match r {
            Some(t) => second(s@, c) == Some(t@),
            None => second(s@, c) is None,
        },
{
    match rest_of(s, c) {
        Some(t) => Some(head_of(t, c)),
        None => None,
    }
}

/// `str::replace` of a non-empty pattern.
pub fn replaced(s: &[char], from: &str, to: &str) -> (r: Vec<char>)
    requires
        from@.len() > 0,
    ensures
        r@ == replace(s@, from@, to@),
{
    let f = chars(from);
    let t = chars(to);
    let mut out: Vec<char> = Vec::new();
    let mut at: usize = 0;
    proof {
        assert(s@.skip(0) =~= s@);
    }
    loop
        invariant
            f@ == from@,
            t@ == to@,
            from@.len() > 0,
            at <= s@.len(),
            replace(s@, from@, to@) == out@ + replace(s@.skip(at as int), from@, to@),
        decreases s@.len() - at,
    {
        let tail = slice_subrange(s, at, s.len());
        assert(tail@ =~= s@.skip(at as int));
        match found(tail, from) {
            Some(i) => {
                let ghost before_out = out@;
                let mut keep = copied(slice_subrange(tail, 0, i));
                let mut put = copied(t.as_slice());
                out.append(&mut keep);
                out.append(&mut put);
                proof {
                    assert(out@ =~= before_out + tail@.take(i as int) + to@);
                    assert(tail@.skip(i + from@.len()) =~= s@.skip(at + i + from@.len()));
                    assert(before_out + (tail@.take(i as int) + to@ + replace(
                        tail@.skip(i + from@.len()),
                        from@,
                        to@,
                    )) =~= out@ + replace(tail@.skip(i + from@.len()), from@, to@));
                }
                at = at + i + f.len();
            },
            None => {
                let mut keep = copied(tail);
                out.append(&mut keep);
                return out;
            },
        }
    }
}

/// `str::replace` of one character by another.
pub fn replaced_char(s: &[char], a: char, b: char) -> (r: Vec<char>)
    ensures
        r@ == replace_char(s@, a, b),
{
    let mut out: Vec<char> = Vec::new();
    let mut i: usize = 0;
    while i < s.len()
        invariant
            i <= s@.len(),
            out@ == replace_char(s@, a, b).take(i as int),
        decreases s@.len() - i,
    {
        let c = s[i];
        out.push(if c == a { b } else { c });
        i = i + 1;
    }
    out
}

/// `a < b` as `str` orders.
pub fn less(a: &[char], b: &[char]) -> (r: bool)
    ensures
        r == text_less(a@, b@),
{
    let mut i: usize = 0;
    proof {
        assert(a@.skip(0) =~= a@);
        assert(b@.skip(0) =~= b@);
    }
    while i < a.len() && i < b.len()
        invariant
            i <= a@.len(),
            i <= b@.len(),
            text_less(a@, b@) == text_less(a@.skip(i as int), b@.skip(i as int)),
        decreases a@.len() - i,
    {
        let x = a[i];
        let y = b[i];
        proof {
            assert(a@.skip(i as int)[0] == x);
            assert(b@.skip(i as int)[0] == y);
            assert(a@.skip(i as int).drop_first() =~= a@.skip(i + 1));
            assert(b@.skip(i as int).drop_first() =~= b@.skip(i + 1));
        }
        if x != y {
            return x < y;
        }
        i = i + 1;
    }
    i < b.len()
}

} // verus!
