//! What the library takes from outside: calls into the `regex` crate and into
//! parts of the standard library. The contracts here are believed, not proved.
use regex::Regex;
use vstd::prelude::*;
use crate::text::{lower, opt_text, texts};

verus! {

/// Every character is ASCII.
pub open spec fn ascii(s: Seq<char>) -> bool {
    forall|i: int| 0 <= i < s.len() ==> (#[trigger] s[i]) as int <= 127
}

// ── the standard library ───────────────────────────────────────────

/// `String::push` of std: the character is appended, nothing else changes.
pub assume_specification[ String::push ](s: &mut String, c: char)
    ensures
        final(s)@ == old(s)@.push(c),
;

/// What `str::to_lowercase` gives of a text that is not ASCII.
pub uninterp spec fn unicode_lower(s: Seq<char>) -> Seq<char>;

/// The lower case of a text.
pub open spec fn lowercase(s: Seq<char>) -> Seq<char> {
    if ascii(s) {
        lower(s)
    } else {
        unicode_lower(s)
    }
}

/// `str::to_lowercase`: of an ASCII text the ASCII lower case; of any other a
/// text that depends on it alone.
pub assume_specification[ str::to_lowercase ](s: &str) -> (r: String)
    ensures
        ascii(s@) ==> r@ == lower(s@),
        !ascii(s@) ==> r@ == unicode_lower(s@),
;

/// The upper case of a character, as `char::to_uppercase` gives it: one character
/// or several.
pub uninterp spec fn unicode_upper(c: char) -> Seq<char>;

/// `char::to_uppercase`: the characters that it yields, as a text. They depend on
/// the character alone.
#[verifier::external_body]
pub(crate) fn upper_of(c: char) -> (r: String)
    ensures
        r@ == unicode_upper(c),
{
    c.to_uppercase().to_string()
}

pub open spec fn is_surrogate(u: u16) -> bool {
    0xD800 <= u <= 0xDFFF
}

pub open spec fn is_surrogate_pair(a: u16, b: u16) -> bool {
    0xD800 <= a <= 0xDBFF && 0xDC00 <= b <= 0xDFFF
}

/// The text that UTF-16 code units encode, with U+FFFD in the place of every
/// unpaired surrogate.
pub open spec fn utf16_text(v: Seq<u16>) -> Seq<char>
    decreases v.len(),
{
    if v.len() == 0 {
        Seq::empty()
    } else if !is_surrogate(v[0]) {
        seq![v[0] as char] + utf16_text(v.skip(1))
    } else if v.len() >= 2 && is_surrogate_pair(v[0], v[1]) {
        seq![(0x10000 + (v[0] - 0xD800) * 0x400 + (v[1] - 0xDC00)) as char] + utf16_text(v.skip(2))
    } else {
        seq!['\u{FFFD}'] + utf16_text(v.skip(1))
    }
}

/// `String::from_utf16_lossy`: decodes UTF-16, replacing what is not valid.
pub assume_specification[ String::from_utf16_lossy ](v: &[u16]) -> (r: String)
    ensures
        r@ == utf16_text(v@),
;

// ── the regex crate ────────────────────────────────────────────────

/// The texts of the matches of `pattern` in `text`, from left to right;
/// nothing where `pattern` is no regular expression.
pub uninterp spec fn regex_all(pattern: Seq<char>, text: Seq<char>) -> Option<Seq<Seq<char>>>;

/// The runs of decimal digits in a text, from left to right.
pub open spec fn digit_runs(s: Seq<char>) -> Seq<Seq<char>>
    decreases s.len(),
{
    if s.len() == 0 {
        Seq::empty()
    } else {
        let r = digit_runs(s.drop_last());
        if !('0' <= s.last() <= '9') {
            r
        } else if s.len() == 1 || !('0' <= s[s.len() - 2] <= '9') {
            r.push(seq![s.last()])
        } else {
            r.drop_last().push(r.last().push(s.last()))
        }
    }
}

/// What the pattern `\d+` finds. Which characters beyond ASCII are digits is left
/// to the name.
pub open spec fn digit_matches(text: Seq<char>) -> Option<Seq<Seq<char>>> {
    if ascii(text) {
        Some(digit_runs(text))
    } else {
        regex_all(r"\d+"@, text)
    }
}

/// `Regex::find_iter` on a pattern that is compiled for the call: the matches,
/// which do not overlap, as strings. In an ASCII text `\d+` finds the runs of
/// digits; any other result depends on the pattern and the text alone.
#[verifier::external_body]
pub(crate) fn matches_in(pattern: &str, text: &str) -> (r: Option<Vec<String>>)
    ensures
        pattern@ == r"\d+"@ && ascii(text@) ==> r is Some && texts(r->0@) == digit_runs(text@),
        !(pattern@ == r"\d+"@ && ascii(text@)) ==> (match r {
            Some(v) => Some(texts(v@)),
            None => None,
        }) == regex_all(pattern@, text@),
{
    let re = Regex::new(pattern).ok()?;
    Some(re.find_iter(text).map(|m| m.as_str().to_owned()).collect())
}

/// Whether `pattern` matches somewhere in `text`; nothing where `pattern` is no
/// regular expression.
pub uninterp spec fn regex_match(pattern: Seq<char>, text: Seq<char>) -> Option<bool>;

/// `Regex::is_match` on a pattern that is compiled for the call.
#[verifier::external_body]
pub(crate) fn is_match(pattern: &str, text: &str) -> (r: Option<bool>)
    ensures
        r == regex_match(pattern@, text@),
{
    let re = Regex::new(pattern).ok()?;
    Some(re.is_match(text))
}

/// The first match of `pattern` in `text` and what its first group took;
/// nothing where there is no match or `pattern` is no regular expression.
pub uninterp spec fn regex_groups(pattern: Seq<char>, text: Seq<char>) -> Option<
    (Seq<char>, Option<Seq<char>>),
>;

/// `Regex::captures` on a pattern that is compiled for the call: the whole
/// match and the first group.
#[verifier::external_body]
pub(crate) fn first_groups(pattern: &str, text: &str) -> (r: Option<(String, Option<String>)>)
    ensures
        (match r {
            Some(m) => Some((m.0@, opt_text(m.1))),
            None => None,
        }) == regex_groups(pattern@, text@),
{
    let m = Regex::new(pattern).ok()?.captures(text)?;
    Some((m[0].to_owned(), m.get(1).map(|g| g.as_str().to_owned())))
}

} // verus!
