//! Graphics card classes and NVIDIA driver numbers.
use vstd::prelude::*;
use crate::lines::{split, split_at_chars};
use crate::number::{all_digits, digits_value};
use crate::text::{chars, is_digit, put, rows, string};

verus! {

/// Class of a graphics card, by what the DLSS 5 model supports.
#[derive(Debug, Clone, Copy, PartialEq, Eq, Structural)]
pub enum Tier {
    Rtx50,
    Rtx40,
    Rtx2030,
    /// An NVIDIA card whose name gives no RTX generation.
    Unknown,
    /// Any other card.
    Other,
}

pub open spec fn zeros(n: nat) -> Seq<char> {
    Seq::new(n, |i: int| '0')
}

/// The driver number in a Windows driver version `a.b.c.d`: the last digit of
/// `c` and the four digits of `d`, the last two of them after a point.
pub open spec fn driver_number(v: Seq<char>) -> Option<Seq<char>> {
    let p = split(v, '.', '.');
    if p.len() == 4 && p[2].len() > 0 && all_digits(p[2]) && 0 < p[3].len() <= 4 && all_digits(
        p[3],
    ) {
        let n = seq![p[2].last()] + zeros((4 - p[3].len()) as nat) + p[3];
        Some(n.take(3) + seq!['.'] + n.skip(3))
    } else {
        None
    }
}

fn digits_only(s: &[char]) -> (r: bool)
    ensures
        r == all_digits(s@),
{
    let mut i: usize = 0;
    while i < s.len()
        invariant
            i <= s@.len(),
            forall|j: int| 0 <= j < i ==> is_digit(#[trigger] s@[j]),
        decreases s@.len() - i,
    {
        let c = s[i];
        if !('0' <= c && c <= '9') {
            assert(!is_digit(s@[i as int]));
            return false;
        }
        i = i + 1;
    }
    true
}

/// The number that NVIDIA gives a driver, from its Windows version.
pub fn nvidia_driver_number(version: &str) -> (r: Option<String>)
    ensures
        r is Some <==> driver_number(version@) is Some,
        r matches Some(n) ==> driver_number(version@) == Some(n@),
{
    let cs = chars(version);
    let p = split_at_chars(cs.as_slice(), '.', '.');
    assert(rows(p@).len() == p@.len());
    if p.len() != 4 {
        return None;
    }
    assert(rows(p@)[2] == p@[2]@ && rows(p@)[3] == p@[3]@);
    let c = p[2].as_slice();
    let d = p[3].as_slice();
    if c.len() == 0 || !digits_only(c) || d.len() == 0 || d.len() > 4 || !digits_only(d) {
        return None;
    }
    let mut n: Vec<char> = Vec::new();
    n.push(c[c.len() - 1]);
    let pad: usize = 4 - d.len();
    let mut i: usize = 0;
    while i < pad
        invariant
            i <= pad,
            n@ =~= seq![c@.last()] + zeros(i as nat),
        decreases pad - i,
    {
        n.push('0');
        i = i + 1;
    }
    put(&mut n, d);
    assert(n@ =~= seq![c@.last()] + zeros(pad as nat) + d@);
    let ghost whole = n@;
    n.insert(3, '.');
    assert(n@ =~= whole.take(3) + seq!['.'] + whole.skip(3));
    Some(string(n.as_slice()))
}

// ── laws ───────────────────────────────────────────────────────────

proof fn lemma_digits_behind(a: Seq<char>, b: Seq<char>)
    ensures
        digits_value(a + b) == digits_value(a) * pow10(b.len()) + digits_value(b),
    decreases b.len(),
{
    if b.len() == 0 {
        let x = digits_value(a);
        assert(a + b =~= a);
        assert(pow10(0) == 1);
        assert(digits_value(b) == 0);
        assert(x * 1 == x) by (nonlinear_arith);
    } else {
        let c = b.drop_last();
        lemma_digits_behind(a, c);
        assert((a + b).drop_last() =~= a + c);
        assert((a + b).last() == b.last());
        let x = digits_value(a);
        let p = pow10(c.len());
        let d = (b.last() as nat - '0' as nat) as nat;
        assert(pow10(b.len()) == 10 * p);
        assert(10 * (x * p) == x * (10 * p)) by (nonlinear_arith);
        assert(digits_value(a + b) == 10 * (x * p + digits_value(c)) + d);
        assert(digits_value(b) == 10 * digits_value(c) + d);
    }
}

/// A power of ten.
pub open spec fn pow10(n: nat) -> nat
    decreases n,
{
    if n == 0 {
        1
    } else {
        10 * pow10((n - 1) as nat)
    }
}

proof fn lemma_zeros(k: nat)
    ensures
        digits_value(zeros(k)) == 0,
    decreases k,
{
    if k > 0 {
        assert(zeros(k).drop_last() =~= zeros((k - 1) as nat));
        lemma_zeros((k - 1) as nat);
    }
}

/// The driver number of a Windows version has five digits, the last two behind a
/// point; as a number they are the last digit of the third part and the four of
/// the fourth. A version of another shape has none.
pub proof fn law_driver_number_is_the_last_five_digits(v: Seq<char>)
    ensures
        ({
            let p = split(v, '.', '.');
            let fits = p.len() == 4 && p[2].len() > 0 && all_digits(p[2]) && 0 < p[3].len() <= 4
                && all_digits(p[3]);
            &&& driver_number(v) is Some <==> fits
            &&& driver_number(v) matches Some(n) ==> {
                &&& n.len() == 6
                &&& n[3] == '.'
                &&& digits_value(n.take(3) + n.skip(4)) == digits_value(seq![p[2].last()]) * 10000
                    + digits_value(p[3])
            }
        }),
{
    let p = split(v, '.', '.');
    if let Some(n) = driver_number(v) {
        let k = (4 - p[3].len()) as nat;
        let a = seq![p[2].last()];
        let z = zeros(k);
        let whole = a + z + p[3];
        assert(n.take(3) + n.skip(4) =~= whole);
        assert(whole =~= a + (z + p[3]));
        lemma_digits_behind(a, z + p[3]);
        lemma_digits_behind(z, p[3]);
        lemma_zeros(k);
        reveal_with_fuel(pow10, 5);
        assert((z + p[3]).len() == 4);
        assert(pow10(4) == 10000);
        assert(digits_value(z) * pow10(p[3].len()) == 0) by (nonlinear_arith)
            requires
                digits_value(z) == 0,
        ;
    }
}

} // verus!
