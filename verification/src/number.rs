//! Numbers in text: reading unsigned integers, writing integers and
//! fixed-point decimals.
use vstd::prelude::*;
use crate::text::is_digit;

verus! {

pub open spec fn all_digits(s: Seq<char>) -> bool {
    forall|i: int| 0 <= i < s.len() ==> is_digit(#[trigger] s[i])
}

/// The value of a run of decimal digits.
pub open spec fn digits_value(s: Seq<char>) -> nat
    decreases s.len(),
{
    if s.len() == 0 {
        0
    } else {
        10 * digits_value(s.drop_last()) + (s.last() as nat - '0' as nat) as nat
    }
}

/// The text without one leading plus sign.
pub open spec fn without_plus(s: Seq<char>) -> Seq<char> {
    if s.len() > 0 && s[0] == '+' {
        s.drop_first()
    } else {
        s
    }
}

/// An unsigned integer no greater than `max`, as `str::parse` reads one: an
/// optional plus sign and at least one digit, nothing else.
pub open spec fn parse_unsigned(s: Seq<char>, max: nat) -> Option<nat> {
    let d = without_plus(s);
    if d.len() > 0 && all_digits(d) && digits_value(d) <= max {
        Some(digits_value(d))
    } else {
        None
    }
}

pub open spec fn digit_char(d: nat) -> char {
    (48 + d) as u8 as char
}

/// A natural number in decimal, without leading zeros.
pub open spec fn decimal(n: nat) -> Seq<char>
    decreases n,
{
    if n < 10 {
        seq![digit_char(n)]
    } else {
        decimal(n / 10).push(digit_char(n % 10))
    }
}

/// An integer in decimal.
pub open spec fn signed_decimal(n: int) -> Seq<char> {
    if n < 0 {
        seq!['-'] + decimal((-n) as nat)
    } else {
        decimal(n as nat)
    }
}

/// The magnitude of a number of hundredths, with two decimals.
pub open spec fn magnitude2(n: nat) -> Seq<char> {
    decimal(n / 100) + seq!['.', digit_char(n / 10 % 10), digit_char(n % 10)]
}

/// The magnitude of a number of thousandths, with three decimals.
pub open spec fn magnitude3(n: nat) -> Seq<char> {
    decimal(n / 1000) + seq![
        '.',
        digit_char(n / 100 % 10),
        digit_char(n / 10 % 10),
        digit_char(n % 10),
    ]
}

/// A number of hundredths with two decimals.
pub open spec fn fixed2(n: int) -> Seq<char> {
    if n < 0 {
        seq!['-'] + magnitude2((-n) as nat)
    } else {
        magnitude2(n as nat)
    }
}

/// A number of thousandths with three decimals.
pub open spec fn fixed3(n: int) -> Seq<char> {
    if n < 0 {
        seq!['-'] + magnitude3((-n) as nat)
    } else {
        magnitude3(n as nat)
    }
}

/// The decimal form of a number reads back as the number.
pub proof fn lemma_decimal_reads_back(n: nat)
    ensures
        decimal(n).len() > 0,
        all_digits(decimal(n)),
        digits_value(decimal(n)) == n,
    decreases n,
{
    if n < 10 {
        let s = seq![digit_char(n)];
        assert(s.drop_last() =~= Seq::empty());
        assert(digits_value(s.drop_last()) == 0);
        assert(digits_value(s) == n);
    } else {
        lemma_decimal_reads_back(n / 10);
        let s = decimal(n);
        assert(s.drop_last() =~= decimal(n / 10));
        assert forall|i: int| 0 <= i < s.len() implies is_digit(#[trigger] s[i]) by {
            if i < s.len() - 1 {
                assert(s[i] == decimal(n / 10)[i]);
            }
        }
    }
}

/// `str::parse` to an unsigned integer no greater than `max`.
pub fn parsed_unsigned(s: &[char], max: u64) -> (r: Option<u64>)
    ensures
        match r {
            Some(n) => parse_unsigned(s@, max as nat) == Some(n as nat),
            None => parse_unsigned(s@, max as nat) is None,
        },
        r matches Some(n) ==> n <= max,
{
    let len: usize = s.len();
    let start: usize = if len > 0 && s[0] == '+' {
        1
    } else {
        0
    };
    let ghost d = without_plus(s@);
    assert(d =~= s@.skip(start as int));
    if len == start {
        return None;
    }
    let mut n: u64 = 0;
    let mut over = false;
    let mut i: usize = start;
    while i < len
        invariant
            start <= i <= len == s@.len(),
            d == s@.skip(start as int),
            d == without_plus(s@),
            forall|j: int| 0 <= j < i - start ==> is_digit(#[trigger] d[j]),
            over ==> digits_value(d.take(i - start)) > max,
            !over ==> n == digits_value(d.take(i - start)) && n <= max,
        decreases len - i,
    {
        let c = s[i];
        proof {
            assert(d.take(i + 1 - start).drop_last() =~= d.take(i - start));
            assert(d.take(i + 1 - start).last() == c);
            assert(d[i - start] == c);
        }
        if !('0' <= c && c <= '9') {
            assert(!is_digit(d[i - start]));
            return None;
        }
        if !over {
            let v: u64 = c as u64 - '0' as u64;
            if v > max || n > max / 10 || 10 * n > max - v {
                over = true;
            } else {
                n = 10 * n + v;
            }
        }
        i = i + 1;
    }
    assert(d.take(len - start) =~= d);
    if over {
        None
    } else {
        Some(n)
    }
}

/// Appends a natural number in decimal.
pub fn push_decimal(out: &mut String, n: u64)
    ensures
        final(out)@ == old(out)@ + decimal(n as nat),
    decreases n,
{
    if n >= 10 {
        push_decimal(out, n / 10);
    }
    let ghost mid = out@;
    out.push(digit((n % 10) as u8));
    proof {
        if n >= 10 {
            assert(out@ =~= old(out)@ + decimal((n / 10) as nat).push(digit_char((n % 10) as nat)));
        } else {
            assert(out@ =~= old(out)@ + decimal(n as nat));
        }
    }
}

pub fn digit(d: u8) -> (r: char)
    requires
        d < 10,
    ensures
        r == digit_char(d as nat),
{
    (48 + d) as char
}

/// A natural number in decimal.
pub fn decimal_text(n: u64) -> (r: String)
    ensures
        r@ == decimal(n as nat),
{
    let mut out = String::new();
    push_decimal(&mut out, n);
    assert(out@ =~= decimal(n as nat));
    out
}

/// An integer in decimal.
pub fn signed_text(n: i32) -> (r: String)
    ensures
        r@ == signed_decimal(n as int),
{
    if n < 0 {
        let mut out = String::new();
        out.push('-');
        push_decimal(&mut out, (-(n as i64)) as u64);
        assert(out@ =~= signed_decimal(n as int));
        out
    } else {
        decimal_text(n as u64)
    }
}

/// A number of hundredths with two decimals.
pub fn fixed2_text(n: i32) -> (r: String)
    ensures
        r@ == fixed2(n as int),
{
    let mut out = String::new();
    let m: u64 = if n < 0 {
        out.push('-');
        (-(n as i64)) as u64
    } else {
        n as u64
    };
    push_decimal(&mut out, m / 100);
    out.push('.');
    out.push(digit((m / 10 % 10) as u8));
    out.push(digit((m % 10) as u8));
    assert(out@ =~= fixed2(n as int));
    out
}

/// A number of thousandths with three decimals.
pub fn fixed3_text(n: i32) -> (r: String)
    ensures
        r@ == fixed3(n as int),
{
    let mut out = String::new();
    let m: u64 = if n < 0 {
        out.push('-');
        (-(n as i64)) as u64
    } else {
        n as u64
    };
    push_decimal(&mut out, m / 1000);
    out.push('.');
    out.push(digit((m / 100 % 10) as u8));
    out.push(digit((m / 10 % 10) as u8));
    out.push(digit((m % 10) as u8));
    assert(out@ =~= fixed3(n as int));
    out
}

// ── lists of numbers ───────────────────────────────────────────────

pub open spec fn naturals(v: Seq<u64>) -> Seq<nat> {
    Seq::new(v.len(), |i: int| v[i] as nat)
}

/// Numbers ordered part by part; a missing part comes first.
pub open spec fn numbers_less(a: Seq<nat>, b: Seq<nat>) -> bool
    decreases a.len(),
{
    if b.len() == 0 {
        false
    } else if a.len() == 0 {
        true
    } else if a[0] != b[0] {
        a[0] < b[0]
    } else {
        numbers_less(a.skip(1), b.skip(1))
    }
}

/// Whether the numbers `a` come before the numbers `b`.
pub fn numbers_before(a: &Vec<u64>, b: &Vec<u64>) -> (r: bool)
    ensures
        r == numbers_less(naturals(a@), naturals(b@)),
{
    let ghost x = naturals(a@);
    let ghost y = naturals(b@);
    let mut i: usize = 0;
    assert(x.skip(0) =~= x && y.skip(0) =~= y);
    loop
        invariant
            i <= a@.len(),
            i <= b@.len(),
            x == naturals(a@),
            y == naturals(b@),
            numbers_less(x.skip(i as int), y.skip(i as int)) == numbers_less(x, y),
        decreases a@.len() - i,
    {
        if i >= b.len() {
            return false;
        }
        if i >= a.len() {
            return true;
        }
        let (p, q): (u64, u64) = (a[i], b[i]);
        proof {
            assert(x.skip(i as int)[0] == p as nat && y.skip(i as int)[0] == q as nat);
            assert(x.skip(i as int).skip(1) =~= x.skip(i + 1));
            assert(y.skip(i as int).skip(1) =~= y.skip(i + 1));
        }
        if p != q {
            return p < q;
        }
        i = i + 1;
    }
}

/// The order of lists of numbers: it goes on through one in between, and
/// nothing comes before itself.
pub proof fn lemma_numbers_trans(a: Seq<nat>, b: Seq<nat>, c: Seq<nat>)
    ensures
        numbers_less(a, b) && numbers_less(b, c) ==> numbers_less(a, c),
        !numbers_less(a, a),
    decreases a.len(),
{
    if a.len() > 0 {
        lemma_numbers_trans(a.skip(1), b.skip(1), c.skip(1));
    }
}

// ── laws ───────────────────────────────────────────────────────────

/// A decimal number has no leading zero.
pub proof fn law_decimal_has_no_leading_zero(n: nat)
    ensures
        n > 0 ==> decimal(n)[0] != '0',
        n == 0 ==> decimal(n) == seq!['0'],
        digits_value(decimal(n)) == n,
        all_digits(decimal(n)),
    decreases n,
{
    lemma_decimal_reads_back(n);
    if n >= 10 {
        law_decimal_has_no_leading_zero(n / 10);
        lemma_decimal_reads_back(n / 10);
        assert(decimal(n)[0] == decimal(n / 10)[0]);
    }
}

/// A negative number is its magnitude behind a minus sign.
pub proof fn law_negative_numbers_have_a_sign(n: int)
    requires
        n < 0,
    ensures
        signed_decimal(n) == seq!['-'] + signed_decimal(-n),
        fixed2(n) == seq!['-'] + fixed2(-n),
        fixed3(n) == seq!['-'] + fixed3(-n),
{
}

/// A number of hundredths is written with a point before its last two digits,
/// and its digits read back as the number.
pub proof fn law_fixed2_reads_back(n: nat)
    ensures
        ({
            let s = fixed2(n as int);
            let k = s.len() - 3;
            &&& k > 0
            &&& s[k] == '.'
            &&& all_digits(s.take(k) + s.skip(k + 1))
            &&& digits_value(s.take(k) + s.skip(k + 1)) == n
            &&& digits_value(s.take(k)) == n / 100
        }),
{
    let s = fixed2(n as int);
    let a = decimal(n / 100);
    let k = s.len() - 3;
    let x = digit_char(n / 10 % 10);
    let y = digit_char(n % 10);
    lemma_decimal_reads_back(n / 100);
    let t = s.take(k) + s.skip(k + 1);
    assert(s.take(k) =~= a);
    assert(t =~= a.push(x).push(y));
    assert(a.push(x).push(y).drop_last() =~= a.push(x));
    assert(a.push(x).drop_last() =~= a);
    assert(digits_value(a.push(x)) == 10 * (n / 100) + n / 10 % 10);
    assert(digits_value(t) == 10 * (10 * (n / 100) + n / 10 % 10) + n % 10);
}

/// A number of thousandths is written with a point before its last three digits,
/// and its digits read back as the number.
pub proof fn law_fixed3_reads_back(n: nat)
    ensures
        ({
            let s = fixed3(n as int);
            let k = s.len() - 4;
            &&& k > 0
            &&& s[k] == '.'
            &&& all_digits(s.take(k) + s.skip(k + 1))
            &&& digits_value(s.take(k) + s.skip(k + 1)) == n
            &&& digits_value(s.take(k)) == n / 1000
        }),
{
    let s = fixed3(n as int);
    let a = decimal(n / 1000);
    let k = s.len() - 4;
    let x = digit_char(n / 100 % 10);
    let y = digit_char(n / 10 % 10);
    let z = digit_char(n % 10);
    lemma_decimal_reads_back(n / 1000);
    let t = s.take(k) + s.skip(k + 1);
    assert(s.take(k) =~= a);
    assert(t =~= a.push(x).push(y).push(z));
    assert(a.push(x).push(y).push(z).drop_last() =~= a.push(x).push(y));
    assert(a.push(x).push(y).drop_last() =~= a.push(x));
    assert(a.push(x).drop_last() =~= a);
    assert(digits_value(a.push(x)) == 10 * (n / 1000) + n / 100 % 10);
    assert(digits_value(a.push(x).push(y)) == 10 * (10 * (n / 1000) + n / 100 % 10) + n / 10 % 10);
}

} // verus!
