//! Amplitudes as decimal text.
//!
//! An amplitude is written as a plain decimal number of full scale: an
//! optional minus sign, the whole part, and, only where the amplitude is not
//! a whole number, a point and the fractional digits up to the last one that
//! is not zero. No exponent, no padding, no digit grouping.

use vstd::prelude::*;
use crate::amplitude::{magnitude, magnitude_of, UNIT};

verus! {

/// Number of fractional digits one step resolves: `UNIT` is ten to this
/// power.
pub const PLACES: u32 = 6;

/// The character for one decimal digit.
pub open spec fn digit(d: int) -> char {
    if d == 0 {
        '0'
    } else if d == 1 {
        '1'
    } else if d == 2 {
        '2'
    } else if d == 3 {
        '3'
    } else if d == 4 {
        '4'
    } else if d == 5 {
        '5'
    } else if d == 6 {
        '6'
    } else if d == 7 {
        '7'
    } else if d == 8 {
        '8'
    } else {
        '9'
    }
}

/// The digits of a whole number that is not negative, without leading
/// zeros; zero is the single digit `0`.
pub open spec fn natural(n: int) -> Seq<char>
    decreases n,
{
    if n < 10 {
        seq![digit(n)]
    } else {
        natural(n / 10).push(digit(n % 10))
    }
}

/// The last `places` digits of `f`, leading zeros included.
pub open spec fn padded(f: int, places: int) -> Seq<char>
    decreases places,
{
    if places <= 0 {
        Seq::empty()
    } else {
        padded(f / 10, places - 1).push(digit(f % 10))
    }
}

/// The digits after the point for `f` parts in ten to the `places`: `f`
/// padded to `places` digits, without the zeros at its end.
pub open spec fn fraction(f: int, places: int) -> Seq<char>
    decreases places,
{
    if places <= 0 || f == 0 {
        Seq::empty()
    } else if f % 10 == 0 {
        fraction(f / 10, places - 1)
    } else {
        padded(f, places)
    }
}

/// The decimal text of an amplitude.
pub open spec fn decimal(v: int) -> Seq<char> {
    let m = magnitude(v);
    let sign = if v < 0 {
        seq!['-']
    } else {
        Seq::empty()
    };
    let whole = natural(m / (UNIT as int));
    let part = m % (UNIT as int);
    if part == 0 {
        sign + whole
    } else {
        sign + whole + seq!['.'] + fraction(part, PLACES as int)
    }
}

/// The digit a character stands for, or -1 where it is no digit.
pub open spec fn digit_value(c: char) -> int {
    if c == '0' {
        0
    } else if c == '1' {
        1
    } else if c == '2' {
        2
    } else if c == '3' {
        3
    } else if c == '4' {
        4
    } else if c == '5' {
        5
    } else if c == '6' {
        6
    } else if c == '7' {
        7
    } else if c == '8' {
        8
    } else if c == '9' {
        9
    } else {
        -1
    }
}

/// Every character of `s` is a decimal digit.
pub open spec fn all_digits(s: Seq<char>) -> bool {
    forall|i: int| 0 <= i < s.len() ==> digit_value(#[trigger] s[i]) >= 0
}

/// The number a run of digits reads as; zero for the empty run.
pub open spec fn digits_value(s: Seq<char>) -> int
    decreases s.len(),
{
    if s.len() == 0 {
        0
    } else {
        10 * digits_value(s.drop_last()) + digit_value(s.last())
    }
}

/// Ten to the power `k`.
pub open spec fn ten_to(k: int) -> int
    decreases k,
{
    if k <= 0 {
        1
    } else {
        10 * ten_to(k - 1)
    }
}

/// The digits of a whole number read back as that number, and start with a
/// zero only where the number is zero.
pub proof fn lemma_natural_reads_back(n: int)
    requires
        n >= 0,
    ensures
        natural(n).len() >= 1,
        all_digits(natural(n)),
        digits_value(natural(n)) == n,
        n > 0 ==> natural(n)[0] != '0',
    decreases n,
{
    if n < 10 {
        assert(natural(n).drop_last() =~= Seq::<char>::empty());
        assert(digits_value(natural(n).drop_last()) == 0);
        assert(digit_value(natural(n).last()) == n);
    } else {
        lemma_natural_reads_back(n / 10);
        assert(natural(n).drop_last() =~= natural(n / 10));
        assert(digit_value(natural(n).last()) == n % 10);
    }
}

/// Padding gives exactly `places` digits, which read back as `f` short of
/// any digits above them.
pub proof fn lemma_padded_reads_back(f: int, places: int)
    requires
        f >= 0,
        places >= 0,
    ensures
        padded(f, places).len() == places,
        all_digits(padded(f, places)),
        digits_value(padded(f, places)) == f % ten_to(places),
        ten_to(places) > 0,
    decreases places,
{
    if places > 0 {
        lemma_padded_reads_back(f / 10, places - 1);
        assert(padded(f, places).drop_last() =~= padded(f / 10, places - 1));
        let t = ten_to(places - 1);
        let q = f / 10;
        assert(10 * (q % t) + f % 10 == f % (10 * t)) by (nonlinear_arith)
            requires
                t > 0,
                f >= 0,
                q == f / 10,
        {
            let a = q / t;
            let b = q % t;
            let r = f % 10;
            assert(q == t * a + b && 0 <= b < t);
            assert(f == 10 * q + r && 0 <= r < 10);
            assert(f == (10 * t) * a + (10 * b + r));
            assert(0 <= 10 * b + r < 10 * t);
            vstd::arithmetic::div_mod::lemma_fundamental_div_mod_converse(
                f,
                10 * t,
                a,
                10 * b + r,
            );
        }
    }
}

/// The digits after the point read back as the fraction they stand for:
/// scaled up by the places they leave unused, they give `f`. There are none
/// exactly where `f` is zero, and the last of them is never a zero.
pub proof fn lemma_fraction_reads_back(f: int, places: int)
    requires
        places >= 0,
        0 <= f < ten_to(places),
    ensures
        fraction(f, places).len() <= places,
        all_digits(fraction(f, places)),
        digits_value(fraction(f, places)) * ten_to(places - fraction(f, places).len()) == f,
        f == 0 <==> fraction(f, places).len() == 0,
        f > 0 ==> fraction(f, places).last() != '0',
    decreases places,
{
    if places <= 0 || f == 0 {
    } else if f % 10 == 0 {
        lemma_fraction_reads_back(f / 10, places - 1);
        let s = fraction(f / 10, places - 1);
        let unused = places - 1 - s.len();
        assert(ten_to(unused + 1) == 10 * ten_to(unused));
        assert(digits_value(s) * (10 * ten_to(unused)) == 10 * (digits_value(s) * ten_to(unused)))
            by (nonlinear_arith);
    } else {
        lemma_padded_reads_back(f, places);
        assert(f % ten_to(places) == f) by (nonlinear_arith)
            requires
                0 <= f < ten_to(places),
        ;
    }
}

/// The text of an amplitude reads back as the amplitude: the digits before
/// the point give the whole part of its magnitude and the digits after it
/// the rest, in steps.
pub proof fn lemma_decimal_reads_back(v: int)
    ensures
        ten_to(PLACES as int) == UNIT,
        ({
            let m = magnitude(v);
            let whole = natural(m / (UNIT as int));
            let part = fraction(m % (UNIT as int), PLACES as int);
            &&& all_digits(whole)
            &&& all_digits(part)
            &&& digits_value(whole) * UNIT + digits_value(part) * ten_to(PLACES - part.len()) == m
        }),
{
    reveal_with_fuel(ten_to, 7);
    let m = magnitude(v);
    lemma_natural_reads_back(m / (UNIT as int));
    lemma_fraction_reads_back(m % (UNIT as int), PLACES as int);
}

/// The text of one digit.
fn digit_text(d: u64) -> (t: &'static str)
    requires
        d < 10,
    ensures
        t@ == seq![digit(d as int)],
{
    proof {
        reveal_strlit("0");
        reveal_strlit("1");
        reveal_strlit("2");
        reveal_strlit("3");
        reveal_strlit("4");
        reveal_strlit("5");
        reveal_strlit("6");
        reveal_strlit("7");
        reveal_strlit("8");
        reveal_strlit("9");
    }
    let t = if d == 0 {
        "0"
    } else if d == 1 {
        "1"
    } else if d == 2 {
        "2"
    } else if d == 3 {
        "3"
    } else if d == 4 {
        "4"
    } else if d == 5 {
        "5"
    } else if d == 6 {
        "6"
    } else if d == 7 {
        "7"
    } else if d == 8 {
        "8"
    } else {
        "9"
    };
    assert(t@ =~= seq![digit(d as int)]);
    t
}

/// Appends the digits of a whole number.
fn push_natural(out: &mut String, n: u64)
    ensures
        final(out)@ == old(out)@ + natural(n as int),
    decreases n,
{
    if n >= 10 {
        push_natural(out, n / 10);
    }
    out.append(digit_text(n % 10));
    assert(out@ =~= old(out)@ + natural(n as int));
}

/// Appends the last `places` digits of `f`.
fn push_padded(out: &mut String, f: u64, places: u32)
    ensures
        final(out)@ == old(out)@ + padded(f as int, places as int),
    decreases places,
{
    if places > 0 {
        push_padded(out, f / 10, places - 1);
        out.append(digit_text(f % 10));
    }
    assert(out@ =~= old(out)@ + padded(f as int, places as int));
}

/// Appends the digits after the point.
fn push_fraction(out: &mut String, f: u64, places: u32)
    ensures
        final(out)@ == old(out)@ + fraction(f as int, places as int),
{
    let mut rest = f;
    let mut left = places;
    while left > 0 && rest != 0 && rest % 10 == 0
        invariant
            fraction(rest as int, left as int) == fraction(f as int, places as int),
        decreases left,
    {
        rest = rest / 10;
        left = left - 1;
    }
    if left > 0 && rest != 0 {
        push_padded(out, rest, left);
    }
    assert(out@ =~= old(out)@ + fraction(f as int, places as int));
}

/// Appends the decimal text of an amplitude.
pub fn push_decimal(out: &mut String, v: i64)
    ensures
        final(out)@ == old(out)@ + decimal(v as int),
{
    let m = magnitude_of(v);
    if v < 0 {
        proof {
            reveal_strlit("-");
        }
        out.append("-");
    }
    let unit: u64 = UNIT as u64;
    push_natural(out, m / unit);
    let part = m % unit;
    if part != 0 {
        proof {
            reveal_strlit(".");
        }
        out.append(".");
        push_fraction(out, part, PLACES);
    }
    assert(out@ =~= old(out)@ + decimal(v as int));
}

/// The decimal text of an amplitude.
pub fn amplitude_text(v: i64) -> (text: String)
    ensures
        text@ == decimal(v as int),
{
    let mut text = String::new();
    push_decimal(&mut text, v);
    assert(text@ =~= decimal(v as int));
    text
}

} // verus!
