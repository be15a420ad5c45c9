//! Fixed-point amplitudes.
//!
//! An amplitude is a whole number of steps, `UNIT` steps making up full
//! scale (1.0). Positions along the waveform are measured the same way, in
//! steps of one `UNIT`-th of a sample. Keeping both in integers makes every
//! comparison and every rounding decision exact.

use vstd::prelude::*;

verus! {

/// Number of steps in full scale: the amplitude 1.0.
pub const UNIT: i64 = 1_000_000;

/// The distance of an amplitude from zero.
pub open spec fn magnitude(v: int) -> int {
    if v < 0 {
        -v
    } else {
        v
    }
}

/// The amplitude `v` limited to the closed range from -1.0 to 1.0.
pub open spec fn clamped(v: int) -> int {
    if v < -(UNIT as int) {
        -(UNIT as int)
    } else if v > UNIT as int {
        UNIT as int
    } else {
        v
    }
}

/// The whole number nearest to `num / den`, for a positive `den`. A tie goes
/// to the candidate further from zero.
pub open spec fn rounded_div(num: int, den: int) -> int {
    if num >= 0 {
        (2 * num + den) / (2 * den)
    } else {
        -((2 * (-num) + den) / (2 * den))
    }
}

/// The sample index nearest to a position given in steps.
pub open spec fn nearest_index(x: int) -> int {
    rounded_div(x, UNIT as int)
}

/// An amplitude divided by a positive peak, as an amplitude: `v / peak` of
/// full scale, rounded to the nearest step.
pub open spec fn quotient(v: int, peak: int) -> int {
    rounded_div(v * (UNIT as int), peak)
}

/// `rounded_div` is off from the exact quotient by at most half of one.
pub proof fn lemma_rounded_div_is_nearest(num: int, den: int)
    requires
        den > 0,
    ensures
        2 * magnitude(rounded_div(num, den) * den - num) <= den,
{
    let m = magnitude(num);
    let q = (2 * m + den) / (2 * den);
    assert(2 * magnitude(q * den - m) <= den) by (nonlinear_arith)
        requires
            den > 0,
            m >= 0,
            q == (2 * m + den) / (2 * den),
    {
        let r = (2 * m + den) % (2 * den);
        assert(2 * m + den == (2 * den) * q + r);
        assert(0 <= r < 2 * den);
    }
    if num < 0 {
        assert((-q) * den == -(q * den)) by (nonlinear_arith);
    }
}

/// `rounded_div` keeps the sign of the numerator and never leaves the
/// bound that the exact quotient obeys.
pub proof fn lemma_rounded_div_bounded(num: int, den: int, bound: int)
    requires
        den > 0,
        bound >= 0,
        magnitude(num) <= bound * den,
    ensures
        magnitude(rounded_div(num, den)) <= bound,
        num >= 0 ==> rounded_div(num, den) >= 0,
        num <= 0 ==> rounded_div(num, den) <= 0,
{
    let m = magnitude(num);
    let q = (2 * m + den) / (2 * den);
    assert(0 <= q <= bound) by (nonlinear_arith)
        requires
            den > 0,
            bound >= 0,
            0 <= m <= bound * den,
            q == (2 * m + den) / (2 * den),
    {
        let r = (2 * m + den) % (2 * den);
        assert(2 * m + den == (2 * den) * q + r);
        assert(0 <= r < 2 * den);
        if q > bound {
            assert(q >= bound + 1);
            assert((2 * den) * q >= (2 * den) * (bound + 1));
        }
        if q < 0 {
            assert((2 * den) * q <= (2 * den) * (-1));
        }
    }
    if num == 0 {
        assert(den / (2 * den) == 0) by (nonlinear_arith)
            requires
                den > 0,
        ;
    }
}

/// Scaling by the peak maps the peak itself to full scale and keeps every
/// amplitude no larger than the peak within full scale.
pub proof fn lemma_quotient_within_unit(v: int, peak: int)
    requires
        peak > 0,
        magnitude(v) <= peak,
    ensures
        magnitude(quotient(v, peak)) <= UNIT,
        v == peak ==> quotient(v, peak) == UNIT,
        v == -peak ==> quotient(v, peak) == -(UNIT as int),
        v == 0 ==> quotient(v, peak) == 0,
{
    let u = UNIT as int;
    assert(magnitude(v * u) == magnitude(v) * u && magnitude(v) * u <= u * peak)
        by (nonlinear_arith)
        requires
            u == 1_000_000,
            magnitude(v) <= peak,
    ;
    lemma_rounded_div_bounded(v * u, peak, u);
    if magnitude(v) == peak {
        let q = (2 * (peak * u) + peak) / (2 * peak);
        assert(q == u) by (nonlinear_arith)
            requires
                peak > 0,
                u == 1_000_000,
                q == (2 * (peak * u) + peak) / (2 * peak),
        {
            let r = (2 * (peak * u) + peak) % (2 * peak);
            assert(2 * (peak * u) + peak == (2 * peak) * q + r);
            assert(0 <= r < 2 * peak);
            assert((2 * peak) * (q - u) == peak - r);
            if q > u {
                assert((2 * peak) * (q - u) >= 2 * peak);
            }
            if q < u {
                assert((2 * peak) * (q - u) <= -(2 * peak));
            }
        }
        assert(magnitude(v * u) == peak * u) by (nonlinear_arith)
            requires
                magnitude(v) == peak,
                u == 1_000_000,
        ;
    }
}

/// Limits an amplitude to the range from -1.0 to 1.0.
pub fn clamp_unit(v: i64) -> (r: i64)
    ensures
        r as int == clamped(v as int),
{
    if v < -UNIT {
        -UNIT
    } else if v > UNIT {
        UNIT
    } else {
        v
    }
}

/// The distance of an amplitude from zero. Unsigned, so that the lowest
/// `i64` has one too.
pub fn magnitude_of(v: i64) -> (m: u64)
    ensures
        m as int == magnitude(v as int),
{
    if v >= 0 {
        v as u64
    } else {
        let wide: i128 = -(v as i128);
        wide as u64
    }
}

/// Divides an amplitude by a peak that is at least as large.
pub fn divide_by_peak(v: i64, peak: u64) -> (q: i64)
    requires
        peak > 0,
        magnitude(v as int) <= peak,
    ensures
        q as int == quotient(v as int, peak as int),
{
    let m: u128 = magnitude_of(v) as u128;
    let p: u128 = peak as u128;
    let unit: u128 = UNIT as u128;
    proof {
        lemma_quotient_within_unit(v as int, peak as int);
        assert(m * unit <= 0x1_0000_0000_0000_0000 * 1_000_000) by (nonlinear_arith)
            requires
                m <= 0x1_0000_0000_0000_0000,
                unit == 1_000_000,
        ;
        assert(magnitude((v as int) * (UNIT as int)) == m * unit) by (nonlinear_arith)
            requires
                m == magnitude(v as int),
                unit == UNIT,
                UNIT == 1_000_000,
        ;
        assert(((v as int) * (UNIT as int) >= 0) == (v >= 0) || v == 0) by (nonlinear_arith)
            requires
                UNIT == 1_000_000,
        ;
    }
    let n: u128 = (2 * (m * unit) + p) / (2 * p);
    if v < 0 {
        -(n as i64)
    } else {
        n as i64
    }
}

} // verus!
