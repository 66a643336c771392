//! Fixed-point arithmetic helpers shared by the indicators and simulators.

use vstd::prelude::*;

verus! {

/// The fixed-point denominator: one whole, expressed in parts per million.
/// Fractions (tolerances, sizing fractions, fees already converted from
/// basis points, returns, drawdowns) and coin quantities are all scaled
/// by this constant.
pub const PPM: i64 = 1_000_000;

pub open spec fn spec_clamp_frac(f: i64) -> i64 {
    if f < 0 {
        0
    } else if f > PPM {
        PPM
    } else {
        f
    }
}

/// Clamp a parts-per-million fraction into `[0, PPM]`.
pub fn clamp_frac(f: i64) -> (r: i64)
    ensures
        r == spec_clamp_frac(f),
{
    if f < 0 {
        0
    } else if f > PPM {
        PPM
    } else {
        f
    }
}

/// Exact product of two `i64` values, widened to `i128`.
pub fn mul_i64_wide(a: i64, b: i64) -> (r: i128)
    ensures
        r == (a as int) * (b as int),
        (i64::MIN as int) * (i64::MAX as int) <= r <= (i64::MIN as int) * (i64::MIN as int),
{
    proof {
        assert({
            let p = (a as int) * (b as int);
            (i64::MIN as int) * (i64::MAX as int) <= p <= (i64::MIN as int) * (i64::MIN as int)
        })
            by (nonlinear_arith)
            requires
                i64::MIN <= a <= i64::MAX,
                i64::MIN <= b <= i64::MAX,
        ;
    }
    (a as i128) * (b as i128)
}

/// Exact product of a price and a fixed-point factor of the form
/// `PPM + t` or `PPM - t` for an `i64` tolerance `t`.
pub fn mul_price_factor(price: i64, factor: i128) -> (r: i128)
    requires
        (i64::MIN as i128) - PPM <= factor <= (i64::MAX as i128) + PPM + 1,
    ensures
        r == (price as int) * (factor as int),
{
    proof {
        assert({
            let p = (price as int) * (factor as int);
            i128::MIN <= p <= i128::MAX
        })
            by (nonlinear_arith)
            requires
                i64::MIN <= price <= i64::MAX,
                (i64::MIN as int) - PPM <= factor <= (i64::MAX as int) + PPM + 1,
        ;
    }
    (price as i128) * factor
}

/// Euclidean division by a positive divisor keeps a value inside the
/// 128-bit range, and a non-negative value between zero and itself.
pub proof fn lemma_div_euclid_in_range(lhs: int, d: int)
    requires
        1 <= d,
        i128::MIN <= lhs <= i128::MAX,
    ensures
        i128::MIN <= lhs / d <= i128::MAX,
        lhs >= 0 ==> 0 <= lhs / d <= lhs,
        lhs < 0 ==> lhs <= lhs / d <= 0,
{
    vstd::arithmetic::div_mod::lemma_fundamental_div_mod(lhs, d);
    vstd::arithmetic::div_mod::lemma_mod_bound(lhs, d);
    let q = lhs / d;
    let r = lhs % d;
    assert(lhs == d * q + r);
    if q >= 0 {
        assert(q <= d * q) by (nonlinear_arith)
            requires
                q >= 0,
                d >= 1,
        ;
    } else {
        assert(d * q <= q) by (nonlinear_arith)
            requires
                q < 0,
                d >= 1,
        ;
    }
    if lhs < 0 {
        assert(q <= 0) by {
            if q > 0 {
                assert(q <= d * q) by (nonlinear_arith)
                    requires
                        q > 0,
                        d >= 1,
                ;
            }
        }
        assert(d * q >= d * lhs) by (nonlinear_arith)
            requires
                d >= 1,
                lhs <= -1,
                0 <= r < d,
                d * q == lhs - r,
        ;
        assert(q >= lhs) by (nonlinear_arith)
            requires
                d >= 1,
                d * q >= d * lhs,
        ;
    }
}

/// The quotient times the divisor stays within one divisor of the
/// dividend, and inside the 128-bit range.
pub proof fn lemma_quotient_times_divisor_in_range(lhs: int, d: int)
    requires
        1 <= d,
        i128::MIN + d <= lhs <= i128::MAX,
    ensures
        (lhs / d) * d == lhs - lhs % d,
        lhs - d < (lhs / d) * d <= lhs,
        i128::MIN <= (lhs / d) * d <= i128::MAX,
{
    vstd::arithmetic::div_mod::lemma_fundamental_div_mod(lhs, d);
    vstd::arithmetic::div_mod::lemma_mod_bound(lhs, d);
    assert((lhs / d) * d == d * (lhs / d)) by (nonlinear_arith);
}

/// Floor of `a * b / d` for non-negative operands, when the quotient fits
/// in an `i64`; `None` otherwise.
pub fn mul_div_floor(a: i64, b: i64, d: i64) -> (r: Option<i64>)
    requires
        0 <= a,
        0 <= b,
        0 < d,
    ensures
        r is Some <==> (a as int) * (b as int) / (d as int) <= i64::MAX,
        r is Some ==> r->0 == (a as int) * (b as int) / (d as int),
{
    proof {
        assert((a as int) * (b as int) <= (i64::MAX as int) * (i64::MAX as int))
            by (nonlinear_arith)
            requires
                0 <= a <= i64::MAX,
                0 <= b <= i64::MAX,
        ;
    }
    let prod: u128 = (a as u128) * (b as u128);
    let q: u128 = prod / (d as u128);
    if q <= i64::MAX as u128 {
        Some(q as i64)
    } else {
        None
    }
}

} // verus!
