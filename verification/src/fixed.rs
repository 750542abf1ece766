//! Fixed-point sample arithmetic.
//!
//! A sample is an `i128` holding the real value multiplied by [`SCALE`].
//! Every operation saturates at [`VMAX`]; division by zero yields the
//! saturation bound with the numerator's sign.  Both choices stand in for a
//! floating-point format's finite range and infinities, and every contract
//! below states the computed value exactly.

use vstd::arithmetic::div_mod::{
    lemma_div_is_ordered, lemma_div_multiples_vanish, lemma_div_nonincreasing,
    lemma_div_pos_is_pos,
};
use vstd::prelude::*;

verus! {

/// A sample stores its real value multiplied by this factor.
pub const SCALE: i128 = 1_000_000_000;

/// Largest magnitude a sample may reach; arithmetic saturates here.
pub const VMAX: i128 = 10_000_000_000_000_000_000;

/// Smallest positive sample step (one unit of the last decimal place).
pub const EPSILON_FX: i128 = 1;

/// The value `100` as a fixed-point sample.
pub const HUNDRED_FX: i128 = 100_000_000_000;

/// Largest window capacity a window may be built with.
pub const CAP_MAX: usize = 1_000_000;

/// A sample magnitude that the saturating operations never exceed.
pub open spec fn in_bounds(x: int) -> bool {
    -(VMAX as int) <= x <= VMAX as int
}

/// Clamp into the representable sample range.
pub open spec fn sat(x: int) -> int {
    if x > VMAX as int {
        VMAX as int
    } else if x < -(VMAX as int) {
        -(VMAX as int)
    } else {
        x
    }
}

/// Division truncating toward zero, the rounding of the `/` operator on `i128`.
pub open spec fn tdiv(a: int, b: int) -> int
    recommends
        b != 0,
{
    if a == 0 {
        0
    } else if a > 0 && b > 0 {
        a / b
    } else if a < 0 && b < 0 {
        (a * -1) / (b * -1)
    } else if a < 0 {
        ((a * -1) / b) * -1
    } else {
        (a / (b * -1)) * -1
    }
}

/// Saturating sum of two samples.
pub open spec fn fadd_s(a: int, b: int) -> int {
    sat(a + b)
}

/// Saturating difference of two samples.
pub open spec fn fsub_s(a: int, b: int) -> int {
    sat(a - b)
}

/// Saturating product of two samples.
pub open spec fn fmul_s(a: int, b: int) -> int {
    sat(tdiv(a * b, SCALE as int))
}

/// Saturating quotient of two samples; a zero divisor yields the saturation
/// bound with the numerator's sign.
pub open spec fn fdiv_s(a: int, b: int) -> int {
    if b == 0 {
        if a > 0 {
            VMAX as int
        } else if a < 0 {
            -(VMAX as int)
        } else {
            0
        }
    } else {
        sat(tdiv(a * SCALE as int, b))
    }
}

/// Saturating product of a sample and a plain integer (a window count).
pub open spec fn fscale_s(a: int, k: int) -> int {
    sat(a * k)
}

/// Magnitude of a mathematical integer.
pub open spec fn abs_s(a: int) -> int {
    if a < 0 {
        -a
    } else {
        a
    }
}

/// Truncating division never grows the magnitude of the dividend.
pub proof fn lemma_tdiv_bound(a: int, b: int)
    requires
        b != 0,
    ensures
        -abs_s(a) <= tdiv(a, b) <= abs_s(a),
{
    if a == 0 {
    } else if a > 0 && b > 0 {
        lemma_div_pos_is_pos(a, b);
        lemma_div_nonincreasing(a, b);
    } else if a < 0 && b < 0 {
        lemma_div_pos_is_pos(a * -1, b * -1);
        lemma_div_nonincreasing(a * -1, b * -1);
    } else if a < 0 {
        lemma_div_pos_is_pos(a * -1, b);
        lemma_div_nonincreasing(a * -1, b);
    } else {
        lemma_div_pos_is_pos(a, b * -1);
        lemma_div_nonincreasing(a, b * -1);
    }
}

/// Truncating division of nonnegative by positive stays nonnegative.
pub proof fn lemma_tdiv_nonneg(a: int, b: int)
    requires
        a >= 0,
        b > 0,
    ensures
        tdiv(a, b) >= 0,
{
    if a > 0 {
        lemma_div_pos_is_pos(a, b);
    }
}

/// A quotient below a multiple of the divisor is below the multiplier.
pub proof fn lemma_tdiv_le_factor(a: int, b: int, k: int)
    requires
        0 <= a,
        0 < b,
        0 <= k,
        a <= b * k,
    ensures
        tdiv(a, b) <= k,
{
    lemma_div_is_ordered(a, b * k, b);
    lemma_div_multiples_vanish(k, b);
}

/// A quotient of a dividend at least the divisor is at least one.
pub proof fn lemma_tdiv_ge_one(a: int, b: int)
    requires
        0 < b <= a,
    ensures
        tdiv(a, b) >= 1,
{
    lemma_div_is_ordered(b, a, b);
    lemma_div_multiples_vanish(1, b);
}

/// Clamp into the representable sample range.
pub fn sat_i(x: i128) -> (r: i128)
    ensures
        r as int == sat(x as int),
        in_bounds(r as int),
{
    if x > VMAX {
        VMAX
    } else if x < -VMAX {
        -VMAX
    } else {
        x
    }
}

/// Division of `i128` values truncating toward zero.
pub fn tdiv_i(a: i128, b: i128) -> (r: i128)
    requires
        b != 0,
        a != i128::MIN,
    ensures
        r as int == tdiv(a as int, b as int),
{
    proof {
        lemma_tdiv_bound(a as int, b as int);
    }
    let q = a.checked_div(b);
    q.unwrap()
}

/// Saturating sum of two samples.
pub fn fadd(a: i128, b: i128) -> (r: i128)
    requires
        in_bounds(a as int),
        in_bounds(b as int),
    ensures
        r as int == fadd_s(a as int, b as int),
        in_bounds(r as int),
{
    sat_i(a + b)
}

/// Saturating difference of two samples.
pub fn fsub(a: i128, b: i128) -> (r: i128)
    requires
        in_bounds(a as int),
        in_bounds(b as int),
    ensures
        r as int == fsub_s(a as int, b as int),
        in_bounds(r as int),
{
    sat_i(a - b)
}

/// Saturating product of two samples.
pub fn fmul(a: i128, b: i128) -> (r: i128)
    requires
        in_bounds(a as int),
        in_bounds(b as int),
    ensures
        r as int == fmul_s(a as int, b as int),
        in_bounds(r as int),
{
    proof {
        assert((a as int) * (b as int) <= (VMAX as int) * (VMAX as int)
            && (a as int) * (b as int) >= -((VMAX as int) * (VMAX as int))) by (nonlinear_arith)
            requires
                -(VMAX as int) <= a as int <= VMAX as int,
                -(VMAX as int) <= b as int <= VMAX as int,
        ;
    }
    let p = a * b;
    sat_i(tdiv_i(p, SCALE))
}

/// Saturating quotient of two samples; a zero divisor yields the saturation
/// bound with the numerator's sign.
pub fn fdiv(a: i128, b: i128) -> (r: i128)
    requires
        in_bounds(a as int),
    ensures
        r as int == fdiv_s(a as int, b as int),
        in_bounds(r as int),
{
    if b == 0 {
        if a > 0 {
            VMAX
        } else if a < 0 {
            -VMAX
        } else {
            0
        }
    } else {
        proof {
            assert((a as int) * (SCALE as int) <= (VMAX as int) * (SCALE as int)
                && (a as int) * (SCALE as int) >= -((VMAX as int) * (SCALE as int)))
                by (nonlinear_arith)
                requires
                    -(VMAX as int) <= a as int <= VMAX as int,
            ;
        }
        let p = a * SCALE;
        sat_i(tdiv_i(p, b))
    }
}

/// Saturating product of a sample and a window count.
pub fn fscale(a: i128, k: usize) -> (r: i128)
    requires
        in_bounds(a as int),
        k <= CAP_MAX,
    ensures
        r as int == fscale_s(a as int, k as int),
        in_bounds(r as int),
{
    proof {
        assert((a as int) * (k as int) <= (VMAX as int) * (CAP_MAX as int)
            && (a as int) * (k as int) >= -((VMAX as int) * (CAP_MAX as int)))
            by (nonlinear_arith)
            requires
                -(VMAX as int) <= a as int <= VMAX as int,
                0 <= k as int <= CAP_MAX as int,
        ;
    }
    sat_i(a * (k as i128))
}

} // verus!
