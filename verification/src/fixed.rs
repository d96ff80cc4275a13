//! Fixed-point arithmetic on 64-bit integers.
//!
//! Intensities, gains, scaling factors, window widths and filter cutoffs are
//! all carried as `i64` counts of millionths: [`ONE`] stands for 1.0.
//!
//! Products ([`scale`]), quotients ([`quotient`]), sums ([`plus`]) and
//! differences ([`minus`]) take every pair of values: they round towards
//! negative infinity and saturate at the ends of the `i64` range, and a
//! division by zero saturates by the sign of the numerator.  Their building
//! block [`floor_div`] works on wide integers and asks for a positive
//! divisor.

use vstd::prelude::*;

verus! {

/// The fixed-point representation of 1.0.
pub const ONE: i64 = 1_000_000;

/// `x` limited to the range of `i64`.
pub open spec fn saturated(x: int) -> int {
    if x < i64::MIN as int {
        i64::MIN as int
    } else if x > i64::MAX as int {
        i64::MAX as int
    } else {
        x
    }
}

/// The fixed-point product `value * factor`, rounded down and saturated.
pub open spec fn scaled(value: int, factor: int) -> int {
    saturated((value * factor) / (ONE as int))
}

/// The fixed-point quotient `numerator / denominator`, rounded down and
/// saturated.  Where the denominator is zero, the quotient is the greatest
/// value for a positive numerator, the least value for a negative one, and
/// zero for zero.
pub open spec fn ratio(numerator: int, denominator: int) -> int {
    if denominator > 0 {
        saturated((numerator * ONE) / denominator)
    } else if denominator < 0 {
        saturated((-numerator * ONE) / (-denominator))
    } else if numerator > 0 {
        i64::MAX as int
    } else if numerator < 0 {
        i64::MIN as int
    } else {
        0
    }
}

/// Flooring division of a negative dividend in terms of the division of its
/// negation.
pub proof fn lemma_floor_div_negative(a: int, b: int)
    requires
        a < 0,
        b > 0,
    ensures
        a / b == -((-a) / b) - (if (-a) % b == 0 { 0int } else { 1int }),
{
    let q = (-a) / b;
    let r = (-a) % b;
    vstd::arithmetic::div_mod::lemma_fundamental_div_mod(-a, b);
    vstd::arithmetic::div_mod::lemma_mod_bound(-a, b);
    if r == 0 {
        assert(a == (-q) * b + 0) by (nonlinear_arith)
            requires
                -a == b * q + r,
                r == 0,
        ;
        vstd::arithmetic::div_mod::lemma_fundamental_div_mod_converse(a, b, -q, 0);
    } else {
        assert(a == (-q - 1) * b + (b - r)) by (nonlinear_arith)
            requires
                -a == b * q + r,
        ;
        vstd::arithmetic::div_mod::lemma_fundamental_div_mod_converse(a, b, -q - 1, b - r);
    }
}

/// A quotient is no larger in magnitude than its dividend.
pub proof fn lemma_floor_div_bounds(a: int, b: int)
    requires
        b > 0,
    ensures
        a >= 0 ==> 0 <= a / b <= a,
        a < 0 ==> a <= a / b < 0,
{
    vstd::arithmetic::div_mod::lemma_fundamental_div_mod(a, b);
    vstd::arithmetic::div_mod::lemma_mod_bound(a, b);
    let q = a / b;
    let r = a % b;
    if a >= 0 {
        assert(0 <= q <= a) by (nonlinear_arith)
            requires
                a == b * q + r,
                0 <= r < b,
                a >= 0,
                b > 0,
        ;
    } else {
        assert(a <= q && q < 0) by (nonlinear_arith)
            requires
                a == b * q + r,
                0 <= r < b,
                a < 0,
                b > 0,
        ;
    }
}

/// Limits a wide intermediate result to the range of `i64`.
pub fn saturate(x: i128) -> (r: i64)
    ensures
        r as int == saturated(x as int),
{
    if x < i64::MIN as i128 {
        i64::MIN
    } else if x > i64::MAX as i128 {
        i64::MAX
    } else {
        x as i64
    }
}

/// Division rounding towards negative infinity.
pub fn floor_div(a: i128, b: i128) -> (q: i128)
    requires
        b > 0,
    ensures
        q as int == (a as int) / (b as int),
{
    proof {
        lemma_floor_div_bounds(a as int, b as int);
    }
    if a >= 0 {
        a / b
    } else if a == i128::MIN {
        // The negation of the least value does not fit: divide `a + b`
        // instead, whose quotient is one more.
        proof {
            lemma_floor_div_shift(a as int, b as int);
            lemma_floor_div_bounds(a as int + b as int, b as int);
        }
        let shifted: i128 = floor_div_above_least(a + b, b);
        shifted - 1
    } else {
        floor_div_above_least(a, b)
    }
}

/// Adding the divisor to the dividend adds one to the quotient.
proof fn lemma_floor_div_shift(a: int, b: int)
    requires
        b > 0,
    ensures
        (a + b) / b == a / b + 1,
{
    vstd::arithmetic::div_mod::lemma_fundamental_div_mod(a, b);
    vstd::arithmetic::div_mod::lemma_mod_bound(a, b);
    let q = a / b;
    let r = a % b;
    assert(a + b == (q + 1) * b + r) by (nonlinear_arith)
        requires
            a == b * q + r,
    ;
    vstd::arithmetic::div_mod::lemma_fundamental_div_mod_converse(a + b, b, q + 1, r);
}

fn floor_div_above_least(a: i128, b: i128) -> (q: i128)
    requires
        b > 0,
        a > i128::MIN,
    ensures
        q as int == (a as int) / (b as int),
{
    if a >= 0 {
        a / b
    } else {
        proof {
            lemma_floor_div_negative(a as int, b as int);
            lemma_floor_div_bounds(a as int, b as int);
        }
        let t: i128 = -((-a) / b);
        let r: i128 = (-a) % b;
        if r == 0 {
            t
        } else {
            t - 1
        }
    }
}

/// Fixed-point multiplication: `value * factor`, rounded down and saturated.
pub fn scale(value: i64, factor: i64) -> (r: i64)
    ensures
        r as int == scaled(value as int, factor as int),
{
    assert(-0x4000_0000_0000_0000_0000_0000_0000_0000 <= (value as int) * (factor as int)
        <= 0x4000_0000_0000_0000_0000_0000_0000_0000) by (nonlinear_arith)
        requires
            -0x8000_0000_0000_0000 <= value as int <= 0x7fff_ffff_ffff_ffff,
            -0x8000_0000_0000_0000 <= factor as int <= 0x7fff_ffff_ffff_ffff,
    ;
    let product: i128 = (value as i128) * (factor as i128);
    saturate(floor_div(product, ONE as i128))
}

/// Fixed-point division: `numerator / denominator`, rounded down and
/// saturated.  A division by zero gives the greatest value for a positive
/// numerator, the least value for a negative one, and zero for zero.
pub fn quotient(numerator: i64, denominator: i64) -> (r: i64)
    ensures
        r as int == ratio(numerator as int, denominator as int),
{
    let one: i128 = ONE as i128;
    assert(one == 1_000_000);
    if denominator > 0 {
        saturate(floor_div((numerator as i128) * one, denominator as i128))
    } else if denominator == 0 {
        if numerator > 0 {
            i64::MAX
        } else if numerator < 0 {
            i64::MIN
        } else {
            0
        }
    } else {
        saturate(floor_div(-(numerator as i128) * one, -(denominator as i128)))
    }
}

/// The sum of two values, saturated.
pub fn plus(a: i64, b: i64) -> (r: i64)
    ensures
        r as int == saturated(a as int + b as int),
{
    saturate(a as i128 + b as i128)
}

/// The difference of two values, saturated.
pub fn minus(a: i64, b: i64) -> (r: i64)
    ensures
        r as int == saturated(a as int - b as int),
{
    saturate(a as i128 - b as i128)
}

} // verus!
