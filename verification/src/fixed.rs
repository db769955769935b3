//! Fixed-point arithmetic: every fractional quantity of the simulation is an
//! `i64` that counts millionths. Intermediate results are computed exactly in
//! `i128` and stored values saturate at the ends of the `i64` range.

use vstd::prelude::*;

verus! {

/// The number of units that make up 1.
pub const SCALE: i64 = 1_000_000;

/// The square of `SCALE`: the units of a product of two fractions.
pub const SCALE_SQUARED: i128 = 1_000_000_000_000;

/// The quotient of `a` by a positive `b`, rounded toward zero.
pub open spec fn trunc_div(a: int, b: int) -> int
    recommends
        b > 0,
{
    if a >= 0 {
        a / b
    } else {
        -((-a) / b)
    }
}

/// The nearest `i64` to `v`.
pub open spec fn saturate(v: int) -> i64 {
    if v < i64::MIN {
        i64::MIN
    } else if v > i64::MAX {
        i64::MAX
    } else {
        v as i64
    }
}

/// The product of a value and a factor that are both in millionths, rounded
/// toward zero.
pub open spec fn scaled(value: int, factor: int) -> int {
    trunc_div(value * factor, SCALE as int)
}

/// The smaller of two values.
pub open spec fn min_of(a: int, b: int) -> int {
    if a <= b {
        a
    } else {
        b
    }
}

/// Rounds toward zero: the quotient is never further from zero than the exact
/// ratio, and it has the sign of the dividend.
pub proof fn lemma_trunc_div_bounds(a: int, b: int)
    requires
        b > 0,
    ensures
        a >= 0 ==> 0 <= trunc_div(a, b) <= a,
        a <= 0 ==> a <= trunc_div(a, b) <= 0,
        trunc_div(a, b) * b <= a + b - 1,
        a - b + 1 <= trunc_div(a, b) * b,
        b == 1 ==> trunc_div(a, b) == a,
{
    if a >= 0 {
        vstd::arithmetic::div_mod::lemma_fundamental_div_mod(a, b);
        vstd::arithmetic::div_mod::lemma_mod_bound(a, b);
        vstd::arithmetic::div_mod::lemma_div_pos_is_pos(a, b);
        assert(b * (a / b) == (a / b) * b) by (nonlinear_arith);
        assert((a / b) * b <= a);
        assert(a / b <= a) by (nonlinear_arith)
            requires
                (a / b) * b <= a,
                a / b >= 0,
                b >= 1,
        ;
    } else {
        let m = -a;
        vstd::arithmetic::div_mod::lemma_fundamental_div_mod(m, b);
        vstd::arithmetic::div_mod::lemma_mod_bound(m, b);
        vstd::arithmetic::div_mod::lemma_div_pos_is_pos(m, b);
        assert(b * (m / b) == (m / b) * b) by (nonlinear_arith);
        assert(m / b <= m) by (nonlinear_arith)
            requires
                (m / b) * b <= m,
                m / b >= 0,
                b >= 1,
        ;
        assert((-(m / b)) * b == -((m / b) * b)) by (nonlinear_arith);
    }
}

/// Stores an exact intermediate result, saturating at the ends of the range.
pub fn saturating(v: i128) -> (r: i64)
    ensures
        r == saturate(v as int),
{
    if v < i64::MIN as i128 {
        i64::MIN
    } else if v > i64::MAX as i128 {
        i64::MAX
    } else {
        v as i64
    }
}

/// A product is bounded by the product of the bounds of its factors.
pub proof fn lemma_product_bound(x: int, y: int, bound: int)
    requires
        -bound <= x <= bound,
        -bound <= y <= bound,
    ensures
        -(bound * bound) <= x * y <= bound * bound,
{
    assert(-(bound * bound) <= x * y <= bound * bound) by (nonlinear_arith)
        requires
            -bound <= x <= bound,
            -bound <= y <= bound,
    ;
}

/// Multiplies a value by a factor in millionths, rounding toward zero.
pub fn scale(value: i64, factor: i64) -> (r: i128)
    ensures
        r == scaled(value as int, factor as int),
        -0x4000_0000_0000_0000_0000_0000_0000_0000 <= r <= 0x4000_0000_0000_0000_0000_0000_0000_0000,
        value >= 0 && factor >= 0 ==> r >= 0,
{
    proof {
        lemma_product_bound(value as int, factor as int, 0x8000_0000_0000_0000);
        lemma_trunc_div_bounds(value as int * factor as int, SCALE as int);
        if value >= 0 && factor >= 0 {
            assert(value as int * factor as int >= 0) by (nonlinear_arith)
                requires
                    value >= 0,
                    factor >= 0,
            ;
        }
    }
    divide(value as i128 * factor as i128, SCALE as i128)
}

/// Divides by a positive divisor, rounding toward zero.
pub fn divide(a: i128, b: i128) -> (q: i128)
    requires
        b > 0,
    ensures
        q == trunc_div(a as int, b as int),
{
    proof {
        lemma_trunc_div_bounds(a as int, b as int);
    }
    a / b
}

} // verus!
