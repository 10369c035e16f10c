//! Fixed-point arithmetic helpers shared by the curve model, the sampling
//! engine and the viewport transform.
//!
//! All quantities are integers. One curve-space unit (of time or of value)
//! is `SCALE` ticks; tangent slopes are also carried as `SCALE`-scaled
//! ratios. Division is mathematical floor division (the divisor is always
//! positive), implemented here over `i128` so that callers can state their
//! contracts directly with the `/` of mathematical integers.

use vstd::prelude::*;
use vstd::arithmetic::div_mod::lemma_div_is_ordered;
use vstd::arithmetic::div_mod::lemma_div_nonincreasing;
use vstd::arithmetic::div_mod::lemma_div_pos_is_pos;
use vstd::arithmetic::div_mod::lemma_fundamental_div_mod;
use vstd::arithmetic::div_mod::lemma_fundamental_div_mod_converse;
use vstd::arithmetic::mul::lemma_mul_inequality;

verus! {

/// Ticks per one curve-space unit of time or value.
pub const SCALE: i64 = 1000;

/// Keyframe times and values live in [-COORD_LIMIT, COORD_LIMIT] ticks.
pub const COORD_LIMIT: i64 = 1_000_000_000;

/// Tangent slopes live in [-TAN_LIMIT, TAN_LIMIT] (slope of 1e5 at `SCALE` ticks).
pub const TAN_LIMIT: i64 = 100_000_000;

/// Sampled curve values (Hermite arcs may overshoot the keyframe values)
/// stay within [-SAMPLE_LIMIT, SAMPLE_LIMIT].
pub const SAMPLE_LIMIT: i64 = 2_000_000_000_000_000;

/// Screen positions handed to the library stay within [-PIX_LIMIT, PIX_LIMIT] pixels.
pub const PIX_LIMIT: i64 = 1_000_000;

/// A viewport axis spans between 1 and RANGE_LIMIT ticks.
pub const RANGE_LIMIT: i64 = 4_000_000_000;

/// Viewport offsets are clamped to [-OFF_LIMIT, OFF_LIMIT] ticks.
pub const OFF_LIMIT: i64 = 100_000_000_000;

/// Largest factor accepted by `mul_i128`.
pub const MUL_LIMIT: i128 = 10_000_000_000_000_000_000;

/// Largest dividend accepted by `fdiv_i128`.
pub const DIV_LIMIT: i128 = MUL_LIMIT * MUL_LIMIT;

pub open spec fn clamp_spec(x: int, lo: int, hi: int) -> int {
    if x < lo {
        lo
    } else if x > hi {
        hi
    } else {
        x
    }
}

pub fn clamp_i64(x: i64, lo: i64, hi: i64) -> (r: i64)
    requires
        lo <= hi,
    ensures
        r == clamp_spec(x as int, lo as int, hi as int),
{
    if x < lo {
        lo
    } else if x > hi {
        hi
    } else {
        x
    }
}

/// Exact product of two bounded `i128` values.
pub fn mul_i128(a: i128, b: i128) -> (r: i128)
    requires
        -MUL_LIMIT <= a <= MUL_LIMIT,
        -MUL_LIMIT <= b <= MUL_LIMIT,
    ensures
        r == a * b,
{
    proof {
        assert(-DIV_LIMIT <= a * b <= DIV_LIMIT) by (nonlinear_arith)
            requires
                -MUL_LIMIT <= a <= MUL_LIMIT,
                -MUL_LIMIT <= b <= MUL_LIMIT,
        ;
    }
    a * b
}

/// Exact product of two `i128` values together with the product of their
/// stated magnitude bounds, for callers that must bound intermediates.
pub fn mulb_i128(a: i128, b: i128, ab: i128, bb: i128) -> (r: i128)
    requires
        0 <= ab <= MUL_LIMIT,
        0 <= bb <= MUL_LIMIT,
        -ab <= a <= ab,
        -bb <= b <= bb,
    ensures
        r == a * b,
        -(ab * bb) <= r <= ab * bb,
{
    proof {
        assert(-(ab * bb) <= a * b && a * b <= ab * bb && ab * bb <= DIV_LIMIT)
            by (nonlinear_arith)
            requires
                0 <= ab <= MUL_LIMIT,
                0 <= bb <= MUL_LIMIT,
                -ab <= a <= ab,
                -bb <= b <= bb,
        ;
    }
    a * b
}

/// Floor division by a positive divisor: agrees with `/` on mathematical
/// integers (whose quotient for a positive divisor is the floor).
pub fn fdiv_i128(a: i128, b: i128) -> (r: i128)
    requires
        -DIV_LIMIT <= a <= DIV_LIMIT,
        1 <= b <= MUL_LIMIT,
    ensures
        r == a as int / b as int,
{
    if a >= 0 {
        let q: u128 = (a as u128) / (b as u128);
        proof {
            lemma_div_pos_is_pos(a as int, b as int);
            lemma_div_nonincreasing(a as int, b as int);
        }
        q as i128
    } else {
        let na: u128 = (-a) as u128;
        let q: u128 = (na + (b as u128) - 1) / (b as u128);
        proof {
            let n = na as int;
            let d = b as int;
            let qq = (n + d - 1) / d;
            lemma_div_pos_is_pos(n + d - 1, d);
            lemma_div_nonincreasing(n + d - 1, d);
            lemma_fundamental_div_mod(n + d - 1, d);
            let rr = (n + d - 1) % d;
            assert(n + d - 1 == d * qq + rr);
            assert((-qq) * d == -(d * qq)) by (nonlinear_arith);
            assert(a as int == (-qq) * d + (d - 1 - rr));
            lemma_fundamental_div_mod_converse(a as int, d, -qq, d - 1 - rr);
        }
        -(q as i128)
    }
}

/// Floor division shrinks magnitude: the quotient of `a` by a positive
/// divisor lies between 0 and `a`.
pub proof fn lemma_div_abs(a: int, d: int)
    requires
        1 <= d,
    ensures
        a >= 0 ==> 0 <= a / d <= a,
        a < 0 ==> a <= a / d <= 0,
{
    if a >= 0 {
        lemma_div_pos_is_pos(a, d);
        lemma_div_nonincreasing(a, d);
    } else {
        lemma_fundamental_div_mod(a, d);
        let q = a / d;
        let r = a % d;
        assert(a == d * q + r);
        assert(a <= q <= 0) by (nonlinear_arith)
            requires
                a == d * q + r,
                0 <= r < d,
                1 <= d,
                a < 0,
        ;
    }
}

/// A negative dividend by a positive divisor floors to -1 or below.
pub proof fn lemma_neg_div_is_negative(a: int, d: int)
    requires
        a < 0,
        1 <= d,
    ensures
        a / d <= -1,
{
    lemma_fundamental_div_mod(a, d);
    let q = a / d;
    let r = a % d;
    assert(q <= -1) by (nonlinear_arith)
        requires
            a == d * q + r,
            0 <= r < d,
            1 <= d,
            a < 0,
    ;
}

/// A blend `dv * n / d` with `0 <= n <= d` never leaves the interval
/// between 0 and `dv`.
pub proof fn lemma_blend_bound(dv: int, n: int, d: int)
    requires
        0 <= n <= d,
        1 <= d,
    ensures
        dv >= 0 ==> 0 <= dv * n / d <= dv,
        dv < 0 ==> dv <= dv * n / d <= 0,
{
    if dv >= 0 {
        lemma_mul_inequality(0, dv, n);
        assert(dv * n <= dv * d) by (nonlinear_arith)
            requires
                0 <= n <= d,
                dv >= 0,
        ;
        lemma_div_pos_is_pos(dv * n, d);
        lemma_div_is_ordered(dv * n, dv * d, d);
        lemma_mul_div_exact(dv, d);
    } else {
        assert(dv * d <= dv * n && dv * n <= 0) by (nonlinear_arith)
            requires
                0 <= n <= d,
                dv < 0,
        ;
        lemma_div_is_ordered(dv * d, dv * n, d);
        lemma_div_is_ordered(dv * n, 0, d);
        lemma_mul_div_exact(dv, d);
        assert(0int / d == 0) by {
            lemma_div_pos_is_pos(0, d);
            lemma_div_nonincreasing(0, d);
        }
    }
}

/// `(x * d) / d == x` for a positive divisor, for any sign of `x`.
pub proof fn lemma_mul_div_exact(x: int, d: int)
    requires
        1 <= d,
    ensures
        (x * d) / d == x,
{
    assert(x * d == x * d + 0);
    lemma_fundamental_div_mod_converse(x * d, d, x, 0);
}

} // verus!
