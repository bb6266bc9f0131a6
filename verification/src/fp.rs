//! Fixed-point numeric base for the simulator.
//!
//! All world quantities (lengths, angles, velocities, times) are carried as
//! `i64` counts of micro-units: one unit of the world is `SCALE` ticks.
//! Intermediate products are formed in `i128`, where a product of two
//! in-range `i64` values can never overflow.

use vstd::prelude::*;

verus! {

/// Number of fixed-point ticks per world unit (or per radian, per second).
pub const SCALE: i64 = 1_000_000;

/// `SCALE * SCALE`, the divisor that collapses a product of two scaled values.
pub const SCALE2: i64 = 1_000_000_000_000;

/// Truncating (round toward zero) quotient, the behaviour of `/` on Rust's
/// signed integers, stated over mathematical integers.
pub open spec fn tdiv(a: int, b: int) -> int {
    if a >= 0 {
        a / b
    } else {
        -((-a) / b)
    }
}

/// Truncating division on wide integers; the quotient of in-range operands
/// with a positive divisor always fits again.
pub fn div_i128(a: i128, b: i128) -> (r: i128)
    requires
        b > 0,
        a > i128::MIN,
    ensures
        r == tdiv(a as int, b as int),
        a >= 0 ==> 0 <= r <= a,
        a < 0 ==> a <= r <= 0,
{
    if a >= 0 {
        a / b
    } else {
        -((-a) / b)
    }
}

/// A product of values bounded in magnitude is bounded by the product of the
/// bounds.
pub proof fn lemma_abs_mul_le(a: int, b: int, aa: int, bb: int)
    requires
        -aa <= a <= aa,
        -bb <= b <= bb,
    ensures
        -(aa * bb) <= a * b <= aa * bb,
{
    assert(-(aa * bb) <= a * b <= aa * bb) by (nonlinear_arith)
        requires
            -aa <= a <= aa,
            -bb <= b <= bb,
    ;
}

/// A truncating quotient is bounded by the quotient of the bound.
pub proof fn lemma_tdiv_bound(a: int, b: int, aa: int)
    requires
        b > 0,
        -aa <= a <= aa,
    ensures
        -(aa / b) <= tdiv(a, b) <= aa / b,
{
    assert(-(aa / b) <= tdiv(a, b) <= aa / b) by (nonlinear_arith)
        requires
            b > 0,
            -aa <= a <= aa,
    ;
}

/// Exact product of coordinate-scale values; the result of two such products
/// can be added without leaving `i128`.
pub fn mul_c(a: i128, b: i128) -> (r: i128)
    requires
        -2_400_000_000 <= a <= 2_400_000_000,
        -2_400_000_000 <= b <= 2_400_000_000,
    ensures
        r == a * b,
        -5_760_000_000_000_000_000 <= r <= 5_760_000_000_000_000_000,
{
    proof {
        lemma_abs_mul_le(a as int, b as int, 2_400_000_000, 2_400_000_000);
    }
    a * b
}

/// Exact product of wide values whose magnitudes stay below 1.3e19, so that
/// the product still fits `i128`.
pub fn mul_w(a: i128, b: i128) -> (r: i128)
    requires
        -13_000_000_000_000_000_000 <= a <= 13_000_000_000_000_000_000,
        -13_000_000_000_000_000_000 <= b <= 13_000_000_000_000_000_000,
    ensures
        r == a * b,
{
    proof {
        lemma_abs_mul_le(a as int, b as int, 13_000_000_000_000_000_000, 13_000_000_000_000_000_000);
    }
    a * b
}

/// The greatest `r` with `r * r <= n`, as a mathematical characterisation.
pub open spec fn is_isqrt(n: int, r: int) -> bool {
    0 <= r && r * r <= n && n < (r + 1) * (r + 1)
}

/// Integer square root by binary search on the answer.
pub fn isqrt_u128(n: u128) -> (r: u128)
    ensures
        is_isqrt(n as int, r as int),
        r < 0x1_0000_0000_0000_0000u128,
{
    let mut lo: u128 = 0;
    let mut hi: u128 = 0x1_0000_0000_0000_0000u128;
    // Invariant: lo * lo <= n < hi * hi, and the answer lies in [lo, hi).
    while hi - lo > 1
        invariant
            lo < hi,
            hi <= 0x1_0000_0000_0000_0000u128,
            lo * lo <= n,
            n < hi * hi,
        decreases hi - lo,
    {
        let mid: u128 = lo + (hi - lo) / 2;
        proof {
            assert(mid < 0x1_0000_0000_0000_0000u128);
            assert(mid * mid < 0x1_0000_0000_0000_0000u128 * 0x1_0000_0000_0000_0000u128)
                by (nonlinear_arith)
                requires mid < 0x1_0000_0000_0000_0000u128,
            ;
        }
        if mid * mid <= n {
            lo = mid;
        } else {
            hi = mid;
        }
    }
    lo
}

} // verus!
