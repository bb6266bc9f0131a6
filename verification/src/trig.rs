//! Fixed-point trigonometry on micro-radian angles.
//!
//! `sin_micro` and `cos_micro` evaluate truncated Taylor series after folding
//! the argument into a quarter period; every intermediate step is the exact
//! integer computation that the corresponding spec function states, so the
//! results are deterministic and fully characterised.

use vstd::prelude::*;
use crate::fp::{div_i128, lemma_abs_mul_le, lemma_tdiv_bound, tdiv, SCALE, SCALE2};

verus! {

/// One half turn, in micro-radians.
pub const PI: i64 = 3_141_593;

/// One quarter turn, in micro-radians.
pub const HALF_PI: i64 = 1_570_796;

/// One full turn, in micro-radians.
pub const TAU: i64 = 6_283_185;

/// Saturation value of the fixed-point tangent near its poles.
pub const TAN_CAP: i64 = 10_000_000;

/// Sine series x - x^3/3! + x^5/5! - x^7/7! + x^9/9!, evaluated over scaled
/// integers; `p_k` carries x^k / SCALE^(k-1), so each term keeps micro scale.
pub open spec fn sin_poly(x: int) -> int {
    let x2 = x * x;
    let p3 = tdiv(x * x2, SCALE2 as int);
    let p5 = tdiv(p3 * x2, SCALE2 as int);
    let p7 = tdiv(p5 * x2, SCALE2 as int);
    let p9 = tdiv(p7 * x2, SCALE2 as int);
    x - tdiv(p3, 6) + tdiv(p5, 120) - tdiv(p7, 5040) + tdiv(p9, 362880)
}

/// Cosine series 1 - x^2/2! + x^4/4! - x^6/6! + x^8/8!, evaluated over scaled
/// integers; `u_k` carries x^k / SCALE^(k-1).
pub open spec fn cos_poly(x: int) -> int {
    let u2 = tdiv(x * x, SCALE as int);
    let u4 = tdiv(u2 * u2, SCALE as int);
    let u6 = tdiv(u4 * u2, SCALE as int);
    let u8 = tdiv(u6 * u2, SCALE as int);
    SCALE - tdiv(u2, 2) + tdiv(u4, 24) - tdiv(u6, 720) + tdiv(u8, 40320)
}

/// The fixed-point sine of a normalised angle: the argument is folded into
/// the quarter period [0, HALF_PI] and the series sign-adjusted.
pub open spec fn sin_of(t: int) -> int {
    if t >= 0 {
        if t <= HALF_PI as int {
            sin_poly(t)
        } else {
            sin_poly(PI as int - t)
        }
    } else {
        if t >= -(HALF_PI as int) {
            -sin_poly(-t)
        } else {
            -sin_poly(PI as int + t)
        }
    }
}

/// The fixed-point cosine of a normalised angle.
pub open spec fn cos_of(t: int) -> int {
    let a = if t >= 0 { t } else { -t };
    if a <= HALF_PI as int {
        cos_poly(a)
    } else {
        -cos_poly(PI as int - a)
    }
}

/// The fixed-point tangent: sin/cos in micro scale, saturated at `TAN_CAP`
/// where the cosine rounds to zero or the magnitude leaves the cap.
pub open spec fn tan_of(t: int) -> int {
    let c = cos_of(t);
    if c == 0 {
        if sin_of(t) >= 0 {
            TAN_CAP as int
        } else {
            -(TAN_CAP as int)
        }
    } else {
        let ca = if c < 0 { -c } else { c };
        let q = tdiv(sin_of(t) * SCALE as int, ca);
        let q2 = if c < 0 { -q } else { q };
        if q2 > TAN_CAP as int {
            TAN_CAP as int
        } else if q2 < -(TAN_CAP as int) {
            -(TAN_CAP as int)
        } else {
            q2
        }
    }
}

/// Evaluates the sine series on a quarter-period argument.
fn sin_poly_exec(x: i64) -> (r: i64)
    requires
        0 <= x <= HALF_PI,
    ensures
        r == sin_poly(x as int),
        -1_700_000 <= r <= 1_700_000,
{
    let xw: i128 = x as i128;
    proof {
        lemma_abs_mul_le(xw as int, xw as int, 1_570_796, 1_570_796);
    }
    let x2: i128 = xw * xw;
    proof {
        lemma_abs_mul_le(xw as int, x2 as int, 1_570_796, 2_467_401_000_000);
    }
    let p3: i128 = div_i128(xw * x2, SCALE2 as i128);
    proof {
        lemma_tdiv_bound(xw as int * x2 as int, SCALE2 as int, 3_876_000_000_000_000_000);
        lemma_abs_mul_le(p3 as int, x2 as int, 3_876_000, 2_467_401_000_000);
    }
    let p5: i128 = div_i128(p3 * x2, SCALE2 as i128);
    proof {
        lemma_tdiv_bound(p3 as int * x2 as int, SCALE2 as int, 9_564_000_000_000_000_000);
        lemma_abs_mul_le(p5 as int, x2 as int, 9_564_000, 2_467_401_000_000);
    }
    let p7: i128 = div_i128(p5 * x2, SCALE2 as i128);
    proof {
        lemma_tdiv_bound(p5 as int * x2 as int, SCALE2 as int, 23_600_000_000_000_000_000);
        lemma_abs_mul_le(p7 as int, x2 as int, 23_600_000, 2_467_401_000_000);
    }
    let p9: i128 = div_i128(p7 * x2, SCALE2 as i128);
    proof {
        lemma_tdiv_bound(p7 as int * x2 as int, SCALE2 as int, 58_232_000_000_000_000_000);
    }
    let t3: i128 = div_i128(p3, 6);
    let t5: i128 = div_i128(p5, 120);
    let t7: i128 = div_i128(p7, 5040);
    let t9: i128 = div_i128(p9, 362880);
    proof {
        lemma_tdiv_bound(p3 as int, 6, 3_876_000);
        lemma_tdiv_bound(p5 as int, 120, 9_564_000);
        lemma_tdiv_bound(p7 as int, 5040, 23_600_000);
        lemma_tdiv_bound(p9 as int, 362880, 58_232_000);
    }
    (xw - t3 + t5 - t7 + t9) as i64
}

/// Evaluates the cosine series on a quarter-period argument.
fn cos_poly_exec(x: i64) -> (r: i64)
    requires
        0 <= x <= HALF_PI,
    ensures
        r == cos_poly(x as int),
        -1_300_000 <= r <= 1_300_000,
{
    let xw: i128 = x as i128;
    proof {
        lemma_abs_mul_le(xw as int, xw as int, 1_570_796, 1_570_796);
    }
    let u2: i128 = div_i128(xw * xw, SCALE as i128);
    proof {
        lemma_tdiv_bound(xw as int * xw as int, SCALE as int, 2_467_401_000_000);
        lemma_abs_mul_le(u2 as int, u2 as int, 2_467_401, 2_467_401);
    }
    let u4: i128 = div_i128(u2 * u2, SCALE as i128);
    proof {
        lemma_tdiv_bound(u2 as int * u2 as int, SCALE as int, 6_088_100_000_000);
        lemma_abs_mul_le(u4 as int, u2 as int, 6_088_100, 2_467_401);
    }
    let u6: i128 = div_i128(u4 * u2, SCALE as i128);
    proof {
        lemma_tdiv_bound(u4 as int * u2 as int, SCALE as int, 15_022_000_000_000);
        lemma_abs_mul_le(u6 as int, u2 as int, 15_022_000, 2_467_401);
    }
    let u8: i128 = div_i128(u6 * u2, SCALE as i128);
    proof {
        lemma_tdiv_bound(u6 as int * u2 as int, SCALE as int, 37_066_000_000_000);
        lemma_tdiv_bound(u2 as int, 2, 2_467_401);
        lemma_tdiv_bound(u4 as int, 24, 6_088_100);
        lemma_tdiv_bound(u6 as int, 720, 15_022_000);
        lemma_tdiv_bound(u8 as int, 40320, 37_066_000);
    }
    let t2: i128 = div_i128(u2, 2);
    let t4: i128 = div_i128(u4, 24);
    let t6: i128 = div_i128(u6, 720);
    let t8: i128 = div_i128(u8, 40320);
    (SCALE as i128 - t2 + t4 - t6 + t8) as i64
}

/// One eighth turn, in micro-radians.
pub const QUARTER_PI: i64 = 785_398;

/// Arctangent series u - u^3/3 + u^5/5 - u^7/7 + u^9/9 over scaled
/// integers, for arguments within the first half-octant.
pub open spec fn atan_poly(u: int) -> int {
    let u2 = u * u;
    let p3 = tdiv(u * u2, SCALE2 as int);
    let p5 = tdiv(p3 * u2, SCALE2 as int);
    let p7 = tdiv(p5 * u2, SCALE2 as int);
    let p9 = tdiv(p7 * u2, SCALE2 as int);
    u - tdiv(p3, 3) + tdiv(p5, 5) - tdiv(p7, 7) + tdiv(p9, 9)
}

/// Arctangent of a ratio in [0, 1] (micro-scaled): evaluated directly below
/// tan(pi/8), else shifted to the eighth turn by the half-angle identity.
pub open spec fn atan_frac(z: int) -> int {
    if z > 414_214 {
        QUARTER_PI as int + atan_poly(tdiv((z - SCALE as int) * SCALE as int, z + SCALE as int))
    } else {
        atan_poly(z)
    }
}

/// The fixed-point two-argument arctangent: the heading of the vector
/// `(x, y)`, in micro-radians within a half turn of either sign.
pub open spec fn atan2_of(y: int, x: int) -> int {
    if x == 0 && y == 0 {
        0
    } else {
        let ax = if x >= 0 { x } else { -x };
        let ay = if y >= 0 { y } else { -y };
        let base = if ay <= ax {
            atan_frac(tdiv(ay * SCALE as int, ax))
        } else {
            HALF_PI as int - atan_frac(tdiv(ax * SCALE as int, ay))
        };
        if x >= 0 && y >= 0 {
            base
        } else if x < 0 && y >= 0 {
            PI as int - base
        } else if x < 0 {
            -(PI as int - base)
        } else {
            -base
        }
    }
}

/// Evaluates the arctangent series on a half-octant argument.
fn atan_poly_exec(u: i64) -> (r: i64)
    requires
        -450_000 <= u <= 450_000,
    ensures
        r == atan_poly(u as int),
        -600_000 <= r <= 600_000,
{
    let uw: i128 = u as i128;
    proof {
        lemma_abs_mul_le(uw as int, uw as int, 450_000, 450_000);
    }
    let u2: i128 = uw * uw;
    proof {
        lemma_abs_mul_le(uw as int, u2 as int, 450_000, 202_500_000_000);
        lemma_tdiv_bound(uw as int * u2 as int, SCALE2 as int, 91_200_000_000_000_000);
    }
    let p3: i128 = div_i128(uw * u2, SCALE2 as i128);
    proof {
        lemma_abs_mul_le(p3 as int, u2 as int, 91_200, 202_500_000_000);
        lemma_tdiv_bound(p3 as int * u2 as int, SCALE2 as int, 18_500_000_000_000_000);
    }
    let p5: i128 = div_i128(p3 * u2, SCALE2 as i128);
    proof {
        lemma_abs_mul_le(p5 as int, u2 as int, 18_500, 202_500_000_000);
        lemma_tdiv_bound(p5 as int * u2 as int, SCALE2 as int, 3_800_000_000_000_000);
    }
    let p7: i128 = div_i128(p5 * u2, SCALE2 as i128);
    proof {
        lemma_abs_mul_le(p7 as int, u2 as int, 3_800, 202_500_000_000);
        lemma_tdiv_bound(p7 as int * u2 as int, SCALE2 as int, 770_000_000_000_000);
    }
    let p9: i128 = div_i128(p7 * u2, SCALE2 as i128);
    proof {
        lemma_tdiv_bound(p3 as int, 3, 91_200);
        lemma_tdiv_bound(p5 as int, 5, 18_500);
        lemma_tdiv_bound(p7 as int, 7, 3_800);
        lemma_tdiv_bound(p9 as int, 9, 770);
    }
    let t3: i128 = div_i128(p3, 3);
    let t5: i128 = div_i128(p5, 5);
    let t7: i128 = div_i128(p7, 7);
    let t9: i128 = div_i128(p9, 9);
    (uw - t3 + t5 - t7 + t9) as i64
}

/// Evaluates [`atan_frac`] on a micro-scaled ratio in [0, SCALE].
fn atan_frac_exec(z: i64) -> (r: i64)
    requires
        0 <= z <= SCALE,
    ensures
        r == atan_frac(z as int),
        -600_000 <= r <= 1_400_000,
{
    if z > 414_214 {
        proof {
            lemma_abs_mul_le(z as int - SCALE as int, SCALE as int, 600_000, 1_000_000);
            lemma_tdiv_bound(
                (z as int - SCALE as int) * SCALE as int, z as int + SCALE as int,
                600_000_000_000,
            );
        }
        let w: i128 = div_i128(
            (z as i128 - SCALE as i128) * SCALE as i128, z as i128 + SCALE as i128,
        );
        proof {
            lemma_abs_mul_le(z as int - SCALE as int, SCALE as int, 585_786, 1_000_000);
            assert(-450_000 <= tdiv((z as int - SCALE as int) * SCALE as int, z as int + SCALE as int) <= 0)
                by (nonlinear_arith)
                requires
                    -585_786_000_000 <= (z as int - SCALE as int) * SCALE as int <= 0,
                    z as int + SCALE as int >= 1_414_215,
            ;
        }
        QUARTER_PI + atan_poly_exec(w as i64)
    } else {
        atan_poly_exec(z)
    }
}

/// Fixed-point two-argument arctangent.
pub fn atan2_micro(y: i64, x: i64) -> (r: i64)
    requires
        -2_000_000_000 <= y <= 2_000_000_000,
        -2_000_000_000 <= x <= 2_000_000_000,
    ensures
        r == atan2_of(y as int, x as int),
        -10_000_000 <= r <= 10_000_000,
{
    if x == 0 && y == 0 {
        return 0;
    }
    let ax: i64 = if x >= 0 { x } else { -x };
    let ay: i64 = if y >= 0 { y } else { -y };
    let base: i64 = if ay <= ax {
        proof {
            lemma_abs_mul_le(ay as int, SCALE as int, ax as int, 1_000_000);
            lemma_tdiv_bound(ay as int * SCALE as int, ax as int, ax as int * 1_000_000);
            lemma_ratio_le_scale(ay as int, ax as int);
        }
        let zq: i128 = div_i128(ay as i128 * SCALE as i128, ax as i128);
        atan_frac_exec(zq as i64)
    } else {
        proof {
            lemma_abs_mul_le(ax as int, SCALE as int, ay as int, 1_000_000);
            lemma_tdiv_bound(ax as int * SCALE as int, ay as int, ay as int * 1_000_000);
            lemma_ratio_le_scale(ax as int, ay as int);
        }
        let zq: i128 = div_i128(ax as i128 * SCALE as i128, ay as i128);
        HALF_PI - atan_frac_exec(zq as i64)
    };
    if x >= 0 && y >= 0 {
        base
    } else if x < 0 && y >= 0 {
        PI - base
    } else if x < 0 {
        -(PI - base)
    } else {
        -base
    }
}

/// A scaled ratio of a smaller by a larger magnitude stays within the
/// scale.
proof fn lemma_ratio_le_scale(a: int, b: int)
    requires
        0 <= a <= b,
        1 <= b,
    ensures
        0 <= tdiv(a * SCALE as int, b) <= SCALE as int,
{
    assert(0 <= tdiv(a * SCALE as int, b) <= SCALE as int) by (nonlinear_arith)
        requires
            0 <= a <= b,
            1 <= b,
    ;
}

/// Fixed-point sine of a normalised micro-radian angle.
pub fn sin_micro(t: i64) -> (r: i64)
    requires
        -PI <= t <= PI,
    ensures
        r == sin_of(t as int),
        -1_700_000 <= r <= 1_700_000,
{
    if t >= 0 {
        if t <= HALF_PI {
            sin_poly_exec(t)
        } else {
            sin_poly_exec(PI - t)
        }
    } else {
        if t >= -HALF_PI {
            -sin_poly_exec(-t)
        } else {
            -sin_poly_exec(PI + t)
        }
    }
}

/// Fixed-point cosine of a normalised micro-radian angle.
pub fn cos_micro(t: i64) -> (r: i64)
    requires
        -PI <= t <= PI,
    ensures
        r == cos_of(t as int),
        -1_300_000 <= r <= 1_300_000,
{
    let a: i64 = if t >= 0 { t } else { -t };
    if a <= HALF_PI {
        cos_poly_exec(a)
    } else {
        -cos_poly_exec(PI - a)
    }
}

/// Fixed-point tangent of a normalised micro-radian angle, saturated at
/// `TAN_CAP` near the poles so that it is total.
pub fn tan_micro(t: i64) -> (r: i64)
    requires
        -PI <= t <= PI,
    ensures
        r == tan_of(t as int),
        -TAN_CAP <= r <= TAN_CAP,
{
    let s = sin_micro(t);
    let c = cos_micro(t);
    if c == 0 {
        if s >= 0 {
            TAN_CAP
        } else {
            -TAN_CAP
        }
    } else {
        let ca: i128 = if c < 0 { -(c as i128) } else { c as i128 };
        let q: i128 = div_i128(s as i128 * SCALE as i128, ca);
        proof {
            lemma_tdiv_bound(s as int * SCALE as int, ca as int, 2_000_000_000_000);
        }
        let q2: i128 = if c < 0 { -q } else { q };
        if q2 > TAN_CAP as i128 {
            TAN_CAP
        } else if q2 < -(TAN_CAP as i128) {
            -TAN_CAP
        } else {
            q2 as i64
        }
    }
}

} // verus!
