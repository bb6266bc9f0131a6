//! Angle normalisation and pose interpolation.

use vstd::prelude::*;
use crate::fp::{div_i128, lemma_abs_mul_le, lemma_tdiv_bound, tdiv, SCALE};
use crate::parameter::POS_LIMIT;
use crate::trig::{PI, TAU};

verus! {

/// The angle folded into [-PI, PI] by repeatedly moving it one full turn,
/// exactly as the executable loop does.
pub open spec fn norm_spec(t: int) -> int
    decreases (if t >= 0 { t } else { -t }),
{
    if t > PI as int {
        norm_spec(t - TAU as int)
    } else if t < -(PI as int) {
        norm_spec(t + TAU as int)
    } else {
        t
    }
}

/// Folds a micro-radian angle into [-PI, PI].
pub fn normalise(theta: i64) -> (r: i64)
    ensures
        r == norm_spec(theta as int),
        -PI <= r <= PI,
{
    let mut t: i64 = theta;
    if t > PI {
        while t > PI
            invariant
                t > PI - TAU,
                norm_spec(t as int) == norm_spec(theta as int),
            decreases t - (PI - TAU),
        {
            t = t - TAU;
        }
        return t;
    } else if t < -PI {
        while t < -PI
            invariant
                t < TAU - PI,
                norm_spec(t as int) == norm_spec(theta as int),
            decreases (TAU - PI) - t,
        {
            t = t + TAU;
        }
        return t;
    }
    t
}

/// Component-wise linear interpolation of scaled values at the fixed-point
/// parameter `t` (0 at `a`, SCALE at `b`).
pub open spec fn lerp(a: int, b: int, t: int) -> int {
    a + tdiv((b - a) * t, SCALE as int)
}

/// Linearly interpolates a pose between `start` and `end` at parameter `t`;
/// the heading is interpolated like the coordinates, with no wraparound
/// correction.
pub fn interpolate_pose(start: &(i64, i64, i64), end: &(i64, i64, i64), t: i64) -> (r: (i64, i64, i64))
    requires
        0 <= t <= SCALE,
        -POS_LIMIT <= start.0 <= POS_LIMIT,
        -POS_LIMIT <= start.1 <= POS_LIMIT,
        -POS_LIMIT <= start.2 <= POS_LIMIT,
        -POS_LIMIT <= end.0 <= POS_LIMIT,
        -POS_LIMIT <= end.1 <= POS_LIMIT,
        -POS_LIMIT <= end.2 <= POS_LIMIT,
    ensures
        r.0 == lerp(start.0 as int, end.0 as int, t as int),
        r.1 == lerp(start.1 as int, end.1 as int, t as int),
        r.2 == lerp(start.2 as int, end.2 as int, t as int),
        between(start.0 as int, end.0 as int, r.0 as int),
        between(start.1 as int, end.1 as int, r.1 as int),
        between(start.2 as int, end.2 as int, r.2 as int),
{
    (
        lerp_exec(start.0, end.0, t),
        lerp_exec(start.1, end.1, t),
        lerp_exec(start.2, end.2, t),
    )
}

/// The value `v` lies in the closed interval spanned by `a` and `b`.
pub open spec fn between(a: int, b: int, v: int) -> bool {
    (a <= v <= b) || (b <= v <= a)
}

/// One interpolated component.
fn lerp_exec(a: i64, b: i64, t: i64) -> (r: i64)
    requires
        0 <= t <= SCALE,
        -POS_LIMIT <= a <= POS_LIMIT,
        -POS_LIMIT <= b <= POS_LIMIT,
    ensures
        r == lerp(a as int, b as int, t as int),
        between(a as int, b as int, r as int),
{
    let d: i128 = b as i128 - a as i128;
    proof {
        lemma_abs_mul_le(d as int, t as int, 2_000_000_000_000_000, 1_000_000);
        lemma_tdiv_bound(d as int * t as int, SCALE as int, 2_000_000_000_000_000_000_000);
        assert(0 <= tdiv(d as int * t as int, SCALE as int) <= d as int
            || d as int <= tdiv(d as int * t as int, SCALE as int) <= 0) by (nonlinear_arith)
            requires
                0 <= t as int <= SCALE as int,
                SCALE == 1_000_000i64,
        ;
    }
    let step: i128 = div_i128(d * t as i128, SCALE as i128);
    (a as i128 + step) as i64
}

} // verus!
