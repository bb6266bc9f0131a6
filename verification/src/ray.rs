//! Ray casting against circles, rectangles and polylines, for the range
//! sensor.
//!
//! Rays are cast on millimetre-rounded geometry: the reported range has
//! millimetre resolution, far below the sensor tolerances. The direction is
//! a micro-scaled unit vector (cosine, sine); a cast is solid, so a ray that
//! starts inside a shape reports distance zero, and a miss is `None`.

use vstd::prelude::*;
use crate::collision::{pt_in_quad, pt_in_quad_exec};
use crate::fp::{div_i128, is_isqrt, isqrt_u128, lemma_abs_mul_le, lemma_tdiv_bound, mul_c, mul_w, tdiv, SCALE};
use crate::sweep::{
    in_mpt, lemma_isqrt_unique, lemma_nonneg_sq_le, mpt_ok, opt_min, opt_min_exec, sqrt_floor,
};

verus! {

/// Longest ray, in milli-units.
pub const RAY_MAX_MILLI: i64 = 10_000;

/// A direction component: a micro-scaled cosine or sine.
pub open spec fn dir_ok(v: int) -> bool {
    -2_000_000 <= v <= 2_000_000
}

/// Distance (in milli-units) at which a ray from `o` along `d` first meets
/// the disc of radius `rad` around `c`: zero if it starts inside, else the
/// near root of the quadratic, or `None` for a miss or a hit beyond the
/// maximum range.
pub open spec fn ray_circle(
    ox: int, oy: int, dx: int, dy: int, cx: int, cy: int, rad: int,
) -> Option<i64> {
    let fx = ox - cx;
    let fy = oy - cy;
    let c0 = fx * fx + fy * fy - rad * rad;
    if c0 <= 0 {
        Option::Some(0i64)
    } else {
        let a = dx * dx + dy * dy;
        let b = (fx * dx + fy * dy) * SCALE as int;
        if a == 0 || b >= 0 {
            Option::None
        } else {
            let disc = b * b - a * (c0 * SCALE as int * SCALE as int);
            if disc < 0 {
                Option::None
            } else {
                let tn = -b - sqrt_floor(disc);
                let tq = tdiv(tn, a);
                if tn < 0 || tq > RAY_MAX_MILLI as int {
                    Option::None
                } else {
                    Option::Some(tq as i64)
                }
            }
        }
    }
}

/// Computes [`ray_circle`] exactly.
pub fn ray_circle_exec(
    ox: i64, oy: i64, dx: i64, dy: i64, cx: i64, cy: i64, rad: i64,
) -> (r: Option<i64>)
    requires
        in_mpt(ox as int) && in_mpt(oy as int),
        dir_ok(dx as int) && dir_ok(dy as int),
        in_mpt(cx as int) && in_mpt(cy as int),
        0 <= rad <= 300_000,
    ensures
        r == ray_circle(ox as int, oy as int, dx as int, dy as int, cx as int, cy as int, rad as int),
        r matches Option::Some(t) ==> 0 <= t <= RAY_MAX_MILLI,
{
    let fx: i128 = ox as i128 - cx as i128;
    let fy: i128 = oy as i128 - cy as i128;
    proof {
        lemma_abs_mul_le(fx as int, fx as int, 3_000_000, 3_000_000);
        lemma_abs_mul_le(fy as int, fy as int, 3_000_000, 3_000_000);
        lemma_abs_mul_le(rad as int, rad as int, 300_000, 300_000);
        lemma_abs_mul_le(fx as int, dx as int, 3_000_000, 2_000_000);
        lemma_abs_mul_le(fy as int, dy as int, 3_000_000, 2_000_000);
        lemma_abs_mul_le(dx as int, dx as int, 2_000_000, 2_000_000);
        lemma_abs_mul_le(dy as int, dy as int, 2_000_000, 2_000_000);
    }
    let c0: i128 = mul_c(fx, fx) + mul_c(fy, fy) - mul_c(rad as i128, rad as i128);
    if c0 <= 0 {
        return Option::Some(0i64);
    }
    let a: i128 = mul_c(dx as i128, dx as i128) + mul_c(dy as i128, dy as i128);
    let bsum: i128 = mul_c(fx, dx as i128) + mul_c(fy, dy as i128);
    proof {
        lemma_abs_mul_le(bsum as int, SCALE as int, 12_000_000_000_000, 1_000_000);
    }
    let b: i128 = bsum * SCALE as i128;
    if a == 0 || b >= 0 {
        return Option::None;
    }
    proof {
        assert(dx as int * dx as int >= 0) by (nonlinear_arith);
        assert(dy as int * dy as int >= 0) by (nonlinear_arith);
        assert(a > 0);
        lemma_abs_mul_le(b as int, b as int, 12_000_000_000_000_000_000, 12_000_000_000_000_000_000);
    }
    let cw: i128 = c0 * SCALE as i128 * SCALE as i128;
    proof {
        assert(cw > 0);
        lemma_abs_mul_le(a as int, cw as int, 8_000_000_000_000, 18_000_000_000_000_000_000_000_000);
        assert(a as int * cw as int >= 0) by (nonlinear_arith)
            requires a as int > 0, cw as int > 0,
        ;
        assert(b as int * b as int >= 0) by (nonlinear_arith);
    }
    let disc: i128 = mul_w(b, b) - a * cw;
    if disc < 0 {
        return Option::None;
    }
    let s: u128 = isqrt_u128(disc as u128);
    proof {
        assert(is_isqrt(disc as int, s as int));
        assert(is_isqrt(disc as int, sqrt_floor(disc as int))) by {
            assert(is_isqrt(disc as int, s as int));
        }
        lemma_isqrt_unique(disc as int, s as int, sqrt_floor(disc as int));
        lemma_nonneg_sq_le(s as int, 20_000_000_000_000_000_000);
        lemma_tdiv_bound(
            -(b as int) - s as int, a as int, 40_000_000_000_000_000_000,
        );
    }
    let tn: i128 = -b - s as i128;
    let tq: i128 = div_i128(tn, a);
    if tn < 0 || tq > RAY_MAX_MILLI as i128 {
        return Option::None;
    }
    Option::Some(tq as i64)
}

/// Distance (in milli-units) at which a ray from `o` along `d` crosses the
/// segment `ab`, or `None` when it runs parallel, points away, misses the
/// segment span or hits beyond the maximum range.
pub open spec fn ray_seg(
    ox: int, oy: int, dx: int, dy: int, ax: int, ay: int, bx: int, by: int,
) -> Option<i64> {
    let ex = bx - ax;
    let ey = by - ay;
    let fx = ax - ox;
    let fy = ay - oy;
    let den0 = dx * ey - dy * ex;
    if den0 == 0 {
        Option::None
    } else {
        let g = dx * fy - dy * fx;
        let num0 = (fx * ey - fy * ex) * SCALE as int;
        let den = if den0 < 0 { -den0 } else { den0 };
        let num = if den0 < 0 { -num0 } else { num0 };
        let un = if den0 < 0 { g } else { -g };
        if num < 0 || un < 0 || un > den {
            Option::None
        } else {
            let tq = tdiv(num, den);
            if tq > RAY_MAX_MILLI as int {
                Option::None
            } else {
                Option::Some(tq as i64)
            }
        }
    }
}

/// Computes [`ray_seg`] exactly.
pub fn ray_seg_exec(
    ox: i64, oy: i64, dx: i64, dy: i64, ax: i64, ay: i64, bx: i64, by: i64,
) -> (r: Option<i64>)
    requires
        in_mpt(ox as int) && in_mpt(oy as int),
        dir_ok(dx as int) && dir_ok(dy as int),
        in_mpt(ax as int) && in_mpt(ay as int),
        in_mpt(bx as int) && in_mpt(by as int),
    ensures
        r == ray_seg(ox as int, oy as int, dx as int, dy as int, ax as int, ay as int, bx as int, by as int),
        r matches Option::Some(t) ==> 0 <= t <= RAY_MAX_MILLI,
{
    let ex: i128 = bx as i128 - ax as i128;
    let ey: i128 = by as i128 - ay as i128;
    let fx: i128 = ax as i128 - ox as i128;
    let fy: i128 = ay as i128 - oy as i128;
    proof {
        lemma_abs_mul_le(dx as int, ey as int, 2_000_000, 3_000_000);
        lemma_abs_mul_le(dy as int, ex as int, 2_000_000, 3_000_000);
        lemma_abs_mul_le(dx as int, fy as int, 2_000_000, 3_000_000);
        lemma_abs_mul_le(dy as int, fx as int, 2_000_000, 3_000_000);
        lemma_abs_mul_le(fx as int, ey as int, 3_000_000, 3_000_000);
        lemma_abs_mul_le(fy as int, ex as int, 3_000_000, 3_000_000);
    }
    let den0: i128 = mul_c(dx as i128, ey) - mul_c(dy as i128, ex);
    if den0 == 0 {
        return Option::None;
    }
    let g: i128 = mul_c(dx as i128, fy) - mul_c(dy as i128, fx);
    proof {
        lemma_abs_mul_le(
            fx as int * ey as int - fy as int * ex as int, SCALE as int,
            18_000_000_000_000, 1_000_000,
        );
    }
    let num0: i128 = (mul_c(fx, ey) - mul_c(fy, ex)) * SCALE as i128;
    let den: i128 = if den0 < 0 { -den0 } else { den0 };
    let num: i128 = if den0 < 0 { -num0 } else { num0 };
    let un: i128 = if den0 < 0 { g } else { -g };
    if num < 0 || un < 0 || un > den {
        return Option::None;
    }
    proof {
        lemma_tdiv_bound(num as int, den as int, 18_000_000_000_000_000_000);
    }
    let tq: i128 = div_i128(num, den);
    if tq > RAY_MAX_MILLI as i128 {
        return Option::None;
    }
    Option::Some(tq as i64)
}

/// Ray against a quadrilateral: zero from inside, else the nearest edge
/// crossing.
pub open spec fn ray_quad(
    ox: int, oy: int, dx: int, dy: int,
    q0: (int, int), q1: (int, int), q2: (int, int), q3: (int, int),
) -> Option<i64> {
    if pt_in_quad(ox, oy, q0, q1, q2, q3) {
        Option::Some(0i64)
    } else {
        opt_min(
            opt_min(
                ray_seg(ox, oy, dx, dy, q0.0, q0.1, q1.0, q1.1),
                ray_seg(ox, oy, dx, dy, q1.0, q1.1, q2.0, q2.1),
            ),
            opt_min(
                ray_seg(ox, oy, dx, dy, q2.0, q2.1, q3.0, q3.1),
                ray_seg(ox, oy, dx, dy, q3.0, q3.1, q0.0, q0.1),
            ),
        )
    }
}

/// Computes [`ray_quad`] exactly.
pub fn ray_quad_exec(
    ox: i64, oy: i64, dx: i64, dy: i64,
    q0: (i64, i64), q1: (i64, i64), q2: (i64, i64), q3: (i64, i64),
) -> (r: Option<i64>)
    requires
        in_mpt(ox as int) && in_mpt(oy as int),
        dir_ok(dx as int) && dir_ok(dy as int),
        mpt_ok(q0) && mpt_ok(q1) && mpt_ok(q2) && mpt_ok(q3),
    ensures
        r == ray_quad(
            ox as int, oy as int, dx as int, dy as int,
            (q0.0 as int, q0.1 as int), (q1.0 as int, q1.1 as int),
            (q2.0 as int, q2.1 as int), (q3.0 as int, q3.1 as int),
        ),
        r matches Option::Some(t) ==> 0 <= t <= RAY_MAX_MILLI,
{
    if pt_in_quad_exec(ox, oy, q0, q1, q2, q3) {
        return Option::Some(0i64);
    }
    let t0 = ray_seg_exec(ox, oy, dx, dy, q0.0, q0.1, q1.0, q1.1);
    let t1 = ray_seg_exec(ox, oy, dx, dy, q1.0, q1.1, q2.0, q2.1);
    let t2 = ray_seg_exec(ox, oy, dx, dy, q2.0, q2.1, q3.0, q3.1);
    let t3 = ray_seg_exec(ox, oy, dx, dy, q3.0, q3.1, q0.0, q0.1);
    opt_min_exec(opt_min_exec(t0, t1), opt_min_exec(t2, t3))
}

/// Ray against a polyline: nearest crossing among the segments from index
/// `i` onward.
pub open spec fn ray_poly_from(
    ox: int, oy: int, dx: int, dy: int, pts: Seq<(i64, i64)>, i: int,
) -> Option<i64>
    decreases pts.len() - i,
{
    if i < 0 || i >= pts.len() - 1 {
        Option::None
    } else {
        opt_min(
            ray_seg(
                ox, oy, dx, dy,
                pts[i].0 as int, pts[i].1 as int,
                pts[i + 1].0 as int, pts[i + 1].1 as int,
            ),
            ray_poly_from(ox, oy, dx, dy, pts, i + 1),
        )
    }
}

/// Computes `ray_poly_from(.., 0)` exactly.
pub fn ray_poly_exec(
    ox: i64, oy: i64, dx: i64, dy: i64, pts: &Vec<(i64, i64)>,
) -> (r: Option<i64>)
    requires
        in_mpt(ox as int) && in_mpt(oy as int),
        dir_ok(dx as int) && dir_ok(dy as int),
        forall|k: int| 0 <= k < pts@.len() ==> #[trigger] mpt_ok(pts@[k]),
    ensures
        r == ray_poly_from(ox as int, oy as int, dx as int, dy as int, pts@, 0),
        r matches Option::Some(t) ==> 0 <= t <= RAY_MAX_MILLI,
{
    let n = pts.len();
    if n < 2 {
        return Option::None;
    }
    let mut i: usize = n - 1;
    let mut acc: Option<i64> = Option::None;
    while i > 0
        invariant
            n == pts@.len(),
            n >= 2,
            i <= n - 1,
            in_mpt(ox as int) && in_mpt(oy as int),
            dir_ok(dx as int) && dir_ok(dy as int),
            forall|k: int| 0 <= k < pts@.len() ==> #[trigger] mpt_ok(pts@[k]),
            acc == ray_poly_from(ox as int, oy as int, dx as int, dy as int, pts@, i as int),
            acc matches Option::Some(t) ==> 0 <= t <= RAY_MAX_MILLI,
        decreases i,
    {
        i = i - 1;
        let a = pts[i];
        let b = pts[i + 1];
        proof {
            assert(mpt_ok(pts@[i as int]));
            assert(mpt_ok(pts@[i as int + 1]));
        }
        let t = ray_seg_exec(ox, oy, dx, dy, a.0, a.1, b.0, b.1);
        acc = opt_min_exec(t, acc);
    }
    acc
}

} // verus!
