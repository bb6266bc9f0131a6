//! Swept collision: earliest time of impact of two linearly translating
//! shapes within one tick.
//!
//! Sweeps are resolved on millimetre-rounded geometry at a resolution of
//! 1/1000 of the tick, which is far below the contact tolerances of the
//! engine; rotation is frozen at the start pose of the sweep, and only the
//! translation between start and end pose is considered. Every computation
//! step is the exact integer operation stated by the matching spec function.

use vstd::prelude::*;
use crate::collision::{pt_in_quad, pt_in_quad_exec, pt_seg_within, pt_seg_within_exec};
use crate::fp::{div_i128, is_isqrt, isqrt_u128, lemma_abs_mul_le, lemma_tdiv_bound, mul_c, mul_w, tdiv};

verus! {

/// Resolution of a sweep: the tick is divided into this many slots.
pub const TOI_STEPS: i64 = 1_000;

/// Factor between micro- and milli-units.
pub const MILLI: i64 = 1_000;

/// A millimetre offset (relative position or motion) the sweep arithmetic
/// accepts.
pub open spec fn in_milli(v: int) -> bool {
    -3_000_000 <= v <= 3_000_000
}

/// A millimetre point coordinate the sweep arithmetic accepts; kept to half
/// the offset band so that differences of two points stay offsets.
pub open spec fn in_mpt(v: int) -> bool {
    -1_500_000 <= v <= 1_500_000
}

/// A millimetre point within range.
pub open spec fn mpt_ok(p: (i64, i64)) -> bool {
    in_mpt(p.0 as int) && in_mpt(p.1 as int)
}

/// A millimetre radius accepted by the sweep arithmetic.
pub open spec fn mrad_ok(r: int) -> bool {
    0 <= r <= 300_000
}

/// Floor square root as a spec value, defined by choice from the exact
/// characterisation.
pub open spec fn sqrt_floor(n: int) -> int {
    choose|r: int| is_isqrt(n, r)
}

/// Smaller of two optional impact times, treating `None` as no impact.
pub open spec fn opt_min(a: Option<i64>, b: Option<i64>) -> Option<i64> {
    match a {
        Option::Some(x) => match b {
            Option::Some(y) => if x <= y { Option::Some(x) } else { Option::Some(y) },
            Option::None => a,
        },
        Option::None => b,
    }
}

/// Picks the earlier of two optional impact times.
pub fn opt_min_exec(a: Option<i64>, b: Option<i64>) -> (r: Option<i64>)
    ensures
        r == opt_min(a, b),
{
    match a {
        Option::Some(x) => match b {
            Option::Some(y) => if x <= y { Option::Some(x) } else { Option::Some(y) },
            Option::None => Option::Some(x),
        },
        Option::None => b,
    }
}

/// Earliest slot in `[0, TOI_STEPS]` at which a moving circle of combined
/// radius `rr` around the relative position `p` (moving by `dm` over the
/// tick) reaches the origin circle: the root of the swept quadratic,
/// truncated to the slot grid, or zero if the circles already overlap.
pub open spec fn toi_circle_circle(
    px: int, py: int, dmx: int, dmy: int, rr: int,
) -> Option<i64> {
    let c0 = px * px + py * py - rr * rr;
    if c0 <= 0 {
        Option::Some(0i64)
    } else {
        let a = dmx * dmx + dmy * dmy;
        let b = px * dmx + py * dmy;
        if a == 0 || b >= 0 {
            Option::None
        } else {
            let disc = b * b - a * c0;
            if disc < 0 {
                Option::None
            } else {
                let tn = -b - sqrt_floor(disc);
                let tk = tdiv(tn * TOI_STEPS as int, a);
                if tn < 0 || tk > TOI_STEPS as int {
                    Option::None
                } else {
                    Option::Some((tk * MILLI as int) as i64)
                }
            }
        }
    }
}

/// Computes [`toi_circle_circle`] exactly.
pub fn toi_circle_circle_exec(
    px: i64, py: i64, dmx: i64, dmy: i64, rr: i64,
) -> (r: Option<i64>)
    requires
        in_milli(px as int) && in_milli(py as int),
        in_milli(dmx as int) && in_milli(dmy as int),
        mrad_ok(rr as int),
    ensures
        r == toi_circle_circle(px as int, py as int, dmx as int, dmy as int, rr as int),
        r matches Option::Some(t) ==> 0 <= t <= 1_000_000,
{
    proof {
        lemma_abs_mul_le(px as int, px as int, 3_000_000, 3_000_000);
        lemma_abs_mul_le(py as int, py as int, 3_000_000, 3_000_000);
        lemma_abs_mul_le(rr as int, rr as int, 300_000, 300_000);
        lemma_abs_mul_le(px as int, dmx as int, 3_000_000, 3_000_000);
        lemma_abs_mul_le(py as int, dmy as int, 3_000_000, 3_000_000);
        lemma_abs_mul_le(dmx as int, dmx as int, 3_000_000, 3_000_000);
        lemma_abs_mul_le(dmy as int, dmy as int, 3_000_000, 3_000_000);
    }
    let c0: i128 = mul_c(px as i128, px as i128) + mul_c(py as i128, py as i128)
        - mul_c(rr as i128, rr as i128);
    if c0 <= 0 {
        return Option::Some(0i64);
    }
    let a: i128 = mul_c(dmx as i128, dmx as i128) + mul_c(dmy as i128, dmy as i128);
    let b: i128 = mul_c(px as i128, dmx as i128) + mul_c(py as i128, dmy as i128);
    if a == 0 || b >= 0 {
        return Option::None;
    }
    proof {
        assert(dmx as int * dmx as int >= 0) by (nonlinear_arith);
        assert(dmy as int * dmy as int >= 0) by (nonlinear_arith);
        assert(a > 0);
        lemma_abs_mul_le(b as int, b as int, 18_000_000_000_000, 18_000_000_000_000);
        lemma_abs_mul_le(a as int, c0 as int, 18_000_000_000_000, 19_000_000_000_000);
    }
    let disc: i128 = mul_w(b, b) - mul_w(a, c0);
    if disc < 0 {
        return Option::None;
    }
    let s: u128 = isqrt_u128(disc as u128);
    proof {
        assert(is_isqrt(disc as int, s as int));
        assert(is_isqrt(disc as int, sqrt_floor(disc as int))) by {
            assert(is_isqrt(disc as int, s as int));
        }
        lemma_isqrt_unique(disc as int, s as int, sqrt_floor(disc as int));
        lemma_nonneg_sq_le(s as int, 27_000_000_000_000);
    }
    let tn: i128 = -b - s as i128;
    proof {
        lemma_abs_mul_le(tn as int, TOI_STEPS as int, 50_000_000_000_000, 1_000);
        lemma_tdiv_bound(tn as int * TOI_STEPS as int, a as int, 50_000_000_000_000_000);
    }
    let tk: i128 = div_i128(tn * TOI_STEPS as i128, a);
    if tn < 0 || tk > TOI_STEPS as i128 {
        return Option::None;
    }
    proof {
        assert(tk >= 0);
        lemma_abs_mul_le(tk as int, MILLI as int, 1_000, 1_000);
    }
    Option::Some((tk * MILLI as i128) as i64)
}

/// Earliest slot at which a circle of radius `rr` around the moving point
/// `p` crosses into the slab of width `rr` around the line `ab`, with its
/// foot on the segment; `None` when `p` starts inside the slab (the
/// endpoint circles then govern) or never approaches it.
pub open spec fn toi_slab(
    px: int, py: int, dmx: int, dmy: int, ax: int, ay: int, bx: int, by: int, rr: int,
) -> Option<i64> {
    let ex = bx - ax;
    let ey = by - ay;
    let len2 = ex * ex + ey * ey;
    let g0 = ex * (py - ay) - ey * (px - ax);
    let ce = ex * dmy - ey * dmx;
    let w2 = rr * rr * len2;
    if g0 * g0 <= w2 || ce == 0 {
        Option::None
    } else if (g0 > 0 && ce >= 0) || (g0 < 0 && ce <= 0) {
        Option::None
    } else {
        let ga = if g0 > 0 { g0 } else { -g0 };
        let ca = if ce > 0 { ce } else { -ce };
        let tq = tdiv((ga - sqrt_floor(w2)) * TOI_STEPS as int, ca);
        if tq < 0 || tq > TOI_STEPS as int {
            Option::None
        } else {
            let d0 = ex * (px - ax) + ey * (py - ay);
            let de = ex * dmx + ey * dmy;
            let foot = d0 * TOI_STEPS as int + tq * de;
            if 0 <= foot <= len2 * TOI_STEPS as int {
                Option::Some((tq * MILLI as int) as i64)
            } else {
                Option::None
            }
        }
    }
}

/// Computes [`toi_slab`] exactly.
pub fn toi_slab_exec(
    px: i64, py: i64, dmx: i64, dmy: i64, ax: i64, ay: i64, bx: i64, by: i64, rr: i64,
) -> (r: Option<i64>)
    requires
        in_mpt(px as int) && in_mpt(py as int),
        in_milli(dmx as int) && in_milli(dmy as int),
        in_mpt(ax as int) && in_mpt(ay as int),
        in_mpt(bx as int) && in_mpt(by as int),
        mrad_ok(rr as int),
    ensures
        r == toi_slab(
            px as int, py as int, dmx as int, dmy as int,
            ax as int, ay as int, bx as int, by as int, rr as int,
        ),
        r matches Option::Some(t) ==> 0 <= t <= 1_000_000,
{
    let ex: i128 = bx as i128 - ax as i128;
    let ey: i128 = by as i128 - ay as i128;
    proof {
        lemma_abs_mul_le(ex as int, ex as int, 6_000_000, 6_000_000);
        lemma_abs_mul_le(ey as int, ey as int, 6_000_000, 6_000_000);
        lemma_abs_mul_le(ex as int, py as int - ay as int, 6_000_000, 6_000_000);
        lemma_abs_mul_le(ey as int, px as int - ax as int, 6_000_000, 6_000_000);
        lemma_abs_mul_le(ex as int, dmy as int, 6_000_000, 3_000_000);
        lemma_abs_mul_le(ey as int, dmx as int, 6_000_000, 3_000_000);
        lemma_abs_mul_le(rr as int, rr as int, 300_000, 300_000);
    }
    let len2: i128 = mul_c(ex, ex) + mul_c(ey, ey);
    let g0: i128 = mul_c(ex, py as i128 - ay as i128) - mul_c(ey, px as i128 - ax as i128);
    let ce: i128 = mul_c(ex, dmy as i128) - mul_c(ey, dmx as i128);
    proof {
        lemma_abs_mul_le(rr as int * rr as int, len2 as int, 90_000_000_000, 72_000_000_000_000);
        lemma_abs_mul_le(g0 as int, g0 as int, 72_000_000_000_000, 72_000_000_000_000);
    }
    let w2: i128 = mul_w(mul_c(rr as i128, rr as i128), len2);
    if mul_w(g0, g0) <= w2 || ce == 0 {
        return Option::None;
    }
    if (g0 > 0 && ce >= 0) || (g0 < 0 && ce <= 0) {
        return Option::None;
    }
    let ga: i128 = if g0 > 0 { g0 } else { -g0 };
    let ca: i128 = if ce > 0 { ce } else { -ce };
    let s: u128 = isqrt_u128(w2 as u128);
    proof {
        assert(w2 >= 0) by {
            assert(rr as int * rr as int >= 0) by (nonlinear_arith);
            assert(ex as int * ex as int >= 0) by (nonlinear_arith);
            assert(ey as int * ey as int >= 0) by (nonlinear_arith);
            assert(rr as int * rr as int * (len2 as int) >= 0) by (nonlinear_arith)
                requires rr as int * rr as int >= 0, len2 as int >= 0,
            ;
        }
        assert(is_isqrt(w2 as int, s as int));
        assert(is_isqrt(w2 as int, sqrt_floor(w2 as int))) by {
            assert(is_isqrt(w2 as int, s as int));
        }
        lemma_isqrt_unique(w2 as int, s as int, sqrt_floor(w2 as int));
        lemma_nonneg_sq_le(s as int, 2_600_000_000_000);
        lemma_abs_mul_le(ga as int - s as int, TOI_STEPS as int, 80_000_000_000_000, 1_000);
        lemma_tdiv_bound(
            (ga as int - s as int) * TOI_STEPS as int, ca as int, 80_000_000_000_000_000,
        );
    }
    let tq: i128 = div_i128((ga - s as i128) * TOI_STEPS as i128, ca);
    if tq < 0 || tq > TOI_STEPS as i128 {
        return Option::None;
    }
    proof {
        lemma_abs_mul_le(ex as int, px as int - ax as int, 6_000_000, 6_000_000);
        lemma_abs_mul_le(ey as int, py as int - ay as int, 6_000_000, 6_000_000);
        lemma_abs_mul_le(ex as int, dmx as int, 6_000_000, 3_000_000);
        lemma_abs_mul_le(ey as int, dmy as int, 6_000_000, 3_000_000);
    }
    let d0: i128 = mul_c(ex, px as i128 - ax as i128) + mul_c(ey, py as i128 - ay as i128);
    let de: i128 = mul_c(ex, dmx as i128) + mul_c(ey, dmy as i128);
    proof {
        lemma_abs_mul_le(d0 as int, TOI_STEPS as int, 72_000_000_000_000, 1_000);
        lemma_abs_mul_le(tq as int, de as int, 1_000, 36_000_000_000_000);
        lemma_abs_mul_le(len2 as int, TOI_STEPS as int, 72_000_000_000_000, 1_000);
    }
    let foot: i128 = d0 * TOI_STEPS as i128 + tq * de;
    if 0 <= foot && foot <= len2 * TOI_STEPS as i128 {
        proof {
            lemma_abs_mul_le(tq as int, MILLI as int, 1_000, 1_000);
        }
        Option::Some((tq * MILLI as i128) as i64)
    } else {
        Option::None
    }
}

/// Earliest slot at which a circle of radius `rr` around the point `p`,
/// translating by `dm` over the tick, reaches the segment `ab`: zero if it
/// already touches, else the earliest of the two endpoint circles and the
/// interior slab crossing.
pub open spec fn toi_circle_seg(
    px: int, py: int, dmx: int, dmy: int, ax: int, ay: int, bx: int, by: int, rr: int,
) -> Option<i64> {
    if pt_seg_within(px, py, ax, ay, bx, by, rr) {
        Option::Some(0i64)
    } else {
        opt_min(
            opt_min(
                toi_circle_circle(px - ax, py - ay, dmx, dmy, rr),
                toi_circle_circle(px - bx, py - by, dmx, dmy, rr),
            ),
            toi_slab(px, py, dmx, dmy, ax, ay, bx, by, rr),
        )
    }
}

/// Computes [`toi_circle_seg`] exactly.
pub fn toi_circle_seg_exec(
    px: i64, py: i64, dmx: i64, dmy: i64, ax: i64, ay: i64, bx: i64, by: i64, rr: i64,
) -> (r: Option<i64>)
    requires
        in_mpt(px as int) && in_mpt(py as int),
        in_milli(dmx as int) && in_milli(dmy as int),
        in_mpt(ax as int) && in_mpt(ay as int),
        in_mpt(bx as int) && in_mpt(by as int),
        mrad_ok(rr as int),
    ensures
        r == toi_circle_seg(
            px as int, py as int, dmx as int, dmy as int,
            ax as int, ay as int, bx as int, by as int, rr as int,
        ),
        r matches Option::Some(t) ==> 0 <= t <= 1_000_000,
{
    if pt_seg_within_exec(px, py, ax, ay, bx, by, rr) {
        return Option::Some(0i64);
    }
    let t1 = toi_circle_circle_exec(px - ax, py - ay, dmx, dmy, rr);
    let t2 = toi_circle_circle_exec(px - bx, py - by, dmx, dmy, rr);
    let t3 = toi_slab_exec(px, py, dmx, dmy, ax, ay, bx, by, rr);
    opt_min_exec(opt_min_exec(t1, t2), t3)
}

/// Earliest slot at which the moving point `p` crosses the segment `ab`:
/// the slot just before its path meets the segment, or `None` when the path
/// stays clear of it during the tick.
pub open spec fn toi_pt_seg(
    px: int, py: int, dmx: int, dmy: int, ax: int, ay: int, bx: int, by: int,
) -> Option<i64> {
    let ex = bx - ax;
    let ey = by - ay;
    let len2 = ex * ex + ey * ey;
    let g0 = ex * (py - ay) - ey * (px - ax);
    let ce = ex * dmy - ey * dmx;
    if ce == 0 {
        Option::None
    } else {
        let num = if ce < 0 { g0 * TOI_STEPS as int } else { -g0 * TOI_STEPS as int };
        let den = if ce < 0 { -ce } else { ce };
        if num < 0 {
            Option::None
        } else {
            let tq = tdiv(num, den);
            if tq > TOI_STEPS as int {
                Option::None
            } else {
                let d0 = ex * (px - ax) + ey * (py - ay);
                let de = ex * dmx + ey * dmy;
                let foot = d0 * TOI_STEPS as int + tq * de;
                if 0 <= foot <= len2 * TOI_STEPS as int {
                    Option::Some((tq * MILLI as int) as i64)
                } else {
                    Option::None
                }
            }
        }
    }
}

/// Computes [`toi_pt_seg`] exactly.
pub fn toi_pt_seg_exec(
    px: i64, py: i64, dmx: i64, dmy: i64, ax: i64, ay: i64, bx: i64, by: i64,
) -> (r: Option<i64>)
    requires
        in_mpt(px as int) && in_mpt(py as int),
        in_milli(dmx as int) && in_milli(dmy as int),
        in_mpt(ax as int) && in_mpt(ay as int),
        in_mpt(bx as int) && in_mpt(by as int),
    ensures
        r == toi_pt_seg(
            px as int, py as int, dmx as int, dmy as int,
            ax as int, ay as int, bx as int, by as int,
        ),
        r matches Option::Some(t) ==> 0 <= t <= 1_000_000,
{
    let ex: i128 = bx as i128 - ax as i128;
    let ey: i128 = by as i128 - ay as i128;
    proof {
        lemma_abs_mul_le(ex as int, ex as int, 6_000_000, 6_000_000);
        lemma_abs_mul_le(ey as int, ey as int, 6_000_000, 6_000_000);
        lemma_abs_mul_le(ex as int, py as int - ay as int, 6_000_000, 6_000_000);
        lemma_abs_mul_le(ey as int, px as int - ax as int, 6_000_000, 6_000_000);
        lemma_abs_mul_le(ex as int, dmy as int, 6_000_000, 3_000_000);
        lemma_abs_mul_le(ey as int, dmx as int, 6_000_000, 3_000_000);
    }
    let len2: i128 = mul_c(ex, ex) + mul_c(ey, ey);
    let g0: i128 = mul_c(ex, py as i128 - ay as i128) - mul_c(ey, px as i128 - ax as i128);
    let ce: i128 = mul_c(ex, dmy as i128) - mul_c(ey, dmx as i128);
    if ce == 0 {
        return Option::None;
    }
    proof {
        lemma_abs_mul_le(g0 as int, TOI_STEPS as int, 72_000_000_000_000, 1_000);
    }
    let num: i128 = if ce < 0 { g0 * TOI_STEPS as i128 } else { -g0 * TOI_STEPS as i128 };
    let den: i128 = if ce < 0 { -ce } else { ce };
    if num < 0 {
        return Option::None;
    }
    proof {
        lemma_tdiv_bound(num as int, den as int, 72_000_000_000_000_000);
    }
    let tq: i128 = div_i128(num, den);
    if tq > TOI_STEPS as i128 {
        return Option::None;
    }
    proof {
        lemma_abs_mul_le(ex as int, px as int - ax as int, 6_000_000, 6_000_000);
        lemma_abs_mul_le(ey as int, py as int - ay as int, 6_000_000, 6_000_000);
        lemma_abs_mul_le(ex as int, dmx as int, 6_000_000, 3_000_000);
        lemma_abs_mul_le(ey as int, dmy as int, 6_000_000, 3_000_000);
    }
    let d0: i128 = mul_c(ex, px as i128 - ax as i128) + mul_c(ey, py as i128 - ay as i128);
    let de: i128 = mul_c(ex, dmx as i128) + mul_c(ey, dmy as i128);
    proof {
        lemma_abs_mul_le(d0 as int, TOI_STEPS as int, 72_000_000_000_000, 1_000);
        lemma_abs_mul_le(tq as int, de as int, 1_000, 36_000_000_000_000);
        lemma_abs_mul_le(len2 as int, TOI_STEPS as int, 72_000_000_000_000, 1_000);
    }
    let foot: i128 = d0 * TOI_STEPS as i128 + tq * de;
    if 0 <= foot && foot <= len2 * TOI_STEPS as i128 {
        proof {
            lemma_abs_mul_le(tq as int, MILLI as int, 1_000, 1_000);
        }
        Option::Some((tq * MILLI as i128) as i64)
    } else {
        Option::None
    }
}

/// Earliest slot at which the moving point reaches the boundary of the
/// quadrilateral.
pub open spec fn toi_pt_quad(
    p: (int, int), dm: (int, int),
    q0: (int, int), q1: (int, int), q2: (int, int), q3: (int, int),
) -> Option<i64> {
    opt_min(
        opt_min(
            toi_pt_seg(p.0, p.1, dm.0, dm.1, q0.0, q0.1, q1.0, q1.1),
            toi_pt_seg(p.0, p.1, dm.0, dm.1, q1.0, q1.1, q2.0, q2.1),
        ),
        opt_min(
            toi_pt_seg(p.0, p.1, dm.0, dm.1, q2.0, q2.1, q3.0, q3.1),
            toi_pt_seg(p.0, p.1, dm.0, dm.1, q3.0, q3.1, q0.0, q0.1),
        ),
    )
}

/// Computes [`toi_pt_quad`] exactly.
pub fn toi_pt_quad_exec(
    p: (i64, i64), dm: (i64, i64),
    q0: (i64, i64), q1: (i64, i64), q2: (i64, i64), q3: (i64, i64),
) -> (r: Option<i64>)
    requires
        mpt_ok(p),
        in_milli(dm.0 as int) && in_milli(dm.1 as int),
        mpt_ok(q0) && mpt_ok(q1) && mpt_ok(q2) && mpt_ok(q3),
    ensures
        r == toi_pt_quad(
            (p.0 as int, p.1 as int), (dm.0 as int, dm.1 as int),
            (q0.0 as int, q0.1 as int), (q1.0 as int, q1.1 as int),
            (q2.0 as int, q2.1 as int), (q3.0 as int, q3.1 as int),
        ),
        r matches Option::Some(t) ==> 0 <= t <= 1_000_000,
{
    let t0 = toi_pt_seg_exec(p.0, p.1, dm.0, dm.1, q0.0, q0.1, q1.0, q1.1);
    let t1 = toi_pt_seg_exec(p.0, p.1, dm.0, dm.1, q1.0, q1.1, q2.0, q2.1);
    let t2 = toi_pt_seg_exec(p.0, p.1, dm.0, dm.1, q2.0, q2.1, q3.0, q3.1);
    let t3 = toi_pt_seg_exec(p.0, p.1, dm.0, dm.1, q3.0, q3.1, q0.0, q0.1);
    opt_min_exec(opt_min_exec(t0, t1), opt_min_exec(t2, t3))
}

/// Earliest slot at which the moving circle reaches the quadrilateral: zero
/// when its centre starts inside, else the earliest edge contact.
pub open spec fn toi_circle_quad(
    p: (int, int), dm: (int, int),
    q0: (int, int), q1: (int, int), q2: (int, int), q3: (int, int),
    rr: int,
) -> Option<i64> {
    if pt_in_quad(p.0, p.1, q0, q1, q2, q3) {
        Option::Some(0i64)
    } else {
        opt_min(
            opt_min(
                toi_circle_seg(p.0, p.1, dm.0, dm.1, q0.0, q0.1, q1.0, q1.1, rr),
                toi_circle_seg(p.0, p.1, dm.0, dm.1, q1.0, q1.1, q2.0, q2.1, rr),
            ),
            opt_min(
                toi_circle_seg(p.0, p.1, dm.0, dm.1, q2.0, q2.1, q3.0, q3.1, rr),
                toi_circle_seg(p.0, p.1, dm.0, dm.1, q3.0, q3.1, q0.0, q0.1, rr),
            ),
        )
    }
}

/// Computes [`toi_circle_quad`] exactly.
pub fn toi_circle_quad_exec(
    p: (i64, i64), dm: (i64, i64),
    q0: (i64, i64), q1: (i64, i64), q2: (i64, i64), q3: (i64, i64),
    rr: i64,
) -> (r: Option<i64>)
    requires
        mpt_ok(p),
        in_milli(dm.0 as int) && in_milli(dm.1 as int),
        mpt_ok(q0) && mpt_ok(q1) && mpt_ok(q2) && mpt_ok(q3),
        mrad_ok(rr as int),
    ensures
        r == toi_circle_quad(
            (p.0 as int, p.1 as int), (dm.0 as int, dm.1 as int),
            (q0.0 as int, q0.1 as int), (q1.0 as int, q1.1 as int),
            (q2.0 as int, q2.1 as int), (q3.0 as int, q3.1 as int),
            rr as int,
        ),
        r matches Option::Some(t) ==> 0 <= t <= 1_000_000,
{
    if pt_in_quad_exec(p.0, p.1, q0, q1, q2, q3) {
        return Option::Some(0i64);
    }
    let t0 = toi_circle_seg_exec(p.0, p.1, dm.0, dm.1, q0.0, q0.1, q1.0, q1.1, rr);
    let t1 = toi_circle_seg_exec(p.0, p.1, dm.0, dm.1, q1.0, q1.1, q2.0, q2.1, rr);
    let t2 = toi_circle_seg_exec(p.0, p.1, dm.0, dm.1, q2.0, q2.1, q3.0, q3.1, rr);
    let t3 = toi_circle_seg_exec(p.0, p.1, dm.0, dm.1, q3.0, q3.1, q0.0, q0.1, rr);
    opt_min_exec(opt_min_exec(t0, t1), opt_min_exec(t2, t3))
}

/// Earliest slot at which the quadrilateral `p0..p3`, translating by `dm`,
/// first touches the static quadrilateral `q0..q3`: zero when they already
/// overlap, else the earliest vertex-edge crossing in either direction.
pub open spec fn toi_quad_quad(
    p0: (int, int), p1: (int, int), p2: (int, int), p3: (int, int),
    dm: (int, int),
    q0: (int, int), q1: (int, int), q2: (int, int), q3: (int, int),
) -> Option<i64> {
    if crate::collision::quad_quad_within(p0, p1, p2, p3, q0, q1, q2, q3, 0) {
        Option::Some(0i64)
    } else {
        let nm = (-dm.0, -dm.1);
        opt_min(
            opt_min(
                opt_min(
                    toi_pt_quad(p0, dm, q0, q1, q2, q3),
                    toi_pt_quad(p1, dm, q0, q1, q2, q3),
                ),
                opt_min(
                    toi_pt_quad(p2, dm, q0, q1, q2, q3),
                    toi_pt_quad(p3, dm, q0, q1, q2, q3),
                ),
            ),
            opt_min(
                opt_min(
                    toi_pt_quad(q0, nm, p0, p1, p2, p3),
                    toi_pt_quad(q1, nm, p0, p1, p2, p3),
                ),
                opt_min(
                    toi_pt_quad(q2, nm, p0, p1, p2, p3),
                    toi_pt_quad(q3, nm, p0, p1, p2, p3),
                ),
            ),
        )
    }
}

/// Computes [`toi_quad_quad`] exactly.
pub fn toi_quad_quad_exec(
    p0: (i64, i64), p1: (i64, i64), p2: (i64, i64), p3: (i64, i64),
    dm: (i64, i64),
    q0: (i64, i64), q1: (i64, i64), q2: (i64, i64), q3: (i64, i64),
) -> (r: Option<i64>)
    requires
        mpt_ok(p0) && mpt_ok(p1) && mpt_ok(p2) && mpt_ok(p3),
        in_milli(dm.0 as int) && in_milli(dm.1 as int),
        mpt_ok(q0) && mpt_ok(q1) && mpt_ok(q2) && mpt_ok(q3),
    ensures
        r == toi_quad_quad(
            (p0.0 as int, p0.1 as int), (p1.0 as int, p1.1 as int),
            (p2.0 as int, p2.1 as int), (p3.0 as int, p3.1 as int),
            (dm.0 as int, dm.1 as int),
            (q0.0 as int, q0.1 as int), (q1.0 as int, q1.1 as int),
            (q2.0 as int, q2.1 as int), (q3.0 as int, q3.1 as int),
        ),
        r matches Option::Some(t) ==> 0 <= t <= 1_000_000,
{
    if crate::collision::quad_quad_within_exec(p0, p1, p2, p3, q0, q1, q2, q3, 0) {
        return Option::Some(0i64);
    }
    let nm = (-dm.0, -dm.1);
    let ta = opt_min_exec(
        opt_min_exec(
            toi_pt_quad_exec(p0, dm, q0, q1, q2, q3),
            toi_pt_quad_exec(p1, dm, q0, q1, q2, q3),
        ),
        opt_min_exec(
            toi_pt_quad_exec(p2, dm, q0, q1, q2, q3),
            toi_pt_quad_exec(p3, dm, q0, q1, q2, q3),
        ),
    );
    let tb = opt_min_exec(
        opt_min_exec(
            toi_pt_quad_exec(q0, nm, p0, p1, p2, p3),
            toi_pt_quad_exec(q1, nm, p0, p1, p2, p3),
        ),
        opt_min_exec(
            toi_pt_quad_exec(q2, nm, p0, p1, p2, p3),
            toi_pt_quad_exec(q3, nm, p0, p1, p2, p3),
        ),
    );
    opt_min_exec(ta, tb)
}

/// Earliest slot at which the quadrilateral `p0..p3`, translating by `dm`,
/// first touches the static segment `cd`.
pub open spec fn toi_quad_seg(
    p0: (int, int), p1: (int, int), p2: (int, int), p3: (int, int),
    dm: (int, int),
    c: (int, int), d: (int, int),
) -> Option<i64> {
    if crate::collision::seg_quad_within(c, d, p0, p1, p2, p3, 0) {
        Option::Some(0i64)
    } else {
        let nm = (-dm.0, -dm.1);
        opt_min(
            opt_min(
                opt_min(
                    toi_pt_seg(p0.0, p0.1, dm.0, dm.1, c.0, c.1, d.0, d.1),
                    toi_pt_seg(p1.0, p1.1, dm.0, dm.1, c.0, c.1, d.0, d.1),
                ),
                opt_min(
                    toi_pt_seg(p2.0, p2.1, dm.0, dm.1, c.0, c.1, d.0, d.1),
                    toi_pt_seg(p3.0, p3.1, dm.0, dm.1, c.0, c.1, d.0, d.1),
                ),
            ),
            opt_min(
                toi_pt_quad(c, nm, p0, p1, p2, p3),
                toi_pt_quad(d, nm, p0, p1, p2, p3),
            ),
        )
    }
}

/// Computes [`toi_quad_seg`] exactly.
pub fn toi_quad_seg_exec(
    p0: (i64, i64), p1: (i64, i64), p2: (i64, i64), p3: (i64, i64),
    dm: (i64, i64),
    c: (i64, i64), d: (i64, i64),
) -> (r: Option<i64>)
    requires
        mpt_ok(p0) && mpt_ok(p1) && mpt_ok(p2) && mpt_ok(p3),
        in_milli(dm.0 as int) && in_milli(dm.1 as int),
        mpt_ok(c) && mpt_ok(d),
    ensures
        r == toi_quad_seg(
            (p0.0 as int, p0.1 as int), (p1.0 as int, p1.1 as int),
            (p2.0 as int, p2.1 as int), (p3.0 as int, p3.1 as int),
            (dm.0 as int, dm.1 as int),
            (c.0 as int, c.1 as int), (d.0 as int, d.1 as int),
        ),
        r matches Option::Some(t) ==> 0 <= t <= 1_000_000,
{
    if crate::collision::seg_quad_within_exec(c, d, p0, p1, p2, p3, 0) {
        return Option::Some(0i64);
    }
    let nm = (-dm.0, -dm.1);
    let ta = opt_min_exec(
        opt_min_exec(
            toi_pt_seg_exec(p0.0, p0.1, dm.0, dm.1, c.0, c.1, d.0, d.1),
            toi_pt_seg_exec(p1.0, p1.1, dm.0, dm.1, c.0, c.1, d.0, d.1),
        ),
        opt_min_exec(
            toi_pt_seg_exec(p2.0, p2.1, dm.0, dm.1, c.0, c.1, d.0, d.1),
            toi_pt_seg_exec(p3.0, p3.1, dm.0, dm.1, c.0, c.1, d.0, d.1),
        ),
    );
    let tb = opt_min_exec(
        toi_pt_quad_exec(c, nm, p0, p1, p2, p3),
        toi_pt_quad_exec(d, nm, p0, p1, p2, p3),
    );
    opt_min_exec(ta, tb)
}

/// Earliest impact over the segments of a polyline against the moving
/// circle, folded from segment `i` onward.
pub open spec fn toi_circle_poly_from(
    p: (int, int), dm: (int, int), pts: Seq<(i64, i64)>, rr: int, i: int,
) -> Option<i64>
    decreases pts.len() - i,
{
    if i < 0 || i >= pts.len() - 1 {
        Option::None
    } else {
        opt_min(
            toi_circle_seg(
                p.0, p.1, dm.0, dm.1,
                pts[i].0 as int, pts[i].1 as int,
                pts[i + 1].0 as int, pts[i + 1].1 as int,
                rr,
            ),
            toi_circle_poly_from(p, dm, pts, rr, i + 1),
        )
    }
}

/// Computes `toi_circle_poly_from(.., 0)` exactly.
pub fn toi_circle_poly_exec(
    p: (i64, i64), dm: (i64, i64), pts: &Vec<(i64, i64)>, rr: i64,
) -> (r: Option<i64>)
    requires
        mpt_ok(p),
        in_milli(dm.0 as int) && in_milli(dm.1 as int),
        forall|k: int| 0 <= k < pts@.len() ==> #[trigger] mpt_ok(pts@[k]),
        mrad_ok(rr as int),
    ensures
        r == toi_circle_poly_from(
            (p.0 as int, p.1 as int), (dm.0 as int, dm.1 as int), pts@, rr as int, 0,
        ),
        r matches Option::Some(t) ==> 0 <= t <= 1_000_000,
{
    let n = pts.len();
    if n < 2 {
        return Option::None;
    }
    let mut i: usize = n - 1;
    let mut acc: Option<i64> = Option::None;
    while i > 0
        invariant
            n == pts@.len(),
            n >= 2,
            i <= n - 1,
            mpt_ok(p),
            in_milli(dm.0 as int) && in_milli(dm.1 as int),
            forall|k: int| 0 <= k < pts@.len() ==> #[trigger] mpt_ok(pts@[k]),
            mrad_ok(rr as int),
            acc == toi_circle_poly_from(
                (p.0 as int, p.1 as int), (dm.0 as int, dm.1 as int), pts@, rr as int, i as int,
            ),
            acc matches Option::Some(t) ==> 0 <= t <= 1_000_000,
        decreases i,
    {
        i = i - 1;
        let a = pts[i];
        let b = pts[i + 1];
        proof {
            assert(mpt_ok(pts@[i as int]));
            assert(mpt_ok(pts@[i as int + 1]));
        }
        let t = toi_circle_seg_exec(p.0, p.1, dm.0, dm.1, a.0, a.1, b.0, b.1, rr);
        acc = opt_min_exec(t, acc);
    }
    acc
}

/// Earliest impact over the segments of a polyline against the moving
/// quadrilateral, folded from segment `i` onward.
pub open spec fn toi_quad_poly_from(
    p0: (int, int), p1: (int, int), p2: (int, int), p3: (int, int),
    dm: (int, int), pts: Seq<(i64, i64)>, i: int,
) -> Option<i64>
    decreases pts.len() - i,
{
    if i < 0 || i >= pts.len() - 1 {
        Option::None
    } else {
        opt_min(
            toi_quad_seg(
                p0, p1, p2, p3, dm,
                (pts[i].0 as int, pts[i].1 as int),
                (pts[i + 1].0 as int, pts[i + 1].1 as int),
            ),
            toi_quad_poly_from(p0, p1, p2, p3, dm, pts, i + 1),
        )
    }
}

/// Computes `toi_quad_poly_from(.., 0)` exactly.
pub fn toi_quad_poly_exec(
    p0: (i64, i64), p1: (i64, i64), p2: (i64, i64), p3: (i64, i64),
    dm: (i64, i64), pts: &Vec<(i64, i64)>,
) -> (r: Option<i64>)
    requires
        mpt_ok(p0) && mpt_ok(p1) && mpt_ok(p2) && mpt_ok(p3),
        in_milli(dm.0 as int) && in_milli(dm.1 as int),
        forall|k: int| 0 <= k < pts@.len() ==> #[trigger] mpt_ok(pts@[k]),
    ensures
        r == toi_quad_poly_from(
            (p0.0 as int, p0.1 as int), (p1.0 as int, p1.1 as int),
            (p2.0 as int, p2.1 as int), (p3.0 as int, p3.1 as int),
            (dm.0 as int, dm.1 as int), pts@, 0,
        ),
        r matches Option::Some(t) ==> 0 <= t <= 1_000_000,
{
    let n = pts.len();
    if n < 2 {
        return Option::None;
    }
    let mut i: usize = n - 1;
    let mut acc: Option<i64> = Option::None;
    while i > 0
        invariant
            n == pts@.len(),
            n >= 2,
            i <= n - 1,
            mpt_ok(p0) && mpt_ok(p1) && mpt_ok(p2) && mpt_ok(p3),
            in_milli(dm.0 as int) && in_milli(dm.1 as int),
            forall|k: int| 0 <= k < pts@.len() ==> #[trigger] mpt_ok(pts@[k]),
            acc == toi_quad_poly_from(
                (p0.0 as int, p0.1 as int), (p1.0 as int, p1.1 as int),
                (p2.0 as int, p2.1 as int), (p3.0 as int, p3.1 as int),
                (dm.0 as int, dm.1 as int), pts@, i as int,
            ),
            acc matches Option::Some(t) ==> 0 <= t <= 1_000_000,
        decreases i,
    {
        i = i - 1;
        let a = pts[i];
        let b = pts[i + 1];
        proof {
            assert(mpt_ok(pts@[i as int]));
            assert(mpt_ok(pts@[i as int + 1]));
        }
        let t = toi_quad_seg_exec(p0, p1, p2, p3, dm, a, b);
        acc = opt_min_exec(t, acc);
    }
    acc
}

/// A micro value rounded toward zero to millimetres.
pub open spec fn milli_of(v: int) -> int {
    tdiv(v, 1000)
}

/// A point rounded to millimetres.
pub open spec fn mpt_of(p: (i64, i64)) -> (i64, i64) {
    ((tdiv(p.0 as int, 1000)) as i64, (tdiv(p.1 as int, 1000)) as i64)
}

/// Rounds a micro value toward zero to millimetres.
pub fn milli_exec(v: i64) -> (r: i64)
    requires
        -1_500_000_000 <= v <= 1_500_000_000,
    ensures
        r == milli_of(v as int),
        in_mpt(r as int),
        v >= 0 ==> r >= 0,
{
    if v >= 0 {
        v / 1000
    } else {
        -((-v) / 1000)
    }
}

/// Rounds every vertex of a polyline to millimetres.
pub fn milli_pts(pts: &Vec<(i64, i64)>) -> (r: Vec<(i64, i64)>)
    requires
        forall|k: int| 0 <= k < pts@.len() ==> #[trigger] crate::collidable::wf_pt(pts@[k]),
    ensures
        r@ == pts@.map_values(|p: (i64, i64)| mpt_of(p)),
        forall|k: int| 0 <= k < r@.len() ==> #[trigger] mpt_ok(r@[k]),
{
    let mut out: Vec<(i64, i64)> = Vec::new();
    let n = pts.len();
    let mut i: usize = 0;
    while i < n
        invariant
            n == pts@.len(),
            i <= n,
            out@.len() == i,
            forall|k: int| 0 <= k < pts@.len() ==> #[trigger] crate::collidable::wf_pt(pts@[k]),
            forall|k: int| 0 <= k < i ==> #[trigger] out@[k] == mpt_of(pts@[k]),
            forall|k: int| 0 <= k < i ==> #[trigger] mpt_ok(out@[k]),
        decreases n - i,
    {
        let p = pts[i];
        proof {
            assert(crate::collidable::wf_pt(pts@[i as int]));
        }
        let q = (milli_exec(p.0), milli_exec(p.1));
        out.push(q);
        i = i + 1;
    }
    proof {
        assert(out@ =~= pts@.map_values(|p: (i64, i64)| mpt_of(p)));
    }
    out
}

/// The quadrilateral of a posed rectangle, rounded to millimetres.
pub open spec fn milli_quad(
    px: int, py: int, pth: int, hw: int, hh: int,
) -> ((int, int), (int, int), (int, int), (int, int)) {
    let q = crate::collidable::box_quad(px, py, pth, hw, hh);
    (
        (milli_of(q.0.0), milli_of(q.0.1)),
        (milli_of(q.1.0), milli_of(q.1.1)),
        (milli_of(q.2.0), milli_of(q.2.1)),
        (milli_of(q.3.0), milli_of(q.3.1)),
    )
}

/// Computes [`milli_quad`] exactly.
pub fn milli_quad_exec(px: i64, py: i64, pth: i64, hw: i64, hh: i64)
    -> (r: ((i64, i64), (i64, i64), (i64, i64), (i64, i64)))
    requires
        -crate::parameter::SWEEP_LIMIT <= px <= crate::parameter::SWEEP_LIMIT,
        -crate::parameter::SWEEP_LIMIT <= py <= crate::parameter::SWEEP_LIMIT,
        crate::parameter::DIM_MIN <= hw <= crate::parameter::DIM_MAX + 100_000,
        crate::parameter::DIM_MIN <= hh <= crate::parameter::DIM_MAX + 100_000,
    ensures
        ({
            let q = milli_quad(px as int, py as int, pth as int, hw as int, hh as int);
            r.0.0 == q.0.0 && r.0.1 == q.0.1
                && r.1.0 == q.1.0 && r.1.1 == q.1.1
                && r.2.0 == q.2.0 && r.2.1 == q.2.1
                && r.3.0 == q.3.0 && r.3.1 == q.3.1
        }),
        mpt_ok(r.0) && mpt_ok(r.1) && mpt_ok(r.2) && mpt_ok(r.3),
{
    let q = crate::collidable::box_quad_exec(px, py, pth, hw, hh);
    (
        (milli_exec(q.0.0), milli_exec(q.0.1)),
        (milli_exec(q.1.0), milli_exec(q.1.1)),
        (milli_exec(q.2.0), milli_exec(q.2.1)),
        (milli_exec(q.3.0), milli_exec(q.3.1)),
    )
}

/// Half the swept-contact margin as a rectangle inflation; a swept
/// rectangle pair grows by this on each side so the pair first touches at
/// the margin.
pub const SWEEP_INFL_PAIR: i64 = 20_000;

/// The full swept-contact margin as a rectangle inflation, used against
/// walls.
pub const SWEEP_INFL_WALL: i64 = 40_000;

/// The swept-contact margin in milli-units, added to swept circle radii.
/// It sits inside the overlap threshold, so a pose committed at the margin
/// is still reported as in contact by the static probe and a robot stopped
/// by a sweep never starts the next tick already penetrating.
pub const SWEEP_MARGIN_MILLI: i64 = 40;

/// Earliest fraction of the tick (in micro-units of one tick) at which the
/// two posed shapes, each sliding on a straight line between its start and
/// end pose with rotation frozen at the start, first come within the
/// overlap margin; `None` when they stay clear through the whole tick.
/// Circles are inflated by the margin, rectangle pairs by half of it on
/// each side.
#[verifier::opaque]
pub open spec fn swept_toi_of(
    sa: crate::collidable::ShapeModel, pa_s: (i64, i64, i64), pa_e: (i64, i64, i64),
    sb: crate::collidable::ShapeModel, pb_s: (i64, i64, i64), pb_e: (i64, i64, i64),
) -> Option<i64> {
    let asx = milli_of(pa_s.0 as int);
    let asy = milli_of(pa_s.1 as int);
    let bsx = milli_of(pb_s.0 as int);
    let bsy = milli_of(pb_s.1 as int);
    let dmx = (milli_of(pa_e.0 as int) - asx) - (milli_of(pb_e.0 as int) - bsx);
    let dmy = (milli_of(pa_e.1 as int) - asy) - (milli_of(pb_e.1 as int) - bsy);
    match sa {
        crate::collidable::ShapeModel::Circle { radius: ra } => match sb {
            crate::collidable::ShapeModel::Circle { radius: rb } => toi_circle_circle(
                asx - bsx, asy - bsy, dmx, dmy,
                milli_of(ra as int) + milli_of(rb as int) + SWEEP_MARGIN_MILLI as int,
            ),
            crate::collidable::ShapeModel::Rect { half_w, half_h } => {
                let q = milli_quad(pb_s.0 as int, pb_s.1 as int, pb_s.2 as int, half_w as int, half_h as int);
                toi_circle_quad(
                    (asx, asy), (dmx, dmy), q.0, q.1, q.2, q.3,
                    milli_of(ra as int) + SWEEP_MARGIN_MILLI as int,
                )
            },
            crate::collidable::ShapeModel::Polyline { points } => toi_circle_poly_from(
                (asx, asy), (dmx, dmy), points@.map_values(|p: (i64, i64)| mpt_of(p)),
                milli_of(ra as int) + SWEEP_MARGIN_MILLI as int, 0,
            ),
        },
        crate::collidable::ShapeModel::Rect { half_w: wa, half_h: ha } => match sb {
            crate::collidable::ShapeModel::Circle { radius: rb } => {
                let q = milli_quad(pa_s.0 as int, pa_s.1 as int, pa_s.2 as int, wa as int, ha as int);
                toi_circle_quad(
                    (bsx, bsy), (-dmx, -dmy), q.0, q.1, q.2, q.3,
                    milli_of(rb as int) + SWEEP_MARGIN_MILLI as int,
                )
            },
            crate::collidable::ShapeModel::Rect { half_w: wb, half_h: hb } => {
                let qa = milli_quad(
                    pa_s.0 as int, pa_s.1 as int, pa_s.2 as int,
                    wa as int + SWEEP_INFL_PAIR as int, ha as int + SWEEP_INFL_PAIR as int,
                );
                let qb = milli_quad(
                    pb_s.0 as int, pb_s.1 as int, pb_s.2 as int,
                    wb as int + SWEEP_INFL_PAIR as int, hb as int + SWEEP_INFL_PAIR as int,
                );
                toi_quad_quad(qa.0, qa.1, qa.2, qa.3, (dmx, dmy), qb.0, qb.1, qb.2, qb.3)
            },
            crate::collidable::ShapeModel::Polyline { points } => {
                let qa = milli_quad(
                    pa_s.0 as int, pa_s.1 as int, pa_s.2 as int,
                    wa as int + SWEEP_INFL_WALL as int, ha as int + SWEEP_INFL_WALL as int,
                );
                toi_quad_poly_from(
                    qa.0, qa.1, qa.2, qa.3, (dmx, dmy),
                    points@.map_values(|p: (i64, i64)| mpt_of(p)), 0,
                )
            },
        },
        crate::collidable::ShapeModel::Polyline { points: ptsa } => match sb {
            crate::collidable::ShapeModel::Circle { radius: rb } => toi_circle_poly_from(
                (bsx, bsy), (-dmx, -dmy), ptsa@.map_values(|p: (i64, i64)| mpt_of(p)),
                milli_of(rb as int) + SWEEP_MARGIN_MILLI as int, 0,
            ),
            crate::collidable::ShapeModel::Rect { half_w: wb, half_h: hb } => {
                let qb = milli_quad(
                    pb_s.0 as int, pb_s.1 as int, pb_s.2 as int,
                    wb as int + SWEEP_INFL_WALL as int, hb as int + SWEEP_INFL_WALL as int,
                );
                toi_quad_poly_from(
                    qb.0, qb.1, qb.2, qb.3, (-dmx, -dmy),
                    ptsa@.map_values(|p: (i64, i64)| mpt_of(p)), 0,
                )
            },
            crate::collidable::ShapeModel::Polyline { points: ptsb } => {
                if crate::collidable::poly_poly_within(ptsa@, ptsb@, 0) {
                    Option::Some(0i64)
                } else {
                    Option::None
                }
            },
        },
    }
}

/// Computes [`swept_toi_of`] for any pair of well-formed posed shapes.
pub fn swept_toi(
    sa: &crate::collidable::ShapeModel, pa_s: (i64, i64, i64), pa_e: (i64, i64, i64),
    sb: &crate::collidable::ShapeModel, pb_s: (i64, i64, i64), pb_e: (i64, i64, i64),
) -> (r: Option<i64>)
    requires
        crate::collidable::wf_shape(*sa),
        crate::collidable::wf_shape(*sb),
        crate::collidable::sweep_pose_ok(pa_s),
        crate::collidable::sweep_pose_ok(pa_e),
        crate::collidable::sweep_pose_ok(pb_s),
        crate::collidable::sweep_pose_ok(pb_e),
    ensures
        r == swept_toi_of(*sa, pa_s, pa_e, *sb, pb_s, pb_e),
        r matches Option::Some(t) ==> 0 <= t <= 1_000_000,
{
    proof {
        reveal(swept_toi_of);
    }
    let asx = milli_exec(pa_s.0);
    let asy = milli_exec(pa_s.1);
    let bsx = milli_exec(pb_s.0);
    let bsy = milli_exec(pb_s.1);
    let dmx = (milli_exec(pa_e.0) - asx) - (milli_exec(pb_e.0) - bsx);
    let dmy = (milli_exec(pa_e.1) - asy) - (milli_exec(pb_e.1) - bsy);
    match sa {
        crate::collidable::ShapeModel::Circle { radius: ra } => match sb {
            crate::collidable::ShapeModel::Circle { radius: rb } => {
                let rr = milli_exec(*ra) + milli_exec(*rb) + SWEEP_MARGIN_MILLI;
                toi_circle_circle_exec(asx - bsx, asy - bsy, dmx, dmy, rr)
            },
            crate::collidable::ShapeModel::Rect { half_w, half_h } => {
                let q = milli_quad_exec(pb_s.0, pb_s.1, pb_s.2, *half_w, *half_h);
                let rr = milli_exec(*ra) + SWEEP_MARGIN_MILLI;
                toi_circle_quad_exec((asx, asy), (dmx, dmy), q.0, q.1, q.2, q.3, rr)
            },
            crate::collidable::ShapeModel::Polyline { points } => {
                let pts = milli_pts(points);
                let rr = milli_exec(*ra) + SWEEP_MARGIN_MILLI;
                toi_circle_poly_exec((asx, asy), (dmx, dmy), &pts, rr)
            },
        },
        crate::collidable::ShapeModel::Rect { half_w: wa, half_h: ha } => match sb {
            crate::collidable::ShapeModel::Circle { radius: rb } => {
                let q = milli_quad_exec(pa_s.0, pa_s.1, pa_s.2, *wa, *ha);
                let rr = milli_exec(*rb) + SWEEP_MARGIN_MILLI;
                toi_circle_quad_exec((bsx, bsy), (-dmx, -dmy), q.0, q.1, q.2, q.3, rr)
            },
            crate::collidable::ShapeModel::Rect { half_w: wb, half_h: hb } => {
                let qa = milli_quad_exec(pa_s.0, pa_s.1, pa_s.2, *wa + SWEEP_INFL_PAIR, *ha + SWEEP_INFL_PAIR);
                let qb = milli_quad_exec(pb_s.0, pb_s.1, pb_s.2, *wb + SWEEP_INFL_PAIR, *hb + SWEEP_INFL_PAIR);
                toi_quad_quad_exec(qa.0, qa.1, qa.2, qa.3, (dmx, dmy), qb.0, qb.1, qb.2, qb.3)
            },
            crate::collidable::ShapeModel::Polyline { points } => {
                let qa = milli_quad_exec(pa_s.0, pa_s.1, pa_s.2, *wa + SWEEP_INFL_WALL, *ha + SWEEP_INFL_WALL);
                let pts = milli_pts(points);
                toi_quad_poly_exec(qa.0, qa.1, qa.2, qa.3, (dmx, dmy), &pts)
            },
        },
        crate::collidable::ShapeModel::Polyline { points: ptsa } => match sb {
            crate::collidable::ShapeModel::Circle { radius: rb } => {
                let pts = milli_pts(ptsa);
                let rr = milli_exec(*rb) + SWEEP_MARGIN_MILLI;
                toi_circle_poly_exec((bsx, bsy), (-dmx, -dmy), &pts, rr)
            },
            crate::collidable::ShapeModel::Rect { half_w: wb, half_h: hb } => {
                let qb = milli_quad_exec(pb_s.0, pb_s.1, pb_s.2, *wb + SWEEP_INFL_WALL, *hb + SWEEP_INFL_WALL);
                let pts = milli_pts(ptsa);
                toi_quad_poly_exec(qb.0, qb.1, qb.2, qb.3, (-dmx, -dmy), &pts)
            },
            crate::collidable::ShapeModel::Polyline { points: ptsb } => {
                if crate::collidable::poly_poly_within_exec(ptsa, ptsb, 0) {
                    Option::Some(0i64)
                } else {
                    Option::None
                }
            },
        },
    }
}

/// The impact time depends only on the geometry of the second shape, not on
/// which vector value carries a polyline's vertices.
pub proof fn lemma_swept_toi_view(
    sa: crate::collidable::ShapeModel, pa_s: (i64, i64, i64), pa_e: (i64, i64, i64),
    sb1: crate::collidable::ShapeModel, sb2: crate::collidable::ShapeModel,
    pb_s: (i64, i64, i64), pb_e: (i64, i64, i64),
)
    requires
        crate::collidable::shape_view_eq(sb1, sb2),
    ensures
        swept_toi_of(sa, pa_s, pa_e, sb1, pb_s, pb_e) == swept_toi_of(sa, pa_s, pa_e, sb2, pb_s, pb_e),
{
    reveal(swept_toi_of);
    match sb1 {
        crate::collidable::ShapeModel::Circle { .. } => {},
        crate::collidable::ShapeModel::Rect { .. } => {},
        crate::collidable::ShapeModel::Polyline { points: p1 } => {
            match sb2 {
                crate::collidable::ShapeModel::Polyline { points: p2 } => {
                    assert(p1@.map_values(|p: (i64, i64)| mpt_of(p))
                        == p2@.map_values(|p: (i64, i64)| mpt_of(p)));
                    match sa {
                        crate::collidable::ShapeModel::Polyline { points: pa } => {
                            lemma_poly_poly_within_view(pa@, p1@, p2@);
                        },
                        _ => {},
                    }
                },
                _ => {},
            }
        },
    }
}

/// The static polyline-pair predicate depends only on the vertex views.
proof fn lemma_poly_poly_within_view(pa: Seq<(i64, i64)>, pb1: Seq<(i64, i64)>, pb2: Seq<(i64, i64)>)
    requires
        pb1 == pb2,
    ensures
        crate::collidable::poly_poly_within(pa, pb1, 0)
            == crate::collidable::poly_poly_within(pa, pb2, 0),
{
}

/// A nonnegative value whose square is at most `bb * bb` is at most `bb`.
pub proof fn lemma_nonneg_sq_le(s: int, bb: int)
    requires
        s >= 0,
        bb >= 0,
        s * s <= bb * bb,
    ensures
        s <= bb,
{
    assert(s <= bb) by (nonlinear_arith)
        requires
            s >= 0,
            bb >= 0,
            s * s <= bb * bb,
    ;
}

/// Two integer square roots of the same value coincide.
pub proof fn lemma_isqrt_unique(n: int, a: int, b: int)
    requires
        is_isqrt(n, a),
        is_isqrt(n, b),
    ensures
        a == b,
{
    if a < b {
        assert(a + 1 <= b);
        assert((a + 1) * (a + 1) <= b * b) by (nonlinear_arith)
            requires 0 <= a + 1 <= b,
        ;
    }
    if b < a {
        assert((b + 1) * (b + 1) <= a * a) by (nonlinear_arith)
            requires 0 <= b + 1 <= a,
        ;
    }
}

} // verus!
