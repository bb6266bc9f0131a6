//! Exact geometric predicates on fixed-point points, segments, circles and
//! convex quadrilaterals.
//!
//! Every comparison is carried out on squared distances and cross products
//! over wide integers, so each executable predicate returns exactly the truth
//! value of the mathematical statement in its contract: no rounding is
//! involved anywhere in this module.

use vstd::prelude::*;
use crate::fp::{mul_c, mul_w};
use crate::parameter::GEOM_LIMIT;

verus! {

/// A coordinate the exact predicates accept.
pub open spec fn in_geom(v: int) -> bool {
    -GEOM_LIMIT <= v <= GEOM_LIMIT
}

/// Both coordinates of a point within range.
pub open spec fn pt_in_geom(p: (i64, i64)) -> bool {
    in_geom(p.0 as int) && in_geom(p.1 as int)
}

/// A margin or radius value the exact predicates accept.
pub open spec fn margin_ok(m: int) -> bool {
    0 <= m <= 300_000_000
}

/// Squared distance between two points.
pub open spec fn dist2(px: int, py: int, qx: int, qy: int) -> int {
    (px - qx) * (px - qx) + (py - qy) * (py - qy)
}

/// Cross product of the vectors `(bx-ax, by-ay)` and `(cx-ax, cy-ay)`.
pub open spec fn orient(ax: int, ay: int, bx: int, by: int, cx: int, cy: int) -> int {
    (bx - ax) * (cy - ay) - (by - ay) * (cx - ax)
}

/// The point `p` lies strictly within distance `m` of the segment `ab`:
/// within `m` of the nearer endpoint when the perpendicular foot falls
/// outside the segment, else the perpendicular distance is below `m`.
pub open spec fn pt_seg_within(
    px: int, py: int, ax: int, ay: int, bx: int, by: int, m: int,
) -> bool {
    let abx = bx - ax;
    let aby = by - ay;
    let apx = px - ax;
    let apy = py - ay;
    let len2 = abx * abx + aby * aby;
    let dot = abx * apx + aby * apy;
    if len2 == 0 || dot <= 0 {
        dist2(px, py, ax, ay) < m * m
    } else if dot >= len2 {
        dist2(px, py, bx, by) < m * m
    } else {
        let cross = abx * apy - aby * apx;
        cross * cross < m * m * len2
    }
}

/// Exact test of [`pt_seg_within`].
pub fn pt_seg_within_exec(
    px: i64, py: i64, ax: i64, ay: i64, bx: i64, by: i64, m: i64,
) -> (r: bool)
    requires
        in_geom(px as int) && in_geom(py as int),
        in_geom(ax as int) && in_geom(ay as int),
        in_geom(bx as int) && in_geom(by as int),
        margin_ok(m as int),
    ensures
        r == pt_seg_within(px as int, py as int, ax as int, ay as int, bx as int, by as int, m as int),
{
    let abx: i128 = bx as i128 - ax as i128;
    let aby: i128 = by as i128 - ay as i128;
    let apx: i128 = px as i128 - ax as i128;
    let apy: i128 = py as i128 - ay as i128;
    let len2: i128 = mul_c(abx, abx) + mul_c(aby, aby);
    let dot: i128 = mul_c(abx, apx) + mul_c(aby, apy);
    let m2: i128 = mul_c(m as i128, m as i128);
    if len2 == 0 || dot <= 0 {
        let bpx: i128 = px as i128 - ax as i128;
        let bpy: i128 = py as i128 - ay as i128;
        mul_c(bpx, bpx) + mul_c(bpy, bpy) < m2
    } else if dot >= len2 {
        let bpx: i128 = px as i128 - bx as i128;
        let bpy: i128 = py as i128 - by as i128;
        mul_c(bpx, bpx) + mul_c(bpy, bpy) < m2
    } else {
        let cross: i128 = mul_c(abx, apy) - mul_c(aby, apx);
        mul_w(cross, cross) < mul_w(m2, len2)
    }
}

/// Two circles (or points inflated to radii summed into `m`) are within
/// distance `m` of each other.
pub open spec fn circles_within(px: int, py: int, qx: int, qy: int, m: int) -> bool {
    dist2(px, py, qx, qy) < m * m
}

/// Exact test of [`circles_within`].
pub fn circles_within_exec(px: i64, py: i64, qx: i64, qy: i64, m: i64) -> (r: bool)
    requires
        in_geom(px as int) && in_geom(py as int),
        in_geom(qx as int) && in_geom(qy as int),
        margin_ok(m as int),
    ensures
        r == circles_within(px as int, py as int, qx as int, qy as int, m as int),
{
    let dx: i128 = px as i128 - qx as i128;
    let dy: i128 = py as i128 - qy as i128;
    mul_c(dx, dx) + mul_c(dy, dy) < mul_c(m as i128, m as i128)
}

/// The point lies inside or on the quadrilateral `q0 q1 q2 q3` (given in
/// boundary order with either orientation): it is on one consistent side of
/// all four edges.
pub open spec fn pt_in_quad(
    px: int, py: int,
    q0: (int, int), q1: (int, int), q2: (int, int), q3: (int, int),
) -> bool {
    let o0 = orient(q0.0, q0.1, q1.0, q1.1, px, py);
    let o1 = orient(q1.0, q1.1, q2.0, q2.1, px, py);
    let o2 = orient(q2.0, q2.1, q3.0, q3.1, px, py);
    let o3 = orient(q3.0, q3.1, q0.0, q0.1, px, py);
    (o0 >= 0 && o1 >= 0 && o2 >= 0 && o3 >= 0) || (o0 <= 0 && o1 <= 0 && o2 <= 0 && o3 <= 0)
}

/// Exact signed-area orientation of the triangle `a b c`.
fn orient_exec(ax: i64, ay: i64, bx: i64, by: i64, cx: i64, cy: i64) -> (r: i128)
    requires
        in_geom(ax as int) && in_geom(ay as int),
        in_geom(bx as int) && in_geom(by as int),
        in_geom(cx as int) && in_geom(cy as int),
    ensures
        r == orient(ax as int, ay as int, bx as int, by as int, cx as int, cy as int),
        -13_000_000_000_000_000_000 <= r <= 13_000_000_000_000_000_000,
{
    let ux: i128 = bx as i128 - ax as i128;
    let uy: i128 = by as i128 - ay as i128;
    let vx: i128 = cx as i128 - ax as i128;
    let vy: i128 = cy as i128 - ay as i128;
    mul_c(ux, vy) - mul_c(uy, vx)
}

/// Exact test of [`pt_in_quad`].
pub fn pt_in_quad_exec(
    px: i64, py: i64,
    q0: (i64, i64), q1: (i64, i64), q2: (i64, i64), q3: (i64, i64),
) -> (r: bool)
    requires
        in_geom(px as int) && in_geom(py as int),
        pt_in_geom(q0) && pt_in_geom(q1) && pt_in_geom(q2) && pt_in_geom(q3),
    ensures
        r == pt_in_quad(
            px as int, py as int,
            (q0.0 as int, q0.1 as int), (q1.0 as int, q1.1 as int),
            (q2.0 as int, q2.1 as int), (q3.0 as int, q3.1 as int),
        ),
{
    let o0 = orient_exec(q0.0, q0.1, q1.0, q1.1, px, py);
    let o1 = orient_exec(q1.0, q1.1, q2.0, q2.1, px, py);
    let o2 = orient_exec(q2.0, q2.1, q3.0, q3.1, px, py);
    let o3 = orient_exec(q3.0, q3.1, q0.0, q0.1, px, py);
    (o0 >= 0 && o1 >= 0 && o2 >= 0 && o3 >= 0) || (o0 <= 0 && o1 <= 0 && o2 <= 0 && o3 <= 0)
}

/// The closed segments `ab` and `cd` intersect: their orientations straddle,
/// or all four points are collinear and the one-dimensional projections
/// overlap.
pub open spec fn segs_intersect(
    a: (int, int), b: (int, int), c: (int, int), d: (int, int),
) -> bool {
    let o1 = orient(a.0, a.1, b.0, b.1, c.0, c.1);
    let o2 = orient(a.0, a.1, b.0, b.1, d.0, d.1);
    let o3 = orient(c.0, c.1, d.0, d.1, a.0, a.1);
    let o4 = orient(c.0, c.1, d.0, d.1, b.0, b.1);
    if o1 == 0 && o2 == 0 && o3 == 0 && o4 == 0 {
        let abd = (b.0 - a.0) * (b.0 - a.0) + (b.1 - a.1) * (b.1 - a.1);
        let tc = (b.0 - a.0) * (c.0 - a.0) + (b.1 - a.1) * (c.1 - a.1);
        let td = (b.0 - a.0) * (d.0 - a.0) + (b.1 - a.1) * (d.1 - a.1);
        !(tc < 0 && td < 0) && !(tc > abd && td > abd)
    } else {
        ((o1 >= 0 && o2 <= 0) || (o1 <= 0 && o2 >= 0))
            && ((o3 >= 0 && o4 <= 0) || (o3 <= 0 && o4 >= 0))
    }
}

/// Exact test of [`segs_intersect`].
pub fn segs_intersect_exec(
    a: (i64, i64), b: (i64, i64), c: (i64, i64), d: (i64, i64),
) -> (r: bool)
    requires
        pt_in_geom(a) && pt_in_geom(b) && pt_in_geom(c) && pt_in_geom(d),
    ensures
        r == segs_intersect(
            (a.0 as int, a.1 as int), (b.0 as int, b.1 as int),
            (c.0 as int, c.1 as int), (d.0 as int, d.1 as int),
        ),
{
    let o1 = orient_exec(a.0, a.1, b.0, b.1, c.0, c.1);
    let o2 = orient_exec(a.0, a.1, b.0, b.1, d.0, d.1);
    let o3 = orient_exec(c.0, c.1, d.0, d.1, a.0, a.1);
    let o4 = orient_exec(c.0, c.1, d.0, d.1, b.0, b.1);
    if o1 == 0 && o2 == 0 && o3 == 0 && o4 == 0 {
        let ux: i128 = b.0 as i128 - a.0 as i128;
        let uy: i128 = b.1 as i128 - a.1 as i128;
        let abd: i128 = mul_c(ux, ux) + mul_c(uy, uy);
        let tc: i128 = mul_c(ux, c.0 as i128 - a.0 as i128) + mul_c(uy, c.1 as i128 - a.1 as i128);
        let td: i128 = mul_c(ux, d.0 as i128 - a.0 as i128) + mul_c(uy, d.1 as i128 - a.1 as i128);
        !(tc < 0 && td < 0) && !(tc > abd && td > abd)
    } else {
        ((o1 >= 0 && o2 <= 0) || (o1 <= 0 && o2 >= 0))
            && ((o3 >= 0 && o4 <= 0) || (o3 <= 0 && o4 >= 0))
    }
}

/// A circle of radius folded into `m` around `p` comes within the
/// quadrilateral: the centre lies inside it, or within `m` of one of its
/// edges.
pub open spec fn circle_quad_within(
    px: int, py: int,
    q0: (int, int), q1: (int, int), q2: (int, int), q3: (int, int),
    m: int,
) -> bool {
    pt_in_quad(px, py, q0, q1, q2, q3)
        || pt_seg_within(px, py, q0.0, q0.1, q1.0, q1.1, m)
        || pt_seg_within(px, py, q1.0, q1.1, q2.0, q2.1, m)
        || pt_seg_within(px, py, q2.0, q2.1, q3.0, q3.1, m)
        || pt_seg_within(px, py, q3.0, q3.1, q0.0, q0.1, m)
}

/// Exact test of [`circle_quad_within`].
pub fn circle_quad_within_exec(
    px: i64, py: i64,
    q0: (i64, i64), q1: (i64, i64), q2: (i64, i64), q3: (i64, i64),
    m: i64,
) -> (r: bool)
    requires
        in_geom(px as int) && in_geom(py as int),
        pt_in_geom(q0) && pt_in_geom(q1) && pt_in_geom(q2) && pt_in_geom(q3),
        margin_ok(m as int),
    ensures
        r == circle_quad_within(
            px as int, py as int,
            (q0.0 as int, q0.1 as int), (q1.0 as int, q1.1 as int),
            (q2.0 as int, q2.1 as int), (q3.0 as int, q3.1 as int),
            m as int,
        ),
{
    pt_in_quad_exec(px, py, q0, q1, q2, q3)
        || pt_seg_within_exec(px, py, q0.0, q0.1, q1.0, q1.1, m)
        || pt_seg_within_exec(px, py, q1.0, q1.1, q2.0, q2.1, m)
        || pt_seg_within_exec(px, py, q2.0, q2.1, q3.0, q3.1, m)
        || pt_seg_within_exec(px, py, q3.0, q3.1, q0.0, q0.1, m)
}

/// A segment comes within distance `m` of the quadrilateral: it meets an
/// edge, an endpoint lies inside, an endpoint is within `m` of an edge, or a
/// quadrilateral corner is within `m` of the segment.
pub open spec fn seg_quad_within(
    a: (int, int), b: (int, int),
    q0: (int, int), q1: (int, int), q2: (int, int), q3: (int, int),
    m: int,
) -> bool {
    segs_intersect(a, b, q0, q1)
        || segs_intersect(a, b, q1, q2)
        || segs_intersect(a, b, q2, q3)
        || segs_intersect(a, b, q3, q0)
        || pt_in_quad(a.0, a.1, q0, q1, q2, q3)
        || pt_in_quad(b.0, b.1, q0, q1, q2, q3)
        || circle_quad_within(a.0, a.1, q0, q1, q2, q3, m)
        || circle_quad_within(b.0, b.1, q0, q1, q2, q3, m)
        || pt_seg_within(q0.0, q0.1, a.0, a.1, b.0, b.1, m)
        || pt_seg_within(q1.0, q1.1, a.0, a.1, b.0, b.1, m)
        || pt_seg_within(q2.0, q2.1, a.0, a.1, b.0, b.1, m)
        || pt_seg_within(q3.0, q3.1, a.0, a.1, b.0, b.1, m)
}

/// Exact test of [`seg_quad_within`].
pub fn seg_quad_within_exec(
    a: (i64, i64), b: (i64, i64),
    q0: (i64, i64), q1: (i64, i64), q2: (i64, i64), q3: (i64, i64),
    m: i64,
) -> (r: bool)
    requires
        pt_in_geom(a) && pt_in_geom(b),
        pt_in_geom(q0) && pt_in_geom(q1) && pt_in_geom(q2) && pt_in_geom(q3),
        margin_ok(m as int),
    ensures
        r == seg_quad_within(
            (a.0 as int, a.1 as int), (b.0 as int, b.1 as int),
            (q0.0 as int, q0.1 as int), (q1.0 as int, q1.1 as int),
            (q2.0 as int, q2.1 as int), (q3.0 as int, q3.1 as int),
            m as int,
        ),
{
    segs_intersect_exec(a, b, q0, q1)
        || segs_intersect_exec(a, b, q1, q2)
        || segs_intersect_exec(a, b, q2, q3)
        || segs_intersect_exec(a, b, q3, q0)
        || pt_in_quad_exec(a.0, a.1, q0, q1, q2, q3)
        || pt_in_quad_exec(b.0, b.1, q0, q1, q2, q3)
        || circle_quad_within_exec(a.0, a.1, q0, q1, q2, q3, m)
        || circle_quad_within_exec(b.0, b.1, q0, q1, q2, q3, m)
        || pt_seg_within_exec(q0.0, q0.1, a.0, a.1, b.0, b.1, m)
        || pt_seg_within_exec(q1.0, q1.1, a.0, a.1, b.0, b.1, m)
        || pt_seg_within_exec(q2.0, q2.1, a.0, a.1, b.0, b.1, m)
        || pt_seg_within_exec(q3.0, q3.1, a.0, a.1, b.0, b.1, m)
}

/// Two segments come within distance `m` of each other: they intersect, or
/// an endpoint of one is within `m` of the other.
pub open spec fn seg_seg_within(
    a: (int, int), b: (int, int), c: (int, int), d: (int, int), m: int,
) -> bool {
    segs_intersect(a, b, c, d)
        || pt_seg_within(a.0, a.1, c.0, c.1, d.0, d.1, m)
        || pt_seg_within(b.0, b.1, c.0, c.1, d.0, d.1, m)
        || pt_seg_within(c.0, c.1, a.0, a.1, b.0, b.1, m)
        || pt_seg_within(d.0, d.1, a.0, a.1, b.0, b.1, m)
}

/// Exact test of [`seg_seg_within`].
pub fn seg_seg_within_exec(
    a: (i64, i64), b: (i64, i64), c: (i64, i64), d: (i64, i64), m: i64,
) -> (r: bool)
    requires
        pt_in_geom(a) && pt_in_geom(b) && pt_in_geom(c) && pt_in_geom(d),
        margin_ok(m as int),
    ensures
        r == seg_seg_within(
            (a.0 as int, a.1 as int), (b.0 as int, b.1 as int),
            (c.0 as int, c.1 as int), (d.0 as int, d.1 as int),
            m as int,
        ),
{
    segs_intersect_exec(a, b, c, d)
        || pt_seg_within_exec(a.0, a.1, c.0, c.1, d.0, d.1, m)
        || pt_seg_within_exec(b.0, b.1, c.0, c.1, d.0, d.1, m)
        || pt_seg_within_exec(c.0, c.1, a.0, a.1, b.0, b.1, m)
        || pt_seg_within_exec(d.0, d.1, a.0, a.1, b.0, b.1, m)
}

/// Two quadrilaterals come within distance `m` of each other: they overlap
/// (edge crossing or containment), or some corner of one is within `m` of an
/// edge of the other.
pub open spec fn quad_quad_within(
    p0: (int, int), p1: (int, int), p2: (int, int), p3: (int, int),
    q0: (int, int), q1: (int, int), q2: (int, int), q3: (int, int),
    m: int,
) -> bool {
    seg_quad_within(p0, p1, q0, q1, q2, q3, m)
        || seg_quad_within(p1, p2, q0, q1, q2, q3, m)
        || seg_quad_within(p2, p3, q0, q1, q2, q3, m)
        || seg_quad_within(p3, p0, q0, q1, q2, q3, m)
        || pt_in_quad(q0.0, q0.1, p0, p1, p2, p3)
}

/// Exact test of [`quad_quad_within`].
pub fn quad_quad_within_exec(
    p0: (i64, i64), p1: (i64, i64), p2: (i64, i64), p3: (i64, i64),
    q0: (i64, i64), q1: (i64, i64), q2: (i64, i64), q3: (i64, i64),
    m: i64,
) -> (r: bool)
    requires
        pt_in_geom(p0) && pt_in_geom(p1) && pt_in_geom(p2) && pt_in_geom(p3),
        pt_in_geom(q0) && pt_in_geom(q1) && pt_in_geom(q2) && pt_in_geom(q3),
        margin_ok(m as int),
    ensures
        r == quad_quad_within(
            (p0.0 as int, p0.1 as int), (p1.0 as int, p1.1 as int),
            (p2.0 as int, p2.1 as int), (p3.0 as int, p3.1 as int),
            (q0.0 as int, q0.1 as int), (q1.0 as int, q1.1 as int),
            (q2.0 as int, q2.1 as int), (q3.0 as int, q3.1 as int),
            m as int,
        ),
{
    seg_quad_within_exec(p0, p1, q0, q1, q2, q3, m)
        || seg_quad_within_exec(p1, p2, q0, q1, q2, q3, m)
        || seg_quad_within_exec(p2, p3, q0, q1, q2, q3, m)
        || seg_quad_within_exec(p3, p0, q0, q1, q2, q3, m)
        || pt_in_quad_exec(q0.0, q0.1, p0, p1, p2, p3)
}

} // verus!
