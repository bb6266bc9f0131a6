//! Posed collision shapes and the proximity dispatch over every shape pair.
//!
//! A [`Collidable`] is a shape model together with a world pose. Circles and
//! rectangles are carried by their pose; a polyline's vertices are world
//! coordinates and its pose is the identity, as the scene never poses a wall
//! away from the origin.

use vstd::prelude::*;
use crate::collision::{
    circle_quad_within, circle_quad_within_exec, circles_within, circles_within_exec, in_geom,
    margin_ok, pt_in_geom, pt_seg_within, pt_seg_within_exec, quad_quad_within,
    quad_quad_within_exec, seg_quad_within, seg_quad_within_exec, seg_seg_within,
    seg_seg_within_exec,
};
use crate::fp::{div_i128, lemma_abs_mul_le, lemma_tdiv_bound, mul_c, tdiv, SCALE};
use crate::parameter::{DIM_MAX, DIM_MIN, POSE_LIMIT, SWEEP_LIMIT};
use crate::trig::{cos_micro, cos_of, sin_micro, sin_of};
use crate::utils::{norm_spec, normalise};

verus! {

/// The shape variants the collision engine understands.
pub enum ShapeModel {
    /// A disc of the given radius.
    Circle { radius: i64 },
    /// A rectangle described by its half extents, rotated with its pose.
    Rect { half_w: i64, half_h: i64 },
    /// An open chain of world-anchored segments.
    Polyline { points: Vec<(i64, i64)> },
}

/// A shape at a world pose.
pub struct Collidable {
    /// The shape model.
    pub shape: ShapeModel,
    /// World pose (x, y, heading), in micro-units and micro-radians.
    pub pose: (i64, i64, i64),
}

/// A footprint dimension the arithmetic accepts.
pub open spec fn wf_dim(d: int) -> bool {
    DIM_MIN <= d <= DIM_MAX
}

/// A committed pose the scene accepts.
pub open spec fn wf_pose(p: (i64, i64, i64)) -> bool {
    -POSE_LIMIT <= p.0 <= POSE_LIMIT && -POSE_LIMIT <= p.1 <= POSE_LIMIT
}

/// A pose the swept-collision arithmetic accepts; proposed next poses stay
/// within this wider band.
pub open spec fn sweep_pose_ok(p: (i64, i64, i64)) -> bool {
    -SWEEP_LIMIT <= p.0 <= SWEEP_LIMIT && -SWEEP_LIMIT <= p.1 <= SWEEP_LIMIT
}

/// Well-formedness of a shape model.
pub open spec fn wf_shape(s: ShapeModel) -> bool {
    match s {
        ShapeModel::Circle { radius } => wf_dim(radius as int),
        ShapeModel::Rect { half_w, half_h } => wf_dim(half_w as int) && wf_dim(half_h as int),
        ShapeModel::Polyline { points } => {
            points@.len() >= 2 && forall|k: int|
                0 <= k < points@.len() ==> #[trigger] wf_pt(points@[k])
        },
    }
}

/// A polyline vertex within the committed-pose band.
pub open spec fn wf_pt(p: (i64, i64)) -> bool {
    -POSE_LIMIT <= p.0 <= POSE_LIMIT && -POSE_LIMIT <= p.1 <= POSE_LIMIT
}

/// Well-formedness of a posed shape.
pub open spec fn wf_collidable(c: Collidable) -> bool {
    wf_shape(c.shape) && wf_pose(c.pose)
}

/// Two shape models that agree as geometry: equal scalars, and equal vertex
/// views for polylines.
pub open spec fn shape_view_eq(a: ShapeModel, b: ShapeModel) -> bool {
    match a {
        ShapeModel::Circle { radius: ra } => b matches ShapeModel::Circle { radius: rb }
            && ra == rb,
        ShapeModel::Rect { half_w: wa, half_h: ha } => b matches ShapeModel::Rect {
            half_w: wb,
            half_h: hb,
        } && wa == wb && ha == hb,
        ShapeModel::Polyline { points: pa } => b matches ShapeModel::Polyline { points: pb }
            && pa@ == pb@,
    }
}

/// Two posed shapes that agree as geometry.
pub open spec fn coll_view_eq(a: Collidable, b: Collidable) -> bool {
    shape_view_eq(a.shape, b.shape) && a.pose == b.pose
}

/// One corner of a rectangle of half extents `hw`, `hh` at the given pose:
/// the half extents are rotated by the normalised heading and added to the
/// position with the signs `sw`, `sh`.
pub open spec fn box_corner(
    px: int, py: int, pth: int, hw: int, hh: int, sw: int, sh: int,
) -> (int, int) {
    let c = cos_of(norm_spec(pth));
    let s = sin_of(norm_spec(pth));
    (
        px + tdiv(sw * (hw * c) - sh * (hh * s), SCALE as int),
        py + tdiv(sw * (hw * s) + sh * (hh * c), SCALE as int),
    )
}

/// The four corners of a posed rectangle, in boundary order.
pub open spec fn box_quad(
    px: int, py: int, pth: int, hw: int, hh: int,
) -> ((int, int), (int, int), (int, int), (int, int)) {
    (
        box_corner(px, py, pth, hw, hh, 1, 1),
        box_corner(px, py, pth, hw, hh, -1, 1),
        box_corner(px, py, pth, hw, hh, -1, -1),
        box_corner(px, py, pth, hw, hh, 1, -1),
    )
}

/// Computes the four world corners of a posed rectangle.
pub fn box_quad_exec(px: i64, py: i64, pth: i64, hw: i64, hh: i64)
    -> (r: ((i64, i64), (i64, i64), (i64, i64), (i64, i64)))
    requires
        -SWEEP_LIMIT <= px <= SWEEP_LIMIT,
        -SWEEP_LIMIT <= py <= SWEEP_LIMIT,
        DIM_MIN <= hw <= DIM_MAX + 100_000,
        DIM_MIN <= hh <= DIM_MAX + 100_000,
    ensures
        ({
            let q = box_quad(px as int, py as int, pth as int, hw as int, hh as int);
            r.0.0 == q.0.0 && r.0.1 == q.0.1
                && r.1.0 == q.1.0 && r.1.1 == q.1.1
                && r.2.0 == q.2.0 && r.2.1 == q.2.1
                && r.3.0 == q.3.0 && r.3.1 == q.3.1
        }),
        pt_in_geom(r.0) && pt_in_geom(r.1) && pt_in_geom(r.2) && pt_in_geom(r.3),
{
    let th = normalise(pth);
    let c = cos_micro(th);
    let s = sin_micro(th);
    let wc: i128 = mul_c(hw as i128, c as i128);
    let ws: i128 = mul_c(hw as i128, s as i128);
    let hc: i128 = mul_c(hh as i128, c as i128);
    let hs: i128 = mul_c(hh as i128, s as i128);
    proof {
        lemma_abs_mul_le(hw as int, c as int, DIM_MAX as int + 100_000, 2_000_000);
        lemma_abs_mul_le(hw as int, s as int, DIM_MAX as int + 100_000, 2_000_000);
        lemma_abs_mul_le(hh as int, c as int, DIM_MAX as int + 100_000, 2_000_000);
        lemma_abs_mul_le(hh as int, s as int, DIM_MAX as int + 100_000, 2_000_000);
        lemma_tdiv_bound(wc as int - hs as int, SCALE as int, 410_000_000_000_000);
        lemma_tdiv_bound(ws as int + hc as int, SCALE as int, 410_000_000_000_000);
        lemma_tdiv_bound(-(wc as int) - hs as int, SCALE as int, 410_000_000_000_000);
        lemma_tdiv_bound(-(ws as int) + hc as int, SCALE as int, 410_000_000_000_000);
        lemma_tdiv_bound(-(wc as int) + hs as int, SCALE as int, 410_000_000_000_000);
        lemma_tdiv_bound(-(ws as int) - hc as int, SCALE as int, 410_000_000_000_000);
        lemma_tdiv_bound(wc as int + hs as int, SCALE as int, 410_000_000_000_000);
        lemma_tdiv_bound(ws as int - hc as int, SCALE as int, 410_000_000_000_000);
    }
    let q0 = (
        (px as i128 + div_i128(wc - hs, SCALE as i128)) as i64,
        (py as i128 + div_i128(ws + hc, SCALE as i128)) as i64,
    );
    let q1 = (
        (px as i128 + div_i128(-wc - hs, SCALE as i128)) as i64,
        (py as i128 + div_i128(-ws + hc, SCALE as i128)) as i64,
    );
    let q2 = (
        (px as i128 + div_i128(-wc + hs, SCALE as i128)) as i64,
        (py as i128 + div_i128(-ws - hc, SCALE as i128)) as i64,
    );
    let q3 = (
        (px as i128 + div_i128(wc + hs, SCALE as i128)) as i64,
        (py as i128 + div_i128(ws - hc, SCALE as i128)) as i64,
    );
    (q0, q1, q2, q3)
}

impl Collidable {
    /// Whether the pair is within the broad contact margin at the
    /// committed poses.
    pub fn collision_check(&self, other: &Collidable) -> (r: bool)
        requires
            wf_collidable(*self),
            wf_collidable(*other),
        ensures
            r == posed_within(
                self.shape, self.pose, other.shape, other.pose,
                crate::parameter::CONTACT_MARGIN as int,
            ),
    {
        posed_within_exec(
            &self.shape, self.pose, &other.shape, other.pose, crate::parameter::CONTACT_MARGIN,
        )
    }

    /// Whether the pair is within the tight overlap threshold with this
    /// shape probed at `pose` and the other at its committed pose, unless
    /// one is supplied.
    pub fn collision_check_at(
        &self,
        other: &Collidable,
        pose: &(i64, i64, i64),
        other_pose: Option<(i64, i64, i64)>,
    ) -> (r: bool)
        requires
            wf_shape(self.shape),
            wf_collidable(*other),
            sweep_pose_ok(*pose),
            other_pose matches Option::Some(p) ==> sweep_pose_ok(p),
        ensures
            r == posed_within(
                self.shape, *pose, other.shape,
                (match other_pose {
                    Option::Some(p) => p,
                    Option::None => other.pose,
                }),
                crate::parameter::OVERLAP_MARGIN as int,
            ),
    {
        let pb = match other_pose {
            Option::Some(p) => p,
            Option::None => other.pose,
        };
        posed_within_exec(&self.shape, *pose, &other.shape, pb, crate::parameter::OVERLAP_MARGIN)
    }

    /// The earliest impact fraction of the tick for this shape sweeping
    /// from `start_pose` to `end_pose` against the other, which sweeps
    /// between its own poses where supplied and stands still at its
    /// committed pose where not.
    pub fn collision_check_at_toi(
        &self,
        other: &Collidable,
        start_pose: &(i64, i64, i64),
        end_pose: &(i64, i64, i64),
        other_start_pose: Option<(i64, i64, i64)>,
        other_end_pose: Option<(i64, i64, i64)>,
    ) -> (r: Option<i64>)
        requires
            wf_shape(self.shape),
            wf_collidable(*other),
            sweep_pose_ok(*start_pose),
            sweep_pose_ok(*end_pose),
            other_start_pose matches Option::Some(p) ==> sweep_pose_ok(p),
            other_end_pose matches Option::Some(p) ==> sweep_pose_ok(p),
        ensures
            ({
                let bs = match other_start_pose {
                    Option::Some(p) => p,
                    Option::None => other.pose,
                };
                let be = match other_end_pose {
                    Option::Some(p) => p,
                    Option::None => bs,
                };
                r == crate::sweep::swept_toi_of(
                    self.shape, *start_pose, *end_pose, other.shape, bs, be,
                )
            }),
            r matches Option::Some(t) ==> 0 <= t <= 1_000_000,
    {
        let bs = match other_start_pose {
            Option::Some(p) => p,
            Option::None => other.pose,
        };
        let be = match other_end_pose {
            Option::Some(p) => p,
            Option::None => bs,
        };
        crate::sweep::swept_toi(&self.shape, *start_pose, *end_pose, &other.shape, bs, be)
    }
}

/// A circle comes within `m` of some segment of the polyline.
pub open spec fn circle_poly_within(px: int, py: int, pts: Seq<(i64, i64)>, m: int) -> bool {
    exists|i: int|
        0 <= i < pts.len() - 1 && pt_seg_within(
            px, py,
            #[trigger] pts[i].0 as int, pts[i].1 as int,
            pts[i + 1].0 as int, pts[i + 1].1 as int,
            m,
        )
}

/// Exact test of [`circle_poly_within`].
pub fn circle_poly_within_exec(px: i64, py: i64, pts: &Vec<(i64, i64)>, m: i64) -> (r: bool)
    requires
        in_geom(px as int) && in_geom(py as int),
        forall|k: int| 0 <= k < pts@.len() ==> #[trigger] wf_pt(pts@[k]),
        margin_ok(m as int),
    ensures
        r == circle_poly_within(px as int, py as int, pts@, m as int),
{
    let n = pts.len();
    if n < 2 {
        return false;
    }
    let mut i: usize = 0;
    while i + 1 < n
        invariant
            n == pts@.len(),
            n >= 2,
            i < n,
            in_geom(px as int) && in_geom(py as int),
            forall|k: int| 0 <= k < pts@.len() ==> #[trigger] wf_pt(pts@[k]),
            margin_ok(m as int),
            forall|j: int|
                0 <= j < i ==> !pt_seg_within(
                    px as int, py as int,
                    #[trigger] pts@[j].0 as int, pts@[j].1 as int,
                    pts@[j + 1].0 as int, pts@[j + 1].1 as int,
                    m as int,
                ),
        decreases n - i,
    {
        let a = pts[i];
        let b = pts[i + 1];
        proof {
            assert(wf_pt(pts@[i as int]));
            assert(wf_pt(pts@[i as int + 1]));
        }
        if pt_seg_within_exec(px, py, a.0, a.1, b.0, b.1, m) {
            return true;
        }
        i = i + 1;
    }
    false
}

/// A quadrilateral comes within `m` of some segment of the polyline.
pub open spec fn quad_poly_within(
    q0: (int, int), q1: (int, int), q2: (int, int), q3: (int, int),
    pts: Seq<(i64, i64)>, m: int,
) -> bool {
    exists|i: int|
        0 <= i < pts.len() - 1 && seg_quad_within(
            (#[trigger] pts[i].0 as int, pts[i].1 as int),
            (pts[i + 1].0 as int, pts[i + 1].1 as int),
            q0, q1, q2, q3, m,
        )
}

/// Exact test of [`quad_poly_within`].
pub fn quad_poly_within_exec(
    q0: (i64, i64), q1: (i64, i64), q2: (i64, i64), q3: (i64, i64),
    pts: &Vec<(i64, i64)>, m: i64,
) -> (r: bool)
    requires
        pt_in_geom(q0) && pt_in_geom(q1) && pt_in_geom(q2) && pt_in_geom(q3),
        forall|k: int| 0 <= k < pts@.len() ==> #[trigger] wf_pt(pts@[k]),
        margin_ok(m as int),
    ensures
        r == quad_poly_within(
            (q0.0 as int, q0.1 as int), (q1.0 as int, q1.1 as int),
            (q2.0 as int, q2.1 as int), (q3.0 as int, q3.1 as int),
            pts@, m as int,
        ),
{
    let n = pts.len();
    if n < 2 {
        return false;
    }
    let mut i: usize = 0;
    while i + 1 < n
        invariant
            n == pts@.len(),
            n >= 2,
            i < n,
            pt_in_geom(q0) && pt_in_geom(q1) && pt_in_geom(q2) && pt_in_geom(q3),
            forall|k: int| 0 <= k < pts@.len() ==> #[trigger] wf_pt(pts@[k]),
            margin_ok(m as int),
            forall|j: int|
                0 <= j < i ==> !seg_quad_within(
                    (#[trigger] pts@[j].0 as int, pts@[j].1 as int),
                    (pts@[j + 1].0 as int, pts@[j + 1].1 as int),
                    (q0.0 as int, q0.1 as int), (q1.0 as int, q1.1 as int),
                    (q2.0 as int, q2.1 as int), (q3.0 as int, q3.1 as int),
                    m as int,
                ),
        decreases n - i,
    {
        let a = pts[i];
        let b = pts[i + 1];
        proof {
            assert(wf_pt(pts@[i as int]));
            assert(wf_pt(pts@[i as int + 1]));
        }
        if seg_quad_within_exec(a, b, q0, q1, q2, q3, m) {
            return true;
        }
        i = i + 1;
    }
    false
}

/// Some segment of the first polyline comes within `m` of some segment of
/// the second.
pub open spec fn poly_poly_within(pa: Seq<(i64, i64)>, pb: Seq<(i64, i64)>, m: int) -> bool {
    exists|i: int|
        0 <= i < pa.len() - 1 && circle_poly_within_seg(#[trigger] pa[i], pa[i + 1], pb, m)
}

/// One segment against every segment of a polyline.
pub open spec fn circle_poly_within_seg(a: (i64, i64), b: (i64, i64), pts: Seq<(i64, i64)>, m: int) -> bool {
    exists|j: int|
        0 <= j < pts.len() - 1 && seg_seg_within(
            (a.0 as int, a.1 as int), (b.0 as int, b.1 as int),
            (#[trigger] pts[j].0 as int, pts[j].1 as int),
            (pts[j + 1].0 as int, pts[j + 1].1 as int),
            m,
        )
}

/// Exact test of one segment against every segment of a polyline.
fn seg_poly_within_exec(a: (i64, i64), b: (i64, i64), pts: &Vec<(i64, i64)>, m: i64) -> (r: bool)
    requires
        pt_in_geom(a) && pt_in_geom(b),
        forall|k: int| 0 <= k < pts@.len() ==> #[trigger] wf_pt(pts@[k]),
        margin_ok(m as int),
    ensures
        r == circle_poly_within_seg(a, b, pts@, m as int),
{
    let n = pts.len();
    if n < 2 {
        return false;
    }
    let mut j: usize = 0;
    while j + 1 < n
        invariant
            n == pts@.len(),
            n >= 2,
            j < n,
            pt_in_geom(a) && pt_in_geom(b),
            forall|k: int| 0 <= k < pts@.len() ==> #[trigger] wf_pt(pts@[k]),
            margin_ok(m as int),
            forall|jj: int|
                0 <= jj < j ==> !seg_seg_within(
                    (a.0 as int, a.1 as int), (b.0 as int, b.1 as int),
                    (#[trigger] pts@[jj].0 as int, pts@[jj].1 as int),
                    (pts@[jj + 1].0 as int, pts@[jj + 1].1 as int),
                    m as int,
                ),
        decreases n - j,
    {
        let c = pts[j];
        let d = pts[j + 1];
        proof {
            assert(wf_pt(pts@[j as int]));
            assert(wf_pt(pts@[j as int + 1]));
        }
        if seg_seg_within_exec(a, b, c, d, m) {
            return true;
        }
        j = j + 1;
    }
    false
}

/// Exact test of [`poly_poly_within`].
pub fn poly_poly_within_exec(pa: &Vec<(i64, i64)>, pb: &Vec<(i64, i64)>, m: i64) -> (r: bool)
    requires
        forall|k: int| 0 <= k < pa@.len() ==> #[trigger] wf_pt(pa@[k]),
        forall|k: int| 0 <= k < pb@.len() ==> #[trigger] wf_pt(pb@[k]),
        margin_ok(m as int),
    ensures
        r == poly_poly_within(pa@, pb@, m as int),
{
    let n = pa.len();
    if n < 2 {
        return false;
    }
    let mut i: usize = 0;
    while i + 1 < n
        invariant
            n == pa@.len(),
            n >= 2,
            i < n,
            forall|k: int| 0 <= k < pa@.len() ==> #[trigger] wf_pt(pa@[k]),
            forall|k: int| 0 <= k < pb@.len() ==> #[trigger] wf_pt(pb@[k]),
            margin_ok(m as int),
            forall|j: int|
                0 <= j < i ==> !circle_poly_within_seg(
                    #[trigger] pa@[j], pa@[j + 1], pb@, m as int,
                ),
        decreases n - i,
    {
        let a = pa[i];
        let b = pa[i + 1];
        proof {
            assert(wf_pt(pa@[i as int]));
            assert(wf_pt(pa@[i as int + 1]));
        }
        if seg_poly_within_exec(a, b, pb, m) {
            return true;
        }
        i = i + 1;
    }
    false
}

/// The pair of posed shapes is within distance `m`: the exact geometric
/// statement behind both contact thresholds of the engine.
pub open spec fn posed_within(
    sa: ShapeModel, pa: (i64, i64, i64), sb: ShapeModel, pb: (i64, i64, i64), m: int,
) -> bool {
    match sa {
        ShapeModel::Circle { radius: ra } => match sb {
            ShapeModel::Circle { radius: rb } => circles_within(
                pa.0 as int, pa.1 as int, pb.0 as int, pb.1 as int,
                ra as int + rb as int + m,
            ),
            ShapeModel::Rect { half_w, half_h } => {
                let q = box_quad(pb.0 as int, pb.1 as int, pb.2 as int, half_w as int, half_h as int);
                circle_quad_within(pa.0 as int, pa.1 as int, q.0, q.1, q.2, q.3, ra as int + m)
            },
            ShapeModel::Polyline { points } => circle_poly_within(
                pa.0 as int, pa.1 as int, points@, ra as int + m,
            ),
        },
        ShapeModel::Rect { half_w: wa, half_h: ha } => match sb {
            ShapeModel::Circle { radius: rb } => {
                let q = box_quad(pa.0 as int, pa.1 as int, pa.2 as int, wa as int, ha as int);
                circle_quad_within(pb.0 as int, pb.1 as int, q.0, q.1, q.2, q.3, rb as int + m)
            },
            ShapeModel::Rect { half_w: wb, half_h: hb } => {
                let qa = box_quad(pa.0 as int, pa.1 as int, pa.2 as int, wa as int, ha as int);
                let qb = box_quad(pb.0 as int, pb.1 as int, pb.2 as int, wb as int, hb as int);
                quad_quad_within(qa.0, qa.1, qa.2, qa.3, qb.0, qb.1, qb.2, qb.3, m)
            },
            ShapeModel::Polyline { points } => {
                let qa = box_quad(pa.0 as int, pa.1 as int, pa.2 as int, wa as int, ha as int);
                quad_poly_within(qa.0, qa.1, qa.2, qa.3, points@, m)
            },
        },
        ShapeModel::Polyline { points: ptsa } => match sb {
            ShapeModel::Circle { radius: rb } => circle_poly_within(
                pb.0 as int, pb.1 as int, ptsa@, rb as int + m,
            ),
            ShapeModel::Rect { half_w: wb, half_h: hb } => {
                let qb = box_quad(pb.0 as int, pb.1 as int, pb.2 as int, wb as int, hb as int);
                quad_poly_within(qb.0, qb.1, qb.2, qb.3, ptsa@, m)
            },
            ShapeModel::Polyline { points: ptsb } => poly_poly_within(ptsa@, ptsb@, m),
        },
    }
}

/// Decides [`posed_within`] for any pair of well-formed posed shapes.
pub fn posed_within_exec(
    sa: &ShapeModel, pa: (i64, i64, i64), sb: &ShapeModel, pb: (i64, i64, i64), m: i64,
) -> (r: bool)
    requires
        wf_shape(*sa),
        wf_shape(*sb),
        sweep_pose_ok(pa),
        sweep_pose_ok(pb),
        0 <= m <= 100_000,
    ensures
        r == posed_within(*sa, pa, *sb, pb, m as int),
{
    match sa {
        ShapeModel::Circle { radius: ra } => match sb {
            ShapeModel::Circle { radius: rb } => {
                circles_within_exec(pa.0, pa.1, pb.0, pb.1, *ra + *rb + m)
            },
            ShapeModel::Rect { half_w, half_h } => {
                let q = box_quad_exec(pb.0, pb.1, pb.2, *half_w, *half_h);
                circle_quad_within_exec(pa.0, pa.1, q.0, q.1, q.2, q.3, *ra + m)
            },
            ShapeModel::Polyline { points } => {
                circle_poly_within_exec(pa.0, pa.1, points, *ra + m)
            },
        },
        ShapeModel::Rect { half_w: wa, half_h: ha } => match sb {
            ShapeModel::Circle { radius: rb } => {
                let q = box_quad_exec(pa.0, pa.1, pa.2, *wa, *ha);
                circle_quad_within_exec(pb.0, pb.1, q.0, q.1, q.2, q.3, *rb + m)
            },
            ShapeModel::Rect { half_w: wb, half_h: hb } => {
                let qa = box_quad_exec(pa.0, pa.1, pa.2, *wa, *ha);
                let qb = box_quad_exec(pb.0, pb.1, pb.2, *wb, *hb);
                quad_quad_within_exec(qa.0, qa.1, qa.2, qa.3, qb.0, qb.1, qb.2, qb.3, m)
            },
            ShapeModel::Polyline { points } => {
                let qa = box_quad_exec(pa.0, pa.1, pa.2, *wa, *ha);
                quad_poly_within_exec(qa.0, qa.1, qa.2, qa.3, points, m)
            },
        },
        ShapeModel::Polyline { points: ptsa } => match sb {
            ShapeModel::Circle { radius: rb } => {
                circle_poly_within_exec(pb.0, pb.1, ptsa, *rb + m)
            },
            ShapeModel::Rect { half_w: wb, half_h: hb } => {
                let qb = box_quad_exec(pb.0, pb.1, pb.2, *wb, *hb);
                quad_poly_within_exec(qb.0, qb.1, qb.2, qb.3, ptsa, m)
            },
            ShapeModel::Polyline { points: ptsb } => {
                poly_poly_within_exec(ptsa, ptsb, m)
            },
        },
    }
}

} // verus!
