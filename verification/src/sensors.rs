//! The beam range sensor: evenly spaced rays cast from an anchor pose
//! against every collidable of the scene.

use vstd::prelude::*;
use crate::collidable::{wf_collidable, Collidable, ShapeModel};
use crate::fp::{lemma_abs_mul_le, tdiv};
use crate::parameter::{POS_LIMIT, SENSE_MAX, SWEEP_LIMIT};
use crate::ray::{ray_circle, ray_circle_exec, ray_poly_exec, ray_poly_from, ray_quad, ray_quad_exec};
use crate::sweep::{milli_exec, milli_of, milli_pts, milli_quad, mpt_of};
use crate::trig::{cos_micro, cos_of, sin_micro, sin_of, TAU};
use crate::utils::{norm_spec, normalise};
use crate::noise::noise_sample;

verus! {

/// Noise band added to each beam when the owner asks for noisy readings.
pub const SENSE_NOISE_BAND: i64 = 50_000;

/// A beam range sensor: an anchor pose, an angular span and a beam count.
/// The rays are derived from the anchor pose at sensing time.
#[derive(Clone, Copy, Debug)]
pub struct LiDAR {
    /// World pose of the sensor anchor.
    pub pose: (i64, i64, i64),
    /// First beam angle, relative to the anchor heading.
    pub angle_min: i64,
    /// Last beam angle, relative to the anchor heading.
    pub angle_max: i64,
    /// Number of beams.
    pub num_readings: i32,
}

/// One scan: the angular span, the beam count and the ordered ranges.
pub struct LiDARMsg {
    /// First beam angle of the producing sensor.
    pub angle_min: i64,
    /// Last beam angle of the producing sensor.
    pub angle_max: i64,
    /// Number of beams.
    pub num_readings: i32,
    /// Ranges in beam order, in micro-units.
    pub values: Vec<i64>,
}

/// A sensor the scanning arithmetic accepts.
pub open spec fn wf_lidar(ld: LiDAR) -> bool {
    -SWEEP_LIMIT <= ld.pose.0 <= SWEEP_LIMIT
        && -SWEEP_LIMIT <= ld.pose.1 <= SWEEP_LIMIT
        && -POS_LIMIT <= ld.pose.2 <= POS_LIMIT
        && -TAU <= ld.angle_min <= ld.angle_max <= TAU
        && 1 <= ld.num_readings <= 100_000
}

impl LiDAR {
    /// A default sensor at the given anchor: 180 beams over a full turn.
    pub fn new(pose: (i64, i64, i64)) -> (r: LiDAR)
        ensures
            r.pose == pose,
            r.angle_min == -crate::trig::PI,
            r.angle_max == crate::trig::PI,
            r.num_readings == 180,
    {
        LiDAR {
            pose,
            angle_min: -crate::trig::PI,
            angle_max: crate::trig::PI,
            num_readings: 180,
        }
    }

    /// Moves the anchor to a newly committed owner pose.
    pub fn translate_to(&mut self, new_pose: (i64, i64, i64))
        ensures
            final(self).pose == new_pose,
            final(self).angle_min == old(self).angle_min,
            final(self).angle_max == old(self).angle_max,
            final(self).num_readings == old(self).num_readings,
    {
        self.pose = new_pose;
    }

    /// Produces one scan over the given collidables; see [`scan_beam`] for
    /// the range each beam reports. With noise enabled, each beam carries
    /// an independent perturbation inside the noise band.
    pub fn sense(&self, collidables: &Vec<Collidable>, with_noise: bool) -> (r: LiDARMsg)
        requires
            wf_lidar(*self),
            forall|k: int| 0 <= k < collidables@.len() ==> #[trigger] wf_collidable(collidables@[k]),
        ensures
            r.angle_min == self.angle_min,
            r.angle_max == self.angle_max,
            r.num_readings == self.num_readings,
            r.values@.len() == self.num_readings as int,
            !with_noise ==> forall|k: int|
                0 <= k < r.values@.len() ==> #[trigger] r.values@[k] == scan_beam(
                    *self, collidables@, k,
                ),
            with_noise ==> forall|k: int|
                0 <= k < r.values@.len()
                    ==> scan_beam(*self, collidables@, k) - SENSE_NOISE_BAND
                        < #[trigger] r.values@[k]
                        < scan_beam(*self, collidables@, k) + SENSE_NOISE_BAND,
    {
        let n: usize = self.num_readings as usize;
        let span: i64 = self.angle_max - self.angle_min;
        let dtheta: i64 = span / (self.num_readings as i64);
        let ox = milli_exec(self.pose.0);
        let oy = milli_exec(self.pose.1);
        let mut values: Vec<i64> = Vec::new();
        let mut k: usize = 0;
        while k < n
            invariant
                n == self.num_readings as int,
                wf_lidar(*self),
                forall|j: int|
                    0 <= j < collidables@.len() ==> #[trigger] wf_collidable(collidables@[j]),
                span == self.angle_max - self.angle_min,
                dtheta == tdiv(span as int, self.num_readings as int),
                0 <= dtheta <= 13_000_000,
                ox == milli_of(self.pose.0 as int),
                oy == milli_of(self.pose.1 as int),
                crate::sweep::in_mpt(ox as int) && crate::sweep::in_mpt(oy as int),
                k <= n,
                values@.len() == k as int,
                !with_noise ==> forall|j: int|
                    0 <= j < k ==> #[trigger] values@[j] == scan_beam(*self, collidables@, j),
                with_noise ==> forall|j: int|
                    0 <= j < k
                        ==> scan_beam(*self, collidables@, j) - SENSE_NOISE_BAND
                            < #[trigger] values@[j]
                            < scan_beam(*self, collidables@, j) + SENSE_NOISE_BAND,
            decreases n - k,
        {
            proof {
                lemma_abs_mul_le(k as int, dtheta as int, 100_000, 13_000_000);
            }
            let theta: i64 = self.angle_min + (k as i64) * dtheta;
            let ang: i64 = normalise((self.pose.2 as i128 + theta as i128) as i64);
            let dx = cos_micro(ang);
            let dy = sin_micro(ang);
            let geo = beam_min(collidables, ox, oy, dx, dy);
            let v: i64 = if with_noise {
                geo + noise_sample(SENSE_NOISE_BAND)
            } else {
                geo
            };
            values.push(v);
            k = k + 1;
        }
        LiDARMsg {
            angle_min: self.angle_min,
            angle_max: self.angle_max,
            num_readings: self.num_readings,
            values,
        }
    }
}

/// The range a ray reports against one posed shape, in micro-units: the
/// millimetre cast scaled up, or the miss sentinel.
pub open spec fn ray_collidable_spec(c: Collidable, ox: int, oy: int, dx: int, dy: int) -> int {
    match c.shape {
        ShapeModel::Circle { radius } => opt_range(ray_circle(
            ox, oy, dx, dy, milli_of(c.pose.0 as int), milli_of(c.pose.1 as int),
            milli_of(radius as int),
        )),
        ShapeModel::Rect { half_w, half_h } => {
            let q = milli_quad(c.pose.0 as int, c.pose.1 as int, c.pose.2 as int, half_w as int, half_h as int);
            opt_range(ray_quad(ox, oy, dx, dy, q.0, q.1, q.2, q.3))
        },
        ShapeModel::Polyline { points } => opt_range(ray_poly_from(
            ox, oy, dx, dy, points@.map_values(|p: (i64, i64)| mpt_of(p)), 0,
        )),
    }
}

/// A millimetre cast as a micro range, with the miss sentinel.
pub open spec fn opt_range(o: Option<i64>) -> int {
    match o {
        Option::Some(t) => t as int * 1000,
        Option::None => -10_000_000,
    }
}

/// Computes [`ray_collidable_spec`].
pub fn ray_collidable(c: &Collidable, ox: i64, oy: i64, dx: i64, dy: i64) -> (r: i64)
    requires
        wf_collidable(*c),
        crate::sweep::in_mpt(ox as int) && crate::sweep::in_mpt(oy as int),
        crate::ray::dir_ok(dx as int) && crate::ray::dir_ok(dy as int),
    ensures
        r == ray_collidable_spec(*c, ox as int, oy as int, dx as int, dy as int),
        -10_000_000 <= r <= 10_000_000,
{
    match &c.shape {
        ShapeModel::Circle { radius } => {
            let cx = milli_exec(c.pose.0);
            let cy = milli_exec(c.pose.1);
            let rm = milli_exec(*radius);
            match ray_circle_exec(ox, oy, dx, dy, cx, cy, rm) {
                Option::Some(t) => t * 1000,
                Option::None => -10_000_000,
            }
        },
        ShapeModel::Rect { half_w, half_h } => {
            let q = crate::sweep::milli_quad_exec(c.pose.0, c.pose.1, c.pose.2, *half_w, *half_h);
            match ray_quad_exec(ox, oy, dx, dy, q.0, q.1, q.2, q.3) {
                Option::Some(t) => t * 1000,
                Option::None => -10_000_000,
            }
        },
        ShapeModel::Polyline { points } => {
            let pts = milli_pts(points);
            match ray_poly_exec(ox, oy, dx, dy, &pts) {
                Option::Some(t) => t * 1000,
                Option::None => -10_000_000,
            }
        },
    }
}

/// The running minimum of the strictly positive ranges over the collidables
/// from index `i` onward, starting from `acc`.
pub open spec fn beam_fold(
    cs: Seq<Collidable>, ox: int, oy: int, dx: int, dy: int, i: int, acc: int,
) -> int
    decreases cs.len() - i,
{
    if i < 0 || i >= cs.len() {
        acc
    } else {
        let dist = ray_collidable_spec(cs[i], ox, oy, dx, dy);
        beam_fold(cs, ox, oy, dx, dy, i + 1, if dist < acc && dist > 0 { dist } else { acc })
    }
}

/// The geometric range of beam `k` of a sensor: the smallest strictly
/// positive hit distance among all collidables, or the sentinel maximum;
/// beam `k` points at `angle_min + k * (span / count)` relative to the
/// anchor heading.
pub open spec fn scan_beam(ld: LiDAR, cs: Seq<Collidable>, k: int) -> int {
    let dtheta = tdiv(ld.angle_max as int - ld.angle_min as int, ld.num_readings as int);
    let ang = norm_spec(ld.pose.2 as int + ld.angle_min as int + k * dtheta);
    beam_fold(
        cs, milli_of(ld.pose.0 as int), milli_of(ld.pose.1 as int),
        cos_of(ang), sin_of(ang), 0, SENSE_MAX as int,
    )
}

/// The range of a ray depends only on the geometry of the posed shape, not
/// on which vector value carries a polyline's vertices.
pub proof fn lemma_ray_collidable_view(c1: Collidable, c2: Collidable, ox: int, oy: int, dx: int, dy: int)
    requires
        crate::collidable::coll_view_eq(c1, c2),
    ensures
        ray_collidable_spec(c1, ox, oy, dx, dy) == ray_collidable_spec(c2, ox, oy, dx, dy),
{
    match c1.shape {
        ShapeModel::Circle { radius } => {},
        ShapeModel::Rect { half_w, half_h } => {},
        ShapeModel::Polyline { points } => {
            match c2.shape {
                ShapeModel::Polyline { points: points2 } => {
                    assert(points@.map_values(|p: (i64, i64)| mpt_of(p))
                        == points2@.map_values(|p: (i64, i64)| mpt_of(p)));
                },
                _ => {},
            }
        },
    }
}

/// The beam fold depends only on the geometry of the collidables.
pub proof fn lemma_beam_fold_view(
    cs1: Seq<Collidable>, cs2: Seq<Collidable>, ox: int, oy: int, dx: int, dy: int, i: int, acc: int,
)
    requires
        cs1.len() == cs2.len(),
        forall|k: int| 0 <= k < cs1.len() ==> crate::collidable::coll_view_eq(
            #[trigger] cs1[k], cs2[k],
        ),
    ensures
        beam_fold(cs1, ox, oy, dx, dy, i, acc) == beam_fold(cs2, ox, oy, dx, dy, i, acc),
    decreases cs1.len() - i,
{
    if 0 <= i < cs1.len() {
        lemma_ray_collidable_view(cs1[i], cs2[i], ox, oy, dx, dy);
        let dist = ray_collidable_spec(cs1[i], ox, oy, dx, dy);
        lemma_beam_fold_view(
            cs1, cs2, ox, oy, dx, dy, i + 1, if dist < acc && dist > 0 { dist } else { acc },
        );
    }
}

/// One beam's range depends only on the geometry of the collidables.
pub proof fn lemma_scan_beam_view(ld: LiDAR, cs1: Seq<Collidable>, cs2: Seq<Collidable>, k: int)
    requires
        cs1.len() == cs2.len(),
        forall|j: int| 0 <= j < cs1.len() ==> crate::collidable::coll_view_eq(
            #[trigger] cs1[j], cs2[j],
        ),
    ensures
        scan_beam(ld, cs1, k) == scan_beam(ld, cs2, k),
{
    let dtheta = tdiv(ld.angle_max as int - ld.angle_min as int, ld.num_readings as int);
    let ang = norm_spec(ld.pose.2 as int + ld.angle_min as int + k * dtheta);
    lemma_beam_fold_view(
        cs1, cs2, milli_of(ld.pose.0 as int), milli_of(ld.pose.1 as int),
        cos_of(ang), sin_of(ang), 0, SENSE_MAX as int,
    );
}

/// Folds the minimum positive range over all collidables.
fn beam_min(cs: &Vec<Collidable>, ox: i64, oy: i64, dx: i64, dy: i64) -> (r: i64)
    requires
        forall|k: int| 0 <= k < cs@.len() ==> #[trigger] wf_collidable(cs@[k]),
        crate::sweep::in_mpt(ox as int) && crate::sweep::in_mpt(oy as int),
        crate::ray::dir_ok(dx as int) && crate::ray::dir_ok(dy as int),
    ensures
        r == beam_fold(cs@, ox as int, oy as int, dx as int, dy as int, 0, SENSE_MAX as int),
        0 < r <= SENSE_MAX,
{
    let mut acc: i64 = SENSE_MAX;
    let mut j: usize = 0;
    let n = cs.len();
    while j < n
        invariant
            n == cs@.len(),
            j <= n,
            forall|k: int| 0 <= k < cs@.len() ==> #[trigger] wf_collidable(cs@[k]),
            crate::sweep::in_mpt(ox as int) && crate::sweep::in_mpt(oy as int),
            crate::ray::dir_ok(dx as int) && crate::ray::dir_ok(dy as int),
            0 < acc <= SENSE_MAX,
            beam_fold(cs@, ox as int, oy as int, dx as int, dy as int, j as int, acc as int)
                == beam_fold(cs@, ox as int, oy as int, dx as int, dy as int, 0, SENSE_MAX as int),
        decreases n - j,
    {
        proof {
            assert(wf_collidable(cs@[j as int]));
        }
        let dist = ray_collidable(&cs[j], ox, oy, dx, dy);
        if dist < acc && dist > 0 {
            acc = dist;
        }
        j = j + 1;
    }
    acc
}

} // verus!
