//! Robots: identity, pose, velocity command, footprint, drive type and
//! sensors, with the per-tick integration and sensing entry points.

use vstd::prelude::*;
use crate::collidable::{Collidable, ShapeModel, wf_collidable};
use crate::kinematics::{dt_ok, next_pose, next_pose_spec, pose_in_bounds, wf_vel, VEL_WF};
use crate::noise::noise_sample;
use crate::parameter::{DIM_MAX, DIM_MIN, POS_LIMIT, SWEEP_LIMIT, VEL_LIMIT};
use crate::parser::RobotConfig;
use crate::sensors::{wf_lidar, LiDAR, LiDARMsg};
use crate::trig::PI;

verus! {

/// The collision footprint of a robot.
#[derive(Clone, Copy, Debug, PartialEq, Eq, Structural)]
pub enum Footprint {
    /// A disc of the given radius.
    Circular { radius: i64 },
    /// A rectangle of the given half extents.
    Rectangular { half_w: i64, half_h: i64 },
}

/// The kinematic model a robot follows.
#[derive(Clone, Copy, Debug, PartialEq, Eq, Structural)]
pub enum DriveType {
    /// Two driven wheels: linear and angular speed.
    Differential,
    /// A steered drive referenced to a virtual rear axle.
    Ackermann,
    /// Holonomic motion: body-frame velocities in both axes plus yaw.
    Omnidrive,
    /// A steered front-driven wheel projected onto the rear axle.
    Forklift,
}

impl Default for DriveType {
    /// The differential drive is the default model.
    fn default() -> (r: Self)
        ensures
            r == DriveType::Differential,
    {
        DriveType::Differential
    }
}

/// A well-formed footprint: dimensions within the accepted band.
pub open spec fn wf_footprint(f: Footprint) -> bool {
    match f {
        Footprint::Circular { radius } => DIM_MIN <= radius <= DIM_MAX,
        Footprint::Rectangular { half_w, half_h } => {
            DIM_MIN <= half_w <= DIM_MAX && DIM_MIN <= half_h <= DIM_MAX
        },
    }
}

/// The collision shape of a footprint.
pub open spec fn model_of(f: Footprint) -> ShapeModel {
    match f {
        Footprint::Circular { radius } => ShapeModel::Circle { radius },
        Footprint::Rectangular { half_w, half_h } => ShapeModel::Rect { half_w, half_h },
    }
}

/// The virtual axle length of a footprint: the second bound (the radius of
/// a disc, the full height of a rectangle).
pub open spec fn axle_of(f: Footprint) -> int {
    match f {
        Footprint::Circular { radius } => radius as int,
        Footprint::Rectangular { half_w: _, half_h } => 2 * half_h as int,
    }
}

/// A mobile robot of the scene.
pub struct Robot {
    /// The robot's name.
    pub id: String,
    /// Committed world pose.
    pub pose: (i64, i64, i64),
    /// Current velocity command.
    pub vel: (i64, i64, i64),
    /// Collision footprint.
    pub shape: Footprint,
    /// Attached range sensors (at most one is ever created).
    pub lidar: Vec<LiDAR>,
    /// The kinematic model.
    pub drive_type: DriveType,
    /// Whether commands and readings are perturbed.
    pub add_noise: bool,
}

/// A structurally well-formed robot: footprint, velocity command and
/// sensors within the accepted bands.
pub open spec fn wf_robot(r: Robot) -> bool {
    wf_footprint(r.shape)
        && wf_vel(r.vel)
        && forall|k: int| 0 <= k < r.lidar@.len() ==> #[trigger] wf_lidar(r.lidar@[k])
}

impl Robot {
    /// Builds a robot from its declarative fields: one footprint entry is a
    /// disc radius, two are a rectangle's full width and height.
    pub fn new(
        id: String,
        pose: (i64, i64, i64),
        vel: (i64, i64, i64),
        lidar_present: bool,
        footprint: Vec<i64>,
        drive_type: DriveType,
        add_noise: bool,
    ) -> (r: Robot)
        requires
            pose_in_bounds(pose),
            -VEL_WF <= vel.0 <= VEL_WF,
            -VEL_WF <= vel.1 <= VEL_WF,
            -VEL_WF <= vel.2 <= VEL_WF,
            footprint@.len() == 1 || footprint@.len() == 2,
            footprint@.len() == 1 ==> DIM_MIN <= footprint@[0] <= DIM_MAX,
            footprint@.len() == 2 ==> 2 * DIM_MIN <= footprint@[0] <= 2 * DIM_MAX
                && 2 * DIM_MIN <= footprint@[1] <= 2 * DIM_MAX,
        ensures
            r.id == id,
            r.pose == pose,
            r.vel == vel,
            r.drive_type == drive_type,
            r.add_noise == add_noise,
            footprint@.len() == 1 ==> r.shape == (Footprint::Circular { radius: footprint@[0] }),
            footprint@.len() == 2 ==> r.shape == (Footprint::Rectangular {
                half_w: (footprint@[0] as int / 2) as i64,
                half_h: (footprint@[1] as int / 2) as i64,
            }),
            r.lidar@.len() == if lidar_present { 1int } else { 0int },
            lidar_present ==> r.lidar@[0].pose == pose
                && r.lidar@[0].angle_min == -PI
                && r.lidar@[0].angle_max == PI
                && r.lidar@[0].num_readings == 180,
            wf_robot(r),
    {
        let shape = if footprint.len() == 1 {
            Footprint::Circular { radius: footprint[0] }
        } else {
            Footprint::Rectangular { half_w: footprint[0] / 2, half_h: footprint[1] / 2 }
        };
        let lidar = if lidar_present {
            let mut v: Vec<LiDAR> = Vec::new();
            v.push(LiDAR::new(pose));
            v
        } else {
            Vec::new()
        };
        Robot { id, pose, vel, shape, lidar, drive_type, add_noise }
    }

    /// A circular differential robot with a sensor, at rest.
    pub fn from_id_and_pose(id: String, pose: (i64, i64, i64), radius: i64) -> (r: Robot)
        requires
            pose_in_bounds(pose),
            DIM_MIN <= radius <= DIM_MAX,
        ensures
            r.id == id,
            r.pose == pose,
            r.vel == (0i64, 0i64, 0i64),
            r.shape == (Footprint::Circular { radius }),
            r.drive_type == DriveType::Differential,
            r.add_noise == false,
            r.lidar@.len() == 1,
            r.lidar@[0].pose == pose,
            wf_robot(r),
    {
        let mut lidar: Vec<LiDAR> = Vec::new();
        lidar.push(LiDAR::new(pose));
        Robot {
            id,
            pose,
            vel: (0, 0, 0),
            shape: Footprint::Circular { radius },
            lidar,
            drive_type: DriveType::Differential,
            add_noise: false,
        }
    }

    /// Stores a velocity command. With noise enabled, each component is
    /// perturbed once, here: repeated ticks without a new command reuse the
    /// same perturbed value.
    pub fn control(&mut self, vel: (i64, i64, i64))
        requires
            -VEL_LIMIT <= vel.0 <= VEL_LIMIT,
            -VEL_LIMIT <= vel.1 <= VEL_LIMIT,
            -VEL_LIMIT <= vel.2 <= VEL_LIMIT,
        ensures
            !old(self).add_noise ==> final(self).vel == vel,
            old(self).add_noise ==> vel.0 - 10_000 < final(self).vel.0 < vel.0 + 10_000
                && vel.1 - 10_000 < final(self).vel.1 < vel.1 + 10_000
                && vel.2 - 10_000 < final(self).vel.2 < vel.2 + 10_000,
            wf_vel(final(self).vel),
            final(self).id == old(self).id,
            final(self).pose == old(self).pose,
            final(self).shape == old(self).shape,
            final(self).lidar == old(self).lidar,
            final(self).drive_type == old(self).drive_type,
            final(self).add_noise == old(self).add_noise,
    {
        if self.add_noise {
            let v0 = vel.0 + noise_sample(10_000);
            let v1 = vel.1 + noise_sample(10_000);
            let v2 = vel.2 + noise_sample(10_000);
            self.vel = (v0, v1, v2);
        } else {
            self.vel = vel;
        }
    }

    /// The proposed pose after one tick of the robot's drive model, from
    /// its committed pose and stored command; no collision is considered.
    pub fn next(&self, dt: i64) -> (r: (i64, i64, i64))
        requires
            wf_robot(*self),
            pose_in_bounds(self.pose),
            dt_ok(dt as int),
        ensures
            (r.0 as int, r.1 as int, r.2 as int) == next_pose_spec(
                self.pose, self.vel, self.drive_type, axle_of(self.shape), dt as int,
            ),
            -SWEEP_LIMIT <= r.0 <= SWEEP_LIMIT,
            -SWEEP_LIMIT <= r.1 <= SWEEP_LIMIT,
            -PI <= r.2 <= PI,
    {
        let l: i64 = match self.shape {
            Footprint::Circular { radius } => radius,
            Footprint::Rectangular { half_w: _, half_h } => 2 * half_h,
        };
        next_pose(self.pose, self.vel, self.drive_type, l, dt)
    }

    /// Commits a pose: the robot moves there and every sensor anchor
    /// follows the committed pose.
    pub fn step(&mut self, next: &(i64, i64, i64))
        requires
            -SWEEP_LIMIT <= next.0 <= SWEEP_LIMIT,
            -SWEEP_LIMIT <= next.1 <= SWEEP_LIMIT,
            -POS_LIMIT <= next.2 <= POS_LIMIT,
        ensures
            final(self).pose == *next,
            final(self).lidar@.len() == old(self).lidar@.len(),
            forall|k: int| 0 <= k < final(self).lidar@.len()
                ==> #[trigger] final(self).lidar@[k].pose == *next
                    && final(self).lidar@[k].angle_min == old(self).lidar@[k].angle_min
                    && final(self).lidar@[k].angle_max == old(self).lidar@[k].angle_max
                    && final(self).lidar@[k].num_readings == old(self).lidar@[k].num_readings,
            final(self).id == old(self).id,
            final(self).vel == old(self).vel,
            final(self).shape == old(self).shape,
            final(self).drive_type == old(self).drive_type,
            final(self).add_noise == old(self).add_noise,
            wf_robot(*old(self)) ==> wf_robot(*final(self)),
    {
        self.pose = *next;
        let n = self.lidar.len();
        let mut out: Vec<LiDAR> = Vec::new();
        let mut k: usize = 0;
        while k < n
            invariant
                n == self.lidar@.len(),
                k <= n,
                out@.len() == k as int,
                -SWEEP_LIMIT <= next.0 <= SWEEP_LIMIT,
                -SWEEP_LIMIT <= next.1 <= SWEEP_LIMIT,
                -POS_LIMIT <= next.2 <= POS_LIMIT,
                forall|j: int| 0 <= j < k ==> #[trigger] out@[j].pose == *next
                    && out@[j].angle_min == self.lidar@[j].angle_min
                    && out@[j].angle_max == self.lidar@[j].angle_max
                    && out@[j].num_readings == self.lidar@[j].num_readings,
            decreases n - k,
        {
            let mut ld = self.lidar[k];
            ld.translate_to(*next);
            out.push(ld);
            k = k + 1;
        }
        self.lidar = out;
        proof {
            if wf_robot(*old(self)) {
                assert forall|j: int| 0 <= j < self.lidar@.len()
                    implies #[trigger] wf_lidar(self.lidar@[j]) by {
                    assert(wf_lidar(old(self).lidar@[j]));
                }
            }
        }
    }

    /// One scan from the robot's sensor over the given collidables; the
    /// robot's noise flag decides whether the beams are perturbed.
    pub fn sense(&self, collidables: &Vec<Collidable>) -> (r: LiDARMsg)
        requires
            wf_robot(*self),
            self.lidar@.len() > 0,
            forall|k: int| 0 <= k < collidables@.len() ==> #[trigger] wf_collidable(collidables@[k]),
        ensures
            r.angle_min == self.lidar@[0].angle_min,
            r.angle_max == self.lidar@[0].angle_max,
            r.num_readings == self.lidar@[0].num_readings,
            r.values@.len() == self.lidar@[0].num_readings as int,
            !self.add_noise ==> forall|k: int|
                0 <= k < r.values@.len() ==> #[trigger] r.values@[k] == crate::sensors::scan_beam(
                    self.lidar@[0], collidables@, k,
                ),
            self.add_noise ==> forall|k: int|
                0 <= k < r.values@.len()
                    ==> crate::sensors::scan_beam(self.lidar@[0], collidables@, k)
                        - crate::sensors::SENSE_NOISE_BAND
                        < #[trigger] r.values@[k]
                        < crate::sensors::scan_beam(self.lidar@[0], collidables@, k)
                        + crate::sensors::SENSE_NOISE_BAND,
    {
        proof {
            assert(wf_lidar(self.lidar@[0]));
        }
        self.lidar[0].sense(collidables, self.add_noise)
    }

    /// The posed collision shape of the robot.
    pub fn get_collidable(&self) -> (r: Collidable)
        ensures
            r.shape == model_of(self.shape),
            r.pose == self.pose,
    {
        let shape = match self.shape {
            Footprint::Circular { radius } => ShapeModel::Circle { radius },
            Footprint::Rectangular { half_w, half_h } => ShapeModel::Rect { half_w, half_h },
        };
        Collidable { shape, pose: self.pose }
    }

    /// The collision shape alone.
    pub fn get_shape(&self) -> (r: ShapeModel)
        ensures
            r == model_of(self.shape),
    {
        match self.shape {
            Footprint::Circular { radius } => ShapeModel::Circle { radius },
            Footprint::Rectangular { half_w, half_h } => ShapeModel::Rect { half_w, half_h },
        }
    }

    /// The committed pose.
    pub fn get_pose(&self) -> (r: (i64, i64, i64))
        ensures
            r == self.pose,
    {
        self.pose
    }

    /// The footprint bounds: a disc reports its radius twice, a rectangle
    /// its full extents.
    pub fn get_bounds(&self) -> (r: (i64, i64))
        requires
            wf_footprint(self.shape),
        ensures
            r == bounds_of(self.shape),
    {
        match self.shape {
            Footprint::Circular { radius } => (radius, radius),
            Footprint::Rectangular { half_w, half_h } => (2 * half_w, 2 * half_h),
        }
    }

    /// The smaller footprint extent (a disc reports its diameter).
    pub fn get_max_extent(&self) -> (r: i64)
        requires
            wf_footprint(self.shape),
        ensures
            r == max_extent_of(self.shape),
    {
        match self.shape {
            Footprint::Circular { radius } => 2 * radius,
            Footprint::Rectangular { half_w, half_h } => {
                if 2 * half_w <= 2 * half_h { 2 * half_w } else { 2 * half_h }
            },
        }
    }

    /// The footprint centre.
    pub fn get_center(&self) -> (r: (i64, i64))
        ensures
            r == (self.pose.0, self.pose.1),
    {
        (self.pose.0, self.pose.1)
    }

    /// The heading.
    pub fn get_rotation(&self) -> (r: i64)
        ensures
            r == self.pose.2,
    {
        self.pose.2
    }

    /// Replaces the footprint bounds: a disc takes the width as its radius.
    pub fn modify_bounds(&mut self, width: i64, height: i64)
        requires
            DIM_MIN <= width <= DIM_MAX,
            DIM_MIN <= height <= DIM_MAX,
            old(self).shape matches Footprint::Rectangular { .. } ==> 2 * DIM_MIN <= width
                && 2 * DIM_MIN <= height,
        ensures
            old(self).shape matches Footprint::Circular { .. }
                ==> final(self).shape == (Footprint::Circular { radius: width }),
            old(self).shape matches Footprint::Rectangular { .. }
                ==> final(self).shape == (Footprint::Rectangular {
                    half_w: (width as int / 2) as i64,
                    half_h: (height as int / 2) as i64,
                }),
            wf_footprint(final(self).shape),
            final(self).id == old(self).id,
            final(self).pose == old(self).pose,
            final(self).vel == old(self).vel,
            final(self).lidar == old(self).lidar,
            final(self).drive_type == old(self).drive_type,
            final(self).add_noise == old(self).add_noise,
    {
        match self.shape {
            Footprint::Circular { radius: _ } => {
                self.shape = Footprint::Circular { radius: width };
            },
            Footprint::Rectangular { .. } => {
                self.shape = Footprint::Rectangular { half_w: width / 2, half_h: height / 2 };
            },
        }
    }

    /// Moves the footprint centre.
    pub fn modify_position(&mut self, x: i64, y: i64)
        ensures
            final(self).pose == (x, y, old(self).pose.2),
            final(self).id == old(self).id,
            final(self).vel == old(self).vel,
            final(self).shape == old(self).shape,
            final(self).lidar == old(self).lidar,
            final(self).drive_type == old(self).drive_type,
            final(self).add_noise == old(self).add_noise,
    {
        self.pose = (x, y, self.pose.2);
    }

    /// Sets the heading.
    pub fn modify_rotation(&mut self, angle: i64)
        ensures
            final(self).pose == (old(self).pose.0, old(self).pose.1, angle),
            final(self).id == old(self).id,
            final(self).vel == old(self).vel,
            final(self).shape == old(self).shape,
            final(self).lidar == old(self).lidar,
            final(self).drive_type == old(self).drive_type,
            final(self).add_noise == old(self).add_noise,
    {
        self.pose = (self.pose.0, self.pose.1, angle);
    }

    /// Adopts the pose of a declarative description and re-anchors the
    /// sensors there.
    pub fn update_from_config(&mut self, config: &RobotConfig)
        requires
            -SWEEP_LIMIT <= config.pose.0 <= SWEEP_LIMIT,
            -SWEEP_LIMIT <= config.pose.1 <= SWEEP_LIMIT,
            -POS_LIMIT <= config.pose.2 <= POS_LIMIT,
        ensures
            final(self).pose == config.pose,
            final(self).id == old(self).id,
            final(self).vel == old(self).vel,
            final(self).shape == old(self).shape,
            final(self).drive_type == old(self).drive_type,
            final(self).add_noise == old(self).add_noise,
            final(self).lidar@.len() == old(self).lidar@.len(),
            forall|k: int| 0 <= k < final(self).lidar@.len()
                ==> #[trigger] final(self).lidar@[k].pose == config.pose,
    {
        let p = config.pose;
        self.step(&p);
    }

    /// The declarative description of the robot's current state.
    pub fn into_config(&self) -> (r: RobotConfig)
        requires
            wf_footprint(self.shape),
        ensures
            r.id == self.id,
            r.pose == self.pose,
            r.vel == self.vel,
            r.lidar == (self.lidar@.len() > 0),
            r.drive_type == self.drive_type,
            r.add_noise == self.add_noise,
            self.shape matches Footprint::Circular { radius }
                ==> r.footprint@ == seq![radius],
            self.shape matches Footprint::Rectangular { half_w, half_h }
                ==> r.footprint@ == seq![(2 * half_w as int) as i64, (2 * half_h as int) as i64],
    {
        let lidar = self.lidar.len() > 0;
        let mut extents: Vec<i64> = Vec::new();
        match self.shape {
            Footprint::Circular { radius } => {
                extents.push(radius);
            },
            Footprint::Rectangular { half_w, half_h } => {
                extents.push(2 * half_w);
                extents.push(2 * half_h);
            },
        }
        RobotConfig {
            id: self.id.clone(),
            pose: self.pose,
            vel: self.vel,
            lidar,
            footprint: extents,
            drive_type: self.drive_type,
            add_noise: self.add_noise,
        }
    }
}

/// The footprint bounds as a pair.
pub open spec fn bounds_of(f: Footprint) -> (i64, i64) {
    match f {
        Footprint::Circular { radius } => (radius, radius),
        Footprint::Rectangular { half_w, half_h } => (
            (2 * half_w as int) as i64, (2 * half_h as int) as i64,
        ),
    }
}

/// The smaller footprint extent.
pub open spec fn max_extent_of(f: Footprint) -> int {
    match f {
        Footprint::Circular { radius } => 2 * radius as int,
        Footprint::Rectangular { half_w, half_h } => {
            if half_w <= half_h { 2 * half_w as int } else { 2 * half_h as int }
        },
    }
}

} // verus!
