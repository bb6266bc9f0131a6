//! Waypoint-following controllers: clients of the simulator that turn a
//! robot's pose into velocity commands along a recorded path.

use vstd::prelude::*;
use crate::fp::{div_i128, is_isqrt, isqrt_u128, lemma_abs_mul_le, lemma_tdiv_bound, mul_w, tdiv, SCALE};
use crate::handler::{absi, RobotHandler};
use crate::parameter::POS_LIMIT;
use crate::sweep::{lemma_isqrt_unique, sqrt_floor};
use crate::trig::atan2_of;
use crate::utils::norm_spec;

verus! {

/// The phase a path controller is in.
#[derive(Clone, Copy, Debug, PartialEq, Eq, Structural)]
pub enum PathControllerState {
    /// Not yet engaged.
    Init,
    /// Turning toward the waypoint heading.
    Angular,
    /// Driving toward the waypoint.
    Linear,
    /// The waypoint is reached; advance to the next one.
    Step,
    /// The path is exhausted.
    Idle,
}

/// The phase a proportional controller is in.
#[derive(Clone, Copy, Debug, PartialEq, Eq, Structural)]
pub enum ProportionalControllerState {
    /// Not yet engaged.
    Init,
    /// Turning toward the waypoint bearing.
    Angular,
    /// Driving toward the waypoint.
    Linear,
    /// The waypoint is reached; advance to the next one.
    Step,
    /// The path is exhausted.
    Idle,
}

/// A gain or tolerance value the controllers accept.
pub open spec fn gain_ok(v: int) -> bool {
    0 <= v <= 1_000_000_000
}

/// A coordinate the controllers accept.
pub open spec fn coord_ok(v: int) -> bool {
    -1_000_000_000 <= v <= 1_000_000_000
}

/// A pose or waypoint within the controllers' coordinate band.
pub open spec fn wp_ok(p: (i64, i64, i64)) -> bool {
    coord_ok(p.0 as int) && coord_ok(p.1 as int) && coord_ok(p.2 as int)
}

/// A value clamped into `[-m, m]`.
pub open spec fn clamp(v: int, m: int) -> int {
    if v < -m {
        -m
    } else if v > m {
        m
    } else {
        v
    }
}

/// The planar distance (floor) between two points.
pub open spec fn dist_floor(dx: int, dy: int) -> int {
    sqrt_floor(dx * dx + dy * dy)
}

/// Computes the floor distance exactly.
fn dist_exec(dx: i64, dy: i64) -> (r: i64)
    requires
        -2 * POS_LIMIT <= dx <= 2 * POS_LIMIT,
        -2 * POS_LIMIT <= dy <= 2 * POS_LIMIT,
    ensures
        r == dist_floor(dx as int, dy as int),
        0 <= r <= 3 * POS_LIMIT,
{
    proof {
        lemma_abs_mul_le(dx as int, dx as int, 2_000_000_000_000_000, 2_000_000_000_000_000);
        lemma_abs_mul_le(dy as int, dy as int, 2_000_000_000_000_000, 2_000_000_000_000_000);
        assert(dx as int * dx as int >= 0) by (nonlinear_arith);
        assert(dy as int * dy as int >= 0) by (nonlinear_arith);
    }
    let d2: i128 = mul_w(dx as i128, dx as i128) + mul_w(dy as i128, dy as i128);
    let s: u128 = isqrt_u128(d2 as u128);
    proof {
        assert(is_isqrt(d2 as int, s as int));
        assert(is_isqrt(d2 as int, sqrt_floor(d2 as int))) by {
            assert(is_isqrt(d2 as int, s as int));
        }
        lemma_isqrt_unique(d2 as int, s as int, sqrt_floor(d2 as int));
        crate::sweep::lemma_nonneg_sq_le(s as int, 3_000_000_000_000_000);
    }
    s as i64
}

/// One proportional term `gain * err / SCALE`, clamped into the band.
fn p_term(gain: i64, err: i64, band: i64) -> (r: i64)
    requires
        gain_ok(gain as int),
        -3 * POS_LIMIT <= err <= 3 * POS_LIMIT,
        0 <= band,
    ensures
        r == clamp(tdiv(gain as int * err as int, SCALE as int), band as int),
        -band <= r <= band,
{
    proof {
        lemma_abs_mul_le(gain as int, err as int, 1_000_000_000, 3_000_000_000_000_000);
        lemma_tdiv_bound(
            gain as int * err as int, SCALE as int, 3_000_000_000_000_000_000_000_000,
        );
    }
    let v: i128 = div_i128(gain as i128 * err as i128, SCALE as i128);
    if v < -(band as i128) {
        -band
    } else if v > band as i128 {
        band
    } else {
        v as i64
    }
}

/// A proportional-derivative term `kp * err / SCALE + kd * prev / SCALE`,
/// clamped into the band.
fn pd_term(kp: i64, err: i64, kd: i64, prev: i64, band: i64) -> (r: i64)
    requires
        gain_ok(kp as int),
        gain_ok(kd as int),
        -3 * POS_LIMIT <= err <= 3 * POS_LIMIT,
        -3 * POS_LIMIT <= prev <= 3 * POS_LIMIT,
        0 <= band,
    ensures
        r == clamp(
            tdiv(kp as int * err as int, SCALE as int) + tdiv(
                kd as int * prev as int, SCALE as int,
            ),
            band as int,
        ),
        -band <= r <= band,
{
    proof {
        lemma_abs_mul_le(kp as int, err as int, 1_000_000_000, 3_000_000_000_000_000);
        lemma_abs_mul_le(kd as int, prev as int, 1_000_000_000, 3_000_000_000_000_000);
        lemma_tdiv_bound(
            kp as int * err as int, SCALE as int, 3_000_000_000_000_000_000_000_000,
        );
        lemma_tdiv_bound(
            kd as int * prev as int, SCALE as int, 3_000_000_000_000_000_000_000_000,
        );
    }
    let v: i128 = div_i128(kp as i128 * err as i128, SCALE as i128) + div_i128(
        kd as i128 * prev as i128, SCALE as i128,
    );
    if v < -(band as i128) {
        -band
    } else if v > band as i128 {
        band
    } else {
        v as i64
    }
}

/// A waypoint follower: drives the distance to the current waypoint to
/// zero with a proportional law, turning first when the heading error
/// exceeds the angular tolerance.
pub struct PathController {
    /// The controlled robot.
    pub robot: RobotHandler,
    /// Distance tolerance for reaching a waypoint.
    pub dtolerance: i64,
    /// Angular tolerance before driving.
    pub atolerance: i64,
    /// Kept for callers; unused by the control law.
    pub current_path_index: usize,
    /// Proportional gain, micro-scaled.
    pub kp: i64,
    /// Derivative gain, micro-scaled.
    pub kd: i64,
    /// Linear and angular speed bands.
    pub max_vel: (i64, i64),
    /// The waypoints.
    pub path: Vec<(i64, i64, i64)>,
    /// The waypoint being tracked.
    pub i: usize,
    /// The current phase.
    pub state: PathControllerState,
}

/// The decision one control cycle takes.
pub ghost struct ControlDecision {
    /// The commanded (linear, angular) speeds.
    pub vel: (i64, i64),
    /// The waypoint tracked afterwards.
    pub next_index: int,
    /// The phase afterwards.
    pub state: PathControllerState,
}

/// The control law of [`PathController::control`]: the next phase and
/// output from the current pose, in the exact fixed-point arithmetic the
/// controller performs. The heading error compares poses directly.
pub open spec fn path_decision(
    path: Seq<(i64, i64, i64)>, i: int, dtol: int, atol: int, kp: int,
    max_vel: (i64, i64), pose: (i64, i64, i64),
) -> ControlDecision {
    if i == path.len() {
        ControlDecision { vel: (0i64, 0i64), next_index: i, state: PathControllerState::Idle }
    } else {
        let dx = pose.0 as int - path[i].0 as int;
        let dy = pose.1 as int - path[i].1 as int;
        let dd = dist_floor(dx, dy);
        let dth = norm_spec(pose.2 as int - path[i].2 as int);
        let st = if absi(dth) < atol {
            if dd < dtol {
                PathControllerState::Step
            } else {
                PathControllerState::Linear
            }
        } else {
            PathControllerState::Angular
        };
        match st {
            PathControllerState::Step => ControlDecision {
                vel: (0i64, 0i64),
                next_index: i + 1,
                state: st,
            },
            PathControllerState::Angular => ControlDecision {
                vel: (0i64, clamp(tdiv(kp * dth, SCALE as int), max_vel.1 as int) as i64),
                next_index: i,
                state: st,
            },
            PathControllerState::Linear => ControlDecision {
                vel: (clamp(tdiv(kp * dd, SCALE as int), max_vel.0 as int) as i64, 0i64),
                next_index: i,
                state: st,
            },
            _ => ControlDecision { vel: (0i64, 0i64), next_index: i, state: st },
        }
    }
}

impl PathController {
    /// A controller for the given robot and tolerances, with default gains
    /// and speed bands and an empty path.
    pub fn new(robot: RobotHandler, dtolerance: i64, atolerance: i64) -> (r: PathController)
        ensures
            r.robot == robot,
            r.dtolerance == dtolerance,
            r.atolerance == atolerance,
            r.current_path_index == 0,
            r.kp == 100_000,
            r.kd == 10_000_000,
            r.max_vel == (500_000i64, 1_000_000i64),
            r.path@.len() == 0,
            r.i == 0,
            r.state == PathControllerState::Init,
    {
        PathController {
            robot,
            dtolerance,
            atolerance,
            current_path_index: 0,
            kp: 100_000,
            kd: 10_000_000,
            max_vel: (500_000, 1_000_000),
            path: Vec::new(),
            i: 0,
            state: PathControllerState::Init,
        }
    }

    /// Replaces the path and restarts tracking is left to the caller: the
    /// waypoint index is kept, as the original control flow does.
    pub fn set_path(&mut self, path: Vec<(i64, i64, i64)>)
        ensures
            final(self).path == path,
            final(self).robot == old(self).robot,
            final(self).dtolerance == old(self).dtolerance,
            final(self).atolerance == old(self).atolerance,
            final(self).kp == old(self).kp,
            final(self).kd == old(self).kd,
            final(self).max_vel == old(self).max_vel,
            final(self).i == old(self).i,
            final(self).state == old(self).state,
    {
        self.path = path;
    }

    /// Replaces the gains.
    pub fn set_gains(&mut self, kp: i64, kd: i64)
        ensures
            final(self).kp == kp,
            final(self).kd == kd,
            final(self).path == old(self).path,
            final(self).max_vel == old(self).max_vel,
            final(self).i == old(self).i,
            final(self).state == old(self).state,
    {
        self.kp = kp;
        self.kd = kd;
    }

    /// Replaces the speed bands.
    pub fn set_max_vel(&mut self, max_vel: (i64, i64))
        ensures
            final(self).max_vel == max_vel,
            final(self).path == old(self).path,
            final(self).kp == old(self).kp,
            final(self).kd == old(self).kd,
            final(self).i == old(self).i,
            final(self).state == old(self).state,
    {
        self.max_vel = max_vel;
    }

    /// One control cycle: selects the phase from the pose errors and
    /// returns the commanded (linear, angular) speeds.
    pub fn control(&mut self, current_pose: (i64, i64, i64)) -> (r: (i64, i64))
        requires
            wp_ok(current_pose),
            forall|k: int| 0 <= k < old(self).path@.len() ==> wp_ok(#[trigger] old(self).path@[k]),
            old(self).i <= old(self).path@.len(),
            gain_ok(old(self).kp as int),
            0 <= old(self).max_vel.0,
            0 <= old(self).max_vel.1,
        ensures
            ({
                let d = path_decision(
                    old(self).path@, old(self).i as int, old(self).dtolerance as int,
                    old(self).atolerance as int, old(self).kp as int, old(self).max_vel,
                    current_pose,
                );
                r == d.vel && final(self).i as int == d.next_index && final(self).state == d.state
            }),
            final(self).path == old(self).path,
            final(self).robot == old(self).robot,
            final(self).kp == old(self).kp,
            final(self).kd == old(self).kd,
            final(self).max_vel == old(self).max_vel,
            final(self).dtolerance == old(self).dtolerance,
            final(self).atolerance == old(self).atolerance,
    {
        if self.i == self.path.len() {
            self.state = PathControllerState::Idle;
            return (0, 0);
        }
        proof {
            assert(wp_ok(self.path@[self.i as int]));
        }
        let wp = self.path[self.i];
        let dx = current_pose.0 - wp.0;
        let dy = current_pose.1 - wp.1;
        let ddist = dist_exec(dx, dy);
        let dtheta = crate::utils::normalise(current_pose.2 - wp.2);
        let dta: i64 = if dtheta >= 0 { dtheta } else { -dtheta };
        if dta < self.atolerance {
            if ddist < self.dtolerance {
                self.state = PathControllerState::Step;
                self.i = self.i + 1;
                (0, 0)
            } else {
                self.state = PathControllerState::Linear;
                let vel = p_term(self.kp, ddist, self.max_vel.0);
                (vel, 0)
            }
        } else {
            self.state = PathControllerState::Angular;
            let vel = p_term(self.kp, dtheta, self.max_vel.1);
            (0, vel)
        }
    }
}

/// A waypoint follower steering by bearing: the angular error is the
/// difference between the bearing to the waypoint and the heading, and a
/// proportional-derivative law shapes both speeds.
pub struct ProportionalController {
    /// The controlled robot.
    pub robot: RobotHandler,
    /// Distance tolerance for reaching a waypoint.
    pub dtolerance: i64,
    /// Angular tolerance before driving.
    pub atolerance: i64,
    /// Kept for callers; unused by the control law.
    pub current_path_index: usize,
    /// Proportional gain, micro-scaled.
    pub kp: i64,
    /// Derivative gain, micro-scaled.
    pub kd: i64,
    /// Linear and angular speed bands.
    pub max_vel: (i64, i64),
    /// The waypoints.
    pub path: Vec<(i64, i64, i64)>,
    /// The waypoint being tracked.
    pub i: usize,
    /// The current phase.
    pub state: ProportionalControllerState,
    /// The distance error of the previous driving cycle.
    pub prev_dist_error: i64,
    /// The angular error of the previous turning cycle.
    pub prev_angle_error: i64,
}

/// The decision one proportional control cycle takes.
pub ghost struct PdDecision {
    /// The commanded (linear, angular) speeds.
    pub vel: (i64, i64),
    /// The waypoint tracked afterwards.
    pub next_index: int,
    /// The phase afterwards.
    pub state: ProportionalControllerState,
    /// The stored distance error afterwards.
    pub prev_dist: i64,
    /// The stored angular error afterwards.
    pub prev_angle: i64,
}

/// The control law of [`ProportionalController::control`]: the angular
/// error is the bearing to the waypoint minus the heading, and each speed
/// is a clamped proportional-derivative term over the matching error.
pub open spec fn pd_decision(
    path: Seq<(i64, i64, i64)>, i: int, dtol: int, atol: int, kp: int, kd: int,
    max_vel: (i64, i64), prev_dist: i64, prev_angle: i64, pose: (i64, i64, i64),
) -> PdDecision {
    if i == path.len() {
        PdDecision {
            vel: (0i64, 0i64),
            next_index: i,
            state: ProportionalControllerState::Idle,
            prev_dist,
            prev_angle,
        }
    } else {
        let dx = path[i].0 as int - pose.0 as int;
        let dy = path[i].1 as int - pose.1 as int;
        let dd = dist_floor(dx, dy);
        let dth = norm_spec(atan2_of(dy, dx) - pose.2 as int);
        let st = if absi(dth) < atol {
            if dd < dtol {
                ProportionalControllerState::Step
            } else {
                ProportionalControllerState::Linear
            }
        } else {
            ProportionalControllerState::Angular
        };
        match st {
            ProportionalControllerState::Step => PdDecision {
                vel: (0i64, 0i64),
                next_index: i + 1,
                state: st,
                prev_dist,
                prev_angle,
            },
            ProportionalControllerState::Angular => PdDecision {
                vel: (
                    0i64,
                    clamp(
                        tdiv(kp * dth, SCALE as int) + tdiv(kd * prev_angle as int, SCALE as int),
                        max_vel.1 as int,
                    ) as i64,
                ),
                next_index: i,
                state: st,
                prev_dist,
                prev_angle: dth as i64,
            },
            ProportionalControllerState::Linear => PdDecision {
                vel: (
                    clamp(
                        tdiv(kp * dd, SCALE as int) + tdiv(kd * prev_dist as int, SCALE as int),
                        max_vel.0 as int,
                    ) as i64,
                    0i64,
                ),
                next_index: i,
                state: st,
                prev_dist: dd as i64,
                prev_angle,
            },
            _ => PdDecision { vel: (0i64, 0i64), next_index: i, state: st, prev_dist, prev_angle },
        }
    }
}

impl ProportionalController {
    /// A controller for the given robot and tolerances, with default gains
    /// and speed bands and an empty path.
    pub fn new(robot: RobotHandler, dtolerance: i64, atolerance: i64) -> (r: ProportionalController)
        ensures
            r.robot == robot,
            r.dtolerance == dtolerance,
            r.atolerance == atolerance,
            r.current_path_index == 0,
            r.kp == 100_000,
            r.kd == 10_000_000,
            r.max_vel == (750_000i64, 1_000_000i64),
            r.path@.len() == 0,
            r.i == 0,
            r.state == ProportionalControllerState::Init,
            r.prev_dist_error == 0,
            r.prev_angle_error == 0,
    {
        ProportionalController {
            robot,
            dtolerance,
            atolerance,
            current_path_index: 0,
            kp: 100_000,
            kd: 10_000_000,
            max_vel: (750_000, 1_000_000),
            path: Vec::new(),
            i: 0,
            state: ProportionalControllerState::Init,
            prev_dist_error: 0,
            prev_angle_error: 0,
        }
    }

    /// Replaces the path; the waypoint index is kept, as the original
    /// control flow does.
    pub fn set_path(&mut self, path: Vec<(i64, i64, i64)>)
        ensures
            final(self).path == path,
            final(self).robot == old(self).robot,
            final(self).dtolerance == old(self).dtolerance,
            final(self).atolerance == old(self).atolerance,
            final(self).kp == old(self).kp,
            final(self).kd == old(self).kd,
            final(self).max_vel == old(self).max_vel,
            final(self).i == old(self).i,
            final(self).state == old(self).state,
            final(self).prev_dist_error == old(self).prev_dist_error,
            final(self).prev_angle_error == old(self).prev_angle_error,
    {
        self.path = path;
    }

    /// Replaces the gains.
    pub fn set_gains(&mut self, kp: i64, kd: i64)
        ensures
            final(self).kp == kp,
            final(self).kd == kd,
            final(self).path == old(self).path,
            final(self).max_vel == old(self).max_vel,
            final(self).i == old(self).i,
            final(self).state == old(self).state,
    {
        self.kp = kp;
        self.kd = kd;
    }

    /// Replaces the speed bands.
    pub fn set_max_vel(&mut self, max_vel: (i64, i64))
        ensures
            final(self).max_vel == max_vel,
            final(self).path == old(self).path,
            final(self).kp == old(self).kp,
            final(self).kd == old(self).kd,
            final(self).i == old(self).i,
            final(self).state == old(self).state,
    {
        self.max_vel = max_vel;
    }

    /// One control cycle: selects the phase from the bearing and distance
    /// errors and returns the commanded (linear, angular) speeds.
    pub fn control(&mut self, current_pose: &(i64, i64, i64)) -> (r: (i64, i64))
        requires
            wp_ok(*current_pose),
            forall|k: int| 0 <= k < old(self).path@.len() ==> wp_ok(#[trigger] old(self).path@[k]),
            old(self).i <= old(self).path@.len(),
            gain_ok(old(self).kp as int),
            gain_ok(old(self).kd as int),
            0 <= old(self).max_vel.0,
            0 <= old(self).max_vel.1,
            -3 * POS_LIMIT <= old(self).prev_dist_error <= 3 * POS_LIMIT,
            -3 * POS_LIMIT <= old(self).prev_angle_error <= 3 * POS_LIMIT,
        ensures
            ({
                let d = pd_decision(
                    old(self).path@, old(self).i as int, old(self).dtolerance as int,
                    old(self).atolerance as int, old(self).kp as int, old(self).kd as int,
                    old(self).max_vel, old(self).prev_dist_error, old(self).prev_angle_error,
                    *current_pose,
                );
                r == d.vel && final(self).i as int == d.next_index && final(self).state == d.state
                    && final(self).prev_dist_error == d.prev_dist
                    && final(self).prev_angle_error == d.prev_angle
            }),
            final(self).path == old(self).path,
            final(self).robot == old(self).robot,
            final(self).kp == old(self).kp,
            final(self).kd == old(self).kd,
            final(self).max_vel == old(self).max_vel,
            final(self).dtolerance == old(self).dtolerance,
            final(self).atolerance == old(self).atolerance,
    {
        if self.i == self.path.len() {
            self.state = ProportionalControllerState::Idle;
            return (0, 0);
        }
        proof {
            assert(wp_ok(self.path@[self.i as int]));
        }
        let wp = self.path[self.i];
        let dx = wp.0 - current_pose.0;
        let dy = wp.1 - current_pose.1;
        let ddist = dist_exec(dx, dy);
        let bearing = crate::trig::atan2_micro(dy, dx);
        let dtheta = crate::utils::normalise((bearing as i128 - current_pose.2 as i128) as i64);
        let dta: i64 = if dtheta >= 0 { dtheta } else { -dtheta };
        if dta < self.atolerance {
            if ddist < self.dtolerance {
                self.state = ProportionalControllerState::Step;
                self.i = self.i + 1;
                (0, 0)
            } else {
                self.state = ProportionalControllerState::Linear;
                let vel = pd_term(self.kp, ddist, self.kd, self.prev_dist_error, self.max_vel.0);
                self.prev_dist_error = ddist;
                (vel, 0)
            }
        } else {
            self.state = ProportionalControllerState::Angular;
            let vel = pd_term(self.kp, dtheta, self.kd, self.prev_angle_error, self.max_vel.1);
            self.prev_angle_error = dtheta;
            (0, vel)
        }
    }
}

} // verus!
