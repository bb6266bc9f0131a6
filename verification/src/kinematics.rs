//! Per-drive-type kinematic integration: one pose update for one tick.
//!
//! `next_pose` is a pure function of the committed pose, the velocity
//! command, the drive type, the axle length and the tick; it mirrors the
//! closed-form first-order equations of each drive model over fixed-point
//! integers: the heading is updated first, then the translation.

use vstd::prelude::*;
use crate::fp::{div_i128, lemma_abs_mul_le, lemma_tdiv_bound, tdiv, SCALE, SCALE2};
use crate::parameter::{DIM_MAX, DIM_MIN, DT_MAX, POSE_LIMIT, SWEEP_LIMIT};
use crate::robot::DriveType;
use crate::trig::{cos_of, sin_of, tan_of, cos_micro, sin_micro, tan_micro, PI};
use crate::utils::{norm_spec, normalise};

verus! {

/// Velocity commands may exceed the accepted band by the noise amplitude.
pub const VEL_WF: i64 = 100_010_000;

/// A velocity command the integrator accepts.
pub open spec fn wf_vel(v: (i64, i64, i64)) -> bool {
    -VEL_WF <= v.0 <= VEL_WF && -VEL_WF <= v.1 <= VEL_WF && -VEL_WF <= v.2 <= VEL_WF
}

/// A pose the integrator accepts.
pub open spec fn pose_in_bounds(p: (i64, i64, i64)) -> bool {
    -POSE_LIMIT <= p.0 <= POSE_LIMIT
        && -POSE_LIMIT <= p.1 <= POSE_LIMIT
        && -POSE_LIMIT <= p.2 <= POSE_LIMIT
}

/// An axle length (the footprint's second bound) the integrator accepts.
pub open spec fn axle_ok(l: int) -> bool {
    DIM_MIN <= l <= 2 * DIM_MAX
}

/// A tick length the integrator accepts.
pub open spec fn dt_ok(dt: int) -> bool {
    0 < dt <= DT_MAX
}

/// Differential drive: heading first, then translation along the new
/// heading at the linear speed.
pub open spec fn integrate_diff(pose: (i64, i64, i64), vel: (i64, i64, i64), dt: int) -> (int, int, int) {
    let theta = norm_spec(pose.2 as int + tdiv(vel.2 as int * dt, SCALE as int));
    (
        pose.0 as int + tdiv(vel.0 as int * cos_of(theta) * dt, SCALE2 as int),
        pose.1 as int + tdiv(vel.0 as int * sin_of(theta) * dt, SCALE2 as int),
        theta,
    )
}

/// Omnidirectional drive: the body-frame velocity is rotated by the new
/// heading into the world frame and integrated.
pub open spec fn integrate_omni(pose: (i64, i64, i64), vel: (i64, i64, i64), dt: int) -> (int, int, int) {
    let theta = norm_spec(pose.2 as int + tdiv(vel.2 as int * dt, SCALE as int));
    let c = cos_of(theta);
    let s = sin_of(theta);
    (
        pose.0 as int + tdiv((vel.0 as int * c - vel.1 as int * s) * dt, SCALE2 as int),
        pose.1 as int + tdiv((vel.0 as int * s + vel.1 as int * c) * dt, SCALE2 as int),
        theta,
    )
}

/// Bicycle model referenced to a virtual rear axle of length `l`: the yaw
/// rate is `v * tan(steer) / l`; the rear-axle velocity is projected to the
/// footprint centre at offset `l / 2` by the rigid-offset correction before
/// integrating.
pub open spec fn integrate_axle(
    pose: (i64, i64, i64), vd: int, steer: int, l: int, dt: int,
) -> (int, int, int) {
    let tand = tan_of(norm_spec(steer));
    let th_dot = tdiv(vd * tand, l);
    let pn = norm_spec(pose.2 as int);
    let c = cos_of(pn);
    let s = sin_of(pn);
    let x_dot = tdiv(vd * c, SCALE as int);
    let y_dot = tdiv(vd * s, SCALE as int);
    let dd = tdiv(l, 2);
    let xdot_com = x_dot - tdiv(dd * th_dot * s, SCALE2 as int);
    let ydot_com = y_dot + tdiv(dd * th_dot * c, SCALE2 as int);
    (
        pose.0 as int + tdiv(xdot_com * dt, SCALE as int),
        pose.1 as int + tdiv(ydot_com * dt, SCALE as int),
        norm_spec(pose.2 as int + tdiv(th_dot * dt, SCALE as int)),
    )
}

/// The forklift drives its front wheel: the rear-axle speed is the driven
/// speed projected through the steering angle, then the bicycle model
/// applies.
pub open spec fn forklift_rear_speed(vd: int, steer: int) -> int {
    tdiv(vd * cos_of(norm_spec(steer)), SCALE as int)
}

/// The committed-pose update of one tick for each drive type: the
/// closed-form integration step, free of any collision handling.
#[verifier::opaque]
pub open spec fn next_pose_spec(
    pose: (i64, i64, i64), vel: (i64, i64, i64), drive: DriveType, l: int, dt: int,
) -> (int, int, int) {
    match drive {
        DriveType::Differential => integrate_diff(pose, vel, dt),
        DriveType::Omnidrive => integrate_omni(pose, vel, dt),
        DriveType::Ackermann => integrate_axle(pose, vel.0 as int, vel.1 as int, l, dt),
        DriveType::Forklift => integrate_axle(
            pose, forklift_rear_speed(vel.0 as int, vel.1 as int), vel.1 as int, l, dt,
        ),
    }
}

/// The new heading of one integration step.
fn next_theta(theta0: i64, omega: i64, dt: i64) -> (r: i64)
    requires
        -POSE_LIMIT <= theta0 <= POSE_LIMIT,
        -VEL_WF <= omega <= VEL_WF,
        dt_ok(dt as int),
    ensures
        r == norm_spec(theta0 as int + tdiv(omega as int * dt as int, SCALE as int)),
        -PI <= r <= PI,
{
    proof {
        lemma_abs_mul_le(omega as int, dt as int, VEL_WF as int, DT_MAX as int);
        lemma_tdiv_bound(omega as int * dt as int, SCALE as int, 10_001_000_000_000);
    }
    let dth: i128 = div_i128(omega as i128 * dt as i128, SCALE as i128);
    normalise((theta0 as i128 + dth) as i64)
}

/// One translation component `pose + v_eff * dt / SCALE^2`, where `v_eff`
/// is a micro-scaled product of a speed and a trig value.
fn integrate_component(p0: i64, veff: i128, dt: i64) -> (r: i64)
    requires
        -POSE_LIMIT <= p0 <= POSE_LIMIT,
        -400_000_000_000_000 <= veff <= 400_000_000_000_000,
        dt_ok(dt as int),
    ensures
        r == p0 as int + tdiv(veff as int * dt as int, SCALE2 as int),
        -SWEEP_LIMIT <= r <= SWEEP_LIMIT,
{
    proof {
        lemma_abs_mul_le(veff as int, dt as int, 400_000_000_000_000, DT_MAX as int);
        lemma_tdiv_bound(veff as int * dt as int, SCALE2 as int, 40_000_000_000_000_000_000);
    }
    let step: i128 = div_i128(veff * dt as i128, SCALE2 as i128);
    (p0 as i128 + step) as i64
}

/// Computes [`next_pose_spec`]: the proposed pose after one tick, before
/// any collision resolution. The result stays within the swept-pose band.
pub fn next_pose(
    pose: (i64, i64, i64), vel: (i64, i64, i64), drive: DriveType, l: i64, dt: i64,
) -> (r: (i64, i64, i64))
    requires
        pose_in_bounds(pose),
        wf_vel(vel),
        axle_ok(l as int),
        dt_ok(dt as int),
    ensures
        (r.0 as int, r.1 as int, r.2 as int) == next_pose_spec(pose, vel, drive, l as int, dt as int),
        -SWEEP_LIMIT <= r.0 <= SWEEP_LIMIT,
        -SWEEP_LIMIT <= r.1 <= SWEEP_LIMIT,
        -PI <= r.2 <= PI,
{
    proof {
        reveal(next_pose_spec);
    }
    match drive {
        DriveType::Differential => {
            let theta = next_theta(pose.2, vel.2, dt);
            let c = cos_micro(theta);
            let s = sin_micro(theta);
            proof {
                lemma_abs_mul_le(vel.0 as int, c as int, VEL_WF as int, 1_300_000);
                lemma_abs_mul_le(vel.0 as int, s as int, VEL_WF as int, 1_700_000);
            }
            let x = integrate_component(pose.0, vel.0 as i128 * c as i128, dt);
            let y = integrate_component(pose.1, vel.0 as i128 * s as i128, dt);
            (x, y, theta)
        },
        DriveType::Omnidrive => {
            let theta = next_theta(pose.2, vel.2, dt);
            let c = cos_micro(theta);
            let s = sin_micro(theta);
            proof {
                lemma_abs_mul_le(vel.0 as int, c as int, VEL_WF as int, 1_300_000);
                lemma_abs_mul_le(vel.1 as int, s as int, VEL_WF as int, 1_700_000);
                lemma_abs_mul_le(vel.0 as int, s as int, VEL_WF as int, 1_700_000);
                lemma_abs_mul_le(vel.1 as int, c as int, VEL_WF as int, 1_300_000);
            }
            let vx: i128 = vel.0 as i128 * c as i128 - vel.1 as i128 * s as i128;
            let vy: i128 = vel.0 as i128 * s as i128 + vel.1 as i128 * c as i128;
            let x = integrate_component(pose.0, vx, dt);
            let y = integrate_component(pose.1, vy, dt);
            (x, y, theta)
        },
        DriveType::Ackermann => {
            integrate_axle_exec(pose, vel.0, vel.1, l, dt)
        },
        DriveType::Forklift => {
            let sn = normalise(vel.1);
            let c = cos_micro(sn);
            proof {
                lemma_abs_mul_le(vel.0 as int, c as int, VEL_WF as int, 1_300_000);
                lemma_tdiv_bound(vel.0 as int * c as int, SCALE as int, 130_013_000_000_000);
            }
            let vr: i128 = div_i128(vel.0 as i128 * c as i128, SCALE as i128);
            integrate_axle_exec(pose, vr as i64, vel.1, l, dt)
        },
    }
}

/// Computes [`integrate_axle`]: the bicycle-model step shared by the
/// Ackermann and forklift drives.
fn integrate_axle_exec(
    pose: (i64, i64, i64), vd: i64, steer: i64, l: i64, dt: i64,
) -> (r: (i64, i64, i64))
    requires
        pose_in_bounds(pose),
        -140_000_000 <= vd <= 140_000_000,
        -VEL_WF <= steer <= VEL_WF,
        axle_ok(l as int),
        dt_ok(dt as int),
    ensures
        (r.0 as int, r.1 as int, r.2 as int) == integrate_axle(pose, vd as int, steer as int, l as int, dt as int),
        -SWEEP_LIMIT <= r.0 <= SWEEP_LIMIT,
        -SWEEP_LIMIT <= r.1 <= SWEEP_LIMIT,
        -PI <= r.2 <= PI,
{
    let sn = normalise(steer);
    let tand = tan_micro(sn);
    proof {
        lemma_abs_mul_le(vd as int, tand as int, 140_000_000, 10_000_000);
        lemma_tdiv_bound(vd as int * tand as int, l as int, 1_400_000_000_000_000_000);
    }
    let vdtan: i128 = vd as i128 * tand as i128;
    let th_dot: i128 = div_i128(vdtan, l as i128);
    let pn = normalise(pose.2);
    let c = cos_micro(pn);
    let s = sin_micro(pn);
    proof {
        lemma_abs_mul_le(vd as int, c as int, 140_000_000, 1_300_000);
        lemma_abs_mul_le(vd as int, s as int, 140_000_000, 1_700_000);
        lemma_tdiv_bound(vd as int * c as int, SCALE as int, 182_000_000_000_000);
        lemma_tdiv_bound(vd as int * s as int, SCALE as int, 238_000_000_000_000);
    }
    let x_dot: i128 = div_i128(vd as i128 * c as i128, SCALE as i128);
    let y_dot: i128 = div_i128(vd as i128 * s as i128, SCALE as i128);
    let dd: i64 = l / 2;
    proof {
        lemma_axle_offset_bound(dd as int, th_dot as int, l as int, vdtan as int);
        lemma_abs_mul_le(dd as int * th_dot as int, s as int, 700_000_000_000_000, 1_700_000);
        lemma_abs_mul_le(dd as int * th_dot as int, c as int, 700_000_000_000_000, 1_700_000);
        lemma_tdiv_bound(dd as int * th_dot as int * s as int, SCALE2 as int, 1_190_000_000_000_000_000_000);
        lemma_tdiv_bound(dd as int * th_dot as int * c as int, SCALE2 as int, 1_190_000_000_000_000_000_000);
    }
    let ddth: i128 = dd as i128 * th_dot;
    let xdot_com: i128 = x_dot - div_i128(ddth * s as i128, SCALE2 as i128);
    let ydot_com: i128 = y_dot + div_i128(ddth * c as i128, SCALE2 as i128);
    proof {
        lemma_abs_mul_le(xdot_com as int, dt as int, 1_500_000_000, DT_MAX as int);
        lemma_abs_mul_le(ydot_com as int, dt as int, 1_500_000_000, DT_MAX as int);
        lemma_tdiv_bound(xdot_com as int * dt as int, SCALE as int, 150_000_000_000_000);
        lemma_tdiv_bound(ydot_com as int * dt as int, SCALE as int, 150_000_000_000_000);
        lemma_abs_mul_le(th_dot as int, dt as int, 1_400_000_000_000_000, DT_MAX as int);
        lemma_tdiv_bound(th_dot as int * dt as int, SCALE as int, 140_000_000_000_000_000_000);
    }
    let x = (pose.0 as i128 + div_i128(xdot_com * dt as i128, SCALE as i128)) as i64;
    let y = (pose.1 as i128 + div_i128(ydot_com * dt as i128, SCALE as i128)) as i64;
    let dth: i128 = div_i128(th_dot * dt as i128, SCALE as i128);
    let theta = normalise((pose.2 as i128 + dth) as i64);
    (x, y, theta)
}

/// A robot with a zero velocity command does not move: for every drive
/// type, one integration step from a normalised heading commits exactly the
/// pose it started from. Once a collision has stopped a robot, it stays in
/// place until it is commanded again.
pub proof fn lemma_stopped_robot_stays(pose: (i64, i64, i64), drive: DriveType, l: int, dt: int)
    requires
        -PI <= pose.2 <= PI,
        axle_ok(l),
        dt_ok(dt),
    ensures
        next_pose_spec(pose, (0i64, 0i64, 0i64), drive, l, dt)
            == (pose.0 as int, pose.1 as int, pose.2 as int),
{
    reveal(next_pose_spec);
    assert(norm_spec(pose.2 as int) == pose.2 as int);
    assert(tdiv(0, SCALE as int) == 0);
    assert(tdiv(0, SCALE2 as int) == 0);
    assert(tdiv(0, l) == 0);
    assert(tdiv(0, 2) == 0);
    let theta = norm_spec(pose.2 as int + tdiv(0 * dt, SCALE as int));
    assert(theta == pose.2 as int);
    match drive {
        DriveType::Differential => {
            assert(0 * cos_of(theta) * dt == 0) by (nonlinear_arith);
            assert(0 * sin_of(theta) * dt == 0) by (nonlinear_arith);
            assert(integrate_diff(pose, (0i64, 0i64, 0i64), dt)
                == (pose.0 as int, pose.1 as int, pose.2 as int));
        },
        DriveType::Omnidrive => {
            assert((0 * cos_of(theta) - 0 * sin_of(theta)) * dt == 0) by (nonlinear_arith);
            assert((0 * sin_of(theta) + 0 * cos_of(theta)) * dt == 0) by (nonlinear_arith);
            assert(integrate_omni(pose, (0i64, 0i64, 0i64), dt)
                == (pose.0 as int, pose.1 as int, pose.2 as int));
        },
        DriveType::Ackermann => {
            lemma_axle_zero(pose, l, dt);
        },
        DriveType::Forklift => {
            assert(0 * cos_of(norm_spec(0)) == 0) by (nonlinear_arith);
            assert(forklift_rear_speed(0, 0) == 0);
            lemma_axle_zero(pose, l, dt);
        },
    }
}

/// The bicycle step with a zero drive speed stays in place.
proof fn lemma_axle_zero(pose: (i64, i64, i64), l: int, dt: int)
    requires
        -PI <= pose.2 <= PI,
        axle_ok(l),
        dt_ok(dt),
    ensures
        integrate_axle(pose, 0, 0, l, dt) == (pose.0 as int, pose.1 as int, pose.2 as int),
{
    let tand = tan_of(norm_spec(0));
    assert(0 * tand == 0) by (nonlinear_arith);
    assert(tdiv(0, l) == 0);
    assert(norm_spec(pose.2 as int) == pose.2 as int);
    let pn = norm_spec(pose.2 as int);
    assert(0 * cos_of(pn) == 0) by (nonlinear_arith);
    assert(0 * sin_of(pn) == 0) by (nonlinear_arith);
    assert(tdiv(0, SCALE as int) == 0);
    let dd = tdiv(l, 2);
    assert(dd * 0 * sin_of(pn) == 0) by (nonlinear_arith);
    assert(dd * 0 * cos_of(pn) == 0) by (nonlinear_arith);
    assert(tdiv(0, SCALE2 as int) == 0);
    assert(0 * dt == 0);
}

/// The rigid-offset product `(l/2) * (v*tan/l)` cancels the axle length:
/// it is bounded by half the speed-tangent product.
proof fn lemma_axle_offset_bound(dd: int, th: int, l: int, vdtan: int)
    requires
        dd == tdiv(l, 2),
        th == tdiv(vdtan, l),
        l >= 1,
        -1_400_000_000_000_000 <= vdtan <= 1_400_000_000_000_000,
    ensures
        -700_000_000_000_000 <= dd * th <= 700_000_000_000_000,
{
    assert(-700_000_000_000_000 <= dd * th <= 700_000_000_000_000) by (nonlinear_arith)
        requires
            dd == tdiv(l, 2),
            th == tdiv(vdtan, l),
            l >= 1,
            -1_400_000_000_000_000 <= vdtan <= 1_400_000_000_000_000,
    ;
}

} // verus!
