//! Per-drive-type integration checks against the closed-form equations.

use xiron::kinematics::next_pose;
use xiron::robot::DriveType;

const SCALE: f64 = 1_000_000.0;

fn close(actual: i64, expected_units: f64, tol_units: f64) -> bool {
    let a = actual as f64 / SCALE;
    (a - expected_units).abs() <= tol_units
}

#[test]
fn differential_matches_closed_form() {
    // pose (0,0,0), v = 1.0, omega = 0.5, dt = 0.05.
    let r = next_pose((0, 0, 0), (1_000_000, 0, 500_000), DriveType::Differential, 500_000, 50_000);
    let theta = 0.5f64 * 0.05;
    let x = 1.0f64 * theta.cos() * 0.05;
    let y = 1.0f64 * theta.sin() * 0.05;
    assert_eq!(r.2, 25_000);
    assert!(close(r.0, x, 0.0001));
    assert!(close(r.1, y, 0.0001));
}

#[test]
fn differential_heading_updates_before_translation() {
    // With omega alone the position must not move at all.
    let r = next_pose(
        (2_000_000, -3_000_000, 100_000),
        (0, 0, 1_000_000),
        DriveType::Differential,
        500_000,
        50_000,
    );
    assert_eq!(r.0, 2_000_000);
    assert_eq!(r.1, -3_000_000);
    assert_eq!(r.2, 150_000);
}

#[test]
fn omnidirectional_matches_closed_form() {
    // pose (0,0,0), vx = 1.0, vy = 0.5, omega = 0, dt = 0.05: axis-aligned.
    let r = next_pose((0, 0, 0), (1_000_000, 500_000, 0), DriveType::Omnidrive, 500_000, 50_000);
    assert_eq!(r.0, 50_000);
    assert_eq!(r.1, 25_000);
    assert_eq!(r.2, 0);
}

#[test]
fn omnidirectional_rotates_body_frame() {
    // Heading pi/2: body +x becomes world +y.
    let r = next_pose(
        (0, 0, 1_570_796),
        (1_000_000, 0, 0),
        DriveType::Omnidrive,
        500_000,
        50_000,
    );
    assert!(close(r.0, 0.0, 0.0001));
    assert!(close(r.1, 0.05, 0.0001));
}

#[test]
fn ackermann_matches_closed_form() {
    // pose (0,0,0), vd = 1.0, steer = 0.1 rad, axle = 0.5, dt = 0.05.
    let r = next_pose((0, 0, 0), (1_000_000, 100_000, 0), DriveType::Ackermann, 500_000, 50_000);
    let l = 0.5f64;
    let theta_dot = 1.0f64 * 0.1f64.tan() / l;
    let d = 0.5 * l;
    let xdot = 1.0 - d * 0.0f64.sin() * theta_dot;
    let ydot = 0.0 + d * 0.0f64.cos() * theta_dot;
    assert!(close(r.0, xdot * 0.05, 0.0005));
    assert!(close(r.1, ydot * 0.05, 0.0005));
    assert!(close(r.2, theta_dot * 0.05, 0.0005));
}

#[test]
fn forklift_projects_the_driven_wheel() {
    // Same command as the Ackermann case; the rear-axle speed carries an
    // extra cos(steer) factor.
    let r = next_pose((0, 0, 0), (1_000_000, 100_000, 0), DriveType::Forklift, 500_000, 50_000);
    let l = 0.5f64;
    let vr = 1.0f64 * 0.1f64.cos();
    let theta_dot = vr * 0.1f64.tan() / l;
    let d = 0.5 * l;
    let ydot = d * theta_dot;
    assert!(close(r.0, vr * 0.05, 0.0005));
    assert!(close(r.1, ydot * 0.05, 0.0005));
    assert!(close(r.2, theta_dot * 0.05, 0.0005));
}

#[test]
fn normalise_folds_into_half_turn() {
    assert_eq!(xiron::utils::normalise(3_141_593), 3_141_593);
    assert_eq!(xiron::utils::normalise(3_141_594), 3_141_594 - 6_283_185);
    assert_eq!(xiron::utils::normalise(-9_424_778), -9_424_778 + 6_283_185);
    assert_eq!(xiron::utils::normalise(0), 0);
}

#[test]
fn interpolate_pose_is_componentwise_linear() {
    let start = (0i64, 1_000_000i64, 0i64);
    let end = (1_000_000i64, 3_000_000i64, 500_000i64);
    let mid = xiron::utils::interpolate_pose(&start, &end, 500_000);
    assert_eq!(mid.0, 500_000);
    assert_eq!(mid.1, 2_000_000);
    assert_eq!(mid.2, 250_000);
    let at_start = xiron::utils::interpolate_pose(&start, &end, 0);
    assert_eq!(at_start, start);
    let at_end = xiron::utils::interpolate_pose(&start, &end, 1_000_000);
    assert_eq!(at_end, end);
}

#[test]
fn trig_matches_reference_values() {
    assert!(close(xiron::trig::sin_micro(1_570_796), 1.0, 0.001));
    assert!(close(xiron::trig::cos_micro(1_570_796), 0.0, 0.001));
    assert!(close(xiron::trig::sin_micro(523_599), 0.5, 0.001));
    assert!(close(xiron::trig::cos_micro(-3_141_593), -1.0, 0.001));
    assert!(close(xiron::trig::tan_micro(785_398), 1.0, 0.001));
    assert!(close(xiron::trig::atan2_micro(1_000_000, 1_000_000), 0.785398, 0.001));
    assert!(close(xiron::trig::atan2_micro(1_000_000, 0), 1.570796, 0.001));
    assert!(close(xiron::trig::atan2_micro(0, -1_000_000), 3.141593, 0.001));
    assert!(close(xiron::trig::atan2_micro(-500_000, 500_000), -0.785398, 0.001));
}

#[test]
fn stopped_command_commits_the_same_pose() {
    let pose = (123_456i64, -654_321i64, 250_000i64);
    for drive in [
        DriveType::Differential,
        DriveType::Omnidrive,
        DriveType::Ackermann,
        DriveType::Forklift,
    ] {
        let r = next_pose(pose, (0, 0, 0), drive, 500_000, 16_667);
        assert_eq!(r, pose);
    }
}
