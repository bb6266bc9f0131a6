//! Scene-level scenarios: stepping, collisions, sensing, handles, export.

use xiron::handler::{RobotHandler, SceneError, SelectedObjectType, SimulationHandler};
use xiron::parser::{Config, RobotConfig, StaticObjConfig, WallConfig};
use xiron::robot::{DriveType, Robot};
use xiron::static_obj::StaticObj;
use xiron::wall::Wall;

fn circular_robot(name: &str, pose: (i64, i64, i64), vel: (i64, i64, i64)) -> Robot {
    Robot::new(name.to_string(), pose, vel, false, vec![500_000], DriveType::Differential, false)
}

#[test]
fn head_on_robots_stop_at_the_margin() {
    // Two discs of radius 0.5, centres 3.0 apart, driving at each other at
    // speed 1.0 with dt = 0.05: they must stop with their centre distance
    // within 0.05 of 1.0 and never move again.
    let mut sim = SimulationHandler::new();
    sim.set_timestep(50_000);
    let (_, ha) = sim.add_robot(circular_robot("a", (-1_500_000, 0, 0), (1_000_000, 0, 0)));
    let (_, hb) = sim.add_robot(circular_robot("b", (1_500_000, 0, 3_141_593), (1_000_000, 0, 0)));
    for _ in 0..60 {
        sim.step();
    }
    let pa = sim.get_pose(&ha).unwrap();
    let pb = sim.get_pose(&hb).unwrap();
    let dist = pb.0 - pa.0;
    assert!((dist - 1_000_000).abs() < 50_000, "centre distance {dist}");
    assert_eq!(sim.robots[0].vel, (0, 0, 0));
    assert_eq!(sim.robots[1].vel, (0, 0, 0));
    // Stopped robots stay put until re-commanded.
    for _ in 0..10 {
        sim.step();
    }
    assert_eq!(sim.get_pose(&ha).unwrap(), pa);
    assert_eq!(sim.get_pose(&hb).unwrap(), pb);
}

#[test]
fn robot_stops_at_a_static_rectangle() {
    // A disc of radius 0.5 drives into a box whose near face is at x = 0.8;
    // one unconstrained tick from x = 0.25 would penetrate, so the committed
    // pose must sit at the margin, not at the full proposal.
    let mut sim = SimulationHandler::new();
    sim.set_timestep(50_000);
    let (_, h) = sim.add_robot(circular_robot("r", (0, 0, 0), (1_000_000, 0, 0)));
    sim.add_static_obj(StaticObj::new((1_000_000, 0), 400_000, 2_000_000, 0));
    for _ in 0..20 {
        sim.step();
    }
    let p = sim.get_pose(&h).unwrap();
    // Surface at margin: centre near 0.8 - 0.5 - 0.04 = 0.26.
    assert!((p.0 - 260_000).abs() < 15_000, "stopped at {}", p.0);
    assert_eq!(p.1, 0);
    assert_eq!(sim.robots[0].vel, (0, 0, 0));
}

#[test]
fn beams_report_wall_distance_and_sentinel() {
    // A wall at x = 2.0 ahead of the sensor: the forward beam reports the
    // distance, a beam into open space reports the sentinel.
    let mut sim = SimulationHandler::new();
    let robot = Robot::new(
        "s".to_string(),
        (0, 0, 0),
        (0, 0, 0),
        true,
        vec![500_000],
        DriveType::Differential,
        false,
    );
    let (_, h) = sim.add_robot(robot);
    sim.add_wall(Wall::new(vec![(2_000_000, -5_000_000), (2_000_000, 5_000_000)]));
    let msg = sim.sense(&h).unwrap();
    assert_eq!(msg.num_readings, 180);
    assert_eq!(msg.values.len(), 180);
    assert_eq!(msg.angle_min, -3_141_593);
    assert_eq!(msg.angle_max, 3_141_593);
    // Beam index maps to angle_min + k * (span / count): index 90 points
    // along the heading.
    let forward = msg.values[90];
    assert!((forward - 2_000_000).abs() < 10_000, "forward beam {forward}");
    // Index 0 points backwards into open space.
    assert_eq!(msg.values[0], 20_000_000);
    // Index 45 points along -y into open space.
    assert_eq!(msg.values[45], 20_000_000);
}

#[test]
fn get_pose_is_idempotent() {
    let mut sim = SimulationHandler::new();
    let (_, h) = sim.add_robot(circular_robot("p", (250_000, -125_000, 42_000), (0, 0, 0)));
    let first = sim.get_pose(&h).unwrap();
    let second = sim.get_pose(&h).unwrap();
    assert_eq!(first, second);
    assert_eq!(first, (250_000, -125_000, 42_000));
}

fn sample_config() -> Config {
    Config {
        robots: vec![RobotConfig {
            id: "robot0".to_string(),
            pose: (100_000, 200_000, 300_000),
            vel: (10_000, 0, -5_000),
            lidar: true,
            footprint: vec![500_000],
            drive_type: DriveType::Ackermann,
            add_noise: false,
        }, RobotConfig {
            id: "robot1".to_string(),
            pose: (-400_000, 0, 0),
            vel: (0, 0, 0),
            lidar: false,
            footprint: vec![600_000, 400_000],
            drive_type: DriveType::Omnidrive,
            add_noise: true,
        }],
        walls: vec![WallConfig {
            endpoints: vec![(0, 0), (1_000_000, 0), (1_000_000, 2_000_000)],
        }],
        static_objects: vec![StaticObjConfig {
            center: (3_000_000, -1_000_000),
            width: 800_000,
            height: 600_000,
            rotation: 150_000,
        }],
    }
}

#[test]
fn export_reimport_round_trip() {
    // Build, export, rebuild from the export, export again: the two
    // descriptions must agree field for field.
    let (sim, handles) = SimulationHandler::from_config(&sample_config());
    assert_eq!(handles.len(), 2);
    assert_eq!(handles[0].0, "robot0");
    let c1 = sim.to_config();
    let (sim2, _) = SimulationHandler::from_config(&c1);
    let c2 = sim2.to_config();
    assert_eq!(c1.robots.len(), c2.robots.len());
    for (a, b) in c1.robots.iter().zip(c2.robots.iter()) {
        assert_eq!(a.id, b.id);
        assert_eq!(a.pose, b.pose);
        assert_eq!(a.vel, b.vel);
        assert_eq!(a.lidar, b.lidar);
        assert_eq!(a.footprint, b.footprint);
        assert_eq!(a.drive_type, b.drive_type);
        assert_eq!(a.add_noise, b.add_noise);
    }
    assert_eq!(c1.walls.len(), c2.walls.len());
    for (a, b) in c1.walls.iter().zip(c2.walls.iter()) {
        assert_eq!(a.endpoints, b.endpoints);
    }
    assert_eq!(c1.static_objects.len(), c2.static_objects.len());
    for (a, b) in c1.static_objects.iter().zip(c2.static_objects.iter()) {
        assert_eq!(a.center, b.center);
        assert_eq!(a.width, b.width);
        assert_eq!(a.height, b.height);
        assert_eq!(a.rotation, b.rotation);
    }
    // The export preserves the original description too.
    let orig = sample_config();
    assert_eq!(c1.robots[0].id, orig.robots[0].id);
    assert_eq!(c1.robots[0].pose, orig.robots[0].pose);
    assert_eq!(c1.robots[1].footprint, orig.robots[1].footprint);
    assert_eq!(c1.walls[0].endpoints, orig.walls[0].endpoints);
    assert_eq!(c1.static_objects[0].rotation, orig.static_objects[0].rotation);
}

#[test]
fn reset_rebuilds_and_invalidates_handles() {
    let (mut sim, handles) = SimulationHandler::from_config(&sample_config());
    let h0 = handles[0].1;
    sim.control(&h0, (50_000, 0, 0)).unwrap();
    sim.step();
    let new_handles = sim.reset();
    assert_eq!(new_handles.len(), 2);
    // The old handle is stale now.
    assert_eq!(sim.get_pose(&h0), Err(SceneError::EntityNotFound));
    // The rebuilt robot is back at its described pose.
    let p = sim.get_pose(&new_handles[0].1).unwrap();
    assert_eq!(p, (100_000, 200_000, 300_000));
}

#[test]
fn control_rejects_stale_handles() {
    let mut sim = SimulationHandler::new();
    let bogus = RobotHandler::new(3);
    assert_eq!(sim.control(&bogus, (0, 0, 0)), Err(SceneError::EntityNotFound));
    let (_, h) = sim.add_robot(circular_robot("c", (0, 0, 0), (0, 0, 0)));
    assert_eq!(sim.control(&h, (40_000, 0, 10_000)), Ok(()));
    assert_eq!(sim.robots[0].vel, (40_000, 0, 10_000));
}

#[test]
fn sense_reports_missing_sensor() {
    let mut sim = SimulationHandler::new();
    let (_, h) = sim.add_robot(circular_robot("n", (0, 0, 0), (0, 0, 0)));
    assert!(matches!(sim.sense(&h), Err(SceneError::NoSensor)));
    let stale = RobotHandler { id: 9, generation: 0 };
    assert!(matches!(sim.sense(&stale), Err(SceneError::EntityNotFound)));
}

#[test]
fn noisy_control_stays_inside_the_band() {
    let mut sim = SimulationHandler::new();
    let robot = Robot::new(
        "z".to_string(),
        (0, 0, 0),
        (0, 0, 0),
        false,
        vec![500_000],
        DriveType::Differential,
        true,
    );
    let (_, h) = sim.add_robot(robot);
    sim.control(&h, (100_000, 0, 0)).unwrap();
    let v = sim.robots[0].vel;
    assert!((v.0 - 100_000).abs() < 10_000);
    assert!(v.1.abs() < 10_000);
    assert!(v.2.abs() < 10_000);
}

#[test]
fn first_match_lookup_prefers_robots() {
    let mut sim = SimulationHandler::new();
    sim.add_static_obj(StaticObj::new((0, 0), 4_000_000, 4_000_000, 0));
    let (_, _h) = sim.add_robot(circular_robot("f", (0, 0, 0), (0, 0, 0)));
    // The point is inside both; the robot wins because robots are checked
    // first.
    let (kind, idx) = sim.get_nearest_object(100_000, 100_000);
    assert_eq!(kind, Some(SelectedObjectType::Robot));
    assert_eq!(idx, 0);
    // A point only inside the box selects the generic object.
    let (kind2, idx2) = sim.get_nearest_object(1_500_000, 0);
    assert_eq!(kind2, Some(SelectedObjectType::Other));
    assert_eq!(idx2, 0);
    // A point in open space selects nothing.
    let (kind3, idx3) = sim.get_nearest_object(10_000_000, 10_000_000);
    assert_eq!(kind3, None);
    assert_eq!(idx3, -1);
}

#[test]
fn collision_probe_sees_the_overlap_threshold() {
    let mut sim = SimulationHandler::new();
    let (_, h) = sim.add_robot(circular_robot("q", (0, 0, 0), (0, 0, 0)));
    sim.add_static_obj(StaticObj::new((2_000_000, 0), 1_000_000, 1_000_000, 0));
    // Far away: no contact.
    assert_eq!(sim.collision_status_at(&h, &(0, 0, 0)), Ok(false));
    // Probed close to the near face (x = 1.5): surface gap under 0.05.
    assert_eq!(sim.collision_status_at(&h, &(980_000, 0, 0)), Ok(true));
}

#[test]
fn robot_stops_at_a_wall() {
    // A disc drives +x into a vertical wall at x = 1.5 and must stop with
    // its surface at the margin: centre near 1.5 - 0.5 - 0.04 = 0.96.
    let mut sim = SimulationHandler::new();
    sim.set_timestep(50_000);
    let (_, h) = sim.add_robot(circular_robot("w", (0, 0, 0), (1_000_000, 0, 0)));
    sim.add_wall(Wall::new(vec![(1_500_000, -3_000_000), (1_500_000, 3_000_000)]));
    for _ in 0..40 {
        sim.step();
    }
    let p = sim.get_pose(&h).unwrap();
    assert!((p.0 - 960_000).abs() < 15_000, "stopped at {}", p.0);
    assert_eq!(sim.robots[0].vel, (0, 0, 0));
}

fn box_shaped_robot(name: &str, pose: (i64, i64, i64), vel: (i64, i64, i64)) -> Robot {
    Robot::new(
        name.to_string(),
        pose,
        vel,
        false,
        vec![600_000, 400_000],
        DriveType::Omnidrive,
        false,
    )
}

#[test]
fn rectangular_robots_stop_against_each_other() {
    // Two axis-aligned boxes of half-width 0.3 drive at each other along x;
    // their faces must stop near the swept margin of 0.04, so the centres
    // end about 0.64 apart.
    let mut sim = SimulationHandler::new();
    sim.set_timestep(50_000);
    let (_, ha) = sim.add_robot(box_shaped_robot("ba", (-1_000_000, 0, 0), (1_000_000, 0, 0)));
    let (_, hb) = sim.add_robot(box_shaped_robot("bb", (1_000_000, 0, 0), (-1_000_000, 0, 0)));
    for _ in 0..40 {
        sim.step();
    }
    let pa = sim.get_pose(&ha).unwrap();
    let pb = sim.get_pose(&hb).unwrap();
    let dist = pb.0 - pa.0;
    assert!((dist - 640_000).abs() < 30_000, "centre distance {dist}");
    assert_eq!(sim.robots[0].vel, (0, 0, 0));
    assert_eq!(sim.robots[1].vel, (0, 0, 0));
}

#[test]
fn rectangular_robot_stops_at_a_wall() {
    // A box of half-width 0.3 drives +x into a wall at x = 1.0: its face
    // stops near 1.0 - 0.04, the centre near 0.66.
    let mut sim = SimulationHandler::new();
    sim.set_timestep(50_000);
    let (_, h) = sim.add_robot(box_shaped_robot("bw", (0, 0, 0), (1_000_000, 0, 0)));
    sim.add_wall(Wall::new(vec![(1_000_000, -2_000_000), (1_000_000, 2_000_000)]));
    for _ in 0..30 {
        sim.step();
    }
    let p = sim.get_pose(&h).unwrap();
    assert!((p.0 - 660_000).abs() < 30_000, "stopped at {}", p.0);
    assert_eq!(sim.robots[0].vel, (0, 0, 0));
}

#[test]
fn wall_proximity_probe() {
    // The static probe reports contact with a wall only within the overlap
    // threshold of the disc's surface.
    let mut sim = SimulationHandler::new();
    let (_, h) = sim.add_robot(circular_robot("wp", (0, 0, 0), (0, 0, 0)));
    sim.add_wall(Wall::new(vec![(2_000_000, -1_000_000), (2_000_000, 1_000_000)]));
    assert_eq!(sim.collision_status_at(&h, &(0, 0, 0)), Ok(false));
    assert_eq!(sim.collision_status_at(&h, &(1_480_000, 0, 0)), Ok(true));
}
