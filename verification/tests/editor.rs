//! Editor-style operations: parameter reads and writes, deletion, the
//! pixel transforms and the position sampler.

use xiron::handler::{
    ObjectParameterType, SceneError, SelectedObjectType, SimulationHandler,
};
use xiron::robot::{DriveType, Robot};
use xiron::sampler::SimpleSampler;
use xiron::static_obj::StaticObj;

fn box_robot(name: &str, pose: (i64, i64, i64)) -> Robot {
    Robot::new(
        name.to_string(),
        pose,
        (0, 0, 0),
        false,
        vec![600_000, 400_000],
        DriveType::Differential,
        false,
    )
}

#[test]
fn parameters_read_back_what_was_written() {
    let mut sim = SimulationHandler::new();
    sim.add_robot(box_robot("e", (100_000, 200_000, 300_000)));
    sim.add_static_obj(StaticObj::new((1_000_000, 0), 500_000, 700_000, 0));
    let robot_sel = (Some(SelectedObjectType::Robot), 0);
    let object_sel = (Some(SelectedObjectType::Other), 0);

    // The robot reports its full extents, position and rotation.
    let b = sim.get_parameters_of_selected_object(robot_sel, ObjectParameterType::Bounds(0, 0));
    assert_eq!(b, ObjectParameterType::Bounds(600_000, 400_000));
    let p = sim.get_parameters_of_selected_object(robot_sel, ObjectParameterType::Position(0, 0));
    assert_eq!(p, ObjectParameterType::Position(100_000, 200_000));
    let r = sim.get_parameters_of_selected_object(robot_sel, ObjectParameterType::Rotation(0));
    assert_eq!(r, ObjectParameterType::Rotation(300_000));

    // Writes land on the selected entity.
    sim.change_parameters_of_selected_object(robot_sel, ObjectParameterType::Position(-50_000, 0));
    let p2 = sim.get_parameters_of_selected_object(robot_sel, ObjectParameterType::Position(0, 0));
    assert_eq!(p2, ObjectParameterType::Position(-50_000, 0));

    sim.change_parameters_of_selected_object(object_sel, ObjectParameterType::Rotation(150_000));
    let r2 = sim.get_parameters_of_selected_object(object_sel, ObjectParameterType::Rotation(0));
    assert_eq!(r2, ObjectParameterType::Rotation(150_000));

    // Nothing selected: the zero rotation placeholder.
    let none = sim.get_parameters_of_selected_object((None, -1), ObjectParameterType::Bounds(0, 0));
    assert_eq!(none, ObjectParameterType::Rotation(0));
}

#[test]
fn deleting_invalidates_handles() {
    let mut sim = SimulationHandler::new();
    let (_, h) = sim.add_robot(box_robot("d", (0, 0, 0)));
    assert!(sim.get_pose(&h).is_ok());
    sim.delete_selected_object((Some(SelectedObjectType::Robot), 0));
    assert_eq!(sim.robots.len(), 0);
    // The stale handle fails safely instead of aliasing another entity.
    assert_eq!(sim.get_pose(&h), Err(SceneError::EntityNotFound));
}

#[test]
fn pixel_transforms_round_trip() {
    // World (0, 0) sits at the centre of the 1200-pixel map.
    assert_eq!(SimulationHandler::tf_function((0, 0)), (600, 600));
    // One world unit is 40 pixels at the configured resolution.
    assert_eq!(SimulationHandler::tf_function((1_000_000, 0)), (640, 600));
    let (wx, wy) = SimulationHandler::get_world_from_pixel(640, 600);
    assert_eq!((wx, wy), (1_000_000, 0));
    assert_eq!(SimulationHandler::scale_function(40), 1_000_000);
    assert_eq!(SimulationHandler::inverse_scale_function(1_000_000), 40);
}

#[test]
fn sampler_stays_inside_its_bounds() {
    let sampler = SimpleSampler::new((-2_000_000, 2_000_000), (0, 1_000_000));
    for _ in 0..100 {
        let (x, y) = sampler.sample();
        assert!(-2_000_000 <= x && x < 2_000_000);
        assert!(0 <= y && y < 1_000_000);
    }
}

#[test]
fn max_extent_reports_the_smaller_side() {
    let r = box_robot("m", (0, 0, 0));
    assert_eq!(r.get_max_extent(), 400_000);
    let o = StaticObj::new((0, 0), 500_000, 700_000, 0);
    assert_eq!(o.get_max_extent(), 500_000);
}

#[test]
fn collidable_pairs_report_contact() {
    let near = Robot::new(
        "a".to_string(),
        (0, 0, 0),
        (0, 0, 0),
        false,
        vec![500_000],
        DriveType::Differential,
        false,
    )
    .get_collidable();
    let other = Robot::new(
        "b".to_string(),
        (1_050_000, 0, 0),
        (0, 0, 0),
        false,
        vec![500_000],
        DriveType::Differential,
        false,
    )
    .get_collidable();
    // Surface gap 0.05: inside the broad margin, outside the tight one.
    assert!(near.collision_check(&other));
    assert!(!near.collision_check_at(&other, &(0, 0, 0), None));
    // Probed closer, the tight threshold trips too.
    assert!(near.collision_check_at(&other, &(10_000, 0, 0), None));
}

#[test]
fn swept_pair_reports_an_impact_fraction() {
    let mover = Robot::new(
        "m".to_string(),
        (0, 0, 0),
        (0, 0, 0),
        false,
        vec![500_000],
        DriveType::Differential,
        false,
    )
    .get_collidable();
    let wall = StaticObj::new((2_000_000, 0), 400_000, 2_000_000, 0).get_collidable();
    // Sweeping two units toward the box: the near face is at 1.8, the
    // inflated surface reach is 0.54, so contact falls at 1.26 of the 2.0
    // sweep, around 63 percent of the tick.
    let toi = mover
        .collision_check_at_toi(&wall, &(0, 0, 0), &(2_000_000, 0, 0), None, None)
        .unwrap();
    assert!(0 < toi && toi < 1_000_000);
    assert!((toi - 630_000i64).abs() < 20_000, "impact at {toi}");
    // Sweeping away never hits.
    let none = mover.collision_check_at_toi(&wall, &(0, 0, 0), &(-1_000_000, 0, 0), None, None);
    assert!(none.is_none());
}
