//! Message-layer checks: envelope framing against the real wire library,
//! tag routing, and controller cycles.

use xiron::comms::{
    frame_message, route_type_url, unframe_message, CommMsgKind, CommResponse, ResetMsg,
    XironCommServer,
};
use xiron::controller::{
    PathController, PathControllerState, ProportionalController, ProportionalControllerState,
};
use xiron::handler::RobotHandler;

#[test]
fn envelope_round_trips_through_the_wire_format() {
    let url = "vel".to_string();
    let payload: Vec<u8> = vec![8, 42, 16, 7, 255, 0, 1];
    let framed = frame_message(&url, &payload);
    // The envelope must actually wrap the payload, not hand it back.
    assert_ne!(framed, payload);
    let (u, v) = unframe_message(&framed).unwrap();
    assert_eq!(u, "vel");
    assert_eq!(v, payload);
    // The envelope matches the wire library's own encoding.
    let direct = prost::Message::encode_to_vec(&prost_types::Any {
        type_url: "vel".to_string(),
        value: payload.clone(),
    });
    assert_eq!(framed, direct);
}

#[test]
fn unframe_rejects_garbage() {
    let garbage: Vec<u8> = vec![0xff, 0xff, 0xff, 0xff, 0xff];
    let err = unframe_message(&garbage).unwrap_err();
    assert_eq!(err.reason, "Could not decode Protobuf");
}

#[test]
fn tags_route_to_their_message_kinds() {
    assert_eq!(route_type_url(&"vel".to_string()).unwrap(), CommMsgKind::Vel);
    assert_eq!(route_type_url(&"reset".to_string()).unwrap(), CommMsgKind::Reset);
    assert_eq!(route_type_url(&"pose".to_string()).unwrap(), CommMsgKind::Pose);
    assert_eq!(route_type_url(&"scan".to_string()).unwrap(), CommMsgKind::Scan);
    let err = route_type_url(&"twist".to_string()).unwrap_err();
    assert_eq!(err.reason, "Unknown msg_type in Protobuf message: twist");
}

#[test]
fn outgoing_tags_match_the_send_side() {
    let reset = CommResponse::Reset(ResetMsg { timestamp: 0 });
    assert_eq!(reset.type_url(), "reset");
}

#[test]
fn comm_server_keeps_its_addresses() {
    let server = XironCommServer::new("127.0.0.1", 8081, 8082);
    assert_eq!(server.url, "127.0.0.1");
    assert_eq!(server.sim_to_client_port, 8081);
    assert_eq!(server.client_to_sim_port, 8082);
}

#[test]
fn path_controller_walks_its_phases() {
    let mut pc = PathController::new(RobotHandler::new(0), 100_000, 100_000);
    // No path: idle, zero command.
    assert_eq!(pc.control((0, 0, 0)), (0, 0));
    assert_eq!(pc.state, PathControllerState::Idle);
    pc.set_path(vec![(1_000_000, 0, 500_000), (2_000_000, 0, 500_000)]);
    // Heading error 0.5 rad above tolerance: turn first, kp * 0.5 = 0.05.
    let (v, w) = pc.control((0, 0, 0));
    assert_eq!(pc.state, PathControllerState::Angular);
    assert_eq!(v, 0);
    assert_eq!(w, -50_000);
    // Aligned but 1.0 away: drive, kp * 1.0 = 0.1.
    let (v2, w2) = pc.control((0, 0, 500_000));
    assert_eq!(pc.state, PathControllerState::Linear);
    assert_eq!(v2, 100_000);
    assert_eq!(w2, 0);
    // At the waypoint: step to the next one.
    assert_eq!(pc.control((1_000_000, 0, 500_000)), (0, 0));
    assert_eq!(pc.state, PathControllerState::Step);
    assert_eq!(pc.i, 1);
}

#[test]
fn path_controller_clamps_to_the_band() {
    let mut pc = PathController::new(RobotHandler::new(0), 10_000, 100_000);
    pc.set_gains(1_000_000, 0);
    pc.set_max_vel((300_000, 400_000));
    pc.set_path(vec![(900_000_000, 0, 0)]);
    let (v, w) = pc.control((0, 0, 0));
    assert_eq!(v, 300_000);
    assert_eq!(w, 0);
}

#[test]
fn proportional_controller_steers_by_bearing() {
    let mut pc = ProportionalController::new(RobotHandler::new(0), 100_000, 200_000);
    pc.set_path(vec![(1_000_000, 1_000_000, 0)]);
    // Bearing to the waypoint is pi/4; heading 0 leaves an error above the
    // tolerance, so the controller turns with kp * pi/4 plus the derivative
    // term on a zero previous error.
    let (v, w) = pc.control(&(0, 0, 0));
    assert_eq!(pc.state, ProportionalControllerState::Angular);
    assert_eq!(v, 0);
    assert!((w - 78_539).abs() < 300, "angular command {w}");
    // Pointed at the waypoint: drive.
    let (v2, w2) = pc.control(&(0, 0, 785_398));
    assert_eq!(pc.state, ProportionalControllerState::Linear);
    assert!(v2 > 0);
    assert_eq!(w2, 0);
    // Close to the waypoint and pointed at it: step forward, then the
    // exhausted path goes idle.
    assert_eq!(pc.control(&(950_000, 950_000, 785_398)), (0, 0));
    assert_eq!(pc.i, 1);
    assert_eq!(pc.control(&(950_000, 950_000, 785_398)), (0, 0));
    assert_eq!(pc.state, ProportionalControllerState::Idle);
}

#[test]
fn noise_sample_stays_in_band() {
    for _ in 0..200 {
        let s = xiron::noise::noise_sample(10_000);
        assert!(-10_000 < s && s < 10_000);
    }
}
