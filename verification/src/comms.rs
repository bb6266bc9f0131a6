//! The message layer spoken over the socket bridges: typed messages, the
//! envelope that frames them, and the routing of incoming frames.
//!
//! An envelope carries a type tag and an opaque payload. The library frames
//! and unframes envelopes and decides, from the tag, which message the
//! payload holds; encoding and decoding the payloads themselves is the
//! transport caller's business.

use vstd::prelude::*;

verus! {

/// Why an incoming frame was rejected.
#[derive(Debug)]
pub struct CommResponseError {
    /// A short human-readable reason.
    pub reason: String,
}

/// A position payload.
pub struct PositionMsg {
    /// World x, in micro-units.
    pub x: i64,
    /// World y, in micro-units.
    pub y: i64,
}

/// A pose report.
pub struct PoseMsg {
    /// Wall-clock send time, in micro-seconds.
    pub timestamp: i64,
    /// The reporting robot.
    pub robot_id: String,
    /// Its position.
    pub position: Option<PositionMsg>,
    /// Its heading, in micro-radians.
    pub orientation: i64,
}

/// A velocity command.
pub struct TwistMsg {
    /// The addressed robot.
    pub robot_id: String,
    /// Linear velocity components.
    pub linear: Option<PositionMsg>,
    /// Angular velocity, in micro-radians per second.
    pub angular: i64,
}

/// A request to reset the scene.
pub struct ResetMsg {
    /// Wall-clock send time, in micro-seconds.
    pub timestamp: i64,
}

/// One scan report.
pub struct LaserScanMsg {
    /// Wall-clock send time, in micro-seconds.
    pub timestamp: i64,
    /// The reporting robot.
    pub robot_id: String,
    /// First beam angle.
    pub angle_min: i64,
    /// Last beam angle.
    pub angle_max: i64,
    /// Number of beams.
    pub num_readings: i32,
    /// Ranges in beam order.
    pub values: Vec<i64>,
}

/// A message of the bridge, of any kind.
pub enum CommResponse {
    /// A scan report.
    LaserScan(LaserScanMsg),
    /// A pose report.
    Pose(PoseMsg),
    /// A reset request.
    Reset(ResetMsg),
    /// A velocity command.
    Twist(TwistMsg),
}

/// The kind of message an envelope tag announces.
#[derive(Clone, Copy, Debug, PartialEq, Eq, Structural)]
pub enum CommMsgKind {
    /// A velocity command.
    Vel,
    /// A reset request.
    Reset,
    /// A pose report.
    Pose,
    /// A scan report.
    Scan,
}

/// The bytes of the envelope that frames a tagged payload; the envelope
/// format belongs to the wire library, so only its round trip is stated.
pub uninterp spec fn any_wire(url: Seq<char>, value: Seq<u8>) -> Seq<u8>;

/// Relies on prost's `Message::encode_to_vec` over the well-known `Any`
/// type: framing a tag and a payload yields the envelope bytes.
#[verifier::external_body]
fn any_encode(type_url: &String, value: &Vec<u8>) -> (r: Vec<u8>)
    ensures
        r@ == any_wire(type_url@, value@),
{
    let envelope = prost_types::Any { type_url: type_url.clone(), value: value.clone() };
    prost::Message::encode_to_vec(&envelope)
}

/// Relies on prost's `Message::decode` over the well-known `Any` type:
/// decoding the envelope of a framed tag and payload gives them back
/// exactly; of other byte strings nothing is assumed.
#[verifier::external_body]
fn any_decode(data: &Vec<u8>) -> (r: Option<(String, Vec<u8>)>)
    ensures
        (match r {
            Option::Some(p) => forall|u: Seq<char>, v: Seq<u8>|
                data@ == #[trigger] any_wire(u, v) ==> p.0@ == u && p.1@ == v,
            Option::None => forall|u: Seq<char>, v: Seq<u8>| data@ != #[trigger] any_wire(u, v),
        }),
{
    let decoded: Result<prost_types::Any, prost::DecodeError> =
        prost::Message::decode(data.as_slice());
    match decoded {
        Ok(envelope) => Some((envelope.type_url, envelope.value)),
        Err(_) => None,
    }
}

/// Relies on `String::push_str`: appends the characters of a slice.
#[verifier::external_body]
fn append_str(s: &mut String, tail: &str)
    ensures
        final(s)@ == old(s)@ + tail@,
{
    s.push_str(tail);
}

/// Frames a tagged payload into envelope bytes.
pub fn frame_message(type_url: &String, value: &Vec<u8>) -> (r: Vec<u8>)
    ensures
        r@ == any_wire(type_url@, value@),
{
    any_encode(type_url, value)
}

/// Unframes envelope bytes into their tag and payload; bytes that frame a
/// tagged payload always come back as exactly that pair, and anything the
/// wire library rejects is reported.
pub fn unframe_message(data: &Vec<u8>) -> (r: Result<(String, Vec<u8>), CommResponseError>)
    ensures
        forall|u: Seq<char>, v: Seq<u8>|
            data@ == #[trigger] any_wire(u, v) ==> (r matches Result::Ok(p) && p.0@ == u
                && p.1@ == v),
        (match r {
            Result::Err(e) => e.reason@ == "Could not decode Protobuf"@,
            Result::Ok(_) => true,
        }),
{
    match any_decode(data) {
        Option::Some(p) => Result::Ok(p),
        Option::None => Result::Err(CommResponseError {
            reason: "Could not decode Protobuf".to_owned(),
        }),
    }
}

/// Decides which message kind an envelope tag announces, with the exact
/// error text for an unknown tag.
pub fn route_type_url(url: &String) -> (r: Result<CommMsgKind, CommResponseError>)
    ensures
        url@ == "vel"@ ==> r == Result::<CommMsgKind, CommResponseError>::Ok(CommMsgKind::Vel),
        url@ == "reset"@ ==> r == Result::<CommMsgKind, CommResponseError>::Ok(CommMsgKind::Reset),
        url@ == "pose"@ ==> r == Result::<CommMsgKind, CommResponseError>::Ok(CommMsgKind::Pose),
        url@ == "scan"@ ==> r == Result::<CommMsgKind, CommResponseError>::Ok(CommMsgKind::Scan),
        url@ != "vel"@ && url@ != "reset"@ && url@ != "pose"@ && url@ != "scan"@
            ==> (r matches Result::Err(e)
                && e.reason@ == "Unknown msg_type in Protobuf message: "@ + url@),
{
    proof {
        reveal_strlit("vel");
        reveal_strlit("reset");
        reveal_strlit("pose");
        reveal_strlit("scan");
        assert("vel"@.len() == 3);
        assert("reset"@.len() == 5);
        assert("pose"@.len() == 4);
        assert("scan"@.len() == 4);
        assert("pose"@[0] == 'p');
        assert("scan"@[0] == 's');
        assert("vel"@ != "reset"@);
        assert("vel"@ != "pose"@);
        assert("vel"@ != "scan"@);
        assert("reset"@ != "pose"@);
        assert("reset"@ != "scan"@);
        assert("pose"@ != "scan"@);
    }
    let vel: String = "vel".to_owned();
    let reset: String = "reset".to_owned();
    let pose: String = "pose".to_owned();
    let scan: String = "scan".to_owned();
    if url.eq(&vel) {
        Result::Ok(CommMsgKind::Vel)
    } else if url.eq(&reset) {
        Result::Ok(CommMsgKind::Reset)
    } else if url.eq(&pose) {
        Result::Ok(CommMsgKind::Pose)
    } else if url.eq(&scan) {
        Result::Ok(CommMsgKind::Scan)
    } else {
        let mut reason: String = "Unknown msg_type in Protobuf message: ".to_owned();
        append_str(&mut reason, url.as_str());
        Result::Err(CommResponseError { reason })
    }
}

impl CommResponse {
    /// The envelope tag used when sending this message.
    pub fn type_url(&self) -> (r: String)
        ensures
            self matches CommResponse::LaserScan(_) ==> r@ == "scan"@,
            self matches CommResponse::Pose(_) ==> r@ == "pose"@,
            self matches CommResponse::Reset(_) ==> r@ == "reset"@,
            self matches CommResponse::Twist(_) ==> r@ == "twist"@,
    {
        match self {
            CommResponse::LaserScan(_) => "scan".to_owned(),
            CommResponse::Pose(_) => "pose".to_owned(),
            CommResponse::Reset(_) => "reset".to_owned(),
            CommResponse::Twist(_) => "twist".to_owned(),
        }
    }
}

/// The address pair of the socket bridge: one port streams simulation state
/// out, the other takes commands in.
#[derive(Clone, Copy)]
pub struct XironCommServer {
    /// Host address.
    pub url: &'static str,
    /// Port streaming simulation state to clients.
    pub sim_to_client_port: u16,
    /// Port taking client commands in.
    pub client_to_sim_port: u16,
}

impl XironCommServer {
    /// A bridge description for the given address and ports.
    pub fn new(
        url: &'static str,
        sim_to_client_port: u16,
        client_to_sim_port: u16,
    ) -> (r: XironCommServer)
        ensures
            r.url@ == url@,
            r.sim_to_client_port == sim_to_client_port,
            r.client_to_sim_port == client_to_sim_port,
    {
        XironCommServer { url, sim_to_client_port, client_to_sim_port }
    }
}

} // verus!
