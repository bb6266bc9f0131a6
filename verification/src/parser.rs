//! The declarative scene description: the entity-list shape used to build a
//! scene and produced again by export. Reading and writing files is the
//! caller's business; the library only consumes and produces these values.

use vstd::prelude::*;
use crate::robot::DriveType;

verus! {

/// A wall: an ordered open polyline of vertices.
pub struct WallConfig {
    /// The polyline vertices, in world micro-units.
    pub endpoints: Vec<(i64, i64)>,
}

/// A static rectangular obstacle.
pub struct StaticObjConfig {
    /// Centre of the rectangle.
    pub center: (i64, i64),
    /// Full width.
    pub width: i64,
    /// Full height.
    pub height: i64,
    /// Rotation, in micro-radians.
    pub rotation: i64,
}

/// One robot: identity, initial state, footprint and flags.
pub struct RobotConfig {
    /// The robot's name.
    pub id: String,
    /// Initial pose.
    pub pose: (i64, i64, i64),
    /// Initial velocity command.
    pub vel: (i64, i64, i64),
    /// Whether the robot carries a range sensor.
    pub lidar: bool,
    /// Footprint dimensions: one entry for a circle's radius, two for a
    /// rectangle's full width and height.
    pub footprint: Vec<i64>,
    /// The kinematic model.
    pub drive_type: DriveType,
    /// Whether commands and readings are perturbed.
    pub add_noise: bool,
}

/// A whole scene description.
pub struct Config {
    /// The robots.
    pub robots: Vec<RobotConfig>,
    /// The walls.
    pub walls: Vec<WallConfig>,
    /// The static obstacles.
    pub static_objects: Vec<StaticObjConfig>,
}

/// Field-for-field equality of robot descriptions.
pub open spec fn rc_eq(a: RobotConfig, b: RobotConfig) -> bool {
    a.id@ == b.id@
        && a.pose == b.pose
        && a.vel == b.vel
        && a.lidar == b.lidar
        && a.footprint@ == b.footprint@
        && a.drive_type == b.drive_type
        && a.add_noise == b.add_noise
}

/// Field-for-field equality of wall descriptions.
pub open spec fn wc_eq(a: WallConfig, b: WallConfig) -> bool {
    a.endpoints@ == b.endpoints@
}

/// Field-for-field equality of obstacle descriptions.
pub open spec fn sc_eq(a: StaticObjConfig, b: StaticObjConfig) -> bool {
    a.center == b.center && a.width == b.width && a.height == b.height && a.rotation == b.rotation
}

/// Field-for-field equality of scene descriptions.
pub open spec fn config_eq(a: Config, b: Config) -> bool {
    a.robots@.len() == b.robots@.len()
        && (forall|k: int| 0 <= k < a.robots@.len() ==> rc_eq(#[trigger] a.robots@[k], b.robots@[k]))
        && a.walls@.len() == b.walls@.len()
        && (forall|k: int| 0 <= k < a.walls@.len() ==> wc_eq(#[trigger] a.walls@[k], b.walls@[k]))
        && a.static_objects@.len() == b.static_objects@.len()
        && (forall|k: int|
            0 <= k < a.static_objects@.len() ==> sc_eq(
                #[trigger] a.static_objects@[k], b.static_objects@[k],
            ))
}

/// Copies a dimension list.
pub fn dup_dims(src: &Vec<i64>) -> (r: Vec<i64>)
    ensures
        r@ == src@,
{
    let mut out: Vec<i64> = Vec::new();
    let n = src.len();
    let mut i: usize = 0;
    while i < n
        invariant
            n == src@.len(),
            i <= n,
            out@ == src@.take(i as int),
        decreases n - i,
    {
        out.push(src[i]);
        proof {
            assert(out@ =~= src@.take(i as int + 1));
        }
        i = i + 1;
    }
    proof {
        assert(out@ =~= src@);
    }
    out
}

impl RobotConfig {
    /// A field-for-field copy.
    pub fn dup(&self) -> (r: RobotConfig)
        ensures
            rc_eq(r, *self),
    {
        RobotConfig {
            id: self.id.clone(),
            pose: self.pose,
            vel: self.vel,
            lidar: self.lidar,
            footprint: dup_dims(&self.footprint),
            drive_type: self.drive_type,
            add_noise: self.add_noise,
        }
    }
}

impl WallConfig {
    /// A field-for-field copy.
    pub fn dup(&self) -> (r: WallConfig)
        ensures
            wc_eq(r, *self),
    {
        WallConfig { endpoints: crate::wall::clone_points(&self.endpoints) }
    }
}

impl StaticObjConfig {
    /// A field-for-field copy.
    pub fn dup(&self) -> (r: StaticObjConfig)
        ensures
            sc_eq(r, *self),
    {
        StaticObjConfig {
            center: self.center,
            width: self.width,
            height: self.height,
            rotation: self.rotation,
        }
    }
}

impl Config {
    /// A field-for-field copy of the whole description.
    pub fn dup(&self) -> (r: Config)
        ensures
            config_eq(r, *self),
    {
        let mut robots: Vec<RobotConfig> = Vec::new();
        let mut i: usize = 0;
        let nr = self.robots.len();
        while i < nr
            invariant
                nr == self.robots@.len(),
                i <= nr,
                robots@.len() == i as int,
                forall|k: int| 0 <= k < i ==> rc_eq(#[trigger] robots@[k], self.robots@[k]),
            decreases nr - i,
        {
            robots.push(self.robots[i].dup());
            i = i + 1;
        }
        let mut walls: Vec<WallConfig> = Vec::new();
        let nw = self.walls.len();
        let mut j: usize = 0;
        while j < nw
            invariant
                nw == self.walls@.len(),
                j <= nw,
                walls@.len() == j as int,
                forall|k: int| 0 <= k < j ==> wc_eq(#[trigger] walls@[k], self.walls@[k]),
            decreases nw - j,
        {
            walls.push(self.walls[j].dup());
            j = j + 1;
        }
        let mut static_objects: Vec<StaticObjConfig> = Vec::new();
        let ns = self.static_objects.len();
        let mut m: usize = 0;
        while m < ns
            invariant
                ns == self.static_objects@.len(),
                m <= ns,
                static_objects@.len() == m as int,
                forall|k: int|
                    0 <= k < m ==> sc_eq(#[trigger] static_objects@[k], self.static_objects@[k]),
            decreases ns - m,
        {
            static_objects.push(self.static_objects[m].dup());
            m = m + 1;
        }
        Config { robots, walls, static_objects }
    }
}

/// A velocity command addressed to a robot by name.
pub struct Twist {
    /// The addressed robot.
    pub id: String,
    /// The commanded velocity.
    pub vel: (i64, i64, i64),
}

/// A batch of velocity commands.
pub struct TwistArray {
    /// The commands.
    pub twists: Vec<Twist>,
}

/// A robot pose report addressed by name.
pub struct Position {
    /// The reporting robot.
    pub id: String,
    /// Its pose.
    pub pose: (i64, i64, i64),
}

/// A batch of pose reports.
pub struct PositionArray {
    /// The reports.
    pub positions: Vec<Position>,
}

} // verus!
