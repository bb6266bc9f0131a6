//! The entity registry and step orchestrator: owns robots, walls and static
//! obstacles, hands out generation-checked handles, and advances the scene
//! one deterministic tick at a time.

use vstd::prelude::*;
use crate::collidable::{wf_collidable, Collidable, ShapeModel};
use crate::kinematics::{dt_ok, pose_in_bounds, wf_vel};
use crate::parameter::{DIM_MAX, DIM_MIN, DT, POSE_LIMIT, POS_LIMIT, VEL_LIMIT};
use crate::parser::{
    config_eq, rc_eq, sc_eq, wc_eq, Config, RobotConfig, StaticObjConfig, WallConfig,
};
use crate::robot::{model_of, wf_robot, DriveType, Footprint, Robot};
use crate::sensors::LiDARMsg;
use crate::static_obj::{wf_static, StaticObj};
use crate::wall::{clone_points, wf_wall, Wall};

verus! {

/// A generation-checked reference to a robot: valid while no structural
/// mutation (reset or removal) has bumped the scene's generation.
#[derive(Clone, Copy, Debug)]
pub struct RobotHandler {
    /// Index into the robot store.
    pub id: usize,
    /// The scene generation the handle was issued under.
    pub generation: u64,
}

impl RobotHandler {
    /// A handle for the given index under the initial generation.
    pub fn new(id: usize) -> (r: RobotHandler)
        ensures
            r.id == id,
            r.generation == 0,
    {
        RobotHandler { id, generation: 0 }
    }
}

/// What a scene query selected.
#[derive(Clone, Copy, Debug, PartialEq, Eq, Structural)]
pub enum SelectedObjectType {
    /// A robot.
    Robot,
    /// A wall or a static obstacle.
    Other,
}

/// An editable parameter of a selected entity.
#[derive(Clone, Copy, Debug, PartialEq, Eq, Structural)]
pub enum ObjectParameterType {
    /// The centre position.
    Position(i64, i64),
    /// The rotation.
    Rotation(i64),
    /// The full extents.
    Bounds(i64, i64),
}

/// The outcome of a handle-taking operation on a missing entity.
#[derive(Clone, Copy, Debug, PartialEq, Eq, Structural)]
pub enum SceneError {
    /// The handle does not refer to a live entity.
    EntityNotFound,
    /// The robot exists but carries no range sensor.
    NoSensor,
}

/// A wall or a static obstacle, behind one capability set.
pub enum GenericObject {
    /// A wall.
    Wall(Wall),
    /// A static obstacle.
    Static(StaticObj),
}

/// Well-formedness of a generic object.
pub open spec fn wf_object(o: GenericObject) -> bool {
    match o {
        GenericObject::Wall(w) => wf_wall(w),
        GenericObject::Static(s) => wf_static(s),
    }
}

/// The posed collision shape of a generic object.
pub open spec fn object_collidable(o: GenericObject) -> Collidable {
    match o {
        GenericObject::Wall(w) => Collidable {
            shape: ShapeModel::Polyline { points: w.coords },
            pose: (0i64, 0i64, 0i64),
        },
        GenericObject::Static(s) => Collidable {
            shape: ShapeModel::Rect {
                half_w: (s.width as int / 2) as i64,
                half_h: (s.height as int / 2) as i64,
            },
            pose: (s.center.0, s.center.1, s.rotation),
        },
    }
}

/// The posed collision shape of a robot.
pub open spec fn robot_collidable(r: Robot) -> Collidable {
    Collidable { shape: model_of(r.shape), pose: r.pose }
}

/// The authoritative scene: robots plus generic objects, with the walls and
/// obstacles also kept by kind for export, the last-loaded description for
/// reset, the handle generation, and the configured tick length.
pub struct SimulationHandler {
    /// The robots, in handle order.
    pub robots: Vec<Robot>,
    /// Walls and static obstacles, in insertion order.
    pub objects: Vec<GenericObject>,
    /// The walls, in insertion order.
    pub walls: Vec<Wall>,
    /// The static obstacles, in insertion order.
    pub static_objects: Vec<StaticObj>,
    /// The path of the last-loaded description, kept for the caller.
    pub filepath: String,
    /// The last-loaded description, the basis of `reset`.
    pub base: Option<Config>,
    /// Bumped by every structural mutation that invalidates handles.
    pub generation: u64,
    /// Tick length in micro-seconds, threaded through construction.
    pub dt: i64,
}

/// Structural well-formedness of a scene.
pub open spec fn wf_scene(s: SimulationHandler) -> bool {
    (forall|k: int| 0 <= k < s.robots@.len() ==> wf_robot(#[trigger] s.robots@[k]))
        && (forall|k: int| 0 <= k < s.objects@.len() ==> wf_object(#[trigger] s.objects@[k]))
        && (forall|k: int| 0 <= k < s.walls@.len() ==> wf_wall(#[trigger] s.walls@[k]))
        && (forall|k: int|
            0 <= k < s.static_objects@.len() ==> wf_static(#[trigger] s.static_objects@[k]))
        && dt_ok(s.dt as int)
}

/// Every robot pose within the band the stepping arithmetic accepts.
pub open spec fn poses_bounded(s: SimulationHandler) -> bool {
    forall|k: int| 0 <= k < s.robots@.len() ==> pose_in_bounds(#[trigger] s.robots@[k].pose)
}

/// The handle refers to a live robot.
pub open spec fn handle_valid(s: SimulationHandler, h: RobotHandler) -> bool {
    h.generation == s.generation && h.id < s.robots@.len()
}

/// The geometric identity of one robot: every field of the declarative
/// description, with the footprint as its extent list.
pub ghost struct RobotView {
    /// The name.
    pub id: Seq<char>,
    /// The pose.
    pub pose: (i64, i64, i64),
    /// The velocity command.
    pub vel: (i64, i64, i64),
    /// Extent list: radius for a disc, full width and height for a box.
    pub footprint: Seq<i64>,
    /// Whether a sensor is attached.
    pub lidar: bool,
    /// The drive type.
    pub drive_type: DriveType,
    /// The noise flag.
    pub add_noise: bool,
}

/// The geometric identity of a whole scene.
pub ghost struct SceneView {
    /// The robots, in handle order.
    pub robots: Seq<RobotView>,
    /// The wall vertex lists, in order.
    pub walls: Seq<Seq<(i64, i64)>>,
    /// The obstacles as (centre, width, height, rotation), in order.
    pub statics: Seq<((i64, i64), i64, i64, i64)>,
}

/// The extent list of a footprint.
pub open spec fn extents_of(f: Footprint) -> Seq<i64> {
    match f {
        Footprint::Circular { radius } => seq![radius],
        Footprint::Rectangular { half_w, half_h } => seq![
            (2 * half_w as int) as i64,
            (2 * half_h as int) as i64,
        ],
    }
}

/// The view of a live robot.
pub open spec fn robot_view(r: Robot) -> RobotView {
    RobotView {
        id: r.id@,
        pose: r.pose,
        vel: r.vel,
        footprint: extents_of(r.shape),
        lidar: r.lidar@.len() > 0,
        drive_type: r.drive_type,
        add_noise: r.add_noise,
    }
}

/// The view of a described robot.
pub open spec fn rc_view(c: RobotConfig) -> RobotView {
    RobotView {
        id: c.id@,
        pose: c.pose,
        vel: c.vel,
        footprint: c.footprint@,
        lidar: c.lidar,
        drive_type: c.drive_type,
        add_noise: c.add_noise,
    }
}

/// The view of a live scene.
pub open spec fn scene_view(s: SimulationHandler) -> SceneView {
    SceneView {
        robots: s.robots@.map_values(|r: Robot| robot_view(r)),
        walls: s.walls@.map_values(|w: Wall| w.coords@),
        statics: s.static_objects@.map_values(
            |o: StaticObj| (o.center, o.width, o.height, o.rotation),
        ),
    }
}

/// The view of a declarative description.
pub open spec fn config_view(c: Config) -> SceneView {
    SceneView {
        robots: c.robots@.map_values(|r: RobotConfig| rc_view(r)),
        walls: c.walls@.map_values(|w: WallConfig| w.endpoints@),
        statics: c.static_objects@.map_values(
            |o: StaticObjConfig| (o.center, o.width, o.height, o.rotation),
        ),
    }
}

/// A described robot the scene accepts.
pub open spec fn wf_robot_config(c: RobotConfig) -> bool {
    pose_in_bounds(c.pose)
        && -crate::kinematics::VEL_WF <= c.vel.0 <= crate::kinematics::VEL_WF
        && -crate::kinematics::VEL_WF <= c.vel.1 <= crate::kinematics::VEL_WF
        && -crate::kinematics::VEL_WF <= c.vel.2 <= crate::kinematics::VEL_WF
        && (c.footprint@.len() == 1 || c.footprint@.len() == 2)
        && (c.footprint@.len() == 1 ==> DIM_MIN <= c.footprint@[0] <= DIM_MAX)
        && (c.footprint@.len() == 2 ==> 2 * DIM_MIN <= c.footprint@[0] <= 2 * DIM_MAX
            && 2 * DIM_MIN <= c.footprint@[1] <= 2 * DIM_MAX)
}

/// A described wall the scene accepts.
pub open spec fn wf_wall_config(c: WallConfig) -> bool {
    c.endpoints@.len() >= 2
        && forall|k: int| 0 <= k < c.endpoints@.len() ==> #[trigger] crate::collidable::wf_pt(
            c.endpoints@[k],
        )
}

/// A described obstacle the scene accepts.
pub open spec fn wf_static_config(c: StaticObjConfig) -> bool {
    -POSE_LIMIT <= c.center.0 <= POSE_LIMIT
        && -POSE_LIMIT <= c.center.1 <= POSE_LIMIT
        && -POS_LIMIT <= c.rotation <= POS_LIMIT
        && 2 * DIM_MIN <= c.width <= 2 * DIM_MAX
        && 2 * DIM_MIN <= c.height <= 2 * DIM_MAX
}

/// A description the scene accepts.
pub open spec fn wf_config(c: Config) -> bool {
    (forall|k: int| 0 <= k < c.robots@.len() ==> wf_robot_config(#[trigger] c.robots@[k]))
        && (forall|k: int| 0 <= k < c.walls@.len() ==> wf_wall_config(#[trigger] c.walls@[k]))
        && (forall|k: int|
            0 <= k < c.static_objects@.len() ==> wf_static_config(
                #[trigger] c.static_objects@[k],
            ))
}

/// Rectangle extents that halve exactly; every exported description has
/// them, since it doubles stored half extents.
pub open spec fn even_extents(c: Config) -> bool {
    forall|k: int|
        0 <= k < c.robots@.len() && (#[trigger] c.robots@[k]).footprint@.len() == 2
            ==> c.robots@[k].footprint@[0] % 2 == 0 && c.robots@[k].footprint@[1] % 2 == 0
}

impl SimulationHandler {
    /// An empty scene at the default tick rate.
    pub fn new() -> (r: SimulationHandler)
        ensures
            r.robots@.len() == 0,
            r.objects@.len() == 0,
            r.walls@.len() == 0,
            r.static_objects@.len() == 0,
            r.filepath@.len() == 0,
            r.base matches Option::None,
            r.generation == 0,
            r.dt == DT,
            wf_scene(r),
    {
        SimulationHandler {
            robots: Vec::new(),
            objects: Vec::new(),
            walls: Vec::new(),
            static_objects: Vec::new(),
            filepath: String::new(),
            base: Option::None,
            generation: 0,
            dt: DT,
        }
    }

    /// Reconfigures the tick length.
    pub fn set_timestep(&mut self, dt: i64)
        requires
            dt_ok(dt as int),
        ensures
            *final(self) == (SimulationHandler { dt, ..*old(self) }),
    {
        self.dt = dt;
    }

    /// Remembers where the description was loaded from.
    pub fn load_file_path(&mut self, path: String)
        ensures
            *final(self) == (SimulationHandler { filepath: path, ..*old(self) }),
    {
        self.filepath = path;
    }

    /// Appends a robot and hands out its name and handle.
    pub fn add_robot(&mut self, robot: Robot) -> (r: (String, RobotHandler))
        ensures
            final(self).robots@ == old(self).robots@.push(robot),
            final(self).objects@ == old(self).objects@,
            final(self).walls@ == old(self).walls@,
            final(self).static_objects@ == old(self).static_objects@,
            final(self).base == old(self).base,
            final(self).generation == old(self).generation,
            final(self).dt == old(self).dt,
            final(self).filepath == old(self).filepath,
            r.0@ == robot.id@,
            r.1.id == old(self).robots@.len(),
            r.1.generation == old(self).generation,
            handle_valid(*final(self), r.1),
    {
        let name = robot.id.clone();
        self.robots.push(robot);
        let h = RobotHandler { id: self.robots.len() - 1, generation: self.generation };
        (name, h)
    }

    /// Appends a wall, both as an object and in the wall store.
    pub fn add_wall(&mut self, wall: Wall)
        ensures
            final(self).walls@.len() == old(self).walls@.len() + 1,
            final(self).walls@[old(self).walls@.len() as int].coords@ == wall.coords@,
            forall|k: int| 0 <= k < old(self).walls@.len()
                ==> #[trigger] final(self).walls@[k] == old(self).walls@[k],
            final(self).objects@.len() == old(self).objects@.len() + 1,
            (final(self).objects@[old(self).objects@.len() as int] matches GenericObject::Wall(w)
                && w.coords@ == wall.coords@),
            forall|k: int| 0 <= k < old(self).objects@.len()
                ==> #[trigger] final(self).objects@[k] == old(self).objects@[k],
            final(self).robots@ == old(self).robots@,
            final(self).static_objects@ == old(self).static_objects@,
            final(self).base == old(self).base,
            final(self).generation == old(self).generation,
            final(self).dt == old(self).dt,
            final(self).filepath == old(self).filepath,
    {
        self.objects.push(GenericObject::Wall(wall.duplicate()));
        self.walls.push(wall);
    }

    /// Appends a static obstacle, both as an object and in its store.
    pub fn add_static_obj(&mut self, obj: StaticObj)
        ensures
            final(self).static_objects@ == old(self).static_objects@.push(obj),
            final(self).objects@.len() == old(self).objects@.len() + 1,
            final(self).objects@[old(self).objects@.len() as int] == GenericObject::Static(obj),
            forall|k: int| 0 <= k < old(self).objects@.len()
                ==> #[trigger] final(self).objects@[k] == old(self).objects@[k],
            final(self).robots@ == old(self).robots@,
            final(self).walls@ == old(self).walls@,
            final(self).base == old(self).base,
            final(self).generation == old(self).generation,
            final(self).dt == old(self).dt,
            final(self).filepath == old(self).filepath,
    {
        self.objects.push(GenericObject::Static(obj));
        self.static_objects.push(obj);
    }

    /// Stores a velocity command for the addressed robot; a stale or
    /// out-of-range handle changes nothing and reports the missing entity.
    pub fn control(&mut self, robot: &RobotHandler, control: (i64, i64, i64)) -> (r: Result<
        (),
        SceneError,
    >)
        requires
            -VEL_LIMIT <= control.0 <= VEL_LIMIT,
            -VEL_LIMIT <= control.1 <= VEL_LIMIT,
            -VEL_LIMIT <= control.2 <= VEL_LIMIT,
        ensures
            !handle_valid(*old(self), *robot) ==> r == Result::<(), SceneError>::Err(
                SceneError::EntityNotFound,
            ) && *final(self) == *old(self),
            handle_valid(*old(self), *robot) ==> r == Result::<(), SceneError>::Ok(())
                && final(self).robots@.len() == old(self).robots@.len()
                && (forall|k: int|
                    0 <= k < old(self).robots@.len() && k != robot.id as int
                        ==> #[trigger] final(self).robots@[k] == old(self).robots@[k])
                && ({
                    let rold = old(self).robots@[robot.id as int];
                    let rnew = final(self).robots@[robot.id as int];
                    rnew.id == rold.id && rnew.pose == rold.pose && rnew.shape == rold.shape
                        && rnew.lidar == rold.lidar && rnew.drive_type == rold.drive_type
                        && rnew.add_noise == rold.add_noise && wf_vel(rnew.vel)
                        && (!rold.add_noise ==> rnew.vel == control)
                        && (rold.add_noise
                            ==> control.0 - 10_000 < rnew.vel.0 < control.0 + 10_000
                            && control.1 - 10_000 < rnew.vel.1 < control.1 + 10_000
                            && control.2 - 10_000 < rnew.vel.2 < control.2 + 10_000)
                })
                && final(self).objects@ == old(self).objects@
                && final(self).walls@ == old(self).walls@
                && final(self).static_objects@ == old(self).static_objects@
                && final(self).base == old(self).base
                && final(self).generation == old(self).generation
                && final(self).dt == old(self).dt
                && final(self).filepath == old(self).filepath,
    {
        if robot.generation != self.generation || robot.id >= self.robots.len() {
            return Result::Err(SceneError::EntityNotFound);
        }
        self.robots[robot.id].control(control);
        Result::Ok(())
    }

    /// The committed pose of the addressed robot; a stale or out-of-range
    /// handle reports the missing entity.
    pub fn get_pose(&self, robot: &RobotHandler) -> (r: Result<(i64, i64, i64), SceneError>)
        ensures
            handle_valid(*self, *robot) ==> r == Result::<(i64, i64, i64), SceneError>::Ok(
                self.robots@[robot.id as int].pose,
            ),
            !handle_valid(*self, *robot) ==> r == Result::<(i64, i64, i64), SceneError>::Err(
                SceneError::EntityNotFound,
            ),
    {
        if robot.generation != self.generation || robot.id >= self.robots.len() {
            return Result::Err(SceneError::EntityNotFound);
        }
        Result::Ok(self.robots[robot.id].pose)
    }

    /// One scan from the addressed robot's sensor, cast against every
    /// object and every robot of the scene (the owner included; its own
    /// body returns distance zero and is discarded by the positive-range
    /// filter). A stale handle or a robot without a sensor is reported.
    pub fn sense(&self, robot: &RobotHandler) -> (r: Result<LiDARMsg, SceneError>)
        requires
            wf_scene(*self),
            poses_bounded(*self),
        ensures
            !handle_valid(*self, *robot) ==> r == Result::<LiDARMsg, SceneError>::Err(
                SceneError::EntityNotFound,
            ),
            handle_valid(*self, *robot) && self.robots@[robot.id as int].lidar@.len() == 0
                ==> r == Result::<LiDARMsg, SceneError>::Err(SceneError::NoSensor),
            handle_valid(*self, *robot) && self.robots@[robot.id as int].lidar@.len() > 0
                ==> (r matches Result::Ok(msg) && {
                    let ld = self.robots@[robot.id as int].lidar@[0];
                    let noise = self.robots@[robot.id as int].add_noise;
                    msg.angle_min == ld.angle_min && msg.angle_max == ld.angle_max
                        && msg.num_readings == ld.num_readings
                        && msg.values@.len() == ld.num_readings as int
                        && (!noise ==> forall|k: int|
                            0 <= k < msg.values@.len() ==> #[trigger] msg.values@[k]
                                == crate::sensors::scan_beam(ld, scene_collidables(*self), k))
                        && (noise ==> forall|k: int|
                            0 <= k < msg.values@.len()
                                ==> crate::sensors::scan_beam(ld, scene_collidables(*self), k)
                                    - crate::sensors::SENSE_NOISE_BAND
                                    < #[trigger] msg.values@[k]
                                    < crate::sensors::scan_beam(ld, scene_collidables(*self), k)
                                    + crate::sensors::SENSE_NOISE_BAND)
                }),
    {
        if robot.generation != self.generation || robot.id >= self.robots.len() {
            return Result::Err(SceneError::EntityNotFound);
        }
        let cs = self.collect_collidables();
        let rb = &self.robots[robot.id];
        if rb.lidar.len() == 0 {
            return Result::Err(SceneError::NoSensor);
        }
        let msg = rb.sense(&cs);
        proof {
            let ld = self.robots@[robot.id as int].lidar@[0];
            assert forall|k: int| 0 <= k < msg.values@.len() implies crate::sensors::scan_beam(
                ld, cs@, k,
            ) == crate::sensors::scan_beam(ld, scene_collidables(*self), k) by {
                crate::sensors::lemma_scan_beam_view(ld, cs@, scene_collidables(*self), k);
            }
        }
        Result::Ok(msg)
    }

    /// Builds the collidable list the sensors and probes run against:
    /// objects first, then robots, each geometrically equal to its scene
    /// entity.
    fn collect_collidables(&self) -> (r: Vec<Collidable>)
        requires
            wf_scene(*self),
            poses_bounded(*self),
        ensures
            r@.len() == scene_collidables(*self).len(),
            forall|k: int| 0 <= k < r@.len() ==> crate::collidable::coll_view_eq(
                #[trigger] r@[k], scene_collidables(*self)[k],
            ),
            forall|k: int| 0 <= k < r@.len() ==> wf_collidable(#[trigger] r@[k]),
    {
        let mut out: Vec<Collidable> = Vec::new();
        let no = self.objects.len();
        let mut j: usize = 0;
        while j < no
            invariant
                no == self.objects@.len(),
                j <= no,
                wf_scene(*self),
                poses_bounded(*self),
                out@.len() == j as int,
                forall|k: int| 0 <= k < j ==> crate::collidable::coll_view_eq(
                    #[trigger] out@[k], object_collidable(self.objects@[k]),
                ),
                forall|k: int| 0 <= k < j ==> wf_collidable(#[trigger] out@[k]),
            decreases no - j,
        {
            proof {
                assert(wf_object(self.objects@[j as int]));
            }
            let c = match &self.objects[j] {
                GenericObject::Wall(w) => w.get_collidable(),
                GenericObject::Static(s) => s.get_collidable(),
            };
            out.push(c);
            j = j + 1;
        }
        let nr = self.robots.len();
        let mut i: usize = 0;
        while i < nr
            invariant
                nr == self.robots@.len(),
                no == self.objects@.len(),
                i <= nr,
                wf_scene(*self),
                poses_bounded(*self),
                out@.len() == no as int + i as int,
                forall|k: int| 0 <= k < no ==> crate::collidable::coll_view_eq(
                    #[trigger] out@[k], object_collidable(self.objects@[k]),
                ),
                forall|k: int| no <= k < no as int + i as int
                    ==> crate::collidable::coll_view_eq(
                        #[trigger] out@[k], robot_collidable(self.robots@[k - no as int]),
                    ),
                forall|k: int| 0 <= k < out@.len() ==> wf_collidable(#[trigger] out@[k]),
            decreases nr - i,
        {
            proof {
                assert(wf_robot(self.robots@[i as int]));
                assert(pose_in_bounds(self.robots@[i as int].pose));
            }
            let c = self.robots[i].get_collidable();
            out.push(c);
            i = i + 1;
        }
        proof {
            assert forall|k: int| 0 <= k < out@.len() implies crate::collidable::coll_view_eq(
                out@[k], #[trigger] scene_collidables(*self)[k],
            ) by {
                if k < no {
                    assert(scene_collidables(*self)[k] == object_collidable(self.objects@[k]));
                } else {
                    assert(scene_collidables(*self)[k]
                        == robot_collidable(self.robots@[k - no as int]));
                }
            }
        }
        out
    }

    /// Builds the posed shapes of the objects alone, in order.
    fn collect_obstacles(&self) -> (r: Vec<Collidable>)
        requires
            wf_scene(*self),
        ensures
            r@.len() == self.objects@.len(),
            forall|k: int| 0 <= k < r@.len() ==> crate::collidable::coll_view_eq(
                #[trigger] r@[k], object_collidable(self.objects@[k]),
            ),
            forall|k: int| 0 <= k < r@.len() ==> wf_collidable(#[trigger] r@[k]),
    {
        let mut out: Vec<Collidable> = Vec::new();
        let no = self.objects.len();
        let mut j: usize = 0;
        while j < no
            invariant
                no == self.objects@.len(),
                j <= no,
                wf_scene(*self),
                out@.len() == j as int,
                forall|k: int| 0 <= k < j ==> crate::collidable::coll_view_eq(
                    #[trigger] out@[k], object_collidable(self.objects@[k]),
                ),
                forall|k: int| 0 <= k < j ==> wf_collidable(#[trigger] out@[k]),
            decreases no - j,
        {
            proof {
                assert(wf_object(self.objects@[j as int]));
            }
            let c = match &self.objects[j] {
                GenericObject::Wall(w) => w.get_collidable(),
                GenericObject::Static(s) => s.get_collidable(),
            };
            out.push(c);
            j = j + 1;
        }
        out
    }

    /// Advances the scene one tick: every robot's proposed pose is computed
    /// from the pre-tick committed state; the earliest impact per robot over
    /// all objects and robot pairs is recorded; a robot with an impact
    /// commits the interpolated pose and stops dead, the others commit the
    /// full proposal; finally every sensor anchor follows its committed
    /// pose. Iteration order is fixed (robot index, then object index), so
    /// identical inputs give identical outputs.
    #[verifier::rlimit(100)]
    pub fn step(&mut self)
        requires
            wf_scene(*old(self)),
            poses_bounded(*old(self)),
        ensures
            final(self).robots@.len() == old(self).robots@.len(),
            final(self).objects@ == old(self).objects@,
            final(self).walls@ == old(self).walls@,
            final(self).static_objects@ == old(self).static_objects@,
            final(self).base == old(self).base,
            final(self).generation == old(self).generation,
            final(self).dt == old(self).dt,
            final(self).filepath == old(self).filepath,
            forall|i: int| 0 <= i < final(self).robots@.len() ==> {
                let rnew = #[trigger] final(self).robots@[i];
                let rold = old(self).robots@[i];
                (rnew.pose.0 as int, rnew.pose.1 as int, rnew.pose.2 as int)
                    == committed_pose(*old(self), i)
                    && (collision_of(*old(self), i) matches Option::Some(_)
                        ==> rnew.vel == (0i64, 0i64, 0i64))
                    && (collision_of(*old(self), i) matches Option::None ==> rnew.vel == rold.vel)
                    && rnew.id == rold.id && rnew.shape == rold.shape
                    && rnew.drive_type == rold.drive_type && rnew.add_noise == rold.add_noise
                    && rnew.lidar@.len() == rold.lidar@.len()
                    && (forall|k: int| 0 <= k < rnew.lidar@.len()
                        ==> (#[trigger] rnew.lidar@[k]).pose == rnew.pose)
                    && -crate::parameter::SWEEP_LIMIT <= rnew.pose.0 <= crate::parameter::SWEEP_LIMIT
                    && -crate::parameter::SWEEP_LIMIT <= rnew.pose.1 <= crate::parameter::SWEEP_LIMIT
            },
            wf_scene(*final(self)),
    {
        let n = self.robots.len();
        let mut next_poses: Vec<(i64, i64, i64)> = Vec::new();
        let mut i: usize = 0;
        while i < n
            invariant
                *self == *old(self),
                n == self.robots@.len(),
                i <= n,
                wf_scene(*self),
                poses_bounded(*self),
                next_poses@.len() == i as int,
                forall|k: int| 0 <= k < i ==> #[trigger] next_poses@[k] == proposed64(*self, k),
                forall|k: int| 0 <= k < i
                    ==> ((#[trigger] next_poses@[k]).0 as int, next_poses@[k].1 as int,
                        next_poses@[k].2 as int) == proposed_pose(*self, k),
                forall|k: int| 0 <= k < i
                    ==> -crate::parameter::SWEEP_LIMIT <= (#[trigger] next_poses@[k]).0
                        <= crate::parameter::SWEEP_LIMIT
                        && -crate::parameter::SWEEP_LIMIT <= next_poses@[k].1
                        <= crate::parameter::SWEEP_LIMIT
                        && -crate::trig::PI <= next_poses@[k].2 <= crate::trig::PI,
            decreases n - i,
        {
            proof {
                assert(wf_robot(self.robots@[i as int]));
                assert(pose_in_bounds(self.robots@[i as int].pose));
            }
            let p = self.robots[i].next(self.dt);
            next_poses.push(p);
            i = i + 1;
        }
        let obstacles = self.collect_obstacles();
        let no = obstacles.len();
        let mut collisions: Vec<Option<i64>> = Vec::new();
        i = 0;
        while i < n
            invariant
                *self == *old(self),
                n == self.robots@.len(),
                no == self.objects@.len(),
                i <= n,
                wf_scene(*self),
                poses_bounded(*self),
                next_poses@.len() == n as int,
                forall|k: int| 0 <= k < n ==> #[trigger] next_poses@[k] == proposed64(*self, k),
                forall|k: int| 0 <= k < n
                    ==> ((#[trigger] next_poses@[k]).0 as int, next_poses@[k].1 as int,
                        next_poses@[k].2 as int) == proposed_pose(*self, k),
                forall|k: int| 0 <= k < n
                    ==> -crate::parameter::SWEEP_LIMIT <= (#[trigger] next_poses@[k]).0
                        <= crate::parameter::SWEEP_LIMIT
                        && -crate::parameter::SWEEP_LIMIT <= next_poses@[k].1
                        <= crate::parameter::SWEEP_LIMIT,
                obstacles@.len() == no as int,
                forall|k: int| 0 <= k < no ==> crate::collidable::coll_view_eq(
                    #[trigger] obstacles@[k], object_collidable(self.objects@[k]),
                ),
                forall|k: int| 0 <= k < no ==> wf_collidable(#[trigger] obstacles@[k]),
                collisions@.len() == i as int,
                forall|k: int| 0 <= k < i
                    ==> #[trigger] collisions@[k] == collision_of(*self, k),
                forall|k: int| 0 <= k < i
                    ==> ((#[trigger] collisions@[k]) matches Option::Some(t)
                        ==> 0 <= t <= 1_000_000),
            decreases n - i,
        {
            proof {
                assert(wf_robot(self.robots@[i as int]));
            }
            let shape_i = match self.robots[i].shape {
                Footprint::Circular { radius } => ShapeModel::Circle { radius },
                Footprint::Rectangular { half_w, half_h } => ShapeModel::Rect { half_w, half_h },
            };
            let start_i = self.robots[i].pose;
            let end_i = next_poses[i];
            let mut acc_o: Option<i64> = Option::None;
            let mut j: usize = no;
            while j > 0
                invariant
                    *self == *old(self),
                    n == self.robots@.len(),
                    no == self.objects@.len(),
                    i < n,
                    j <= no,
                    wf_scene(*self),
                    poses_bounded(*self),
                    shape_i == model_of(self.robots@[i as int].shape),
                    crate::collidable::wf_shape(shape_i),
                    start_i == self.robots@[i as int].pose,
                    end_i == proposed64(*self, i as int),
                    -crate::parameter::SWEEP_LIMIT <= end_i.0 <= crate::parameter::SWEEP_LIMIT,
                    -crate::parameter::SWEEP_LIMIT <= end_i.1 <= crate::parameter::SWEEP_LIMIT,
                    obstacles@.len() == no as int,
                    forall|k: int| 0 <= k < no ==> crate::collidable::coll_view_eq(
                        #[trigger] obstacles@[k], object_collidable(self.objects@[k]),
                    ),
                    forall|k: int| 0 <= k < no ==> wf_collidable(#[trigger] obstacles@[k]),
                    acc_o == obj_toi_from(*self, i as int, j as int),
                    acc_o matches Option::Some(t) ==> 0 <= t <= 1_000_000,
                decreases j,
            {
                j = j - 1;
                let oc = &obstacles[j];
                let t = crate::sweep::swept_toi(
                    &shape_i, start_i, end_i, &oc.shape, oc.pose, oc.pose,
                );
                proof {
                    crate::sweep::lemma_swept_toi_view(
                        shape_i, start_i, end_i,
                        obstacles@[j as int].shape,
                        object_collidable(self.objects@[j as int]).shape,
                        oc.pose, oc.pose,
                    );
                }
                acc_o = crate::sweep::opt_min_exec(t, acc_o);
            }
            let mut acc_r: Option<i64> = Option::None;
            let mut acc_c: Option<i64> = Option::None;
            j = n;
            while j > 0
                invariant
                    *self == *old(self),
                    n == self.robots@.len(),
                    i < n,
                    j <= n,
                    wf_scene(*self),
                    poses_bounded(*self),
                    shape_i == model_of(self.robots@[i as int].shape),
                    crate::collidable::wf_shape(shape_i),
                    start_i == self.robots@[i as int].pose,
                    end_i == proposed64(*self, i as int),
                    -crate::parameter::SWEEP_LIMIT <= end_i.0 <= crate::parameter::SWEEP_LIMIT,
                    -crate::parameter::SWEEP_LIMIT <= end_i.1 <= crate::parameter::SWEEP_LIMIT,
                    next_poses@.len() == n as int,
                    forall|k: int| 0 <= k < n ==> #[trigger] next_poses@[k] == proposed64(*self, k),
                    forall|k: int| 0 <= k < n
                        ==> -crate::parameter::SWEEP_LIMIT <= (#[trigger] next_poses@[k]).0
                            <= crate::parameter::SWEEP_LIMIT
                            && -crate::parameter::SWEEP_LIMIT <= next_poses@[k].1
                            <= crate::parameter::SWEEP_LIMIT,
                    acc_r == row_toi_from(*self, i as int, j as int),
                    acc_c == col_toi_from(*self, i as int, j as int),
                    acc_r matches Option::Some(t) ==> 0 <= t <= 1_000_000,
                    acc_c matches Option::Some(t) ==> 0 <= t <= 1_000_000,
                decreases j,
            {
                j = j - 1;
                if j != i {
                    proof {
                        assert(wf_robot(self.robots@[j as int]));
                        assert(pose_in_bounds(self.robots@[j as int].pose));
                    }
                    let shape_j = match self.robots[j].shape {
                        Footprint::Circular { radius } => ShapeModel::Circle { radius },
                        Footprint::Rectangular { half_w, half_h } => ShapeModel::Rect {
                            half_w,
                            half_h,
                        },
                    };
                    let start_j = self.robots[j].pose;
                    let end_j = next_poses[j];
                    let tr = crate::sweep::swept_toi(
                        &shape_i, start_i, end_i, &shape_j, start_j, end_j,
                    );
                    let tc = crate::sweep::swept_toi(
                        &shape_j, start_j, end_j, &shape_i, start_i, end_i,
                    );
                    acc_r = crate::sweep::opt_min_exec(tr, acc_r);
                    acc_c = crate::sweep::opt_min_exec(tc, acc_c);
                } else {
                    acc_r = crate::sweep::opt_min_exec(Option::None, acc_r);
                    acc_c = crate::sweep::opt_min_exec(Option::None, acc_c);
                }
            }
            let acc = crate::sweep::opt_min_exec(
                acc_o, crate::sweep::opt_min_exec(acc_r, acc_c),
            );
            proof {
                assert(acc == collision_of(*self, i as int));
            }
            collisions.push(acc);
            i = i + 1;
        }
        i = 0;
        while i < n
            invariant
                n == old(self).robots@.len(),
                i <= n,
                self.robots@.len() == n as int,
                self.objects@ == old(self).objects@,
                self.walls@ == old(self).walls@,
                self.static_objects@ == old(self).static_objects@,
                self.base == old(self).base,
                self.generation == old(self).generation,
                self.dt == old(self).dt,
                self.filepath == old(self).filepath,
                next_poses@.len() == n as int,
                forall|k: int| 0 <= k < n
                    ==> #[trigger] next_poses@[k] == proposed64(*old(self), k),
                forall|k: int| 0 <= k < n
                    ==> ((#[trigger] next_poses@[k]).0 as int, next_poses@[k].1 as int,
                        next_poses@[k].2 as int) == proposed_pose(*old(self), k),
                forall|k: int| 0 <= k < n
                    ==> -crate::parameter::SWEEP_LIMIT <= (#[trigger] next_poses@[k]).0
                        <= crate::parameter::SWEEP_LIMIT
                        && -crate::parameter::SWEEP_LIMIT <= next_poses@[k].1
                        <= crate::parameter::SWEEP_LIMIT
                        && -crate::trig::PI <= next_poses@[k].2 <= crate::trig::PI,
                collisions@.len() == n as int,
                forall|k: int| 0 <= k < n
                    ==> #[trigger] collisions@[k] == collision_of(*old(self), k),
                forall|k: int| 0 <= k < n
                    ==> ((#[trigger] collisions@[k]) matches Option::Some(t)
                        ==> 0 <= t <= 1_000_000),
                forall|k: int| i <= k < n
                    ==> #[trigger] self.robots@[k] == old(self).robots@[k],
                forall|k: int| 0 <= k < i ==> {
                    let rnew = #[trigger] self.robots@[k];
                    let rold = old(self).robots@[k];
                    (rnew.pose.0 as int, rnew.pose.1 as int, rnew.pose.2 as int)
                        == committed_pose(*old(self), k)
                        && (collision_of(*old(self), k) matches Option::Some(_)
                            ==> rnew.vel == (0i64, 0i64, 0i64))
                        && (collision_of(*old(self), k) matches Option::None
                            ==> rnew.vel == rold.vel)
                        && rnew.id == rold.id && rnew.shape == rold.shape
                        && rnew.drive_type == rold.drive_type && rnew.add_noise == rold.add_noise
                        && rnew.lidar@.len() == rold.lidar@.len()
                        && (forall|m: int| 0 <= m < rnew.lidar@.len()
                            ==> (#[trigger] rnew.lidar@[m]).pose == rnew.pose)
                        && wf_robot(rnew)
                        && -crate::parameter::SWEEP_LIMIT <= rnew.pose.0
                            <= crate::parameter::SWEEP_LIMIT
                        && -crate::parameter::SWEEP_LIMIT <= rnew.pose.1
                            <= crate::parameter::SWEEP_LIMIT
                },
                wf_scene(*old(self)),
                poses_bounded(*old(self)),
            decreases n - i,
        {
            proof {
                assert(self.robots@[i as int] == old(self).robots@[i as int]);
                assert(wf_robot(old(self).robots@[i as int]));
                assert(pose_in_bounds(old(self).robots@[i as int].pose));
            }
            match collisions[i] {
                Option::Some(t) => {
                    let start = self.robots[i].pose;
                    let end = next_poses[i];
                    let cp = crate::utils::interpolate_pose(&start, &end, t);
                    self.robots[i].step(&cp);
                    zero_vel(&mut self.robots[i]);
                },
                Option::None => {
                    let end = next_poses[i];
                    self.robots[i].step(&end);
                },
            }
            i = i + 1;
        }
        proof {
            assert forall|k: int| 0 <= k < self.robots@.len()
                implies wf_robot(#[trigger] self.robots@[k]) by {}
        }
    }

    /// Whether the addressed robot, probed at the given pose, is within the
    /// overlap threshold of any object of the scene.
    pub fn collision_status_at(&self, roboth: &RobotHandler, pose: &(i64, i64, i64)) -> (r: Result<
        bool,
        SceneError,
    >)
        requires
            wf_scene(*self),
            crate::collidable::sweep_pose_ok(*pose),
        ensures
            !handle_valid(*self, *roboth) ==> r == Result::<bool, SceneError>::Err(
                SceneError::EntityNotFound,
            ),
            handle_valid(*self, *roboth) ==> r == Result::<bool, SceneError>::Ok(
                collision_at(*self, roboth.id as int, *pose),
            ),
    {
        if roboth.generation != self.generation || roboth.id >= self.robots.len() {
            return Result::Err(SceneError::EntityNotFound);
        }
        let shape = match self.robots[roboth.id].shape {
            Footprint::Circular { radius } => ShapeModel::Circle { radius },
            Footprint::Rectangular { half_w, half_h } => ShapeModel::Rect { half_w, half_h },
        };
        proof {
            assert(wf_robot(self.robots@[roboth.id as int]));
        }
        let no = self.objects.len();
        let mut j: usize = 0;
        while j < no
            invariant
                no == self.objects@.len(),
                j <= no,
                wf_scene(*self),
                crate::collidable::sweep_pose_ok(*pose),
                handle_valid(*self, *roboth),
                shape == model_of(self.robots@[roboth.id as int].shape),
                crate::collidable::wf_shape(shape),
                forall|k: int| 0 <= k < j ==> !obj_within_at(
                    *self, roboth.id as int, *pose, k,
                ),
            decreases no - j,
        {
            proof {
                assert(wf_object(self.objects@[j as int]));
            }
            let oc = match &self.objects[j] {
                GenericObject::Wall(w) => w.get_collidable(),
                GenericObject::Static(s) => s.get_collidable(),
            };
            let hit = crate::collidable::posed_within_exec(
                &shape, *pose, &oc.shape, oc.pose, crate::parameter::OVERLAP_MARGIN,
            );
            proof {
                lemma_posed_within_view(
                    shape, *pose, oc.shape,
                    object_collidable(self.objects@[j as int]).shape,
                    oc.pose, crate::parameter::OVERLAP_MARGIN as int,
                );
            }
            if hit {
                proof {
                    assert(obj_within_at(*self, roboth.id as int, *pose, j as int));
                }
                return Result::Ok(true);
            }
            j = j + 1;
        }
        Result::Ok(false)
    }

    /// The current description of the scene: every robot, wall and obstacle
    /// field-for-field; the exported view equals the live view.
    pub fn to_config(&self) -> (r: Config)
        requires
            wf_scene(*self),
        ensures
            config_view(r) == scene_view(*self),
            even_extents(r),
            poses_bounded(*self) ==> wf_config(r),
    {
        let mut robot_config_vectors: Vec<RobotConfig> = Vec::new();
        let nr = self.robots.len();
        let mut i: usize = 0;
        while i < nr
            invariant
                nr == self.robots@.len(),
                i <= nr,
                wf_scene(*self),
                robot_config_vectors@.len() == i as int,
                forall|k: int| 0 <= k < i
                    ==> rc_view(#[trigger] robot_config_vectors@[k])
                        == robot_view(self.robots@[k]),
                forall|k: int| 0 <= k < i
                    ==> (#[trigger] robot_config_vectors@[k]).footprint@.len() == 2
                        ==> robot_config_vectors@[k].footprint@[0] % 2 == 0
                            && robot_config_vectors@[k].footprint@[1] % 2 == 0,
                forall|k: int| 0 <= k < i && pose_in_bounds(self.robots@[k].pose)
                    ==> wf_robot_config(#[trigger] robot_config_vectors@[k]),
            decreases nr - i,
        {
            proof {
                assert(wf_robot(self.robots@[i as int]));
            }
            robot_config_vectors.push(self.robots[i].into_config());
            i = i + 1;
        }
        let mut wall_config_vector: Vec<WallConfig> = Vec::new();
        let nw = self.walls.len();
        let mut j: usize = 0;
        while j < nw
            invariant
                nw == self.walls@.len(),
                j <= nw,
                wf_scene(*self),
                wall_config_vector@.len() == j as int,
                forall|k: int| 0 <= k < j
                    ==> (#[trigger] wall_config_vector@[k]).endpoints@ == self.walls@[k].coords@,
            decreases nw - j,
        {
            wall_config_vector.push(WallConfig { endpoints: clone_points(&self.walls[j].coords) });
            j = j + 1;
        }
        let mut static_objects_config: Vec<StaticObjConfig> = Vec::new();
        let ns = self.static_objects.len();
        let mut m: usize = 0;
        while m < ns
            invariant
                ns == self.static_objects@.len(),
                m <= ns,
                wf_scene(*self),
                static_objects_config@.len() == m as int,
                forall|k: int| 0 <= k < m
                    ==> (#[trigger] static_objects_config@[k]).center
                        == self.static_objects@[k].center
                        && static_objects_config@[k].width == self.static_objects@[k].width
                        && static_objects_config@[k].height == self.static_objects@[k].height
                        && static_objects_config@[k].rotation == self.static_objects@[k].rotation,
            decreases ns - m,
        {
            let o = &self.static_objects[m];
            static_objects_config.push(StaticObjConfig {
                center: o.center,
                width: o.width,
                height: o.height,
                rotation: o.rotation,
            });
            m = m + 1;
        }
        let r = Config {
            robots: robot_config_vectors,
            walls: wall_config_vector,
            static_objects: static_objects_config,
        };
        proof {
            assert(config_view(r).robots =~= scene_view(*self).robots);
            assert(config_view(r).walls =~= scene_view(*self).walls);
            assert(config_view(r).statics =~= scene_view(*self).statics);
            assert(config_view(r) == scene_view(*self));
        }
        r
    }

    /// The first entity whose axis-aligned bound box encloses the point, in
    /// iteration order: robots before generic objects. Despite the name
    /// this is a first-match lookup, not a nearest-neighbour search, and a
    /// wall (with empty bounds) is never selected.
    pub fn get_nearest_object(&self, x: i64, y: i64) -> (r: (Option<SelectedObjectType>, i32))
        requires
            self.robots@.len() < 0x8000_0000,
            self.objects@.len() < 0x8000_0000,
        ensures
            r == nearest_spec(*self, x as int, y as int),
    {
        let nr = self.robots.len();
        let mut i: usize = 0;
        while i < nr
            invariant
                nr == self.robots@.len(),
                nr < 0x8000_0000,
                i <= nr,
                forall|k: int| 0 <= k < i ==> !robot_hit(#[trigger] self.robots@[k], x as int, y as int),
            decreases nr - i,
        {
            let robot = &self.robots[i];
            let (rx, ry) = (robot.pose.0, robot.pose.1);
            let hit = match robot.shape {
                Footprint::Circular { radius } => {
                    abs_lt(rx, x, radius) && abs_lt(ry, y, radius)
                },
                Footprint::Rectangular { half_w, half_h } => {
                    abs_lt(rx, x, half_w) && abs_lt(ry, y, half_h)
                },
            };
            if hit {
                proof {
                    lemma_find_robot_skip(self.robots@, x as int, y as int, i as int);
                }
                return (Option::Some(SelectedObjectType::Robot), i as i32);
            }
            i = i + 1;
        }
        let no = self.objects.len();
        let mut j: usize = 0;
        while j < no
            invariant
                no == self.objects@.len(),
                no < 0x8000_0000,
                j <= no,
                forall|k: int| 0 <= k < nr
                    ==> !robot_hit(#[trigger] self.robots@[k], x as int, y as int),
                nr == self.robots@.len(),
                forall|k: int| 0 <= k < j ==> !object_hit(#[trigger] self.objects@[k], x as int, y as int),
            decreases no - j,
        {
            let hit = match &self.objects[j] {
                GenericObject::Wall(_) => false,
                GenericObject::Static(s) => {
                    abs_lt(x, s.center.0, s.width) && abs_lt(y, s.center.1, s.height)
                },
            };
            if hit {
                proof {
                    lemma_find_robot_skip(self.robots@, x as int, y as int, nr as int);
                    lemma_find_object_skip(self.objects@, x as int, y as int, j as int);
                }
                return (Option::Some(SelectedObjectType::Other), j as i32);
            }
            j = j + 1;
        }
        proof {
            lemma_find_robot_skip(self.robots@, x as int, y as int, nr as int);
            lemma_find_object_skip(self.objects@, x as int, y as int, no as int);
        }
        (Option::None, -1)
    }

    /// Reads one editor parameter of a selected entity; with nothing
    /// selected, a zero rotation is reported.
    pub fn get_parameters_of_selected_object(
        &self,
        selected_object: (Option<SelectedObjectType>, i32),
        parameter_type: ObjectParameterType,
    ) -> (r: ObjectParameterType)
        requires
            wf_scene(*self),
            selected_object.0 == Some(SelectedObjectType::Robot)
                ==> 0 <= selected_object.1 < self.robots@.len(),
            selected_object.0 == Some(SelectedObjectType::Other)
                ==> 0 <= selected_object.1 < self.objects@.len(),
        ensures
            selected_object.0 matches Option::None ==> r == ObjectParameterType::Rotation(0i64),
            selected_object.0 == Some(SelectedObjectType::Robot) ==> {
                let rb = self.robots@[selected_object.1 as int];
                match parameter_type {
                    ObjectParameterType::Bounds(_, _) => r == ObjectParameterType::Bounds(
                        crate::robot::bounds_of(rb.shape).0, crate::robot::bounds_of(rb.shape).1,
                    ),
                    ObjectParameterType::Rotation(_) => r == ObjectParameterType::Rotation(
                        rb.pose.2,
                    ),
                    ObjectParameterType::Position(_, _) => r == ObjectParameterType::Position(
                        rb.pose.0, rb.pose.1,
                    ),
                }
            },
            selected_object.0 == Some(SelectedObjectType::Other) ==> {
                let o = self.objects@[selected_object.1 as int];
                match parameter_type {
                    ObjectParameterType::Bounds(_, _) => r == ObjectParameterType::Bounds(
                        object_bounds(o).0, object_bounds(o).1,
                    ),
                    ObjectParameterType::Rotation(_) => r == ObjectParameterType::Rotation(
                        object_rotation(o),
                    ),
                    ObjectParameterType::Position(_, _) => r == ObjectParameterType::Position(
                        object_center(o).0, object_center(o).1,
                    ),
                }
            },
    {
        let (selected_type, index) = selected_object;
        match selected_type {
            Option::Some(t) => match t {
                SelectedObjectType::Robot => {
                    proof {
                        assert(wf_robot(self.robots@[index as int]));
                    }
                    let rb = &self.robots[index as usize];
                    match parameter_type {
                        ObjectParameterType::Bounds(_w, _h) => {
                            let bounds = rb.get_bounds();
                            ObjectParameterType::Bounds(bounds.0, bounds.1)
                        },
                        ObjectParameterType::Rotation(_angle) => {
                            ObjectParameterType::Rotation(rb.get_rotation())
                        },
                        ObjectParameterType::Position(_x, _y) => {
                            let position = rb.get_center();
                            ObjectParameterType::Position(position.0, position.1)
                        },
                    }
                },
                SelectedObjectType::Other => {
                    let o = &self.objects[index as usize];
                    match parameter_type {
                        ObjectParameterType::Bounds(_w, _h) => {
                            let bounds = match o {
                                GenericObject::Wall(w) => w.get_bounds(),
                                GenericObject::Static(s) => s.get_bounds(),
                            };
                            ObjectParameterType::Bounds(bounds.0, bounds.1)
                        },
                        ObjectParameterType::Rotation(_angle) => {
                            let angle = match o {
                                GenericObject::Wall(w) => w.get_rotation(),
                                GenericObject::Static(s) => s.get_rotation(),
                            };
                            ObjectParameterType::Rotation(angle)
                        },
                        ObjectParameterType::Position(_x, _y) => {
                            let position = match o {
                                GenericObject::Wall(w) => w.get_center(),
                                GenericObject::Static(s) => s.get_center(),
                            };
                            ObjectParameterType::Position(position.0, position.1)
                        },
                    }
                },
            },
            Option::None => ObjectParameterType::Rotation(0),
        }
    }

    /// Writes one editor parameter of a selected entity. A wall ignores
    /// every edit; an edited obstacle changes only among the generic
    /// objects, as the export store keeps the originally added value.
    pub fn change_parameters_of_selected_object(
        &mut self,
        selected_object: (Option<SelectedObjectType>, i32),
        parameter_type: ObjectParameterType,
    )
        requires
            selected_object.0 == Some(SelectedObjectType::Robot)
                ==> 0 <= selected_object.1 < old(self).robots@.len(),
            selected_object.0 == Some(SelectedObjectType::Other)
                ==> 0 <= selected_object.1 < old(self).objects@.len(),
            (match parameter_type {
                ObjectParameterType::Bounds(w, h) => selected_object.0 == Some(
                    SelectedObjectType::Robot,
                ) ==> DIM_MIN <= w <= DIM_MAX && DIM_MIN <= h <= DIM_MAX && (old(
                    self,
                ).robots@[selected_object.1 as int].shape matches Footprint::Rectangular { .. }
                    ==> 2 * DIM_MIN <= w && 2 * DIM_MIN <= h),
                _ => true,
            }),
        ensures
            final(self).walls@ == old(self).walls@,
            final(self).static_objects@ == old(self).static_objects@,
            final(self).base == old(self).base,
            final(self).generation == old(self).generation,
            final(self).dt == old(self).dt,
            final(self).filepath == old(self).filepath,
            selected_object.0 matches Option::None ==> *final(self) == *old(self),
            selected_object.0 == Some(SelectedObjectType::Robot) ==> {
                final(self).objects@ == old(self).objects@
                    && final(self).robots@.len() == old(self).robots@.len()
                    && (forall|k: int| 0 <= k < old(self).robots@.len()
                        && k != selected_object.1 as int
                        ==> #[trigger] final(self).robots@[k] == old(self).robots@[k])
                    && robot_edited(
                        old(self).robots@[selected_object.1 as int],
                        final(self).robots@[selected_object.1 as int],
                        parameter_type,
                    )
            },
            selected_object.0 == Some(SelectedObjectType::Other) ==> {
                final(self).robots@ == old(self).robots@
                    && final(self).objects@.len() == old(self).objects@.len()
                    && (forall|k: int| 0 <= k < old(self).objects@.len()
                        && k != selected_object.1 as int
                        ==> #[trigger] final(self).objects@[k] == old(self).objects@[k])
                    && object_edited(
                        old(self).objects@[selected_object.1 as int],
                        final(self).objects@[selected_object.1 as int],
                        parameter_type,
                    )
            },
    {
        let (selected_type, index) = selected_object;
        match selected_type {
            Option::Some(t) => match t {
                SelectedObjectType::Robot => {
                    match parameter_type {
                        ObjectParameterType::Bounds(w, h) => {
                            self.robots[index as usize].modify_bounds(w, h);
                        },
                        ObjectParameterType::Rotation(angle) => {
                            self.robots[index as usize].modify_rotation(angle);
                        },
                        ObjectParameterType::Position(x, y) => {
                            self.robots[index as usize].modify_position(x, y);
                        },
                    }
                },
                SelectedObjectType::Other => {
                    match &mut self.objects[index as usize] {
                        GenericObject::Wall(_) => {},
                        GenericObject::Static(s) => {
                            match parameter_type {
                                ObjectParameterType::Bounds(w, h) => {
                                    s.modify_bounds(w, h);
                                },
                                ObjectParameterType::Rotation(angle) => {
                                    s.modify_rotation(angle);
                                },
                                ObjectParameterType::Position(x, y) => {
                                    s.modify_position(x, y);
                                },
                            }
                        },
                    }
                },
            },
            Option::None => {},
        }
    }

    /// Removes a selected entity; later indices shift down, so every handle
    /// is invalidated by bumping the generation.
    pub fn delete_selected_object(&mut self, selected_object: (Option<SelectedObjectType>, i32))
        requires
            selected_object.0 == Some(SelectedObjectType::Robot)
                ==> 0 <= selected_object.1 < old(self).robots@.len(),
            selected_object.0 == Some(SelectedObjectType::Other)
                ==> 0 <= selected_object.1 < old(self).objects@.len(),
            old(self).generation < 0xffff_ffff_ffff_ffffu64,
        ensures
            final(self).walls@ == old(self).walls@,
            final(self).static_objects@ == old(self).static_objects@,
            final(self).base == old(self).base,
            final(self).dt == old(self).dt,
            final(self).filepath == old(self).filepath,
            selected_object.0 matches Option::None ==> final(self).robots@ == old(self).robots@
                && final(self).objects@ == old(self).objects@
                && final(self).generation == old(self).generation,
            selected_object.0 == Some(SelectedObjectType::Robot)
                ==> final(self).robots@ == old(self).robots@.remove(selected_object.1 as int)
                    && final(self).objects@ == old(self).objects@
                    && final(self).generation == old(self).generation + 1,
            selected_object.0 == Some(SelectedObjectType::Other)
                ==> final(self).objects@ == old(self).objects@.remove(selected_object.1 as int)
                    && final(self).robots@ == old(self).robots@
                    && final(self).generation == old(self).generation + 1,
    {
        let (selected_type, index) = selected_object;
        match selected_type {
            Option::Some(t) => match t {
                SelectedObjectType::Other => {
                    let _val = self.objects.remove(index as usize);
                    self.generation = self.generation + 1;
                },
                SelectedObjectType::Robot => {
                    let _val = self.robots.remove(index as usize);
                    self.generation = self.generation + 1;
                },
            },
            Option::None => {},
        }
    }

    /// Pixel coordinate of a world position: the drawn world spans the
    /// configured limits at the configured resolution, with the y axis
    /// flipped.
    pub fn tf_function(pos: (i64, i64)) -> (r: (i64, i64))
        requires
            -POS_LIMIT <= pos.0 <= POS_LIMIT,
            -POS_LIMIT <= pos.1 <= POS_LIMIT,
        ensures
            r.0 == crate::fp::tdiv(pos.0 - crate::parameter::XLIM_LO, crate::parameter::RESOLUTION as int),
            r.1 == crate::fp::tdiv(crate::parameter::YLIM_HI - pos.1, crate::parameter::RESOLUTION as int),
    {
        let i = div64(pos.0 - crate::parameter::XLIM_LO, crate::parameter::RESOLUTION);
        let j = div64(crate::parameter::YLIM_HI - pos.1, crate::parameter::RESOLUTION);
        (i, j)
    }

    /// World position of a pixel coordinate: the inverse of
    /// [`SimulationHandler::tf_function`], up to the pixel resolution.
    pub fn get_world_from_pixel(px: i64, py: i64) -> (r: (i64, i64))
        requires
            -1_000_000_000_000 <= px <= 1_000_000_000_000,
            -1_000_000_000_000 <= py <= 1_000_000_000_000,
        ensures
            r.0 == crate::parameter::XLIM_LO + px * crate::parameter::RESOLUTION,
            r.1 == crate::parameter::YLIM_HI - py * crate::parameter::RESOLUTION,
    {
        proof {
            crate::fp::lemma_abs_mul_le(px as int, crate::parameter::RESOLUTION as int, 1_000_000_000_000, 25_000);
            crate::fp::lemma_abs_mul_le(py as int, crate::parameter::RESOLUTION as int, 1_000_000_000_000, 25_000);
        }
        let wx = (crate::parameter::XLIM_LO as i128 + px as i128 * crate::parameter::RESOLUTION as i128) as i64;
        let wy = (crate::parameter::YLIM_HI as i128 - py as i128 * crate::parameter::RESOLUTION as i128) as i64;
        (wx, wy)
    }

    /// A pixel count scaled into world micro-units.
    pub fn scale_function(value: i64) -> (r: i64)
        requires
            -1_000_000_000_000 <= value <= 1_000_000_000_000,
        ensures
            r == value * crate::parameter::RESOLUTION,
    {
        proof {
            crate::fp::lemma_abs_mul_le(value as int, crate::parameter::RESOLUTION as int, 1_000_000_000_000, 25_000);
        }
        (value as i128 * crate::parameter::RESOLUTION as i128) as i64
    }

    /// A world length in micro-units scaled into pixels.
    pub fn inverse_scale_function(value: i64) -> (r: i64)
        requires
            value > i64::MIN,
        ensures
            r == crate::fp::tdiv(value as int, crate::parameter::RESOLUTION as int),
    {
        div64(value, crate::parameter::RESOLUTION)
    }

    /// Fills an empty scene from a description: robots first, then walls,
    /// then obstacles, preserving each list's order.
    fn populate(&mut self, config: &Config) -> (r: Vec<(String, RobotHandler)>)
        requires
            wf_config(*config),
            old(self).robots@.len() == 0,
            old(self).objects@.len() == 0,
            old(self).walls@.len() == 0,
            old(self).static_objects@.len() == 0,
        ensures
            built_matches(*final(self), *config),
            final(self).base == old(self).base,
            final(self).generation == old(self).generation,
            final(self).dt == old(self).dt,
            final(self).filepath == old(self).filepath,
            wf_scene(*final(self)) || !dt_ok(old(self).dt as int),
            poses_bounded(*final(self)),
            r@.len() == config.robots@.len(),
            forall|k: int| 0 <= k < r@.len() ==> (#[trigger] r@[k]).0@ == config.robots@[k].id@
                && r@[k].1.id == k && r@[k].1.generation == old(self).generation,
    {
        let mut handles: Vec<(String, RobotHandler)> = Vec::new();
        let nr = config.robots.len();
        let mut i: usize = 0;
        while i < nr
            invariant
                nr == config.robots@.len(),
                i <= nr,
                wf_config(*config),
                self.objects@.len() == 0,
                self.walls@.len() == 0,
                self.static_objects@.len() == 0,
                self.base == old(self).base,
                self.generation == old(self).generation,
                self.dt == old(self).dt,
                self.filepath == old(self).filepath,
                self.robots@.len() == i as int,
                forall|k: int| 0 <= k < i
                    ==> robot_matches_rc(#[trigger] self.robots@[k], config.robots@[k]),
                forall|k: int| 0 <= k < i ==> wf_robot(#[trigger] self.robots@[k]),
                forall|k: int| 0 <= k < i ==> pose_in_bounds(#[trigger] self.robots@[k].pose),
                handles@.len() == i as int,
                forall|k: int| 0 <= k < i
                    ==> (#[trigger] handles@[k]).0@ == config.robots@[k].id@
                        && handles@[k].1.id == k
                        && handles@[k].1.generation == old(self).generation,
            decreases nr - i,
        {
            proof {
                assert(wf_robot_config(config.robots@[i as int]));
            }
            let rc = &config.robots[i];
            let robot = Robot::new(
                rc.id.clone(),
                rc.pose,
                rc.vel,
                rc.lidar,
                crate::parser::dup_dims(&rc.footprint),
                rc.drive_type,
                rc.add_noise,
            );
            let h = self.add_robot(robot);
            handles.push(h);
            i = i + 1;
        }
        let nw = config.walls.len();
        let mut j: usize = 0;
        while j < nw
            invariant
                nw == config.walls@.len(),
                nr == config.robots@.len(),
                j <= nw,
                wf_config(*config),
                self.robots@.len() == nr as int,
                forall|k: int| 0 <= k < nr
                    ==> robot_matches_rc(#[trigger] self.robots@[k], config.robots@[k]),
                forall|k: int| 0 <= k < nr ==> wf_robot(#[trigger] self.robots@[k]),
                forall|k: int| 0 <= k < nr ==> pose_in_bounds(#[trigger] self.robots@[k].pose),
                self.static_objects@.len() == 0,
                self.base == old(self).base,
                self.generation == old(self).generation,
                self.dt == old(self).dt,
                self.filepath == old(self).filepath,
                self.walls@.len() == j as int,
                forall|k: int| 0 <= k < j
                    ==> (#[trigger] self.walls@[k]).coords@ == config.walls@[k].endpoints@,
                self.objects@.len() == j as int,
                forall|k: int| 0 <= k < j
                    ==> ((#[trigger] self.objects@[k]) matches GenericObject::Wall(w)
                        && w.coords@ == config.walls@[k].endpoints@),
                handles@.len() == nr as int,
                forall|k: int| 0 <= k < nr
                    ==> (#[trigger] handles@[k]).0@ == config.robots@[k].id@
                        && handles@[k].1.id == k
                        && handles@[k].1.generation == old(self).generation,
            decreases nw - j,
        {
            proof {
                assert(wf_wall_config(config.walls@[j as int]));
            }
            let w = Wall::new(clone_points(&config.walls[j].endpoints));
            self.add_wall(w);
            j = j + 1;
        }
        let ns = config.static_objects.len();
        let mut m: usize = 0;
        while m < ns
            invariant
                ns == config.static_objects@.len(),
                nr == config.robots@.len(),
                nw == config.walls@.len(),
                m <= ns,
                wf_config(*config),
                self.robots@.len() == nr as int,
                forall|k: int| 0 <= k < nr
                    ==> robot_matches_rc(#[trigger] self.robots@[k], config.robots@[k]),
                forall|k: int| 0 <= k < nr ==> wf_robot(#[trigger] self.robots@[k]),
                forall|k: int| 0 <= k < nr ==> pose_in_bounds(#[trigger] self.robots@[k].pose),
                self.base == old(self).base,
                self.generation == old(self).generation,
                self.dt == old(self).dt,
                self.filepath == old(self).filepath,
                self.walls@.len() == nw as int,
                forall|k: int| 0 <= k < nw
                    ==> (#[trigger] self.walls@[k]).coords@ == config.walls@[k].endpoints@,
                self.static_objects@.len() == m as int,
                forall|k: int| 0 <= k < m
                    ==> sobj_matches(#[trigger] self.static_objects@[k], config.static_objects@[k]),
                self.objects@.len() == nw as int + m as int,
                forall|k: int| 0 <= k < nw
                    ==> ((#[trigger] self.objects@[k]) matches GenericObject::Wall(w)
                        && w.coords@ == config.walls@[k].endpoints@),
                forall|k: int| nw <= k < nw as int + m as int
                    ==> ((#[trigger] self.objects@[k]) matches GenericObject::Static(s)
                        && sobj_matches(s, config.static_objects@[k - nw as int])),
                handles@.len() == nr as int,
                forall|k: int| 0 <= k < nr
                    ==> (#[trigger] handles@[k]).0@ == config.robots@[k].id@
                        && handles@[k].1.id == k
                        && handles@[k].1.generation == old(self).generation,
            decreases ns - m,
        {
            proof {
                assert(wf_static_config(config.static_objects@[m as int]));
            }
            let c = &config.static_objects[m];
            let o = StaticObj::new(c.center, c.width, c.height, c.rotation);
            self.add_static_obj(o);
            m = m + 1;
        }
        handles
    }

    /// Builds a scene from a declarative description and hands back the
    /// robots' names and handles; the description is kept as the basis of
    /// `reset`.
    pub fn from_config(config: &Config) -> (r: (SimulationHandler, Vec<(String, RobotHandler)>))
        requires
            wf_config(*config),
        ensures
            built_matches(r.0, *config),
            even_extents(*config) ==> scene_view(r.0) == config_view(*config),
            (r.0.base matches Option::Some(b) && config_eq(b, *config)),
            r.0.generation == 0,
            r.0.dt == DT,
            wf_scene(r.0),
            poses_bounded(r.0),
            r.1@.len() == config.robots@.len(),
            forall|k: int| 0 <= k < r.1@.len() ==> (#[trigger] r.1@[k]).0@ == config.robots@[k].id@
                && r.1@[k].1.id == k && r.1@[k].1.generation == 0,
    {
        let mut sim = SimulationHandler::new();
        let handles = sim.populate(config);
        sim.base = Option::Some(config.dup());
        proof {
            lemma_built_view(sim, *config);
        }
        (sim, handles)
    }

    /// Clears the scene and rebuilds it from the last-loaded description,
    /// invalidating every previously issued handle; with no description
    /// loaded, the scene stays empty.
    pub fn reset(&mut self) -> (r: Vec<(String, RobotHandler)>)
        requires
            wf_scene(*old(self)),
            old(self).generation < 0xffff_ffff_ffff_ffffu64,
        ensures
            final(self).generation == old(self).generation + 1,
            final(self).base == old(self).base,
            final(self).dt == old(self).dt,
            final(self).filepath == old(self).filepath,
            old(self).base matches Option::None ==> final(self).robots@.len() == 0
                && final(self).objects@.len() == 0 && final(self).walls@.len() == 0
                && final(self).static_objects@.len() == 0 && r@.len() == 0,
            (match old(self).base {
                Option::Some(b) => wf_config(b) ==> built_matches(*final(self), b)
                    && r@.len() == b.robots@.len()
                    && (forall|k: int| 0 <= k < r@.len()
                        ==> (#[trigger] r@[k]).0@ == b.robots@[k].id@
                            && r@[k].1.id == k
                            && r@[k].1.generation == old(self).generation + 1)
                    && wf_scene(*final(self))
                    && poses_bounded(*final(self)),
                Option::None => true,
            }),
    {
        self.robots.clear();
        self.objects.clear();
        self.walls.clear();
        self.static_objects.clear();
        self.generation = self.generation + 1;
        let dup: Option<Config> = match &self.base {
            Option::Some(cfg) => Option::Some(cfg.dup()),
            Option::None => Option::None,
        };
        match dup {
            Option::Some(cfg) => {
                if check_config(&cfg) {
                    let handles = self.populate(&cfg);
                    proof {
                        match old(self).base {
                            Option::Some(b) => {
                                lemma_built_matches_eq(*self, cfg, b);
                            },
                            Option::None => {},
                        }
                    }
                    handles
                } else {
                    proof {
                        match old(self).base {
                            Option::Some(b) => {
                                lemma_config_eq_wf(cfg, b);
                            },
                            Option::None => {},
                        }
                    }
                    Vec::new()
                }
            },
            Option::None => Vec::new(),
        }
    }
}

/// Truncating division of a machine word by a positive divisor.
fn div64(a: i64, b: i64) -> (r: i64)
    requires
        b > 0,
        a > i64::MIN,
    ensures
        r == crate::fp::tdiv(a as int, b as int),
{
    if a >= 0 {
        a / b
    } else {
        -((-a) / b)
    }
}

/// Magnitude of an integer.
pub open spec fn absi(v: int) -> int {
    if v >= 0 { v } else { -v }
}

/// Whether `|a - b| < bound`, computed exactly on wide integers.
fn abs_lt(a: i64, b: i64, bound: i64) -> (r: bool)
    ensures
        r == (absi(a as int - b as int) < bound as int),
{
    let d: i128 = a as i128 - b as i128;
    let m: i128 = if d >= 0 { d } else { -d };
    m < bound as i128
}

/// The point falls within the axis-aligned bound box of a robot.
pub open spec fn robot_hit(r: Robot, x: int, y: int) -> bool {
    match r.shape {
        Footprint::Circular { radius } => absi(r.pose.0 as int - x) < radius as int
            && absi(r.pose.1 as int - y) < radius as int,
        Footprint::Rectangular { half_w, half_h } => absi(r.pose.0 as int - x) < half_w as int
            && absi(r.pose.1 as int - y) < half_h as int,
    }
}

/// The point falls within the reported bounds of a generic object; a wall
/// reports empty bounds and is never hit.
pub open spec fn object_hit(o: GenericObject, x: int, y: int) -> bool {
    match o {
        GenericObject::Wall(_) => false,
        GenericObject::Static(s) => absi(x - s.center.0 as int) < s.width as int
            && absi(y - s.center.1 as int) < s.height as int,
    }
}

/// The first robot, from index `i` onward, hit by the point.
pub open spec fn find_robot_from(robots: Seq<Robot>, x: int, y: int, i: int) -> Option<int>
    decreases robots.len() - i,
{
    if i < 0 || i >= robots.len() {
        Option::None
    } else if robot_hit(robots[i], x, y) {
        Option::Some(i)
    } else {
        find_robot_from(robots, x, y, i + 1)
    }
}

/// The first object, from index `i` onward, hit by the point.
pub open spec fn find_object_from(objects: Seq<GenericObject>, x: int, y: int, i: int) -> Option<int>
    decreases objects.len() - i,
{
    if i < 0 || i >= objects.len() {
        Option::None
    } else if object_hit(objects[i], x, y) {
        Option::Some(i)
    } else {
        find_object_from(objects, x, y, i + 1)
    }
}

/// A search that has missed every earlier robot starts where it stands.
proof fn lemma_find_robot_skip(robots: Seq<Robot>, x: int, y: int, i: int)
    requires
        0 <= i <= robots.len(),
        forall|k: int| 0 <= k < i ==> !robot_hit(#[trigger] robots[k], x, y),
    ensures
        find_robot_from(robots, x, y, 0) == find_robot_from(robots, x, y, i),
    decreases i,
{
    if i > 0 {
        lemma_find_robot_skip(robots, x, y, i - 1);
        assert(find_robot_from(robots, x, y, i - 1) == find_robot_from(robots, x, y, i));
    }
}

/// A search that has missed every earlier object starts where it stands.
proof fn lemma_find_object_skip(objects: Seq<GenericObject>, x: int, y: int, i: int)
    requires
        0 <= i <= objects.len(),
        forall|k: int| 0 <= k < i ==> !object_hit(#[trigger] objects[k], x, y),
    ensures
        find_object_from(objects, x, y, 0) == find_object_from(objects, x, y, i),
    decreases i,
{
    if i > 0 {
        lemma_find_object_skip(objects, x, y, i - 1);
        assert(find_object_from(objects, x, y, i - 1) == find_object_from(objects, x, y, i));
    }
}

/// The first-match selection: robots before generic objects, else nothing.
pub open spec fn nearest_spec(s: SimulationHandler, x: int, y: int) -> (
    Option<SelectedObjectType>,
    i32,
) {
    match find_robot_from(s.robots@, x, y, 0) {
        Option::Some(i) => (Option::Some(SelectedObjectType::Robot), i as i32),
        Option::None => match find_object_from(s.objects@, x, y, 0) {
            Option::Some(j) => (Option::Some(SelectedObjectType::Other), j as i32),
            Option::None => (Option::None, -1i32),
        },
    }
}

/// The reported bounds of a generic object.
pub open spec fn object_bounds(o: GenericObject) -> (i64, i64) {
    match o {
        GenericObject::Wall(_) => (0i64, 0i64),
        GenericObject::Static(s) => (s.width, s.height),
    }
}

/// The reported centre of a generic object.
pub open spec fn object_center(o: GenericObject) -> (i64, i64) {
    match o {
        GenericObject::Wall(_) => (0i64, 0i64),
        GenericObject::Static(s) => s.center,
    }
}

/// The reported rotation of a generic object.
pub open spec fn object_rotation(o: GenericObject) -> i64 {
    match o {
        GenericObject::Wall(_) => 0i64,
        GenericObject::Static(s) => s.rotation,
    }
}

/// The effect of one parameter edit on a robot.
pub open spec fn robot_edited(rold: Robot, rnew: Robot, p: ObjectParameterType) -> bool {
    rnew.id == rold.id && rnew.vel == rold.vel && rnew.lidar == rold.lidar
        && rnew.drive_type == rold.drive_type && rnew.add_noise == rold.add_noise
        && match p {
        ObjectParameterType::Bounds(w, h) => rnew.pose == rold.pose && (match rold.shape {
            Footprint::Circular { .. } => rnew.shape == (Footprint::Circular { radius: w }),
            Footprint::Rectangular { .. } => rnew.shape == (Footprint::Rectangular {
                half_w: (w as int / 2) as i64,
                half_h: (h as int / 2) as i64,
            }),
        }),
        ObjectParameterType::Rotation(a) => rnew.shape == rold.shape && rnew.pose == (
            rold.pose.0,
            rold.pose.1,
            a,
        ),
        ObjectParameterType::Position(x, y) => rnew.shape == rold.shape && rnew.pose == (
            x,
            y,
            rold.pose.2,
        ),
    }
}

/// The effect of one parameter edit on a generic object: a wall ignores it.
pub open spec fn object_edited(oold: GenericObject, onew: GenericObject, p: ObjectParameterType) -> bool {
    match oold {
        GenericObject::Wall(_) => onew == oold,
        GenericObject::Static(s) => onew matches GenericObject::Static(sn) && (match p {
            ObjectParameterType::Bounds(w, h) => sn == (StaticObj { width: w, height: h, ..s }),
            ObjectParameterType::Rotation(a) => sn == (StaticObj { rotation: a, ..s }),
            ObjectParameterType::Position(x, y) => sn == (StaticObj { center: (x, y), ..s }),
        }),
    }
}

/// Stops a robot dead: the fully inelastic response to an impact.
fn zero_vel(r: &mut Robot)
    ensures
        final(r).vel == (0i64, 0i64, 0i64),
        final(r).id == old(r).id,
        final(r).pose == old(r).pose,
        final(r).shape == old(r).shape,
        final(r).lidar == old(r).lidar,
        final(r).drive_type == old(r).drive_type,
        final(r).add_noise == old(r).add_noise,
{
    r.vel = (0, 0, 0);
}

/// Descriptions equal field for field are accepted alike.
proof fn lemma_config_eq_wf(a: Config, b: Config)
    requires
        config_eq(a, b),
    ensures
        wf_config(a) <==> wf_config(b),
{
    if wf_config(a) {
        assert forall|k: int| 0 <= k < b.robots@.len() implies wf_robot_config(
            #[trigger] b.robots@[k],
        ) by {
            assert(rc_eq(a.robots@[k], b.robots@[k]));
            assert(wf_robot_config(a.robots@[k]));
        }
        assert forall|k: int| 0 <= k < b.walls@.len() implies wf_wall_config(
            #[trigger] b.walls@[k],
        ) by {
            assert(wc_eq(a.walls@[k], b.walls@[k]));
            assert(wf_wall_config(a.walls@[k]));
        }
        assert forall|k: int| 0 <= k < b.static_objects@.len() implies wf_static_config(
            #[trigger] b.static_objects@[k],
        ) by {
            assert(sc_eq(a.static_objects@[k], b.static_objects@[k]));
            assert(wf_static_config(a.static_objects@[k]));
        }
    }
    if wf_config(b) {
        assert forall|k: int| 0 <= k < a.robots@.len() implies wf_robot_config(
            #[trigger] a.robots@[k],
        ) by {
            assert(rc_eq(a.robots@[k], b.robots@[k]));
            assert(wf_robot_config(b.robots@[k]));
        }
        assert forall|k: int| 0 <= k < a.walls@.len() implies wf_wall_config(
            #[trigger] a.walls@[k],
        ) by {
            assert(wc_eq(a.walls@[k], b.walls@[k]));
            assert(wf_wall_config(b.walls@[k]));
        }
        assert forall|k: int| 0 <= k < a.static_objects@.len() implies wf_static_config(
            #[trigger] a.static_objects@[k],
        ) by {
            assert(sc_eq(a.static_objects@[k], b.static_objects@[k]));
            assert(wf_static_config(b.static_objects@[k]));
        }
    }
}

/// A scene that realises one description realises every field-for-field
/// equal description.
proof fn lemma_built_matches_eq(s: SimulationHandler, a: Config, b: Config)
    requires
        built_matches(s, a),
        config_eq(a, b),
    ensures
        built_matches(s, b),
{
    assert forall|k: int| 0 <= k < b.robots@.len() implies robot_matches_rc(
        #[trigger] s.robots@[k], b.robots@[k],
    ) by {
        assert(rc_eq(a.robots@[k], b.robots@[k]));
        assert(robot_matches_rc(s.robots@[k], a.robots@[k]));
    }
    assert forall|k: int| 0 <= k < b.walls@.len() implies (#[trigger] s.walls@[k]).coords@
        == b.walls@[k].endpoints@ by {
        assert(wc_eq(a.walls@[k], b.walls@[k]));
    }
    assert forall|k: int| 0 <= k < b.static_objects@.len() implies sobj_matches(
        #[trigger] s.static_objects@[k], b.static_objects@[k],
    ) by {
        assert(sc_eq(a.static_objects@[k], b.static_objects@[k]));
    }
    assert forall|k: int| 0 <= k < b.walls@.len() implies (#[trigger] s.objects@[k]) matches
        GenericObject::Wall(w) && w.coords@ == b.walls@[k].endpoints@ by {
        assert(wc_eq(a.walls@[k], b.walls@[k]));
        assert(s.objects@[k] matches GenericObject::Wall(w) && w.coords@ == a.walls@[k].endpoints@);
    }
    assert forall|k: int|
        b.walls@.len() <= k < b.walls@.len() + b.static_objects@.len() implies (
    #[trigger] s.objects@[k]) matches GenericObject::Static(o) && sobj_matches(
        o, b.static_objects@[k - b.walls@.len()],
    ) by {
        assert(sc_eq(
            a.static_objects@[k - a.walls@.len()], b.static_objects@[k - b.walls@.len()],
        ));
        assert(s.objects@[k] matches GenericObject::Static(o) && sobj_matches(
            o, a.static_objects@[k - a.walls@.len()],
        ));
    }
}

/// One live robot realises one described robot: every field carried over,
/// the footprint decoded into the matching shape, the sensor re-anchored at
/// the described pose.
pub open spec fn robot_matches_rc(r: Robot, c: RobotConfig) -> bool {
    r.id@ == c.id@
        && r.pose == c.pose
        && r.vel == c.vel
        && r.drive_type == c.drive_type
        && r.add_noise == c.add_noise
        && r.lidar@.len() == (if c.lidar { 1int } else { 0int })
        && (c.lidar ==> r.lidar@[0].pose == c.pose)
        && (c.footprint@.len() == 1 ==> r.shape == (Footprint::Circular {
            radius: c.footprint@[0],
        }))
        && (c.footprint@.len() == 2 ==> r.shape == (Footprint::Rectangular {
            half_w: (c.footprint@[0] as int / 2) as i64,
            half_h: (c.footprint@[1] as int / 2) as i64,
        }))
}

/// One described obstacle realised.
pub open spec fn sobj_matches(s: StaticObj, c: StaticObjConfig) -> bool {
    s.center == c.center && s.width == c.width && s.height == c.height && s.rotation == c.rotation
}

/// A freshly built scene realises a description entity for entity, in
/// order: robots by handle, walls then obstacles among the objects.
pub open spec fn built_matches(s: SimulationHandler, c: Config) -> bool {
    s.robots@.len() == c.robots@.len()
        && (forall|k: int| 0 <= k < c.robots@.len()
            ==> robot_matches_rc(#[trigger] s.robots@[k], c.robots@[k]))
        && s.walls@.len() == c.walls@.len()
        && (forall|k: int| 0 <= k < c.walls@.len()
            ==> (#[trigger] s.walls@[k]).coords@ == c.walls@[k].endpoints@)
        && s.static_objects@.len() == c.static_objects@.len()
        && (forall|k: int| 0 <= k < c.static_objects@.len()
            ==> sobj_matches(#[trigger] s.static_objects@[k], c.static_objects@[k]))
        && s.objects@.len() == c.walls@.len() + c.static_objects@.len()
        && (forall|k: int| 0 <= k < c.walls@.len()
            ==> ((#[trigger] s.objects@[k]) matches GenericObject::Wall(w)
                && w.coords@ == c.walls@[k].endpoints@))
        && (forall|k: int| c.walls@.len() <= k < c.walls@.len() + c.static_objects@.len()
            ==> ((#[trigger] s.objects@[k]) matches GenericObject::Static(o)
                && sobj_matches(o, c.static_objects@[k - c.walls@.len()])))
}

/// A scene that realises a description with exactly halvable extents shows
/// the same view.
proof fn lemma_built_view(s: SimulationHandler, c: Config)
    requires
        built_matches(s, c),
        wf_config(c),
    ensures
        even_extents(c) ==> scene_view(s) == config_view(c),
{
    if even_extents(c) {
        assert forall|k: int| 0 <= k < c.robots@.len() implies robot_view(s.robots@[k])
            == rc_view(#[trigger] c.robots@[k]) by {
            assert(robot_matches_rc(s.robots@[k], c.robots@[k]));
            assert(wf_robot_config(c.robots@[k]));
            let fp = c.robots@[k].footprint@;
            if fp.len() == 1 {
                assert(extents_of(s.robots@[k].shape) =~= fp);
            } else {
                assert(fp[0] % 2 == 0 && fp[1] % 2 == 0);
                assert(2 * (fp[0] as int / 2) == fp[0] as int);
                assert(2 * (fp[1] as int / 2) == fp[1] as int);
                assert(extents_of(s.robots@[k].shape) =~= fp);
            }
        }
        assert(scene_view(s).robots =~= config_view(c).robots);
        assert(scene_view(s).walls =~= config_view(c).walls);
        assert(scene_view(s).statics =~= config_view(c).statics);
        assert(scene_view(s) == config_view(c));
    }
}

/// Checks that a description lies within the bands the scene accepts.
pub fn check_config(config: &Config) -> (r: bool)
    ensures
        r == wf_config(*config),
{
    let nr = config.robots.len();
    let mut i: usize = 0;
    while i < nr
        invariant
            nr == config.robots@.len(),
            i <= nr,
            forall|k: int| 0 <= k < i ==> wf_robot_config(#[trigger] config.robots@[k]),
        decreases nr - i,
    {
        let c = &config.robots[i];
        let pose_ok = -POSE_LIMIT <= c.pose.0 && c.pose.0 <= POSE_LIMIT
            && -POSE_LIMIT <= c.pose.1 && c.pose.1 <= POSE_LIMIT
            && -POSE_LIMIT <= c.pose.2 && c.pose.2 <= POSE_LIMIT;
        let vel_ok = -crate::kinematics::VEL_WF <= c.vel.0 && c.vel.0 <= crate::kinematics::VEL_WF
            && -crate::kinematics::VEL_WF <= c.vel.1 && c.vel.1 <= crate::kinematics::VEL_WF
            && -crate::kinematics::VEL_WF <= c.vel.2 && c.vel.2 <= crate::kinematics::VEL_WF;
        let fp_ok = if c.footprint.len() == 1 {
            DIM_MIN <= c.footprint[0] && c.footprint[0] <= DIM_MAX
        } else if c.footprint.len() == 2 {
            2 * DIM_MIN <= c.footprint[0] && c.footprint[0] <= 2 * DIM_MAX
                && 2 * DIM_MIN <= c.footprint[1] && c.footprint[1] <= 2 * DIM_MAX
        } else {
            false
        };
        if !(pose_ok && vel_ok && fp_ok) {
            proof {
                assert(!wf_robot_config(config.robots@[i as int]));
            }
            return false;
        }
        i = i + 1;
    }
    let nw = config.walls.len();
    let mut j: usize = 0;
    while j < nw
        invariant
            nw == config.walls@.len(),
            j <= nw,
            forall|k: int| 0 <= k < j ==> wf_wall_config(#[trigger] config.walls@[k]),
        decreases nw - j,
    {
        let w = &config.walls[j];
        if w.endpoints.len() < 2 {
            proof {
                assert(!wf_wall_config(config.walls@[j as int]));
            }
            return false;
        }
        let np = w.endpoints.len();
        let mut p: usize = 0;
        while p < np
            invariant
                nw == config.walls@.len(),
                j < nw,
                w.endpoints@ == config.walls@[j as int].endpoints@,
                np == w.endpoints@.len(),
                p <= np,
                forall|k: int| 0 <= k < p ==> #[trigger] crate::collidable::wf_pt(w.endpoints@[k]),
            decreases np - p,
        {
            let v = w.endpoints[p];
            if !(-POSE_LIMIT <= v.0 && v.0 <= POSE_LIMIT && -POSE_LIMIT <= v.1 && v.1 <= POSE_LIMIT) {
                proof {
                    assert(config.walls@[j as int].endpoints@[p as int] == v);
                    assert(!crate::collidable::wf_pt(config.walls@[j as int].endpoints@[p as int]));
                    assert(!wf_wall_config(config.walls@[j as int]));
                }
                return false;
            }
            p = p + 1;
        }
        j = j + 1;
    }
    let ns = config.static_objects.len();
    let mut m: usize = 0;
    while m < ns
        invariant
            ns == config.static_objects@.len(),
            m <= ns,
            forall|k: int| 0 <= k < m ==> wf_static_config(#[trigger] config.static_objects@[k]),
        decreases ns - m,
    {
        let o = &config.static_objects[m];
        let ok = -POSE_LIMIT <= o.center.0 && o.center.0 <= POSE_LIMIT
            && -POSE_LIMIT <= o.center.1 && o.center.1 <= POSE_LIMIT
            && -POS_LIMIT <= o.rotation && o.rotation <= POS_LIMIT
            && 2 * DIM_MIN <= o.width && o.width <= 2 * DIM_MAX
            && 2 * DIM_MIN <= o.height && o.height <= 2 * DIM_MAX;
        if !ok {
            proof {
                assert(!wf_static_config(config.static_objects@[m as int]));
            }
            return false;
        }
        m = m + 1;
    }
    true
}

/// The proposed next pose of robot `i`: one integration step of its drive
/// model from the committed state, before any collision handling.
pub open spec fn proposed_pose(s: SimulationHandler, i: int) -> (int, int, int) {
    let r = s.robots@[i];
    crate::kinematics::next_pose_spec(
        r.pose, r.vel, r.drive_type, crate::robot::axle_of(r.shape), s.dt as int,
    )
}

/// The proposed next pose as machine words.
pub open spec fn proposed64(s: SimulationHandler, i: int) -> (i64, i64, i64) {
    let p = proposed_pose(s, i);
    (p.0 as i64, p.1 as i64, p.2 as i64)
}

/// Earliest impact between the swept robots `i` and `j` this tick.
pub open spec fn pair_toi(s: SimulationHandler, i: int, j: int) -> Option<i64> {
    crate::sweep::swept_toi_of(
        model_of(s.robots@[i].shape), s.robots@[i].pose, proposed64(s, i),
        model_of(s.robots@[j].shape), s.robots@[j].pose, proposed64(s, j),
    )
}

/// Earliest impact between the swept robot `i` and the static object `j`.
pub open spec fn obj_toi(s: SimulationHandler, i: int, j: int) -> Option<i64> {
    let oc = object_collidable(s.objects@[j]);
    crate::sweep::swept_toi_of(
        model_of(s.robots@[i].shape), s.robots@[i].pose, proposed64(s, i),
        oc.shape, oc.pose, oc.pose,
    )
}

/// Minimum impact of robot `i` over the objects from `j` onward.
pub open spec fn obj_toi_from(s: SimulationHandler, i: int, j: int) -> Option<i64>
    decreases s.objects@.len() - j,
{
    if j < 0 || j >= s.objects@.len() {
        Option::None
    } else {
        crate::sweep::opt_min(obj_toi(s, i, j), obj_toi_from(s, i, j + 1))
    }
}

/// Minimum impact of robot `i` sweeping against the robots from `j` onward.
pub open spec fn row_toi_from(s: SimulationHandler, i: int, j: int) -> Option<i64>
    decreases s.robots@.len() - j,
{
    if j < 0 || j >= s.robots@.len() {
        Option::None
    } else {
        crate::sweep::opt_min(
            if j == i { Option::None } else { pair_toi(s, i, j) },
            row_toi_from(s, i, j + 1),
        )
    }
}

/// Minimum impact of the robots from `j` onward sweeping against robot `i`.
pub open spec fn col_toi_from(s: SimulationHandler, i: int, j: int) -> Option<i64>
    decreases s.robots@.len() - j,
{
    if j < 0 || j >= s.robots@.len() {
        Option::None
    } else {
        crate::sweep::opt_min(
            if j == i { Option::None } else { pair_toi(s, j, i) },
            col_toi_from(s, i, j + 1),
        )
    }
}

/// The earliest impact recorded for robot `i` this tick: the minimum over
/// every object and every ordered robot pair it takes part in.
pub open spec fn collision_of(s: SimulationHandler, i: int) -> Option<i64> {
    crate::sweep::opt_min(
        obj_toi_from(s, i, 0),
        crate::sweep::opt_min(row_toi_from(s, i, 0), col_toi_from(s, i, 0)),
    )
}

/// The pose robot `i` commits this tick: the full proposed pose without a
/// recorded impact, else the start and proposed poses interpolated
/// component-wise at the impact fraction (the heading linearly, with no
/// wraparound correction).
pub open spec fn committed_pose(s: SimulationHandler, i: int) -> (int, int, int) {
    let r = s.robots@[i];
    let p = proposed64(s, i);
    match collision_of(s, i) {
        Option::Some(t) => (
            crate::utils::lerp(r.pose.0 as int, p.0 as int, t as int),
            crate::utils::lerp(r.pose.1 as int, p.1 as int, t as int),
            crate::utils::lerp(r.pose.2 as int, p.2 as int, t as int),
        ),
        Option::None => proposed_pose(s, i),
    }
}

/// The collidables a scan or probe runs against: objects first, then
/// robots, mirroring the insertion orders.
pub open spec fn scene_collidables(s: SimulationHandler) -> Seq<Collidable> {
    s.objects@.map_values(|o: GenericObject| object_collidable(o)) + s.robots@.map_values(
        |r: Robot| robot_collidable(r),
    )
}

/// The robot with the given index, probed at the given pose, is within the
/// overlap threshold of object `j`.
pub open spec fn obj_within_at(s: SimulationHandler, i: int, pose: (i64, i64, i64), j: int) -> bool {
    crate::collidable::posed_within(
        model_of(s.robots@[i].shape),
        pose,
        object_collidable(s.objects@[j]).shape,
        object_collidable(s.objects@[j]).pose,
        crate::parameter::OVERLAP_MARGIN as int,
    )
}

/// The robot with the given index, probed at the given pose, is within the
/// overlap threshold of some object.
pub open spec fn collision_at(s: SimulationHandler, i: int, pose: (i64, i64, i64)) -> bool {
    exists|j: int| 0 <= j < s.objects@.len() && #[trigger] obj_within_at(s, i, pose, j)
}

/// The proximity predicate depends only on the geometry of the second
/// shape, not on which vector value carries a polyline's vertices.
proof fn lemma_posed_within_view(
    sa: ShapeModel, pa: (i64, i64, i64), sb1: ShapeModel, sb2: ShapeModel,
    pb: (i64, i64, i64), m: int,
)
    requires
        crate::collidable::shape_view_eq(sb1, sb2),
    ensures
        crate::collidable::posed_within(sa, pa, sb1, pb, m)
            == crate::collidable::posed_within(sa, pa, sb2, pb, m),
{
}

/// Reading a pose is free of side effects and a function of the scene
/// alone: two consecutive reads of the same handle with no intervening
/// stepping or command between them report the identical value, because
/// the report is pinned to the stored committed pose of the handle's
/// robot.
pub proof fn lemma_get_pose_idempotent(s1: SimulationHandler, s2: SimulationHandler, h: RobotHandler)
    requires
        s1.robots@ == s2.robots@,
        s1.generation == s2.generation,
    ensures
        handle_valid(s1, h) == handle_valid(s2, h),
        handle_valid(s1, h) ==> s1.robots@[h.id as int].pose == s2.robots@[h.id as int].pose,
{
}

/// Exporting a scene and rebuilding from the export reproduces the same
/// geometric view: every robot, wall and obstacle comes back field for
/// field. The hypotheses are exactly the contracts of `to_config` and
/// `from_config` on the export `c`.
pub proof fn lemma_export_reimport(s1: SimulationHandler, c: Config, s2: SimulationHandler)
    requires
        config_view(c) == scene_view(s1),
        even_extents(c),
        even_extents(c) ==> scene_view(s2) == config_view(c),
    ensures
        scene_view(s2) == scene_view(s1),
{
}

} // verus!
