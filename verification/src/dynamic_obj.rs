//! A scripted circular object that traces a fixed path.

use vstd::prelude::*;
use crate::collidable::{Collidable, ShapeModel};

verus! {

/// A circular object following a pre-recorded list of poses.
pub struct DynamicObj {
    /// The disc radius.
    pub radius: i64,
    /// The poses to trace, in order.
    pub path_to_trace: Vec<(i64, i64, i64)>,
    /// The pose the object currently occupies.
    pub current_pose: (i64, i64, i64),
}

impl DynamicObj {
    /// An object at the start of its path.
    pub fn new(radius: i64, path_to_trace: Vec<(i64, i64, i64)>) -> (r: DynamicObj)
        requires
            path_to_trace@.len() >= 1,
        ensures
            r.radius == radius,
            r.path_to_trace == path_to_trace,
            r.current_pose == path_to_trace@[0],
    {
        let current_pose = path_to_trace[0];
        DynamicObj { radius, path_to_trace, current_pose }
    }

    /// The posed collision shape: a disc at the current pose.
    pub fn get_collidable(&self) -> (r: Collidable)
        ensures
            r.shape == (ShapeModel::Circle { radius: self.radius }),
            r.pose == self.current_pose,
    {
        Collidable {
            shape: ShapeModel::Circle { radius: self.radius },
            pose: self.current_pose,
        }
    }

    /// The current pose.
    pub fn get_pose(&self) -> (r: (i64, i64, i64))
        ensures
            r == self.current_pose,
    {
        self.current_pose
    }
}

} // verus!
