//! Static rectangular obstacles.

use vstd::prelude::*;
use crate::collidable::{Collidable, ShapeModel};
use crate::parameter::{DIM_MAX, DIM_MIN, POSE_LIMIT, POS_LIMIT};

verus! {

/// An axis-editable rectangular obstacle: centre, full extents, rotation.
#[derive(Clone, Copy, Debug)]
pub struct StaticObj {
    /// Centre of the rectangle.
    pub center: (i64, i64),
    /// Full width.
    pub width: i64,
    /// Full height.
    pub height: i64,
    /// Rotation, in micro-radians.
    pub rotation: i64,
}

/// An obstacle the engine accepts.
pub open spec fn wf_static(s: StaticObj) -> bool {
    -POSE_LIMIT <= s.center.0 <= POSE_LIMIT
        && -POSE_LIMIT <= s.center.1 <= POSE_LIMIT
        && -POS_LIMIT <= s.rotation <= POS_LIMIT
        && 2 * DIM_MIN <= s.width <= 2 * DIM_MAX
        && 2 * DIM_MIN <= s.height <= 2 * DIM_MAX
}

impl StaticObj {
    /// An obstacle with the given centre, extents and rotation.
    pub fn new(center: (i64, i64), width: i64, height: i64, rotation: i64) -> (r: StaticObj)
        ensures
            r.center == center,
            r.width == width,
            r.height == height,
            r.rotation == rotation,
    {
        StaticObj { center, width, height, rotation }
    }

    /// The posed collision shape: a rectangle of half the extents at the
    /// centre, turned by the rotation.
    pub fn get_collidable(&self) -> (r: Collidable)
        requires
            0 <= self.width,
            0 <= self.height,
        ensures
            r.shape == (ShapeModel::Rect {
                half_w: (self.width as int / 2) as i64,
                half_h: (self.height as int / 2) as i64,
            }),
            r.pose == (self.center.0, self.center.1, self.rotation),
    {
        Collidable {
            shape: ShapeModel::Rect { half_w: self.width / 2, half_h: self.height / 2 },
            pose: (self.center.0, self.center.1, self.rotation),
        }
    }

    /// The full extents.
    pub fn get_bounds(&self) -> (r: (i64, i64))
        ensures
            r == (self.width, self.height),
    {
        (self.width, self.height)
    }

    /// The centre.
    pub fn get_center(&self) -> (r: (i64, i64))
        ensures
            r == self.center,
    {
        self.center
    }

    /// The rotation.
    pub fn get_rotation(&self) -> (r: i64)
        ensures
            r == self.rotation,
    {
        self.rotation
    }

    /// The smaller full extent.
    pub fn get_max_extent(&self) -> (r: i64)
        requires
            0 <= self.width,
            0 <= self.height,
        ensures
            r == if self.height <= self.width { self.height } else { self.width },
    {
        if self.height <= self.width { self.height } else { self.width }
    }

    /// Replaces the extents.
    pub fn modify_bounds(&mut self, width: i64, height: i64)
        ensures
            final(self).width == width,
            final(self).height == height,
            final(self).center == old(self).center,
            final(self).rotation == old(self).rotation,
    {
        self.width = width;
        self.height = height;
    }

    /// Moves the centre.
    pub fn modify_position(&mut self, x: i64, y: i64)
        ensures
            final(self).center == (x, y),
            final(self).width == old(self).width,
            final(self).height == old(self).height,
            final(self).rotation == old(self).rotation,
    {
        self.center = (x, y);
    }

    /// Sets the rotation.
    pub fn modify_rotation(&mut self, angle: i64)
        ensures
            final(self).rotation == angle,
            final(self).center == old(self).center,
            final(self).width == old(self).width,
            final(self).height == old(self).height,
    {
        self.rotation = angle;
    }
}

} // verus!
