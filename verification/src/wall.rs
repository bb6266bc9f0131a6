//! Walls: ordered open polylines with no interior; collision is against the
//! segments only.

use vstd::prelude::*;
use crate::collidable::{Collidable, ShapeModel, wf_pt};

verus! {

/// A wall: an ordered open chain of world-anchored vertices.
pub struct Wall {
    /// The vertices, in order.
    pub coords: Vec<(i64, i64)>,
}

/// A wall the engine accepts: at least one segment, vertices in range.
pub open spec fn wf_wall(w: Wall) -> bool {
    w.coords@.len() >= 2 && forall|k: int| 0 <= k < w.coords@.len() ==> #[trigger] wf_pt(w.coords@[k])
}

/// Copies a vertex list.
pub fn clone_points(src: &Vec<(i64, i64)>) -> (r: Vec<(i64, i64)>)
    ensures
        r@ == src@,
{
    let mut out: Vec<(i64, i64)> = Vec::new();
    let n = src.len();
    let mut i: usize = 0;
    while i < n
        invariant
            n == src@.len(),
            i <= n,
            out@ == src@.take(i as int),
        decreases n - i,
    {
        out.push(src[i]);
        proof {
            assert(out@ =~= src@.take(i as int + 1));
        }
        i = i + 1;
    }
    proof {
        assert(out@ =~= src@);
    }
    out
}

impl Wall {
    /// A wall along the given vertices.
    pub fn new(coords: Vec<(i64, i64)>) -> (r: Wall)
        requires
            coords@.len() >= 2,
            forall|k: int| 0 <= k < coords@.len() ==> #[trigger] wf_pt(coords@[k]),
        ensures
            r.coords == coords,
            wf_wall(r),
    {
        Wall { coords }
    }

    /// An identical wall.
    pub fn duplicate(&self) -> (r: Wall)
        ensures
            r.coords@ == self.coords@,
    {
        Wall { coords: clone_points(&self.coords) }
    }

    /// The posed collision shape: the polyline itself, at the identity
    /// pose, since the vertices are world coordinates.
    pub fn get_collidable(&self) -> (r: Collidable)
        ensures
            r.shape matches ShapeModel::Polyline { points } && points@ == self.coords@,
            r.pose == (0i64, 0i64, 0i64),
    {
        Collidable {
            shape: ShapeModel::Polyline { points: clone_points(&self.coords) },
            pose: (0, 0, 0),
        }
    }

    /// A wall reports no editable bounds.
    pub fn get_bounds(&self) -> (r: (i64, i64))
        ensures
            r == (0i64, 0i64),
    {
        (0, 0)
    }

    /// A wall reports the origin as its centre.
    pub fn get_center(&self) -> (r: (i64, i64))
        ensures
            r == (0i64, 0i64),
    {
        (0, 0)
    }

    /// A wall reports no rotation.
    pub fn get_rotation(&self) -> (r: i64)
        ensures
            r == 0,
    {
        0
    }
}

} // verus!
