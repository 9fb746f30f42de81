//! Planar poses: a position and a heading.

use vstd::prelude::*;

verus! {

use crate::fixed::Fix;
use crate::math::{Vec2, vec2_ok, fix_ok};

/// A pose in the plane: a location and a heading in radians.  The
/// heading is an arbitrary angle; it is folded only where a computation
/// explicitly asks for it, never canonicalized in storage.
#[derive(Clone, Copy, PartialEq, Eq, Structural, Debug)]
pub struct Pose2D {
    pub loc: Vec2,
    pub rot: Fix,
}

/// A pose whose coordinates and heading are within operating range.
pub open spec fn pose_ok(p: Pose2D) -> bool {
    vec2_ok(p.loc) && fix_ok(p.rot)
}

impl Pose2D {
    /// A pose from raw coordinates and heading.
    pub fn new(x: Fix, y: Fix, rot: Fix) -> (r: Pose2D)
        ensures
            r.loc.x == x,
            r.loc.y == y,
            r.rot == rot,
    {
        Pose2D { loc: Vec2 { x, y }, rot }
    }
}

} // verus!
