//! Capsule collider description: the swept-line collision shape of a bullet
//! or an enemy, given by its axis height and its radius.

use vstd::prelude::*;

verus! {

/// Immutable shape descriptor of a capsule-shaped body, in the same
/// fixed-point units as all positions.
#[derive(Clone, Copy, Debug, PartialEq, Eq, Structural)]
pub struct Capsule {
    pub height: i64,
    pub radius: i64,
}

impl Capsule {
    pub fn new(height: i64, radius: i64) -> (c: Capsule)
        ensures
            c.height == height,
            c.radius == radius,
    {
        Capsule { height, radius }
    }

    /// Shape bounds under which all collision arithmetic stays exact.
    pub open spec fn wf(&self) -> bool {
        &&& 0 <= self.height <= 1024
        &&& 0 <= self.radius <= 512
    }

    /// Half the axis height; the body's segment runs this far from its
    /// center in both directions.
    pub open spec fn half_height(&self) -> int {
        self.height as int / 2
    }
}

/// Largest center-to-center distance at which two capsules can still touch:
/// the sum of both half-heights and both radii.  Used to inflate culling
/// boxes and to reject far-apart pairs early.
pub fn max_collision_distance(a: &Capsule, b: &Capsule) -> (m: i64)
    requires
        a.wf(),
        b.wf(),
    ensures
        m == a.half_height() + a.radius + b.half_height() + b.radius,
        0 <= m <= 2048,
{
    a.height / 2 + a.radius + b.height / 2 + b.radius
}

} // verus!
