//! Axis-aligned bounding-box accumulator, used for coarse culling before
//! exact capsule distance tests.

use vstd::prelude::*;

use crate::geom::{Vec3, V3};

verus! {

/// Mutable bounding-box accumulator: grows to cover points, can be inflated
/// by a margin, and answers inclusive containment queries.  A box that never
/// covered a point contains nothing.
pub struct Aabb {
    pub x_min: i64,
    pub x_max: i64,
    pub y_min: i64,
    pub y_max: i64,
    pub z_min: i64,
    pub z_max: i64,
    pub is_initialize: bool,
}

impl Aabb {
    /// Whether the box has covered at least one point.
    pub open spec fn initialized(&self) -> bool {
        self.is_initialize
    }

    /// The containment predicate the executable query decides: the box has
    /// been initialized and the point lies within all six bounds,
    /// inclusively.
    pub open spec fn contains_spec(&self, p: V3) -> bool {
        &&& self.is_initialize
        &&& self.x_min <= p.x <= self.x_max
        &&& self.y_min <= p.y <= self.y_max
        &&& self.z_min <= p.z <= self.z_max
    }

    /// An empty box: uninitialized, with inverted sentinel bounds.
    pub fn new() -> (r: Aabb)
        ensures
            !r.initialized(),
            r.x_min == i64::MAX && r.x_max == i64::MIN,
            r.y_min == i64::MAX && r.y_max == i64::MIN,
            r.z_min == i64::MAX && r.z_max == i64::MIN,
    {
        Aabb {
            x_min: i64::MAX,
            x_max: i64::MIN,
            y_min: i64::MAX,
            y_max: i64::MIN,
            z_min: i64::MAX,
            z_max: i64::MIN,
            is_initialize: false,
        }
    }

    /// Widens the bounds to cover `v` and marks the box initialized.
    pub fn expand_to_include(&mut self, v: Vec3)
        ensures
            final(self).initialized(),
            final(self).x_min == if v.x < old(self).x_min { v.x } else { old(self).x_min },
            final(self).x_max == if v.x > old(self).x_max { v.x } else { old(self).x_max },
            final(self).y_min == if v.y < old(self).y_min { v.y } else { old(self).y_min },
            final(self).y_max == if v.y > old(self).y_max { v.y } else { old(self).y_max },
            final(self).z_min == if v.z < old(self).z_min { v.z } else { old(self).z_min },
            final(self).z_max == if v.z > old(self).z_max { v.z } else { old(self).z_max },
    {
        if v.x < self.x_min {
            self.x_min = v.x;
        }
        if v.x > self.x_max {
            self.x_max = v.x;
        }
        if v.y < self.y_min {
            self.y_min = v.y;
        }
        if v.y > self.y_max {
            self.y_max = v.y;
        }
        if v.z < self.z_min {
            self.z_min = v.z;
        }
        if v.z > self.z_max {
            self.z_max = v.z;
        }
        self.is_initialize = true;
    }

    /// Inflates every bound outward by `f`; a box that never covered a point
    /// is left untouched.
    pub fn expand_by(&mut self, f: i64)
        requires
            f >= 0,
            old(self).initialized() ==> {
                &&& old(self).x_min - f >= i64::MIN && old(self).x_max + f <= i64::MAX
                &&& old(self).y_min - f >= i64::MIN && old(self).y_max + f <= i64::MAX
                &&& old(self).z_min - f >= i64::MIN && old(self).z_max + f <= i64::MAX
            },
        ensures
            !old(self).initialized() ==> *final(self) == *old(self),
            old(self).initialized() ==> {
                &&& final(self).initialized()
                &&& final(self).x_min == old(self).x_min - f
                &&& final(self).x_max == old(self).x_max + f
                &&& final(self).y_min == old(self).y_min - f
                &&& final(self).y_max == old(self).y_max + f
                &&& final(self).z_min == old(self).z_min - f
                &&& final(self).z_max == old(self).z_max + f
            },
    {
        if self.is_initialize {
            self.x_min = self.x_min - f;
            self.x_max = self.x_max + f;
            self.y_min = self.y_min - f;
            self.y_max = self.y_max + f;
            self.z_min = self.z_min - f;
            self.z_max = self.z_max + f;
        }
    }

    /// Inclusive containment; always false for a box that never covered a
    /// point.
    pub fn contains_point(&self, point: Vec3) -> (r: bool)
        ensures
            r == self.contains_spec(point@),
    {
        self.is_initialize && point.x >= self.x_min && point.x <= self.x_max && point.y
            >= self.y_min && point.y <= self.y_max && point.z >= self.z_min && point.z
            <= self.z_max
    }
}

/// Whether any corner of `b` lies inside `a`.  This is the coarse overlap
/// test the renderer uses; it reports exactly the corner-containment
/// disjunction (it does not detect `b` strictly enclosing `a`).
pub fn aabbs_intersect(a: &Aabb, b: &Aabb) -> (r: bool)
    ensures
        r == {
            ||| a.contains_spec(V3 { x: b.x_min as int, y: b.y_min as int, z: b.z_min as int })
            ||| a.contains_spec(V3 { x: b.x_min as int, y: b.y_min as int, z: b.z_max as int })
            ||| a.contains_spec(V3 { x: b.x_min as int, y: b.y_max as int, z: b.z_min as int })
            ||| a.contains_spec(V3 { x: b.x_min as int, y: b.y_max as int, z: b.z_max as int })
            ||| a.contains_spec(V3 { x: b.x_max as int, y: b.y_min as int, z: b.z_min as int })
            ||| a.contains_spec(V3 { x: b.x_max as int, y: b.y_min as int, z: b.z_max as int })
            ||| a.contains_spec(V3 { x: b.x_max as int, y: b.y_max as int, z: b.z_min as int })
            ||| a.contains_spec(V3 { x: b.x_max as int, y: b.y_max as int, z: b.z_max as int })
        },
{
    aabbs_intersect_corner(a, b, false, false) || aabbs_intersect_corner(a, b, false, true)
        || aabbs_intersect_corner(a, b, true, false) || aabbs_intersect_corner(a, b, true, true)
}

fn aabbs_intersect_corner(a: &Aabb, b: &Aabb, use_y_max: bool, use_z_max: bool) -> (r: bool)
    ensures
        r == {
            let y = if use_y_max {
                b.y_max as int
            } else {
                b.y_min as int
            };
            let z = if use_z_max {
                b.z_max as int
            } else {
                b.z_min as int
            };
            a.contains_spec(V3 { x: b.x_min as int, y, z }) || a.contains_spec(
                V3 { x: b.x_max as int, y, z },
            )
        },
{
    let y: i64 = if use_y_max {
        b.y_max
    } else {
        b.y_min
    };
    let z: i64 = if use_z_max {
        b.z_max
    } else {
        b.z_min
    };
    a.contains_point(Vec3 { x: b.x_min, y, z }) || a.contains_point(Vec3 { x: b.x_max, y, z })
}

} // verus!
