//! A ray: origin plus direction, with parametrized point evaluation.

use vstd::prelude::*;
use crate::fixed::fp_add_spec;
use crate::fixed::fp_mul_spec;
use crate::vec::Point3;
use crate::vec::Vec3;
use crate::vec::in_range;

verus! {

#[derive(Clone, Copy, PartialEq, Eq, Structural, Debug)]
pub struct Ray {
    pub origin: Point3,
    pub direction: Vec3,
}

/// Both endpoints of a ray lie in the representable range.
pub open spec fn ray_wf(r: Ray) -> bool {
    &&& in_range(r.origin)
    &&& in_range(r.direction)
}

/// The point `origin + t * direction`, componentwise in fixed point.
pub open spec fn at_spec(r: Ray, t: int) -> Vec3 {
    Vec3 {
        x: fp_add_spec(r.origin.x as int, fp_mul_spec(r.direction.x as int, t)) as i64,
        y: fp_add_spec(r.origin.y as int, fp_mul_spec(r.direction.y as int, t)) as i64,
        z: fp_add_spec(r.origin.z as int, fp_mul_spec(r.direction.z as int, t)) as i64,
    }
}

impl Ray {
    pub fn new(origin: Point3, direction: Vec3) -> (r: Ray)
        ensures
            r.origin == origin,
            r.direction == direction,
    {
        Ray { origin, direction }
    }

    pub fn origin(&self) -> (r: Point3)
        ensures
            r == self.origin,
    {
        self.origin
    }

    pub fn direction(&self) -> (r: Vec3)
        ensures
            r == self.direction,
    {
        self.direction
    }

    /// Evaluate the ray at parameter `t`.
    pub fn at(&self, t: i64) -> (r: Point3)
        ensures
            r == at_spec(*self, t as int),
            in_range(r),
    {
        self.origin.add(self.direction.scale(t))
    }
}

} // verus!
