//! A ray: an origin and a direction, with parametrized point evaluation.

use crate::vec3::{vadd, vscale, Point3, Vec3};
use vstd::prelude::*;

verus! {

/// A half-line through `origin` along `direction`. The direction need not
/// have unit length; it is never mutated after construction.
#[derive(Clone, Copy, PartialEq, Eq, Structural, Debug)]
pub struct Ray {
    pub origin: Point3,
    pub direction: Vec3,
}

/// The point `origin + t * direction` reached after parameter `t`.
pub open spec fn ray_at(r: Ray, t: int) -> Point3 {
    vadd(r.origin, vscale(r.direction, t))
}

impl Ray {
    /// Build a ray from its origin and direction.
    pub fn new(origin: Point3, direction: Vec3) -> (r: Ray)
        ensures
            r == (Ray { origin, direction }),
    {
        Ray { origin, direction }
    }

    /// Evaluate the ray at parameter `t`.
    pub fn at(&self, t: i64) -> (p: Point3)
        ensures
            p == ray_at(*self, t as int),
    {
        self.origin.add(&self.direction.scale(t))
    }
}

} // verus!
