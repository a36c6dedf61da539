//! The result of an intersection test, and the capability every primitive
//! and aggregate implements.

use crate::ray::Ray;
use crate::vec3::{vdot, vneg, Point3, Vec3};
use vstd::prelude::*;

verus! {

/// A successful intersection: the hit point, the unit normal oriented
/// against the incoming ray, the ray parameter `t`, whether the ray struck
/// the outside of the surface, and the index of the material to scatter
/// with.
#[derive(Clone, Copy, PartialEq, Eq, Structural, Debug)]
pub struct HitRecord {
    pub p: Point3,
    pub normal: Vec3,
    pub material: usize,
    pub t: i64,
    pub front_face: bool,
}

impl HitRecord {
    /// Orient the stored outward normal against the ray: the hit is a front
    /// face exactly when the ray runs against the outward normal; otherwise
    /// the normal is negated so that it always faces the ray.
    pub fn set_face_normal(&mut self, ray: &Ray)
        ensures
            final(self).front_face == (vdot(old(self).normal, ray.direction) < 0),
            final(self).normal == if vdot(old(self).normal, ray.direction) < 0 {
                old(self).normal
            } else {
                vneg(old(self).normal)
            },
            final(self).p == old(self).p,
            final(self).t == old(self).t,
            final(self).material == old(self).material,
    {
        self.front_face = self.normal.dot(&ray.direction) < 0;
        if !self.front_face {
            self.normal = self.normal.neg();
        }
    }
}

/// The hit-testing capability. An implementation describes its own answer
/// with `hit_spec`, and `hit` returns exactly that answer: a populated
/// record for the nearest qualifying intersection strictly inside
/// `(t_min, t_max)`, or nothing.
pub trait Hittable {
    /// The implementation's well-formedness: what its constructor
    /// establishes and `hit` relies on.
    spec fn wf(&self) -> bool;

    /// The intersection this implementation answers for the given ray and
    /// parameter window.
    spec fn hit_spec(&self, ray: Ray, t_min: i64, t_max: i64) -> Option<HitRecord>;

    /// Run the intersection test.
    fn hit(&self, ray: &Ray, t_min: i64, t_max: i64) -> (r: Option<HitRecord>)
        requires
            self.wf(),
        ensures
            r == self.hit_spec(*ray, t_min, t_max),
    ;
}

} // verus!
