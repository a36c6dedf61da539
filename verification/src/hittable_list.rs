//! The aggregate of all scene objects, together with the arena of shared
//! materials they reference.
//!
//! Materials are intentionally aliased across primitives, so the list owns
//! them once, in an arena, and each sphere carries an index into it. The
//! hit test folds over the members, narrowing the window to the closest
//! parameter found so far; the contract states that fold exactly.

use crate::hittable::{HitRecord, Hittable};
use crate::material::Material;
use crate::ray::Ray;
use crate::sphere::{lemma_hit_t_in_window, lemma_hit_window_narrow, sphere_hit_spec, Sphere};
use vstd::prelude::*;

verus! {

/// An ordered collection of spheres and the materials they share.
pub struct HittableList {
    objects: Vec<Sphere>,
    materials: Vec<Material>,
}

/// The closest hit among the first `n` members: each member is tested
/// against a window narrowed to the closest parameter seen before it, so a
/// later member replaces an earlier one only by hitting strictly nearer.
pub open spec fn world_hit_upto(
    objects: Seq<Sphere>,
    n: int,
    ray: Ray,
    t_min: i64,
    t_max: i64,
) -> Option<HitRecord>
    decreases n,
{
    if n <= 0 {
        None
    } else {
        let prev = world_hit_upto(objects, n - 1, ray, t_min, t_max);
        let window = match prev {
            Some(h) => h.t,
            None => t_max,
        };
        match sphere_hit_spec(objects[n - 1], ray, t_min, window) {
            Some(h) => Some(h),
            None => prev,
        }
    }
}

/// Every record the fold can return carries a material index below `mlen`,
/// provided every member's index is.
pub proof fn lemma_world_hit_material_ok(
    objects: Seq<Sphere>,
    n: int,
    ray: Ray,
    t_min: i64,
    t_max: i64,
    mlen: int,
)
    requires
        n <= objects.len(),
        forall|i: int| 0 <= i < n ==> (#[trigger] objects[i]).material < mlen,
    ensures
        match world_hit_upto(objects, n, ray, t_min, t_max) {
            Some(h) => h.material < mlen,
            None => true,
        },
    decreases n,
{
    if n > 0 {
        lemma_world_hit_material_ok(objects, n - 1, ray, t_min, t_max, mlen);
    }
}

/// The aggregate finds the nearest intersection, so insertion order does
/// not matter for which parameter wins: what the fold returns is one of the
/// members' own full-window hits, no member's full-window hit has a smaller
/// parameter, and where the fold returns nothing, no member hits at all.
pub proof fn lemma_world_hit_is_nearest(
    objects: Seq<Sphere>,
    n: int,
    ray: Ray,
    t_min: i64,
    t_max: i64,
)
    requires
        0 <= n <= objects.len(),
    ensures
        match world_hit_upto(objects, n, ray, t_min, t_max) {
            Some(h) => {
                &&& exists|i: int|
                    0 <= i < n && #[trigger] sphere_hit_spec(objects[i], ray, t_min, t_max)
                        == Some(h)
                &&& forall|i: int|
                    0 <= i < n ==> match #[trigger] sphere_hit_spec(objects[i], ray, t_min, t_max) {
                        Some(hi) => h.t <= hi.t,
                        None => true,
                    }
            },
            None => forall|i: int|
                0 <= i < n ==> #[trigger] sphere_hit_spec(objects[i], ray, t_min, t_max) is None,
        },
    decreases n,
{
    if n > 0 {
        lemma_world_hit_is_nearest(objects, n - 1, ray, t_min, t_max);
        let prev = world_hit_upto(objects, n - 1, ray, t_min, t_max);
        let window = match prev {
            Some(h) => h.t,
            None => t_max,
        };
        match prev {
            Some(hp) => {
                let j = choose|j: int|
                    0 <= j < n - 1 && #[trigger] sphere_hit_spec(objects[j], ray, t_min, t_max)
                        == Some(hp);
                lemma_hit_t_in_window(objects[j], ray, t_min, t_max);
            },
            None => {},
        }
        lemma_hit_window_narrow(objects[n - 1], ray, t_min, window, t_max);
    }
}

impl HittableList {
    /// The members, for specifications.
    pub closed spec fn objects(&self) -> Seq<Sphere> {
        self.objects@
    }

    /// The material arena, for specifications.
    pub closed spec fn materials(&self) -> Seq<Material> {
        self.materials@
    }

    /// Every member is a well-formed sphere whose material index points
    /// into the arena, and every material is well formed.
    pub open spec fn list_wf(&self) -> bool {
        &&& forall|i: int|
            0 <= i < self.objects().len() ==> (#[trigger] self.objects()[i]).wf()
                && self.objects()[i].material < self.materials().len()
        &&& forall|j: int| 0 <= j < self.materials().len() ==> (#[trigger] self.materials()[j]).wf()
    }

    /// An empty world: no objects and no materials.
    pub fn new() -> (r: HittableList)
        ensures
            r.objects().len() == 0,
            r.materials().len() == 0,
            r.list_wf(),
    {
        HittableList { objects: Vec::new(), materials: Vec::new() }
    }

    /// Put a material into the arena and hand back its index, for members
    /// added later to reference.
    pub fn add_material(&mut self, m: Material) -> (idx: usize)
        requires
            old(self).list_wf(),
            m.wf(),
        ensures
            final(self).materials() == old(self).materials().push(m),
            final(self).objects() == old(self).objects(),
            idx as int == old(self).materials().len(),
            final(self).list_wf(),
    {
        let idx = self.materials.len();
        self.materials.push(m);
        proof {
            assert forall|j: int| 0 <= j < self.materials@.len() implies (
            #[trigger] self.materials@[j]).wf() by {
                if j < old(self).materials().len() {
                    assert(self.materials@[j] == old(self).materials()[j]);
                } else {
                    assert(self.materials@[j] == m);
                }
            }
        }
        idx
    }

    /// Add a sphere to the world. Its material index must point into the
    /// arena.
    pub fn add(&mut self, object: Sphere)
        requires
            old(self).list_wf(),
            object.wf(),
            object.material < old(self).materials().len(),
        ensures
            final(self).objects() == old(self).objects().push(object),
            final(self).materials() == old(self).materials(),
            final(self).list_wf(),
    {
        self.objects.push(object);
    }

    /// The number of members.
    pub fn len(&self) -> (n: usize)
        ensures
            n == self.objects().len(),
    {
        self.objects.len()
    }

    /// Copy out the material at `idx`.
    pub fn material_at(&self, idx: usize) -> (m: Material)
        requires
            idx < self.materials().len(),
        ensures
            m == self.materials()[idx as int],
    {
        self.materials[idx]
    }
}

impl Hittable for HittableList {
    open spec fn wf(&self) -> bool {
        self.list_wf()
    }

    open spec fn hit_spec(&self, ray: Ray, t_min: i64, t_max: i64) -> Option<HitRecord> {
        world_hit_upto(self.objects(), self.objects().len() as int, ray, t_min, t_max)
    }

    /// Walk the members, keeping the closest hit found so far and narrowing
    /// the window to its parameter before testing the next member.
    fn hit(&self, ray: &Ray, t_min: i64, t_max: i64) -> (r: Option<HitRecord>) {
        let mut closest_so_far = t_max;
        let mut hit_anything: Option<HitRecord> = None;
        let n = self.objects.len();
        let mut i: usize = 0;
        while i < n
            invariant
                self.list_wf(),
                n == self.objects().len(),
                0 <= i <= n,
                hit_anything == world_hit_upto(self.objects(), i as int, *ray, t_min, t_max),
                closest_so_far == match hit_anything {
                    Some(h) => h.t,
                    None => t_max,
                },
            decreases n - i,
        {
            let object = &self.objects[i];
            if let Some(hit) = object.hit(ray, t_min, closest_so_far) {
                closest_so_far = hit.t;
                hit_anything = Some(hit);
            }
            i = i + 1;
        }
        hit_anything
    }
}

} // verus!
