//! The sphere primitive and its quadratic hit test.
//!
//! The quadratic `a t^2 + 2 half_b t + c = 0` is evaluated over wide exact
//! integers (the coordinates carry scale `SCALE`, the coefficients scale
//! `SCALE^2`, the discriminant scale `SCALE^4`), so the hit decision itself
//! involves no rounding; only the returned parameter `t`, the hit point and
//! the normal are rounded back to fixed point, exactly as the contract
//! states.

use crate::fixed::{div_euclid_i128, isqrt, sqrt_floor, SCALE};
use crate::hittable::{HitRecord, Hittable};
use crate::ray::{ray_at, Ray};
use crate::vec3::{dot_exact, sub_exact, tup, vdiv, vdot, vin_box, vneg, vsub, Point3, Vec3};
use vstd::prelude::*;

verus! {

/// Coordinates handed to the hit test stay within this raw bound (2^30,
/// that is 16384 whole units) so that the wide discriminant arithmetic
/// provably fits in 128 bits.
pub const COORD_LIMIT: i64 = 0x40000000;

/// Both the origin and the direction of the ray lie in the supported box.
pub open spec fn ray_in_box(r: Ray) -> bool {
    vin_box(r.origin, COORD_LIMIT as int) && vin_box(r.direction, COORD_LIMIT as int)
}

/// A sphere: a centre, a positive radius, and the index of its material in
/// the owning world's material arena.
#[derive(Clone, Copy, PartialEq, Eq, Structural, Debug)]
pub struct Sphere {
    pub center: Point3,
    pub radius: i64,
    pub material: usize,
}

/// The exact vector from the sphere's centre to the ray's origin.
pub open spec fn sphere_oc(ray: Ray, center: Point3) -> (int, int, int) {
    sub_exact(tup(ray.origin), tup(center))
}

/// The exact quadratic coefficient `a`: the squared raw direction.
pub open spec fn sphere_a(ray: Ray) -> int {
    dot_exact(tup(ray.direction), tup(ray.direction))
}

/// The exact half-coefficient `half_b = oc . direction`.
pub open spec fn sphere_half_b(ray: Ray, center: Point3) -> int {
    dot_exact(sphere_oc(ray, center), tup(ray.direction))
}

/// The exact constant coefficient `c = |oc|^2 - radius^2`.
pub open spec fn sphere_c(ray: Ray, center: Point3, radius: int) -> int {
    dot_exact(sphere_oc(ray, center), sphere_oc(ray, center)) - radius * radius
}

/// The exact discriminant `half_b^2 - a c`; the ray meets the sphere in two
/// points exactly when it is positive.
pub open spec fn sphere_disc(ray: Ray, center: Point3, radius: int) -> int {
    sphere_half_b(ray, center) * sphere_half_b(ray, center) - sphere_a(ray) * sphere_c(
        ray,
        center,
        radius,
    )
}

/// The smaller root `(-half_b - sqrt(disc)) / a`, brought to fixed point
/// with floor rounding.
pub open spec fn sphere_t_near(ray: Ray, center: Point3, radius: int) -> int {
    ((-sphere_half_b(ray, center) - sqrt_floor(sphere_disc(ray, center, radius))) * (
    SCALE as int)) / sphere_a(ray)
}

/// The larger root `(-half_b + sqrt(disc)) / a`, brought to fixed point
/// with floor rounding.
pub open spec fn sphere_t_far(ray: Ray, center: Point3, radius: int) -> int {
    ((-sphere_half_b(ray, center) + sqrt_floor(sphere_disc(ray, center, radius))) * (
    SCALE as int)) / sphere_a(ray)
}

/// The record a hit at parameter `t` produces: the hit point, the outward
/// normal `(p - center) / radius` oriented against the ray, and the
/// sphere's material.
pub open spec fn sphere_record(s: Sphere, ray: Ray, t: int) -> HitRecord {
    let p = ray_at(ray, t);
    let outward = vdiv(vsub(p, s.center), s.radius as int);
    let front = vdot(outward, ray.direction) < 0;
    HitRecord {
        p,
        normal: if front {
            outward
        } else {
            vneg(outward)
        },
        material: s.material,
        t: t as i64,
        front_face: front,
    }
}

/// The whole hit test as a function: nothing outside the supported box or
/// along a degenerate direction, nothing when the discriminant is not
/// positive, otherwise the first of the two roots that lies strictly inside
/// `(t_min, t_max)`, as a populated record.
pub open spec fn sphere_hit_spec(s: Sphere, ray: Ray, t_min: i64, t_max: i64) -> Option<
    HitRecord,
> {
    if !ray_in_box(ray) {
        None
    } else {
        let a = sphere_a(ray);
        if a <= 0 {
            None
        } else {
            let disc = sphere_disc(ray, s.center, s.radius as int);
            if disc > 0 {
                let t1 = sphere_t_near(ray, s.center, s.radius as int);
                let t2 = sphere_t_far(ray, s.center, s.radius as int);
                if t_min < t1 && t1 < t_max {
                    Some(sphere_record(s, ray, t1))
                } else if t_min < t2 && t2 < t_max {
                    Some(sphere_record(s, ray, t2))
                } else {
                    None
                }
            } else {
                None
            }
        }
    }
}

/// A ray whose line stays farther from the centre than the radius misses
/// the sphere entirely: if the squared perpendicular offset of the line
/// exceeds the squared radius (both sides scaled by the positive `a` to
/// stay in the integers: `|oc|^2 a - half_b^2 > r^2 a`), the discriminant
/// is negative and the hit test returns nothing, whatever the window.
pub proof fn lemma_miss_is_no_hit(s: Sphere, ray: Ray, t_min: i64, t_max: i64)
    requires
        dot_exact(sphere_oc(ray, s.center), sphere_oc(ray, s.center)) * sphere_a(ray)
            - sphere_half_b(ray, s.center) * sphere_half_b(ray, s.center) > ((s.radius as int)
            * (s.radius as int)) * sphere_a(ray),
    ensures
        sphere_hit_spec(s, ray, t_min, t_max) is None,
{
    let a = sphere_a(ray);
    let hb = sphere_half_b(ray, s.center);
    let q = dot_exact(sphere_oc(ray, s.center), sphere_oc(ray, s.center));
    let r2 = (s.radius as int) * (s.radius as int);
    assert(a * (q - r2) == q * a - r2 * a) by (nonlinear_arith);
    assert(sphere_disc(ray, s.center, s.radius as int) == hb * hb - a * (q - r2));
    assert(sphere_disc(ray, s.center, s.radius as int) < 0);
}

/// The nearer root is tested first: with a meaningful discriminant the
/// first candidate parameter never exceeds the second.
pub proof fn lemma_roots_ordered(ray: Ray, center: Point3, radius: int)
    requires
        sphere_a(ray) > 0,
        sphere_disc(ray, center, radius) >= 0,
    ensures
        sphere_t_near(ray, center, radius) <= sphere_t_far(ray, center, radius),
{
    let disc = sphere_disc(ray, center, radius);
    crate::fixed::lemma_sqrt_exists(disc);
    let root = sqrt_floor(disc);
    let hb = sphere_half_b(ray, center);
    vstd::arithmetic::div_mod::lemma_div_is_ordered(
        (-hb - root) * (SCALE as int),
        (-hb + root) * (SCALE as int),
        sphere_a(ray),
    );
}

/// A returned record's parameter lies strictly inside the window.
pub proof fn lemma_hit_t_in_window(s: Sphere, ray: Ray, t_min: i64, t_max: i64)
    ensures
        match sphere_hit_spec(s, ray, t_min, t_max) {
            Some(h) => t_min < h.t < t_max,
            None => true,
        },
{
}

/// Narrowing the window's upper end does not change which record a sphere
/// reports, only whether it reports one: the narrowed test answers exactly
/// the full test's record when that record's parameter fits the narrower
/// window, and nothing otherwise.
pub proof fn lemma_hit_window_narrow(s: Sphere, ray: Ray, t_min: i64, w: i64, t_max: i64)
    requires
        w <= t_max,
    ensures
        match sphere_hit_spec(s, ray, t_min, w) {
            Some(h) => sphere_hit_spec(s, ray, t_min, t_max) == Some(h) && h.t < w,
            None => true,
        },
        match sphere_hit_spec(s, ray, t_min, t_max) {
            Some(h) => h.t < w ==> sphere_hit_spec(s, ray, t_min, w) == Some(h),
            None => sphere_hit_spec(s, ray, t_min, w) is None,
        },
{
    if ray_in_box(ray) && sphere_a(ray) > 0 && sphere_disc(ray, s.center, s.radius as int) > 0 {
        lemma_roots_ordered(ray, s.center, s.radius as int);
    }
}

/// A dot product of componentwise-bounded triples is bounded by three times
/// the product of the bounds.
proof fn lemma_dot_exact_bound(u: (int, int, int), v: (int, int, int), bu: int, bv: int, cap: int)
    requires
        bu >= 0,
        bv >= 0,
        cap == 3 * (bu * bv),
        -bu <= u.0 <= bu,
        -bu <= u.1 <= bu,
        -bu <= u.2 <= bu,
        -bv <= v.0 <= bv,
        -bv <= v.1 <= bv,
        -bv <= v.2 <= bv,
    ensures
        -cap <= dot_exact(u, v) <= cap,
{
    assert(-(bu * bv) <= u.0 * v.0 <= bu * bv) by (nonlinear_arith)
        requires
            bu >= 0 && bv >= 0 && -bu <= u.0 <= bu && -bv <= v.0 <= bv,
    ;
    assert(-(bu * bv) <= u.1 * v.1 <= bu * bv) by (nonlinear_arith)
        requires
            bu >= 0 && bv >= 0 && -bu <= u.1 <= bu && -bv <= v.1 <= bv,
    ;
    assert(-(bu * bv) <= u.2 * v.2 <= bu * bv) by (nonlinear_arith)
        requires
            bu >= 0 && bv >= 0 && -bu <= u.2 <= bu && -bv <= v.2 <= bv,
    ;
    assert(dot_exact(u, v) == u.0 * v.0 + u.1 * v.1 + u.2 * v.2);
    assert(u.0 * v.0 + u.1 * v.1 + u.2 * v.2 <= cap);
    assert(-(bu * bv) - (bu * bv) - (bu * bv) <= u.0 * v.0 + u.1 * v.1 + u.2 * v.2);
    assert(-cap <= -(bu * bv) - (bu * bv) - (bu * bv));
}

/// Is every component of `v` within the supported coordinate box?
fn in_box(v: &Vec3) -> (r: bool)
    ensures
        r == vin_box(*v, COORD_LIMIT as int),
{
    -COORD_LIMIT <= v.x && v.x <= COORD_LIMIT && -COORD_LIMIT <= v.y && v.y <= COORD_LIMIT
        && -COORD_LIMIT <= v.z && v.z <= COORD_LIMIT
}

/// The exact dot product of two boxed vectors, over wide integers.
fn dot_wide(u: &Vec3, v: &Vec3) -> (r: i128)
    requires
        vin_box(*u, 0x80000000),
        vin_box(*v, 0x80000000),
    ensures
        r == dot_exact(tup(*u), tup(*v)),
        -0xC000000000000000 <= r <= 0xC000000000000000,
{
    proof {
        lemma_dot_exact_bound(tup(*u), tup(*v), 0x80000000, 0x80000000, 0xC000000000000000);
        assert(-0x4000000000000000 <= (u.x as int) * (v.x as int) <= 0x4000000000000000)
            by (nonlinear_arith)
            requires
                -0x80000000 <= u.x <= 0x80000000 && -0x80000000 <= v.x <= 0x80000000,
        ;
        assert(-0x4000000000000000 <= (u.y as int) * (v.y as int) <= 0x4000000000000000)
            by (nonlinear_arith)
            requires
                -0x80000000 <= u.y <= 0x80000000 && -0x80000000 <= v.y <= 0x80000000,
        ;
        assert(-0x4000000000000000 <= (u.z as int) * (v.z as int) <= 0x4000000000000000)
            by (nonlinear_arith)
            requires
                -0x80000000 <= u.z <= 0x80000000 && -0x80000000 <= v.z <= 0x80000000,
        ;
    }
    (u.x as i128) * (v.x as i128) + (u.y as i128) * (v.y as i128) + (u.z as i128) * (v.z as i128)
}

impl Sphere {
    /// Build a sphere. The radius must be positive; a non-positive radius
    /// is a scene-construction error, not a runtime case, and the centre
    /// stays within the supported coordinate box.
    pub fn new(center: Point3, radius: i64, material: usize) -> (r: Sphere)
        requires
            vin_box(center, COORD_LIMIT as int),
            0 < radius <= COORD_LIMIT,
        ensures
            r == (Sphere { center, radius, material }),
            r.wf(),
    {
        Sphere { center, radius, material }
    }
}

impl Hittable for Sphere {
    open spec fn wf(&self) -> bool {
        vin_box(self.center, COORD_LIMIT as int) && 0 < self.radius <= COORD_LIMIT
    }

    open spec fn hit_spec(&self, ray: Ray, t_min: i64, t_max: i64) -> Option<HitRecord> {
        sphere_hit_spec(*self, ray, t_min, t_max)
    }

    fn hit(&self, ray: &Ray, t_min: i64, t_max: i64) -> (r: Option<HitRecord>) {
        if !(in_box(&ray.origin) && in_box(&ray.direction)) {
            return None;
        }
        let oc = ray.origin.sub(&self.center);
        proof {
            assert(tup(oc) == sphere_oc(*ray, self.center));
        }
        let a = dot_wide(&ray.direction, &ray.direction);
        if a <= 0 {
            return None;
        }
        let half_b = dot_wide(&oc, &ray.direction);
        let oc_sq = dot_wide(&oc, &oc);
        proof {
            lemma_dot_exact_bound(
                tup(ray.direction),
                tup(ray.direction),
                0x40000000,
                0x40000000,
                0x3000000000000000,
            );
            lemma_dot_exact_bound(
                tup(oc),
                tup(ray.direction),
                0x80000000,
                0x40000000,
                0x6000000000000000,
            );
            lemma_dot_exact_bound(tup(oc), tup(oc), 0x80000000, 0x80000000, 0xC000000000000000);
            assert((self.radius as int) * (self.radius as int) <= 0x1000000000000000
                && (self.radius as int) * (self.radius as int) >= 0) by (nonlinear_arith)
                requires
                    0 < self.radius <= 0x40000000,
            ;
        }
        let c = oc_sq - (self.radius as i128) * (self.radius as i128);
        proof {
            assert((half_b as int) * (half_b as int) <= 0x6000000000000000int * 0x6000000000000000int
                && (half_b as int) * (half_b as int) >= 0) by (nonlinear_arith)
                requires
                    -0x6000000000000000 <= half_b as int <= 0x6000000000000000,
            ;
            assert((a as int) * (c as int) <= 0x3000000000000000int * 0xD000000000000000int && (
            a as int) * (c as int) >= -(0x3000000000000000int * 0xD000000000000000int))
                by (nonlinear_arith)
                requires
                    0 <= a as int <= 0x3000000000000000 && -0xD000000000000000 <= c as int
                        <= 0xD000000000000000,
            ;
        }
        let disc = half_b * half_b - a * c;
        proof {
            assert(disc == sphere_disc(*ray, self.center, self.radius as int));
        }
        if disc > 0 {
            let root_u = isqrt(disc as u128);
            let root = root_u as i128;
            proof {
                assert(root as int == sqrt_floor(sphere_disc(*ray, self.center, self.radius as int)));
            }
            let t1 = div_euclid_i128((-half_b - root) * (SCALE as i128), a);
            proof {
                assert(t1 == sphere_t_near(*ray, self.center, self.radius as int));
            }
            if (t_min as i128) < t1 && t1 < (t_max as i128) {
                return Some(self.make_record(ray, t1 as i64));
            }
            let t2 = div_euclid_i128((-half_b + root) * (SCALE as i128), a);
            proof {
                assert(t2 == sphere_t_far(*ray, self.center, self.radius as int));
            }
            if (t_min as i128) < t2 && t2 < (t_max as i128) {
                return Some(self.make_record(ray, t2 as i64));
            }
            return None;
        }
        None
    }
}

impl Sphere {
    /// Populate the record for a hit at parameter `t`: evaluate the ray,
    /// form the outward normal, and orient it against the ray.
    fn make_record(&self, ray: &Ray, t: i64) -> (r: HitRecord)
        requires
            self.radius > 0,
        ensures
            r == sphere_record(*self, *ray, t as int),
    {
        let p = ray.at(t);
        let outward = p.sub(&self.center).div(self.radius);
        let mut rec = HitRecord {
            p,
            normal: outward,
            material: self.material,
            t,
            front_face: false,
        };
        rec.set_face_normal(ray);
        rec
    }
}

} // verus!
