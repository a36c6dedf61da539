//! The camera: maps normalized image-plane coordinates to world rays,
//! including an orientable basis and a thin-lens depth-of-field model.

use crate::fixed::{add_fp, div_fp, fp_add, fp_div, fp_mul, mul_fp, SCALE};
use crate::random::RandomSource;
use crate::ray::Ray;
use crate::vec3::{vadd, vcross, vlen_sq, vscale, vsub, vunit, Point3, Vec3};
use vstd::prelude::*;

verus! {

/// A camera: the ray origin, the viewport's lower-left corner and spanning
/// vectors, the orthonormal-ish basis it was built from, and the lens
/// radius for defocus blur (zero for a pinhole).
#[derive(Clone, Copy, PartialEq, Eq, Structural, Debug)]
pub struct Camera {
    pub origin: Point3,
    pub lower_left_corner: Point3,
    pub horizontal: Vec3,
    pub vertical: Vec3,
    pub u: Vec3,
    pub v: Vec3,
    pub w: Vec3,
    pub lens_radius: i64,
}

/// The default viewport width: a 16:9 aspect ratio times a viewport height
/// of two units, in fixed point.
pub open spec fn pinhole_viewport_width() -> int {
    fp_mul(fp_div(16 * (SCALE as int), 9 * (SCALE as int)), 2 * (SCALE as int))
}

/// The ray a camera casts for image-plane coordinates `(s, t)` and a lens
/// sample `disk`: the origin is offset across the lens along `u` and `v`,
/// and the direction aims at the viewport point for `(s, t)`.
pub open spec fn camera_ray(cam: Camera, s: int, t: int, disk: Vec3) -> Ray {
    let rd = vscale(disk, cam.lens_radius as int);
    let offset = vadd(vscale(cam.u, rd.x as int), vscale(cam.v, rd.y as int));
    Ray {
        origin: vadd(cam.origin, offset),
        direction: vsub(
            vsub(
                vadd(
                    vadd(cam.lower_left_corner, vscale(cam.horizontal, s)),
                    vscale(cam.vertical, t),
                ),
                cam.origin,
            ),
            offset,
        ),
    }
}

/// With a zero lens radius the lens sample does not matter: every sample
/// gives the same ray, so an aperture of zero is a pinhole camera.
pub proof fn lemma_zero_aperture_is_pinhole(cam: Camera, s: int, t: int, disk: Vec3)
    requires
        cam.lens_radius == 0,
    ensures
        camera_ray(cam, s, t, disk) == camera_ray(cam, s, t, Vec3 { x: 0, y: 0, z: 0 }),
{
    assert((disk.x as int) * 0int == 0) by (nonlinear_arith);
    assert((disk.y as int) * 0int == 0) by (nonlinear_arith);
    assert((disk.z as int) * 0int == 0) by (nonlinear_arith);
}

impl Camera {
    /// The fixed pinhole camera: a 16:9 viewport of height two, one unit in
    /// front of an origin at zero, spanned along the axes.
    pub fn new() -> (r: Camera)
        ensures
            r.origin == (Vec3 { x: 0, y: 0, z: 0 }),
            r.horizontal == (Vec3 { x: pinhole_viewport_width() as i64, y: 0, z: 0 }),
            r.vertical == (Vec3 { x: 0, y: 131072, z: 0 }),
            r.lower_left_corner == vsub(
                vsub(
                    vsub(r.origin, vscale(r.horizontal, (SCALE as int) / 2)),
                    vscale(r.vertical, (SCALE as int) / 2),
                ),
                Vec3 { x: 0, y: 0, z: SCALE },
            ),
            r.u == (Vec3 { x: SCALE, y: 0, z: 0 }),
            r.v == (Vec3 { x: 0, y: SCALE, z: 0 }),
            r.w == (Vec3 { x: 0, y: 0, z: SCALE }),
            r.lens_radius == 0,
    {
        let origin = Vec3::new(0, 0, 0);
        let viewport_height: i64 = 2 * SCALE;
        let aspect_ratio = div_fp(16 * SCALE, 9 * SCALE);
        let viewport_width = mul_fp(aspect_ratio, viewport_height);
        let horizontal = Vec3::new(viewport_width, 0, 0);
        let vertical = Vec3::new(0, viewport_height, 0);
        let half: i64 = SCALE / 2;
        let lower_left_corner = origin.sub(&horizontal.scale(half)).sub(&vertical.scale(half)).sub(
            &Vec3::new(0, 0, SCALE),
        );
        Camera {
            origin,
            lower_left_corner,
            horizontal,
            vertical,
            u: Vec3::new(SCALE, 0, 0),
            v: Vec3::new(0, SCALE, 0),
            w: Vec3::new(0, 0, SCALE),
            lens_radius: 0,
        }
    }

    /// The orientable thin-lens camera. `half_height` is the tangent of
    /// half the vertical field of view, already in fixed point (the tangent
    /// itself is the caller's to compute); `aspect_ratio`, `aperture` and
    /// `focus_dist` are fixed-point values. The basis is built from the
    /// viewing direction and the up vector, which must not be degenerate.
    pub fn oriented(
        look_from: Point3,
        look_at: Point3,
        vup: Vec3,
        half_height: i64,
        aspect_ratio: i64,
        aperture: i64,
        focus_dist: i64,
    ) -> (r: Camera)
        requires
            vlen_sq(vsub(look_from, look_at)) > 0,
            vlen_sq(vcross(vup, vunit(vsub(look_from, look_at)))) > 0,
            aperture >= 0,
        ensures
            r.origin == look_from,
            r.w == vunit(vsub(look_from, look_at)),
            r.u == vunit(vcross(vup, r.w)),
            r.v == vcross(r.w, r.u),
            r.horizontal == vscale(
                r.u,
                fp_mul(fp_add(fp_mul(aspect_ratio as int, half_height as int), fp_mul(aspect_ratio as int, half_height as int)), focus_dist as int),
            ),
            r.vertical == vscale(
                r.v,
                fp_mul(fp_add(half_height as int, half_height as int), focus_dist as int),
            ),
            r.lower_left_corner == vsub(
                vsub(
                    vsub(look_from, vscale(r.horizontal, (SCALE as int) / 2)),
                    vscale(r.vertical, (SCALE as int) / 2),
                ),
                vscale(r.w, focus_dist as int),
            ),
            r.lens_radius == fp_div(aperture as int, 2 * (SCALE as int)),
    {
        let w = look_from.sub(&look_at).unit_vector();
        let u = vup.cross(&w).unit_vector();
        let v = w.cross(&u);
        let half_width = mul_fp(aspect_ratio, half_height);
        let horizontal = u.scale(mul_fp(add_fp(half_width, half_width), focus_dist));
        let vertical = v.scale(mul_fp(add_fp(half_height, half_height), focus_dist));
        let half: i64 = SCALE / 2;
        let lower_left_corner = look_from.sub(&horizontal.scale(half)).sub(
            &vertical.scale(half),
        ).sub(&w.scale(focus_dist));
        Camera {
            origin: look_from,
            lower_left_corner,
            horizontal,
            vertical,
            u,
            v,
            w,
            lens_radius: div_fp(aperture, 2 * SCALE),
        }
    }

    /// Cast the ray for normalized image-plane coordinates `(s, t)`,
    /// sampling the lens disk for defocus blur. Every result is
    /// `camera_ray` for some disk sample; with a zero lens radius the
    /// sample does not matter and the camera is a pinhole.
    pub fn get_ray(&self, s: i64, t: i64, rng: &mut RandomSource) -> (r: Ray)
        ensures
            exists|d: Vec3|
                #![trigger camera_ray(*self, s as int, t as int, d)]
                vlen_sq(d) <= SCALE && d.z == 0 && r == camera_ray(*self, s as int, t as int, d),
    {
        let disk = Vec3::random_in_unit_disk(rng);
        let rd = disk.scale(self.lens_radius);
        let offset = self.u.scale(rd.x).add(&self.v.scale(rd.y));
        let origin = self.origin.add(&offset);
        let direction = self.lower_left_corner.add(&self.horizontal.scale(s)).add(
            &self.vertical.scale(t),
        ).sub(&self.origin).sub(&offset);
        let r = Ray::new(origin, direction);
        proof {
            assert(vlen_sq(disk) <= SCALE && disk.z == 0 && r == camera_ray(
                *self,
                s as int,
                t as int,
                disk,
            ));
        }
        r
    }
}

} // verus!
