//! The recursive Monte Carlo integrator: evaluate a ray against the world,
//! bounce until absorption, escape, or the depth bound, and the per-pixel
//! multi-sample driver.

use crate::camera::{camera_ray, Camera};
use crate::fixed::{add_fp, div_fp, fp_add, fp_clamp, fp_div, fp_mul, fp_sub, mul_fp, sub_fp, SCALE};
use crate::hittable::Hittable;
use crate::hittable_list::{lemma_world_hit_material_ok, HittableList};
use crate::random::{random, RandomSource};
use crate::ray::Ray;
use crate::vec3::{
    colour_in_unit, lemma_colour_mul_unit, vadd, vlen_sq, vscale, vunit, Colour, Vec3,
};
use vstd::prelude::*;

verus! {

/// The lower hit-window bound for every scattered ray, about a thousandth
/// of a unit: testing from exactly zero would re-intersect the surface the
/// ray just left (shadow acne).
pub const HIT_EPSILON: i64 = 66;

/// The sky blue that escaping rays blend toward: (0.5, 0.7, 1.0) in fixed
/// point, rounded once here.
pub const SKY_R: i64 = 32768;

/// Green channel of the sky blue.
pub const SKY_G: i64 = 45875;

/// Blue channel of the sky blue.
pub const SKY_B: i64 = 65536;

/// The sky colour for a unit direction: blend from white at the bottom of
/// the sky to blue at the top, by the blend factor `(y + 1) / 2`. Rounding
/// of the unit direction can push the factor a hair outside `[0, 1]`; it is
/// clamped, keeping every sky colour inside the unit cube.
pub open spec fn sky_blend(unit_direction: Vec3) -> Colour {
    let t = fp_clamp(
        fp_mul((SCALE as int) / 2, fp_add(unit_direction.y as int, SCALE as int)),
        0,
        SCALE as int,
    );
    vadd(
        vscale(Vec3 { x: SCALE, y: SCALE, z: SCALE }, fp_sub(SCALE as int, t)),
        vscale(Vec3 { x: SKY_R, y: SKY_G, z: SKY_B }, t),
    )
}

/// The colour of a ray that escaped the scene: the sky blend of its
/// normalized direction.
pub open spec fn sky_spec(ray: Ray) -> Colour {
    sky_blend(vunit(ray.direction))
}

/// Compute the sky colour of an escaping ray.
fn sky_colour(ray: &Ray) -> (c: Colour)
    requires
        vlen_sq(ray.direction) > 0,
    ensures
        c == sky_spec(*ray),
        colour_in_unit(c),
{
    let unit_direction = ray.direction.unit_vector();
    let t = crate::fixed::clamp(mul_fp(SCALE / 2, add_fp(unit_direction.y, SCALE)), 0, SCALE);
    let white = Vec3::new(SCALE, SCALE, SCALE);
    let blue = Vec3::new(SKY_R, SKY_G, SKY_B);
    let c = white.scale(sub_fp(SCALE, t)).add(&blue.scale(t));
    proof {
        let ti = t as int;
        crate::fixed::lemma_fp_mul_unit(SCALE as int, fp_sub(SCALE as int, ti));
        crate::fixed::lemma_fp_mul_unit(SKY_R as int, ti);
        crate::fixed::lemma_fp_mul_unit(SKY_G as int, ti);
        crate::fixed::lemma_fp_mul_unit(SKY_B as int, ti);
        crate::fixed::lemma_fp_mul_unit(SCALE as int, ti);
    }
    c
}

/// The possible results of the path estimator, as a relation: black at
/// depth zero or for a degenerate ray; the sky blend of the direction when
/// nothing is hit; otherwise, for some outcome the hit's material can
/// scatter into, either black on absorption or the attenuation tinting some
/// possible colour of the scattered ray, one bounce deeper.
pub open spec fn ray_colour_rel(ray: Ray, world: HittableList, depth: nat, c: Colour) -> bool
    decreases depth,
{
    if depth == 0 {
        c == (Vec3 { x: 0, y: 0, z: 0 })
    } else if vlen_sq(ray.direction) == 0 {
        c == (Vec3 { x: 0, y: 0, z: 0 })
    } else {
        match world.hit_spec(ray, HIT_EPSILON, i64::MAX) {
            None => c == sky_spec(ray),
            Some(rec) => exists|out: Option<(Colour, Ray)>|
                #![trigger crate::material::scatter_rel(
                    world.materials()[rec.material as int],
                    ray,
                    rec,
                    out,
                )]
                crate::material::scatter_rel(
                    world.materials()[rec.material as int],
                    ray,
                    rec,
                    out,
                ) && (match out {
                    Some((att, sc)) => exists|bounced: Colour|
                        ray_colour_rel(sc, world, (depth - 1) as nat, bounced) && c == crate::vec3::vmul(
                            att,
                            bounced,
                        ),
                    None => c == (Vec3 { x: 0, y: 0, z: 0 }),
                }),
        }
    }
}

/// The recursive path estimator. Depth zero is the normal termination of a
/// path and contributes black; a ray that misses everything is lit by the
/// sky; a hit scatters by its material and tints the colour of the bounced
/// ray, or turns black on absorption. A degenerate (zero-direction) ray
/// sees nothing and is black. The result always lies in the unit cube.
/// Every result is a possible one: `ray_colour_rel` relates it to the ray,
/// the world and the depth.
pub fn ray_colour(ray: &Ray, world: &HittableList, depth: usize, rng: &mut RandomSource) -> (c:
    Colour)
    requires
        world.list_wf(),
    ensures
        colour_in_unit(c),
        ray_colour_rel(*ray, *world, depth as nat, c),
        depth == 0 ==> c == (Vec3 { x: 0, y: 0, z: 0 }),
        depth > 0 && vlen_sq(ray.direction) == 0 ==> c == (Vec3 { x: 0, y: 0, z: 0 }),
        depth > 0 && vlen_sq(ray.direction) > 0 && world.hit_spec(*ray, HIT_EPSILON, i64::MAX)
            is None ==> c == sky_spec(*ray),
    decreases depth,
{
    if depth == 0 {
        return Vec3::new(0, 0, 0);
    }
    proof {
        crate::vec3::lemma_vlen_sq_nonneg(ray.direction);
    }
    if ray.direction.length_squared() == 0 {
        return Vec3::new(0, 0, 0);
    }
    match world.hit(ray, HIT_EPSILON, i64::MAX) {
        Some(rec) => {
            proof {
                lemma_world_hit_material_ok(
                    world.objects(),
                    world.objects().len() as int,
                    *ray,
                    HIT_EPSILON,
                    i64::MAX,
                    world.materials().len() as int,
                );
            }
            let material = world.material_at(rec.material);
            let outcome = material.scatter(ray, &rec, rng);
            match outcome {
                Some((attenuation, scattered)) => {
                    let bounced = ray_colour(&scattered, world, depth - 1, rng);
                    proof {
                        lemma_colour_mul_unit(attenuation, bounced);
                        assert(ray_colour_rel(scattered, *world, (depth - 1) as nat, bounced)
                            && crate::vec3::vmul(attenuation, bounced) == crate::vec3::vmul(
                            attenuation,
                            bounced,
                        ));
                        assert(crate::material::scatter_rel(
                            world.materials()[rec.material as int],
                            *ray,
                            rec,
                            outcome,
                        ));
                    }
                    attenuation.mul(&bounced)
                },
                None => {
                    proof {
                        assert(crate::material::scatter_rel(
                            world.materials()[rec.material as int],
                            *ray,
                            rec,
                            outcome,
                        ));
                    }
                    Vec3::new(0, 0, 0)
                },
            }
        },
        None => sky_colour(ray),
    }
}

/// The normalized image-plane coordinate of pixel index `idx` out of
/// `count`, jittered by the unit sample `j` (the antialiasing mechanism).
pub open spec fn jittered_coord(j: int, idx: int, count: int) -> int {
    fp_div(fp_add(j, idx * (SCALE as int)), (count - 1) * (SCALE as int))
}

/// The possible accumulations of a pixel's sample loop: zero samples give
/// black; each further sample adds a possible colour of the camera ray for
/// some jittered coordinates and some lens sample.
pub open spec fn pixel_rel(
    cam: Camera,
    world: HittableList,
    hor: int,
    vert: int,
    width: int,
    height: int,
    depth: nat,
    samples: nat,
    c: Colour,
) -> bool
    decreases samples,
{
    if samples == 0 {
        c == (Vec3 { x: 0, y: 0, z: 0 })
    } else {
        exists|ju: int, jv: int, d: Vec3, one: Colour, prev: Colour|
            #![trigger camera_ray(
                cam,
                jittered_coord(ju, hor, width),
                jittered_coord(jv, vert, height),
                d,
            ), vadd(prev, one)]
            {
                &&& 0 <= ju < SCALE
                &&& 0 <= jv < SCALE
                &&& vlen_sq(d) <= SCALE
                &&& d.z == 0
                &&& ray_colour_rel(
                    camera_ray(
                        cam,
                        jittered_coord(ju, hor, width),
                        jittered_coord(jv, vert, height),
                        d,
                    ),
                    world,
                    depth,
                    one,
                )
                &&& pixel_rel(cam, world, hor, vert, width, height, depth, (samples - 1) as nat, prev)
                &&& c == vadd(prev, one)
            }
    }
}

/// The per-pixel driver: accumulate `samples_per_pixel` independent
/// estimates, each through a jittered image-plane coordinate (the
/// antialiasing mechanism). The accumulated channels stay within
/// `samples_per_pixel` whole units, ready for `write_colour` to average,
/// and the whole accumulation is a possible one for this pixel.
pub fn sample_pixel(
    cam: &Camera,
    world: &HittableList,
    hor: usize,
    vert: usize,
    image_width: usize,
    image_height: usize,
    samples_per_pixel: usize,
    max_depth: usize,
    rng: &mut RandomSource,
) -> (c: Colour)
    requires
        world.list_wf(),
        2 <= image_width <= 0x100000000,
        2 <= image_height <= 0x100000000,
        hor < image_width,
        vert < image_height,
        samples_per_pixel <= 0x100000000,
    ensures
        0 <= c.x <= samples_per_pixel * SCALE,
        0 <= c.y <= samples_per_pixel * SCALE,
        0 <= c.z <= samples_per_pixel * SCALE,
        pixel_rel(
            *cam,
            *world,
            hor as int,
            vert as int,
            image_width as int,
            image_height as int,
            max_depth as nat,
            samples_per_pixel as nat,
            c,
        ),
{
    let mut pixel_colour = Vec3::new(0, 0, 0);
    let width_span = (image_width as i64 - 1) * SCALE;
    let height_span = (image_height as i64 - 1) * SCALE;
    let mut sample: usize = 0;
    while sample < samples_per_pixel
        invariant
            world.list_wf(),
            0 <= sample <= samples_per_pixel,
            samples_per_pixel <= 0x100000000,
            hor < image_width,
            vert < image_height,
            2 <= image_width <= 0x100000000,
            2 <= image_height <= 0x100000000,
            width_span == (image_width - 1) * (SCALE as int),
            height_span == (image_height - 1) * (SCALE as int),
            0 <= pixel_colour.x <= sample * SCALE,
            0 <= pixel_colour.y <= sample * SCALE,
            0 <= pixel_colour.z <= sample * SCALE,
            pixel_rel(
                *cam,
                *world,
                hor as int,
                vert as int,
                image_width as int,
                image_height as int,
                max_depth as nat,
                sample as nat,
                pixel_colour,
            ),
        decreases samples_per_pixel - sample,
    {
        let ju = random(rng);
        let jv = random(rng);
        proof {
            assert((hor as int) * (SCALE as int) <= (image_width - 1) * (SCALE as int))
                by (nonlinear_arith)
                requires
                    hor as int <= image_width - 1 && SCALE as int > 0,
            ;
            assert((vert as int) * (SCALE as int) <= (image_height - 1) * (SCALE as int))
                by (nonlinear_arith)
                requires
                    vert as int <= image_height - 1 && SCALE as int > 0,
            ;
        }
        let u = div_fp(add_fp(ju, (hor as i64) * SCALE), width_span);
        let v = div_fp(add_fp(jv, (vert as i64) * SCALE), height_span);
        let ray = cam.get_ray(u, v, rng);
        let sampled = ray_colour(&ray, world, max_depth, rng);
        let ghost prev_colour = pixel_colour;
        pixel_colour = pixel_colour.add(&sampled);
        sample = sample + 1;
        proof {
            let d = choose|d: Vec3|
                vlen_sq(d) <= SCALE && d.z == 0 && ray == camera_ray(*cam, u as int, v as int, d);
            assert(u as int == jittered_coord(ju as int, hor as int, image_width as int));
            assert(v as int == jittered_coord(jv as int, vert as int, image_height as int));
            assert(0 <= ju < SCALE && 0 <= jv < SCALE && vlen_sq(d) <= SCALE && d.z == 0
                && ray_colour_rel(
                camera_ray(
                    *cam,
                    jittered_coord(ju as int, hor as int, image_width as int),
                    jittered_coord(jv as int, vert as int, image_height as int),
                    d,
                ),
                *world,
                max_depth as nat,
                sampled,
            ) && pixel_rel(
                *cam,
                *world,
                hor as int,
                vert as int,
                image_width as int,
                image_height as int,
                max_depth as nat,
                (sample - 1) as nat,
                prev_colour,
            ) && pixel_colour == vadd(prev_colour, sampled));
        }
        proof {
            assert(pixel_colour.x <= sample * SCALE && pixel_colour.y <= sample * SCALE
                && pixel_colour.z <= sample * SCALE) by (nonlinear_arith)
                requires
                    pixel_colour.x <= (sample - 1) * (SCALE as int) + SCALE && pixel_colour.y <= (
                    sample - 1) * (SCALE as int) + SCALE && pixel_colour.z <= (sample - 1) * (
                    SCALE as int) + SCALE && SCALE == 65536 && sample >= 1,
            ;
        }
    }
    pixel_colour
}

} // verus!
