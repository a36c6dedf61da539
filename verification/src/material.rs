//! The material model: how a ray scatters (or is absorbed) at a hit point,
//! and the attenuation colour applied.
//!
//! The three materials form a closed sum type dispatched by one match; the
//! deterministic part of each scattering rule is a function of the hit and
//! of the random samples drawn, and the contracts say exactly which.

use crate::fixed::{
    add_fp, clamp, div_fp, fp_add, fp_clamp, fp_div, fp_mul, fp_sqrt, fp_sub, mul_fp, sqrt_fp,
    sub_fp, SCALE,
};
use crate::hittable::HitRecord;
use crate::random::{random, RandomSource};
use crate::ray::Ray;
use crate::vec3::{
    colour_in_unit, vadd, vdot, vlen_sq, vneg, vreflect, vrefract, vscale, vunit, Colour, Vec3,
};
use vstd::prelude::*;

verus! {

/// A diffuse surface: scatters toward the normal plus a unit sample, tinted
/// by its albedo, and never absorbs.
#[derive(Clone, Copy, PartialEq, Eq, Structural, Debug)]
pub struct Lambertian {
    pub albedo: Colour,
}

/// A specular surface: reflects, perturbed by `fuzz` times a ball sample,
/// and absorbs exactly when the perturbed ray would enter the surface.
#[derive(Clone, Copy, PartialEq, Eq, Structural, Debug)]
pub struct Metal {
    pub albedo: Colour,
    pub fuzz: i64,
}

/// A clear transmissive surface holding only its refractive index; it
/// absorbs nothing and splits between reflection and refraction.
#[derive(Clone, Copy, PartialEq, Eq, Structural, Debug)]
pub struct Dielectric {
    pub ref_idx: i64,
}

/// The closed set of materials, dispatched by a single match.
#[derive(Clone, Copy, PartialEq, Eq, Structural, Debug)]
pub enum Material {
    Lambertian(Lambertian),
    Metal(Metal),
    Dielectric(Dielectric),
}

impl Lambertian {
    /// Build a diffuse material; the albedo is a colour in the unit cube.
    pub fn new(albedo: Colour) -> (r: Lambertian)
        requires
            colour_in_unit(albedo),
        ensures
            r == (Lambertian { albedo }),
    {
        Lambertian { albedo }
    }

    /// Diffuse scattering: the direction is the oriented normal plus a unit
    /// sample, the attenuation is the albedo, and no ray is ever absorbed.
    pub fn scatter(&self, rec: &HitRecord, rng: &mut RandomSource) -> (r: Option<(Colour, Ray)>)
        ensures
            match r {
                Some((att, sc)) => {
                    &&& att == self.albedo
                    &&& sc.origin == rec.p
                    &&& exists|p: Vec3|
                        0 < vlen_sq(p) <= SCALE && sc.direction == vadd(rec.normal, vunit(p))
                },
                None => false,
            },
    {
        let unit = Vec3::random_unit_vector(rng);
        let direction = rec.normal.add(&unit);
        proof {
            let p = choose|p: Vec3| 0 < vlen_sq(p) <= SCALE && unit == vunit(p);
            assert(0 < vlen_sq(p) <= SCALE && direction == vadd(rec.normal, vunit(p)));
        }
        Some((self.albedo, Ray::new(rec.p, direction)))
    }
}

impl Metal {
    /// Build a specular material; `fuzz` lies in `[0, 1]`.
    pub fn new(albedo: Colour, fuzz: i64) -> (r: Metal)
        requires
            colour_in_unit(albedo),
            0 <= fuzz <= SCALE,
        ensures
            r == (Metal { albedo, fuzz }),
    {
        Metal { albedo, fuzz }
    }

    /// The deterministic part of specular scattering, for a given fuzz
    /// sample: reflect the incident direction, perturb it by `fuzz` times
    /// the sample, and absorb exactly when the perturbed direction does not
    /// point away from the surface.
    pub fn scatter_with_sample(&self, r_in: &Ray, rec: &HitRecord, sample: &Vec3) -> (r: Option<
        (Colour, Ray),
    >)
        ensures
            ({
                let dir = vadd(
                    vreflect(r_in.direction, rec.normal),
                    vscale(*sample, self.fuzz as int),
                );
                match r {
                    Some((att, sc)) => {
                        &&& att == self.albedo
                        &&& sc == (Ray { origin: rec.p, direction: dir })
                        &&& vdot(dir, rec.normal) > 0
                    },
                    None => vdot(dir, rec.normal) <= 0,
                }
            }),
    {
        let reflected = Vec3::reflect(&r_in.direction, &rec.normal);
        let direction = reflected.add(&sample.scale(self.fuzz));
        if direction.dot(&rec.normal) > 0 {
            Some((self.albedo, Ray::new(rec.p, direction)))
        } else {
            None
        }
    }

    /// Specular scattering: draw one ball sample and apply the
    /// deterministic rule to it.
    pub fn scatter(&self, r_in: &Ray, rec: &HitRecord, rng: &mut RandomSource) -> (r: Option<
        (Colour, Ray),
    >)
        ensures
            exists|s: Vec3|
                #![trigger vscale(s, self.fuzz as int)]
                vlen_sq(s) <= SCALE && ({
                    let dir = vadd(vreflect(r_in.direction, rec.normal), vscale(s, self.fuzz as int));
                    match r {
                        Some((att, sc)) => {
                            &&& att == self.albedo
                            &&& sc == (Ray { origin: rec.p, direction: dir })
                            &&& vdot(dir, rec.normal) > 0
                        },
                        None => vdot(dir, rec.normal) <= 0,
                    }
                }),
    {
        let sample = Vec3::random_in_unit_sphere(rng);
        let r = self.scatter_with_sample(r_in, rec, &sample);
        proof {
            // The drawn sample witnesses the existential; naming its
            // perturbation matches the contract's trigger.
            assert(vlen_sq(sample) <= SCALE && vscale(sample, self.fuzz as int) == vscale(
                sample,
                self.fuzz as int,
            ));
        }
        r
    }
}

/// The Schlick approximation of Fresnel reflectance:
/// `r0 + (1 - r0) (1 - cosine)^5` with `r0 = ((1 - ratio) / (1 + ratio))^2`.
pub open spec fn schlick_spec(cosine: int, ratio: int) -> int {
    let r0 = fp_div(fp_sub(SCALE as int, ratio), fp_add(SCALE as int, ratio));
    let r0sq = fp_mul(r0, r0);
    fp_add(r0sq, fp_mul(fp_sub(SCALE as int, r0sq), fp_pow5(fp_sub(SCALE as int, cosine))))
}

/// The fifth fixed-point power, multiplied out left to right.
pub open spec fn fp_pow5(x: int) -> int {
    fp_mul(fp_mul(fp_mul(fp_mul(x, x), x), x), x)
}

/// Compute the fifth fixed-point power.
fn pow5(x: i64) -> (r: i64)
    ensures
        r == fp_pow5(x as int),
{
    mul_fp(mul_fp(mul_fp(mul_fp(x, x), x), x), x)
}

/// Compute the Schlick reflectance.
fn schlick(cosine: i64, ratio: i64) -> (r: i64)
    requires
        ratio >= 0,
    ensures
        r == schlick_spec(cosine as int, ratio as int),
{
    let r0 = div_fp(sub_fp(SCALE, ratio), add_fp(SCALE, ratio));
    let r0sq = mul_fp(r0, r0);
    add_fp(r0sq, mul_fp(sub_fp(SCALE, r0sq), pow5(sub_fp(SCALE, cosine))))
}

/// The refraction ratio at a hit: entering the medium divides one by the
/// index, leaving multiplies by it.
pub open spec fn dielectric_ratio(ref_idx: int, front_face: bool) -> int {
    if front_face {
        fp_div(SCALE as int, ref_idx)
    } else {
        ref_idx
    }
}

/// The direction a dielectric scatters into, as a function of the hit and
/// of the one uniform draw `coin`: reflect on total internal reflection or
/// when the coin falls below the Schlick reflectance, otherwise refract.
pub open spec fn dielectric_direction(ref_idx: int, r_in: Ray, rec: HitRecord, coin: int) -> Vec3 {
    let ratio = dielectric_ratio(ref_idx, rec.front_face);
    let ud = vunit(r_in.direction);
    let cos = fp_clamp(vdot(rec.normal, vneg(ud)), -(SCALE as int), SCALE as int);
    let sin = fp_sqrt(fp_sub(SCALE as int, fp_mul(cos, cos)));
    if fp_mul(ratio, sin) > SCALE || coin < schlick_spec(cos, ratio) {
        vreflect(ud, rec.normal)
    } else {
        vrefract(ud, rec.normal, ratio)
    }
}

/// With no index mismatch (a refractive index of exactly one) the
/// refraction ratio is one on both faces; total internal reflection is then
/// impossible (the ratio times the sine never exceeds one), and the Schlick
/// base reflectance vanishes, leaving only the grazing term
/// `(1 - cos)^5`. The refracted direction itself equals the incident
/// direction over the exact model: see `vec3::lemma_refract_identity`.
pub proof fn lemma_ratio_one_dielectric(cos: int)
    requires
        -(SCALE as int) <= cos <= SCALE as int,
    ensures
        dielectric_ratio(SCALE as int, true) == SCALE,
        dielectric_ratio(SCALE as int, false) == SCALE,
        fp_mul(SCALE as int, fp_sqrt(fp_sub(SCALE as int, fp_mul(cos, cos)))) <= SCALE,
        schlick_spec(cos, SCALE as int) == fp_pow5(fp_sub(SCALE as int, cos)),
{
    let s = SCALE as int;
    crate::fixed::lemma_fp_square_bounded(cos);
    let q = fp_sub(s, fp_mul(cos, cos));
    crate::fixed::lemma_sqrt_exists(q * s);
    let sin = crate::fixed::sqrt_floor(q * s);
    assert(sin <= s) by (nonlinear_arith)
        requires
            crate::fixed::is_sqrt(q * s, sin) && 0 <= q * s <= 65536 * 65536 && s == 65536,
    ;
    vstd::arithmetic::div_mod::lemma_div_multiples_vanish(sin, 65536int);
    vstd::arithmetic::div_mod::lemma_div_of0(131072int);
    vstd::arithmetic::div_mod::lemma_div_of0(65536int);
    assert(fp_div(fp_sub(s, s), fp_add(s, s)) == 0);
    assert(fp_mul(0, 0) == 0);
    let p = fp_pow5(fp_sub(s, cos));
    vstd::arithmetic::div_mod::lemma_div_multiples_vanish(p, 65536int);
}

impl Dielectric {
    /// Build a transmissive material; the refractive index is positive.
    pub fn new(ri: i64) -> (r: Dielectric)
        requires
            ri > 0,
        ensures
            r == (Dielectric { ref_idx: ri }),
    {
        Dielectric { ref_idx: ri }
    }

    /// The deterministic part of dielectric scattering, for a given uniform
    /// draw: attenuation is clear white and the direction is exactly
    /// `dielectric_direction`.
    pub fn scatter_with_coin(&self, r_in: &Ray, rec: &HitRecord, coin: i64) -> (r: (Colour, Ray))
        requires
            self.ref_idx > 0,
            vlen_sq(r_in.direction) > 0,
        ensures
            r.0 == (Vec3 { x: SCALE, y: SCALE, z: SCALE }),
            r.1.origin == rec.p,
            r.1.direction == dielectric_direction(self.ref_idx as int, *r_in, *rec, coin as int),
    {
        let attenuation = Vec3::new(SCALE, SCALE, SCALE);
        let etai_over_etat = if rec.front_face {
            div_fp(SCALE, self.ref_idx)
        } else {
            self.ref_idx
        };
        proof {
            crate::fixed::lemma_fp_div_nonneg(SCALE as int, self.ref_idx as int);
        }
        let unit_direction = r_in.direction.unit_vector();
        let cos_theta = clamp(rec.normal.dot(&unit_direction.neg()), -SCALE, SCALE);
        proof {
            crate::fixed::lemma_fp_square_bounded(cos_theta as int);
        }
        let sin_theta = sqrt_fp(sub_fp(SCALE, mul_fp(cos_theta, cos_theta)));
        let direction = if mul_fp(etai_over_etat, sin_theta) > SCALE || coin < schlick(
            cos_theta,
            etai_over_etat,
        ) {
            Vec3::reflect(&unit_direction, &rec.normal)
        } else {
            Vec3::refract(&unit_direction, &rec.normal, etai_over_etat)
        };
        (attenuation, Ray::new(rec.p, direction))
    }

    /// Dielectric scattering: draw the one uniform coin and apply the
    /// deterministic rule; the glass absorbs nothing, so the result is
    /// always a scattered ray.
    pub fn scatter(&self, r_in: &Ray, rec: &HitRecord, rng: &mut RandomSource) -> (r: Option<
        (Colour, Ray),
    >)
        requires
            self.ref_idx > 0,
            vlen_sq(r_in.direction) > 0,
        ensures
            match r {
                Some((att, sc)) => {
                    &&& att == (Vec3 { x: SCALE, y: SCALE, z: SCALE })
                    &&& sc.origin == rec.p
                    &&& exists|coin: int|
                        0 <= coin < SCALE && sc.direction == dielectric_direction(
                            self.ref_idx as int,
                            *r_in,
                            *rec,
                            coin,
                        )
                },
                None => false,
            },
    {
        let coin = random(rng);
        let (att, sc) = self.scatter_with_coin(r_in, rec, coin);
        proof {
            assert(0 <= coin < SCALE && sc.direction == dielectric_direction(
                self.ref_idx as int,
                *r_in,
                *rec,
                coin as int,
            ));
        }
        Some((att, sc))
    }
}

/// The possible outcomes of scattering: exactly the results `scatter` can
/// return, as a function of the hit and of the random samples drawn. A
/// diffuse surface scatters toward the normal plus some unit sample; a
/// specular one reflects, perturbed by `fuzz` times some ball sample, and
/// absorbs exactly when that perturbed direction does not leave the
/// surface; glass scatters clear white along `dielectric_direction` for
/// some uniform draw.
pub open spec fn scatter_rel(
    m: Material,
    r_in: Ray,
    rec: HitRecord,
    out: Option<(Colour, Ray)>,
) -> bool {
    match m {
        Material::Lambertian(l) => match out {
            Some((att, sc)) => {
                &&& att == l.albedo
                &&& sc.origin == rec.p
                &&& exists|p: Vec3| 0 < vlen_sq(p) <= SCALE && sc.direction == vadd(rec.normal, vunit(p))
            },
            None => false,
        },
        Material::Metal(mm) => exists|s: Vec3|
            #![trigger vscale(s, mm.fuzz as int)]
            vlen_sq(s) <= SCALE && ({
                let dir = vadd(vreflect(r_in.direction, rec.normal), vscale(s, mm.fuzz as int));
                match out {
                    Some((att, sc)) => {
                        &&& att == mm.albedo
                        &&& sc == (Ray { origin: rec.p, direction: dir })
                        &&& vdot(dir, rec.normal) > 0
                    },
                    None => vdot(dir, rec.normal) <= 0,
                }
            }),
        Material::Dielectric(d) => match out {
            Some((att, sc)) => {
                &&& att == (Vec3 { x: SCALE, y: SCALE, z: SCALE })
                &&& sc.origin == rec.p
                &&& exists|coin: int|
                    0 <= coin < SCALE && sc.direction == dielectric_direction(
                        d.ref_idx as int,
                        r_in,
                        rec,
                        coin,
                    )
            },
            None => false,
        },
    }
}

impl Material {
    /// What every constructor establishes: albedos are colours in the unit
    /// cube, fuzz lies in `[0, 1]`, refractive indices are positive.
    pub open spec fn wf(&self) -> bool {
        match *self {
            Material::Lambertian(l) => colour_in_unit(l.albedo),
            Material::Metal(m) => colour_in_unit(m.albedo) && 0 <= m.fuzz <= SCALE,
            Material::Dielectric(d) => d.ref_idx > 0,
        }
    }

    /// Scatter the incident ray at the hit: a tinting attenuation within
    /// the unit cube and a new ray from the hit point, or absorption. Only
    /// Metal ever absorbs; Lambertian and Dielectric always scatter.
    pub fn scatter(&self, r_in: &Ray, rec: &HitRecord, rng: &mut RandomSource) -> (r: Option<
        (Colour, Ray),
    >)
        requires
            self.wf(),
            vlen_sq(r_in.direction) > 0,
        ensures
            scatter_rel(*self, *r_in, *rec, r),
            match r {
                Some((att, sc)) => colour_in_unit(att) && sc.origin == rec.p,
                None => self is Metal,
            },
    {
        match self {
            Material::Lambertian(l) => l.scatter(rec, rng),
            Material::Metal(m) => m.scatter(r_in, rec, rng),
            Material::Dielectric(d) => d.scatter(r_in, rec, rng),
        }
    }
}

} // verus!
