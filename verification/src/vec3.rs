//! The vector kernel: three fixed-point components used interchangeably as
//! a free vector, a point, and a linear colour.
//!
//! Every operation's contract states the result exactly, component by
//! component, over the fixed-point spec functions of `crate::fixed`.

use crate::fixed::{
    add_fp, div_fp, fp_add, fp_div, fp_mul, fp_sqrt, fp_sub, is_sqrt, lemma_sqrt_unique, mul_fp,
    sqrt_fp, sub_fp, SCALE,
};
use crate::random::RandomSource;
use vstd::prelude::*;

verus! {

/// A vector of three fixed-point components.
#[derive(Clone, Copy, PartialEq, Eq, Structural, Debug)]
pub struct Vec3 {
    pub x: i64,
    pub y: i64,
    pub z: i64,
}

/// A point in space, represented as a vector from the origin.
pub type Point3 = Vec3;

/// A linear-light colour; one whole unit per channel is full intensity.
pub type Colour = Vec3;

/// Componentwise fixed-point sum.
pub open spec fn vadd(u: Vec3, v: Vec3) -> Vec3 {
    Vec3 {
        x: fp_add(u.x as int, v.x as int) as i64,
        y: fp_add(u.y as int, v.y as int) as i64,
        z: fp_add(u.z as int, v.z as int) as i64,
    }
}

/// Componentwise fixed-point difference.
pub open spec fn vsub(u: Vec3, v: Vec3) -> Vec3 {
    Vec3 {
        x: fp_sub(u.x as int, v.x as int) as i64,
        y: fp_sub(u.y as int, v.y as int) as i64,
        z: fp_sub(u.z as int, v.z as int) as i64,
    }
}

/// Componentwise negation.
pub open spec fn vneg(u: Vec3) -> Vec3 {
    Vec3 {
        x: fp_sub(0, u.x as int) as i64,
        y: fp_sub(0, u.y as int) as i64,
        z: fp_sub(0, u.z as int) as i64,
    }
}

/// Componentwise (Hadamard) fixed-point product, used for colour tinting.
pub open spec fn vmul(u: Vec3, v: Vec3) -> Vec3 {
    Vec3 {
        x: fp_mul(u.x as int, v.x as int) as i64,
        y: fp_mul(u.y as int, v.y as int) as i64,
        z: fp_mul(u.z as int, v.z as int) as i64,
    }
}

/// Scale by a fixed-point scalar.
pub open spec fn vscale(u: Vec3, k: int) -> Vec3 {
    Vec3 {
        x: fp_mul(u.x as int, k) as i64,
        y: fp_mul(u.y as int, k) as i64,
        z: fp_mul(u.z as int, k) as i64,
    }
}

/// Divide by a positive fixed-point scalar.
pub open spec fn vdiv(u: Vec3, k: int) -> Vec3 {
    Vec3 {
        x: fp_div(u.x as int, k) as i64,
        y: fp_div(u.y as int, k) as i64,
        z: fp_div(u.z as int, k) as i64,
    }
}

/// Fixed-point dot product, summed left to right.
pub open spec fn vdot(u: Vec3, v: Vec3) -> int {
    fp_add(
        fp_add(fp_mul(u.x as int, v.x as int), fp_mul(u.y as int, v.y as int)),
        fp_mul(u.z as int, v.z as int),
    )
}

/// Fixed-point cross product.
pub open spec fn vcross(u: Vec3, v: Vec3) -> Vec3 {
    Vec3 {
        x: fp_sub(fp_mul(u.y as int, v.z as int), fp_mul(u.z as int, v.y as int)) as i64,
        y: fp_sub(fp_mul(u.z as int, v.x as int), fp_mul(u.x as int, v.z as int)) as i64,
        z: fp_sub(fp_mul(u.x as int, v.y as int), fp_mul(u.y as int, v.x as int)) as i64,
    }
}

/// The squared length: the dot product of a vector with itself.
pub open spec fn vlen_sq(u: Vec3) -> int {
    vdot(u, u)
}

/// The fixed-point length: the rounded square root of the squared length.
pub open spec fn vlen(u: Vec3) -> int {
    fp_sqrt(vlen_sq(u))
}

/// The normalization of `u`: each component divided by the length.
pub open spec fn vunit(u: Vec3) -> Vec3 {
    vdiv(u, vlen(u))
}

/// Mirror reflection of `v` about the normal `n`: `v - 2 (v . n) n`, with
/// the doubled dot product formed by fixed-point addition.
pub open spec fn vreflect(v: Vec3, n: Vec3) -> Vec3 {
    vsub(v, vscale(n, fp_add(vdot(v, n), vdot(v, n))))
}

/// Snell refraction of the unit incident vector `uv` at a surface with unit
/// normal `n` (pointing against `uv`), for the refraction ratio `eta`:
/// the parallel component `eta (uv + cos * n)` plus the perpendicular
/// component `-sqrt(1 - |parallel|^2) n`. Callers rule out total internal
/// reflection, but rounding can still leave the radicand slightly below
/// zero; it is then treated as zero.
pub open spec fn vrefract(uv: Vec3, n: Vec3, eta: int) -> Vec3 {
    let cos = fp_sub(0, vdot(uv, n));
    let parallel = vscale(vadd(uv, vscale(n, cos)), eta);
    let gap = fp_sub(SCALE as int, vlen_sq(parallel));
    let perp_len = fp_sqrt(
        if gap > 0 {
            gap
        } else {
            0
        },
    );
    vadd(parallel, vscale(n, fp_sub(0, perp_len)))
}

/// Componentwise colour bounds: every channel lies in `[0, 1]`.
pub open spec fn colour_in_unit(c: Vec3) -> bool {
    &&& 0 <= c.x <= SCALE
    &&& 0 <= c.y <= SCALE
    &&& 0 <= c.z <= SCALE
}

/// Exact sum over integer triples.
pub open spec fn add_exact(u: (int, int, int), v: (int, int, int)) -> (int, int, int) {
    (u.0 + v.0, u.1 + v.1, u.2 + v.2)
}

/// Every component of `u` lies in `[-b, b]`.
pub open spec fn vin_box(u: Vec3, b: int) -> bool {
    &&& -b <= u.x <= b
    &&& -b <= u.y <= b
    &&& -b <= u.z <= b
}

/// The components of `u` as a triple of mathematical integers.
pub open spec fn tup(u: Vec3) -> (int, int, int) {
    (u.x as int, u.y as int, u.z as int)
}

/// The exact (unrounded) dot product over integer triples: the reference
/// model that the fixed-point kernel rounds.
pub open spec fn dot_exact(u: (int, int, int), v: (int, int, int)) -> int {
    u.0 * v.0 + u.1 * v.1 + u.2 * v.2
}

/// Exact scaling over integer triples.
pub open spec fn scale_exact(u: (int, int, int), k: int) -> (int, int, int) {
    (u.0 * k, u.1 * k, u.2 * k)
}

/// Exact difference over integer triples.
pub open spec fn sub_exact(u: (int, int, int), v: (int, int, int)) -> (int, int, int) {
    (u.0 - v.0, u.1 - v.1, u.2 - v.2)
}

/// Mirror reflection over the exact integer model. To stay within the
/// integers the reflected vector carries an extra factor of `dot(n, n)`:
/// `reflect_exact(v, n) = dot(n, n) v - 2 (v . n) n`. For a unit normal the
/// factor is one and this is the usual `v - 2 (v . n) n`.
pub open spec fn reflect_exact(v: (int, int, int), n: (int, int, int)) -> (int, int, int) {
    sub_exact(scale_exact(v, dot_exact(n, n)), scale_exact(n, 2 * dot_exact(v, n)))
}

/// Mirror reflection is an involution: reflecting a vector about the same
/// normal twice gives back the original vector, up to the squared factor
/// `dot(n, n)` that `reflect_exact` carries instead of dividing by it.
pub proof fn lemma_reflect_involution(v: (int, int, int), n: (int, int, int))
    ensures
        reflect_exact(reflect_exact(v, n), n) == scale_exact(
            v,
            dot_exact(n, n) * dot_exact(n, n),
        ),
{
    let k = dot_exact(n, n);
    let d = dot_exact(v, n);
    let r1 = reflect_exact(v, n);
    let dd = dot_exact(r1, n);
    assert(r1.0 == v.0 * k - n.0 * (2 * d));
    assert(r1.1 == v.1 * k - n.1 * (2 * d));
    assert(r1.2 == v.2 * k - n.2 * (2 * d));
    assert(r1.0 * n.0 == (v.0 * n.0) * k - (2 * d) * (n.0 * n.0)) by (nonlinear_arith)
        requires
            r1.0 == v.0 * k - n.0 * (2 * d),
    ;
    assert(r1.1 * n.1 == (v.1 * n.1) * k - (2 * d) * (n.1 * n.1)) by (nonlinear_arith)
        requires
            r1.1 == v.1 * k - n.1 * (2 * d),
    ;
    assert(r1.2 * n.2 == (v.2 * n.2) * k - (2 * d) * (n.2 * n.2)) by (nonlinear_arith)
        requires
            r1.2 == v.2 * k - n.2 * (2 * d),
    ;
    assert((v.0 * n.0) * k + (v.1 * n.1) * k + (v.2 * n.2) * k == d * k) by (nonlinear_arith)
        requires
            d == v.0 * n.0 + v.1 * n.1 + v.2 * n.2,
    ;
    assert((2 * d) * (n.0 * n.0) + (2 * d) * (n.1 * n.1) + (2 * d) * (n.2 * n.2) == (2 * d) * k)
        by (nonlinear_arith)
        requires
            k == n.0 * n.0 + n.1 * n.1 + n.2 * n.2,
    ;
    assert(d * k - (2 * d) * k == -(k * d)) by (nonlinear_arith);
    assert(dd == -(k * d));
    let r2 = reflect_exact(r1, n);
    assert(r2.0 == v.0 * (k * k)) by (nonlinear_arith)
        requires
            r2.0 == r1.0 * k - n.0 * (2 * dd),
            r1.0 == v.0 * k - n.0 * (2 * d),
            dd == -(k * d),
    ;
    assert(r2.1 == v.1 * (k * k)) by (nonlinear_arith)
        requires
            r2.1 == r1.1 * k - n.1 * (2 * dd),
            r1.1 == v.1 * k - n.1 * (2 * d),
            dd == -(k * d),
    ;
    assert(r2.2 == v.2 * (k * k)) by (nonlinear_arith)
        requires
            r2.2 == r1.2 * k - n.2 * (2 * dd),
            r1.2 == v.2 * k - n.2 * (2 * d),
            dd == -(k * d),
    ;
}

/// For a unit normal, reflecting twice is exactly the identity.
pub proof fn lemma_reflect_involution_unit(v: (int, int, int), n: (int, int, int))
    requires
        dot_exact(n, n) == 1,
    ensures
        reflect_exact(reflect_exact(v, n), n) == v,
{
    lemma_reflect_involution(v, n);
}

/// Snell refraction over the exact integer model, for a refraction ratio of
/// one. The incident vector and the normal are unit vectors scaled by `s`
/// (their self-dot is `s^2`), so the result carries the factor `s^2`: the
/// parallel part is `s^2 uv + cos n`, and the perpendicular coefficient is
/// the exact square root of `(s^6 - |parallel|^2) / s^2`.
pub open spec fn refract_exact(uv: (int, int, int), n: (int, int, int), s: int) -> (
    int,
    int,
    int,
) {
    let c = -dot_exact(uv, n);
    let par = add_exact(scale_exact(uv, s * s), scale_exact(n, c));
    let rad = (s * s * s * s * s * s - dot_exact(par, par)) / (s * s);
    sub_exact(par, scale_exact(n, crate::fixed::sqrt_floor(rad)))
}

/// Refraction with no index mismatch bends nothing: over the exact model,
/// with a ratio of one, the refracted direction is the incident direction
/// (carrying the `s^2` factor of `refract_exact`). The normal points
/// against the incident vector, as the hit record guarantees.
pub proof fn lemma_refract_identity(uv: (int, int, int), n: (int, int, int), s: int)
    requires
        s > 0,
        dot_exact(uv, uv) == s * s,
        dot_exact(n, n) == s * s,
        dot_exact(uv, n) <= 0,
    ensures
        refract_exact(uv, n, s) == scale_exact(uv, s * s),
{
    let d = dot_exact(uv, n);
    let c = -d;
    let s2 = s * s;
    let s4 = s2 * s2;
    let par = add_exact(scale_exact(uv, s2), scale_exact(n, c));
    assert(par.0 == uv.0 * s2 + n.0 * c);
    assert(par.1 == uv.1 * s2 + n.1 * c);
    assert(par.2 == uv.2 * s2 + n.2 * c);
    assert(par.0 * par.0 == (uv.0 * s2) * (uv.0 * s2) + 2 * ((uv.0 * s2) * (n.0 * c)) + (n.0 * c)
        * (n.0 * c)) by (nonlinear_arith)
        requires
            par.0 == uv.0 * s2 + n.0 * c,
    ;
    assert(par.1 * par.1 == (uv.1 * s2) * (uv.1 * s2) + 2 * ((uv.1 * s2) * (n.1 * c)) + (n.1 * c)
        * (n.1 * c)) by (nonlinear_arith)
        requires
            par.1 == uv.1 * s2 + n.1 * c,
    ;
    assert(par.2 * par.2 == (uv.2 * s2) * (uv.2 * s2) + 2 * ((uv.2 * s2) * (n.2 * c)) + (n.2 * c)
        * (n.2 * c)) by (nonlinear_arith)
        requires
            par.2 == uv.2 * s2 + n.2 * c,
    ;
    assert((uv.0 * s2) * (uv.0 * s2) == (uv.0 * uv.0) * s4) by (nonlinear_arith)
        requires
            s4 == s2 * s2,
    ;
    assert((uv.1 * s2) * (uv.1 * s2) == (uv.1 * uv.1) * s4) by (nonlinear_arith)
        requires
            s4 == s2 * s2,
    ;
    assert((uv.2 * s2) * (uv.2 * s2) == (uv.2 * uv.2) * s4) by (nonlinear_arith)
        requires
            s4 == s2 * s2,
    ;
    assert((uv.0 * s2) * (n.0 * c) == (uv.0 * n.0) * (s2 * c)) by (nonlinear_arith);
    assert((uv.1 * s2) * (n.1 * c) == (uv.1 * n.1) * (s2 * c)) by (nonlinear_arith);
    assert((uv.2 * s2) * (n.2 * c) == (uv.2 * n.2) * (s2 * c)) by (nonlinear_arith);
    assert((n.0 * c) * (n.0 * c) == (n.0 * n.0) * (c * c)) by (nonlinear_arith);
    assert((n.1 * c) * (n.1 * c) == (n.1 * n.1) * (c * c)) by (nonlinear_arith);
    assert((n.2 * c) * (n.2 * c) == (n.2 * n.2) * (c * c)) by (nonlinear_arith);
    assert((uv.0 * uv.0) * s4 + (uv.1 * uv.1) * s4 + (uv.2 * uv.2) * s4 == s2 * s4)
        by (nonlinear_arith)
        requires
            uv.0 * uv.0 + uv.1 * uv.1 + uv.2 * uv.2 == s2,
    ;
    assert((uv.0 * n.0) * (s2 * c) + (uv.1 * n.1) * (s2 * c) + (uv.2 * n.2) * (s2 * c) == -(s2 * (c
        * c))) by (nonlinear_arith)
        requires
            uv.0 * n.0 + uv.1 * n.1 + uv.2 * n.2 == d && d == -c,
    ;
    assert((n.0 * n.0) * (c * c) + (n.1 * n.1) * (c * c) + (n.2 * n.2) * (c * c) == s2 * (c * c))
        by (nonlinear_arith)
        requires
            n.0 * n.0 + n.1 * n.1 + n.2 * n.2 == s2,
    ;
    assert(dot_exact(par, par) == s2 * s4 - s2 * (c * c));
    assert(s * s * s * s * s * s == s2 * s4) by (nonlinear_arith)
        requires
            s2 == s * s && s4 == s2 * s2,
    ;
    assert(s * s * s * s * s * s - dot_exact(par, par) == s2 * (c * c));
    assert(s2 > 0) by (nonlinear_arith)
        requires
            s > 0 && s2 == s * s,
    ;
    vstd::arithmetic::div_mod::lemma_div_multiples_vanish(c * c, s2);
    assert((s2 * (c * c)) / s2 == c * c);
    crate::fixed::lemma_sqrt_perfect_square(c);
}

/// Tinting one colour in the unit cube by another stays in the unit cube.
pub proof fn lemma_colour_mul_unit(a: Vec3, b: Vec3)
    requires
        colour_in_unit(a),
        colour_in_unit(b),
    ensures
        colour_in_unit(vmul(a, b)),
{
    crate::fixed::lemma_fp_mul_unit(a.x as int, b.x as int);
    crate::fixed::lemma_fp_mul_unit(a.y as int, b.y as int);
    crate::fixed::lemma_fp_mul_unit(a.z as int, b.z as int);
}

/// A squared length is never negative, even after rounding and saturation.
pub proof fn lemma_vlen_sq_nonneg(u: Vec3)
    ensures
        vlen_sq(u) >= 0,
{
    crate::fixed::lemma_fp_square_nonneg(u.x as int);
    crate::fixed::lemma_fp_square_nonneg(u.y as int);
    crate::fixed::lemma_fp_square_nonneg(u.z as int);
}

/// Negation keeps the squared length.
pub proof fn lemma_vneg_len_sq(u: Vec3)
    requires
        u.x > i64::MIN,
        u.y > i64::MIN,
        u.z > i64::MIN,
    ensures
        vlen_sq(vneg(u)) == vlen_sq(u),
{
    assert((-(u.x as int)) * (-(u.x as int)) == (u.x as int) * (u.x as int)) by (nonlinear_arith);
    assert((-(u.y as int)) * (-(u.y as int)) == (u.y as int) * (u.y as int)) by (nonlinear_arith);
    assert((-(u.z as int)) * (-(u.z as int)) == (u.z as int) * (u.z as int)) by (nonlinear_arith);
}

impl Vec3 {
    /// Build a vector from raw fixed-point components.
    pub fn new(x: i64, y: i64, z: i64) -> (r: Vec3)
        ensures
            r == (Vec3 { x, y, z }),
    {
        Vec3 { x, y, z }
    }

    /// Build a vector from whole units, scaling each component.
    pub fn from_units(x: i64, y: i64, z: i64) -> (r: Vec3)
        requires
            -140737488355328 <= x < 140737488355328,
            -140737488355328 <= y < 140737488355328,
            -140737488355328 <= z < 140737488355328,
        ensures
            r.x == x * SCALE && r.y == y * SCALE && r.z == z * SCALE,
    {
        Vec3 { x: x * SCALE, y: y * SCALE, z: z * SCALE }
    }

    /// Componentwise sum.
    pub fn add(&self, other: &Vec3) -> (r: Vec3)
        ensures
            r == vadd(*self, *other),
    {
        Vec3 {
            x: add_fp(self.x, other.x),
            y: add_fp(self.y, other.y),
            z: add_fp(self.z, other.z),
        }
    }

    /// Componentwise difference.
    pub fn sub(&self, other: &Vec3) -> (r: Vec3)
        ensures
            r == vsub(*self, *other),
    {
        Vec3 {
            x: sub_fp(self.x, other.x),
            y: sub_fp(self.y, other.y),
            z: sub_fp(self.z, other.z),
        }
    }

    /// Componentwise negation.
    pub fn neg(&self) -> (r: Vec3)
        ensures
            r == vneg(*self),
    {
        Vec3 { x: sub_fp(0, self.x), y: sub_fp(0, self.y), z: sub_fp(0, self.z) }
    }

    /// Componentwise (Hadamard) product, used for colour tinting.
    pub fn mul(&self, other: &Vec3) -> (r: Vec3)
        ensures
            r == vmul(*self, *other),
    {
        Vec3 {
            x: mul_fp(self.x, other.x),
            y: mul_fp(self.y, other.y),
            z: mul_fp(self.z, other.z),
        }
    }

    /// Scale by a fixed-point scalar.
    pub fn scale(&self, k: i64) -> (r: Vec3)
        ensures
            r == vscale(*self, k as int),
    {
        Vec3 { x: mul_fp(self.x, k), y: mul_fp(self.y, k), z: mul_fp(self.z, k) }
    }

    /// Divide by a positive fixed-point scalar.
    pub fn div(&self, k: i64) -> (r: Vec3)
        requires
            k > 0,
        ensures
            r == vdiv(*self, k as int),
    {
        Vec3 { x: div_fp(self.x, k), y: div_fp(self.y, k), z: div_fp(self.z, k) }
    }

    /// Fixed-point dot product.
    pub fn dot(&self, other: &Vec3) -> (r: i64)
        ensures
            r == vdot(*self, *other),
    {
        add_fp(
            add_fp(mul_fp(self.x, other.x), mul_fp(self.y, other.y)),
            mul_fp(self.z, other.z),
        )
    }

    /// Fixed-point cross product.
    pub fn cross(&self, other: &Vec3) -> (r: Vec3)
        ensures
            r == vcross(*self, *other),
    {
        Vec3 {
            x: sub_fp(mul_fp(self.y, other.z), mul_fp(self.z, other.y)),
            y: sub_fp(mul_fp(self.z, other.x), mul_fp(self.x, other.z)),
            z: sub_fp(mul_fp(self.x, other.y), mul_fp(self.y, other.x)),
        }
    }

    /// The squared length.
    pub fn length_squared(&self) -> (r: i64)
        ensures
            r == vlen_sq(*self),
            r >= 0,
    {
        proof {
            lemma_vlen_sq_nonneg(*self);
        }
        self.dot(self)
    }

    /// The length: the rounded square root of the squared length.
    pub fn length(&self) -> (r: i64)
        ensures
            r == vlen(*self),
            crate::fixed::is_sqrt(vlen_sq(*self) * (SCALE as int), r as int),
            r >= 0,
    {
        let lsq = self.length_squared();
        sqrt_fp(lsq)
    }

    /// Normalize to (approximately) unit length. The caller guarantees a
    /// non-degenerate vector; any squared length above zero gives a
    /// positive rounded length to divide by.
    pub fn unit_vector(&self) -> (r: Vec3)
        requires
            vlen_sq(*self) > 0,
        ensures
            r == vunit(*self),
    {
        let len = self.length();
        proof {
            let lsq = vlen_sq(*self);
            assert(len >= 1) by (nonlinear_arith)
                requires
                    lsq >= 1,
                    SCALE == 65536,
                    crate::fixed::is_sqrt(lsq * (SCALE as int), len as int),
            ;
        }
        self.div(len)
    }

    /// Mirror reflection of `v` about the normal `n`.
    pub fn reflect(v: &Vec3, n: &Vec3) -> (r: Vec3)
        ensures
            r == vreflect(*v, *n),
    {
        let d = v.dot(n);
        v.sub(&n.scale(add_fp(d, d)))
    }

    /// Snell refraction. The caller has ruled out total internal
    /// reflection; a radicand that rounding still left below zero is
    /// treated as zero.
    pub fn refract(uv: &Vec3, n: &Vec3, etai_over_etat: i64) -> (r: Vec3)
        ensures
            r == vrefract(*uv, *n, etai_over_etat as int),
    {
        let cos_theta = sub_fp(0, uv.dot(n));
        let r_out_parallel = uv.add(&n.scale(cos_theta)).scale(etai_over_etat);
        let gap = sub_fp(SCALE, r_out_parallel.length_squared());
        let r_perp_len = sqrt_fp(
            if gap > 0 {
                gap
            } else {
                0
            },
        );
        r_out_parallel.add(&n.scale(sub_fp(0, r_perp_len)))
    }

    /// A vector with each component uniform in `[0, 1)`, drawn in x, y, z
    /// order.
    pub fn random(rng: &mut RandomSource) -> (r: Vec3)
        ensures
            0 <= r.x < SCALE,
            0 <= r.y < SCALE,
            0 <= r.z < SCALE,
    {
        let x = crate::random::random(rng);
        let y = crate::random::random(rng);
        let z = crate::random::random(rng);
        Vec3 { x, y, z }
    }

    /// A vector with each component uniform in `[min, max)`, drawn in
    /// x, y, z order.
    pub fn random_range(rng: &mut RandomSource, min: i64, max: i64) -> (r: Vec3)
        requires
            min < max,
        ensures
            min <= r.x < max,
            min <= r.y < max,
            min <= r.z < max,
    {
        let x = crate::random::random_range(rng, min, max);
        let y = crate::random::random_range(rng, min, max);
        let z = crate::random::random_range(rng, min, max);
        Vec3 { x, y, z }
    }

    /// Rejection-sample a point in the unit ball: draw each component in
    /// `[-1, 1)` and keep the first point whose squared length is at most
    /// one. The number of draws is bounded so the loop provably ends; if
    /// every draw is rejected (each one is rejected with probability below
    /// one half), the centre-axis point at height one half stands in.
    pub fn random_in_unit_sphere(rng: &mut RandomSource) -> (r: Vec3)
        ensures
            vlen_sq(r) <= SCALE,
            -SCALE <= r.x <= SCALE,
            -SCALE <= r.y <= SCALE,
            -SCALE <= r.z <= SCALE,
    {
        let mut attempts: u32 = 64;
        while attempts > 0
            decreases attempts,
        {
            let p = Self::random_range(rng, -SCALE, SCALE);
            if p.length_squared() <= SCALE {
                return p;
            }
            attempts = attempts - 1;
        }
        Vec3 { x: 0, y: 0, z: 32768 }
    }

    /// A random direction of (approximately) unit length: a nonzero sample
    /// from the unit ball, normalized. Every result is the normalization of
    /// some vector with positive squared length at most one.
    pub fn random_unit_vector(rng: &mut RandomSource) -> (r: Vec3)
        ensures
            exists|p: Vec3| 0 < vlen_sq(p) <= SCALE && r == vunit(p),
    {
        let p = Self::random_in_unit_sphere(rng);
        let lsq = p.length_squared();
        if lsq > 0 {
            let r = p.unit_vector();
            proof {
                assert(0 < vlen_sq(p) <= SCALE && r == vunit(p));
            }
            r
        } else {
            let q = Vec3 { x: 0, y: 0, z: SCALE };
            proof {
                assert(fp_mul(0, 0) == 0);
                assert(fp_mul(65536, 65536) == 65536);
                assert(vlen_sq(q) == 65536);
                assert(is_sqrt(4294967296, 65536));
                lemma_sqrt_unique(4294967296, 65536);
                assert(vlen(q) == 65536);
                assert(fp_div(0, 65536) == 0);
                assert(fp_div(65536, 65536) == 65536);
                assert(q == vunit(q));
                assert(0 < vlen_sq(q) <= SCALE && q == vunit(q));
            }
            q
        }
    }

    /// A unit-ball sample on the side of `normal`: the sample itself when
    /// its dot product with `normal` is positive, otherwise its negation.
    pub fn random_in_hemisphere(rng: &mut RandomSource, normal: &Vec3) -> (r: Vec3)
        ensures
            vlen_sq(r) <= SCALE,
            exists|p: Vec3|
                #![trigger vdot(p, *normal)]
                vlen_sq(p) <= SCALE && ((vdot(p, *normal) > 0 && r == p) || (vdot(p, *normal)
                    <= 0 && r == vneg(p))),
    {
        let p = Self::random_in_unit_sphere(rng);
        if p.dot(normal) > 0 {
            proof {
                assert(vlen_sq(p) <= SCALE && vdot(p, *normal) > 0);
            }
            p
        } else {
            let q = p.neg();
            proof {
                lemma_vneg_len_sq(p);
                assert(vlen_sq(p) <= SCALE && vdot(p, *normal) <= 0 && q == vneg(p));
            }
            q
        }
    }

    /// Rejection-sample a point in the unit disk at `z == 0`, for lens
    /// sampling. As with the ball, the draws are bounded and the centre of
    /// the disk stands in if every draw is rejected.
    pub fn random_in_unit_disk(rng: &mut RandomSource) -> (r: Vec3)
        ensures
            vlen_sq(r) <= SCALE,
            r.z == 0,
    {
        let mut attempts: u32 = 64;
        while attempts > 0
            decreases attempts,
        {
            let x = crate::random::random_range(rng, -SCALE, SCALE);
            let y = crate::random::random_range(rng, -SCALE, SCALE);
            let p = Vec3 { x, y, z: 0 };
            if p.length_squared() <= SCALE {
                return p;
            }
            attempts = attempts - 1;
        }
        Vec3 { x: 0, y: 0, z: 0 }
    }
}

impl Default for Vec3 {
    /// The zero vector, also used as the colour black.
    fn default() -> (r: Vec3)
        ensures
            r == (Vec3 { x: 0, y: 0, z: 0 }),
    {
        Vec3 { x: 0, y: 0, z: 0 }
    }
}

} // verus!
