//! The scattering behaviour attached to a surface: diffuse, metallic or
//! refractive. A scatter either produces an attenuation color and a
//! continuation ray or absorbs the path. The random sample each variant
//! draws is existentially quantified in the contracts: whatever was drawn,
//! the result is exactly the stated function of it.

use vstd::prelude::*;

use crate::fixed::{
    add_spec, div_spec, fdiv, fmax, fmin, fmul, fsqrt, fsub, max_spec, min_spec, mul_spec,
    sqrt_spec, sub_spec, ONE,
};
use crate::hit::HitRecord;
use crate::ray::Ray;
use crate::rng::rand_between;
use crate::vec3::{
    dot_spec, in_ball, normalized_spec, reflect_spec, refract_spec, vadd, vscale, vsub, Color,
    Vec3,
};

verus! {

#[derive(Clone, Copy, PartialEq, Eq, Structural, Debug)]
pub struct Lambertian {
    pub albedo: Color,
}

#[derive(Clone, Copy, PartialEq, Eq, Structural, Debug)]
pub struct Metal {
    pub albedo: Color,
    pub fuzz: i64,
}

#[derive(Clone, Copy, PartialEq, Eq, Structural, Debug)]
pub struct Dielectric {
    pub ir: i64,
}

/// The closed set of material variants a surface can carry.
#[derive(Clone, Copy, PartialEq, Eq, Structural, Debug)]
pub enum Material {
    Lambertian(Lambertian),
    Metal(Metal),
    Dielectric(Dielectric),
}

/// Every channel lies in [0, 1]: a fractional (physical) color.
pub open spec fn color_in_unit(c: Color) -> bool {
    0 <= c.x <= 65536 && 0 <= c.y <= 65536 && 0 <= c.z <= 65536
}

/// Validity of a material's parameters: fractional albedo, fuzz in [0, 1],
/// positive refractive index.
pub open spec fn material_wf(m: Material) -> bool {
    match m {
        Material::Lambertian(l) => color_in_unit(l.albedo),
        Material::Metal(mt) => color_in_unit(mt.albedo) && 0 <= mt.fuzz <= 65536,
        Material::Dielectric(d) => d.ir > 0,
    }
}

/// What a diffuse surface scatters for the ball sample `s`: a ray from the
/// hit point toward `p + normal + s`, attenuated by the albedo.
pub open spec fn lambertian_scatter_spec(l: Lambertian, rec: HitRecord, s: Vec3) -> Option<
    (Color, Ray),
> {
    let target = vadd(vadd(rec.p, rec.normal), s);
    Some((l.albedo, Ray { orig: rec.p, dir: vsub(target, rec.p) }))
}

/// What a metallic surface scatters for the ball sample `s`: the mirrored
/// direction perturbed by `fuzz * s`, absorbed when the perturbed direction
/// no longer points away from the surface.
pub open spec fn metal_scatter_spec(m: Metal, r_in: Ray, rec: HitRecord, s: Vec3) -> Option<
    (Color, Ray),
> {
    let reflected = reflect_spec(r_in.dir, rec.normal);
    let dir = vadd(reflected, vscale(m.fuzz as int, s));
    if dot_spec(dir, rec.normal) > 0 {
        Some((m.albedo, Ray { orig: rec.p, dir }))
    } else {
        None
    }
}

/// Schlick's base reflectance at normal incidence.
pub open spec fn schlick_r0_spec(ref_idx: int) -> int {
    let q = div_spec(sub_spec(65536, ref_idx), add_spec(65536, ref_idx));
    mul_spec(q, q)
}

/// Schlick's reflectance approximation `R0 + (1 - R0) (1 - cos)^5`.
pub open spec fn reflectance_spec(cosine: int, ref_idx: int) -> int {
    let r0 = schlick_r0_spec(ref_idx);
    let omc = sub_spec(65536, cosine);
    let p5 = mul_spec(mul_spec(mul_spec(mul_spec(omc, omc), omc), omc), omc);
    add_spec(r0, mul_spec(sub_spec(65536, r0), p5))
}

/// At normal incidence (cosine exactly one) the Schlick reflectance equals
/// the base reflectance R0 exactly, for every refractive-index ratio.
pub proof fn lemma_schlick_normal_incidence(ref_idx: int)
    ensures
        reflectance_spec(65536, ref_idx) == schlick_r0_spec(ref_idx),
{
    let r0 = schlick_r0_spec(ref_idx);
    assert(sub_spec(65536, 65536) == 0);
    assert(mul_spec(0, 0) == 0);
    assert(mul_spec(sub_spec(65536, r0), 0) == 0);
    assert(add_spec(r0, 0) == r0);
}

/// What a refractive surface scatters for the uniform draw `u` in [0, 1):
/// total internal reflection when Snell's law has no solution, otherwise
/// reflection with probability given by Schlick's approximation, else
/// refraction; the attenuation is always white.
pub open spec fn dielectric_scatter_spec(d: Dielectric, r_in: Ray, rec: HitRecord, u: int) -> Option<
    (Color, Ray),
>
    recommends
        d.ir != 0,
{
    let refraction_ratio = if rec.front_face {
        div_spec(65536, d.ir as int)
    } else {
        d.ir as int
    };
    let unit_direction = normalized_spec(r_in.dir);
    let cos_theta = min_spec(dot_spec(vscale(-65536, unit_direction), rec.normal), 65536);
    let sin_theta = sqrt_spec(max_spec(sub_spec(65536, mul_spec(cos_theta, cos_theta)), 0));
    let cannot_refract = mul_spec(refraction_ratio, sin_theta) > 65536;
    let will_reflect = u < reflectance_spec(cos_theta, refraction_ratio);
    let dir = if cannot_refract || will_reflect {
        reflect_spec(unit_direction, rec.normal)
    } else {
        refract_spec(unit_direction, rec.normal, refraction_ratio)
    };
    Some((Vec3 { x: 65536, y: 65536, z: 65536 }, Ray { orig: rec.p, dir }))
}

/// What `Material::scatter` returned, whatever sample the variant drew.
pub open spec fn scatter_post(m: Material, r_in: Ray, rec: HitRecord, res: Option<
    (Color, Ray),
>) -> bool {
    match m {
        Material::Lambertian(l) => exists|s: Vec3|
            in_ball(s) && res == lambertian_scatter_spec(l, rec, s),
        Material::Metal(mt) => exists|s: Vec3|
            in_ball(s) && res == metal_scatter_spec(mt, r_in, rec, s),
        Material::Dielectric(d) => exists|u: int|
            0 <= u < 65536 && res == dielectric_scatter_spec(d, r_in, rec, u),
    }
}

/// Whether a color is fractional; the executable form of `color_in_unit`.
pub fn color_valid(c: &Color) -> (r: bool)
    ensures
        r == color_in_unit(*c),
{
    0 <= c.x && c.x <= ONE && 0 <= c.y && c.y <= ONE && 0 <= c.z && c.z <= ONE
}

/// Whether a material's parameters are valid; the executable form of
/// `material_wf`, for callers that must test it before rendering.
pub fn material_valid(m: &Material) -> (r: bool)
    ensures
        r == material_wf(*m),
{
    match m {
        Material::Lambertian(l) => color_valid(&l.albedo),
        Material::Metal(mt) => color_valid(&mt.albedo) && 0 <= mt.fuzz && mt.fuzz <= ONE,
        Material::Dielectric(d) => d.ir > 0,
    }
}

impl Lambertian {
    pub fn new(a: Color) -> (r: Lambertian)
        ensures
            r.albedo == a,
    {
        Lambertian { albedo: a }
    }

    /// Diffuse scattering; never absorbs.
    pub fn scatter(&self, rng: &mut rand::rngs::StdRng, _r_in: &Ray, rec: &HitRecord) -> (res:
        Option<(Color, Ray)>)
        ensures
            exists|s: Vec3| in_ball(s) && res == lambertian_scatter_spec(*self, *rec, s),
            res is Some,
            res matches Some(ar) ==> ar.0 == self.albedo && ar.1.orig == rec.p,
    {
        let s = Vec3::random_in_unit_sphere(rng);
        let target = rec.p.add(rec.normal).add(s);
        let scattered = Ray::new(rec.p, target.sub(rec.p));
        let res = Some((self.albedo, scattered));
        proof {
            assert(in_ball(s) && res == lambertian_scatter_spec(*self, *rec, s));
        }
        res
    }
}

impl Metal {
    /// The fuzz is clamped to [0, 1].
    pub fn new(a: Color, f: i64) -> (r: Metal)
        ensures
            r.albedo == a,
            r.fuzz == if f < 0 {
                0i64
            } else if f < 65536 {
                f
            } else {
                65536i64
            },
            0 <= r.fuzz <= 65536,
    {
        let fuzz = if f < 0 {
            0
        } else if f < ONE {
            f
        } else {
            ONE
        };
        Metal { albedo: a, fuzz }
    }

    /// Specular scattering with roughness; absorbs when the perturbed
    /// direction falls below the tangent plane.
    pub fn scatter(&self, rng: &mut rand::rngs::StdRng, r_in: &Ray, rec: &HitRecord) -> (res:
        Option<(Color, Ray)>)
        ensures
            exists|s: Vec3| in_ball(s) && res == metal_scatter_spec(*self, *r_in, *rec, s),
            res matches Some(ar) ==> ar.0 == self.albedo && ar.1.orig == rec.p,
    {
        let s = Vec3::random_in_unit_sphere(rng);
        let reflected = r_in.reflect(rec.normal);
        let dir = reflected.add(s.scale(self.fuzz));
        let res = if dir.dot(rec.normal) > 0 {
            Some((self.albedo, Ray::new(rec.p, dir)))
        } else {
            None
        };
        proof {
            assert(in_ball(s) && res == metal_scatter_spec(*self, *r_in, *rec, s));
        }
        res
    }
}

impl Dielectric {
    pub fn new(index_of_refraction: i64) -> (r: Dielectric)
        ensures
            r.ir == index_of_refraction,
    {
        Dielectric { ir: index_of_refraction }
    }

    /// Schlick's reflectance approximation.
    pub fn reflectance(cosine: i64, ref_idx: i64) -> (r: i64)
        requires
            ref_idx >= 0,
        ensures
            r as int == reflectance_spec(cosine as int, ref_idx as int),
    {
        let denom = crate::fixed::fadd(ONE, ref_idx);
        let r0 = fmul(fdiv(fsub(ONE, ref_idx), denom), fdiv(fsub(ONE, ref_idx), denom));
        let omc = fsub(ONE, cosine);
        let p5 = fmul(fmul(fmul(fmul(omc, omc), omc), omc), omc);
        crate::fixed::fadd(r0, fmul(fsub(ONE, r0), p5))
    }

    /// Refractive scattering: reflect or refract, never absorb.
    pub fn scatter(&self, rng: &mut rand::rngs::StdRng, r_in: &Ray, rec: &HitRecord) -> (res:
        Option<(Color, Ray)>)
        requires
            self.ir > 0,
        ensures
            exists|u: int| 0 <= u < 65536 && res == dielectric_scatter_spec(*self, *r_in, *rec, u),
            res is Some,
            res matches Some(ar) ==> ar.0 == (Vec3 { x: 65536, y: 65536, z: 65536 }) && ar.1.orig
                == rec.p,
    {
        let refraction_ratio = if rec.front_face {
            fdiv(ONE, self.ir)
        } else {
            self.ir
        };
        let unit_direction = r_in.direction().normalized();
        let neg_unit = unit_direction.scale(-65536);
        let cos_theta = fmin(neg_unit.dot(rec.normal), ONE);
        let sin_theta = fsqrt(fmax(fsub(ONE, fmul(cos_theta, cos_theta)), 0));
        let cannot_refract = fmul(refraction_ratio, sin_theta) > ONE;
        let u = rand_between(rng, 0, ONE);
        let will_reflect = u < Dielectric::reflectance(cos_theta, refraction_ratio);
        let direction = if cannot_refract || will_reflect {
            unit_direction.reflect(rec.normal)
        } else {
            unit_direction.refract(rec.normal, refraction_ratio)
        };
        let res = Some((Vec3::new(ONE, ONE, ONE), Ray::new(rec.p, direction)));
        proof {
            assert(0 <= u < 65536 && res == dielectric_scatter_spec(*self, *r_in, *rec, u as int));
        }
        res
    }
}

impl Material {
    /// Ask the hit surface's material for an attenuation and a continuation
    /// ray; `None` is absorption.
    pub fn scatter(&self, rng: &mut rand::rngs::StdRng, r_in: &Ray, rec: &HitRecord) -> (res:
        Option<(Color, Ray)>)
        requires
            material_wf(*self),
        ensures
            scatter_post(*self, *r_in, *rec, res),
            res matches Some(ar) ==> ar.1.orig == rec.p && color_in_unit(ar.0),
    {
        match self {
            Material::Lambertian(l) => l.scatter(rng, r_in, rec),
            Material::Metal(m) => m.scatter(rng, r_in, rec),
            Material::Dielectric(d) => d.scatter(rng, r_in, rec),
        }
    }
}

} // verus!
