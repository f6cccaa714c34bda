//! The sphere surface: quadratic ray intersection with the half-b
//! reduction. A negative radius models an inward-facing shell; the outward
//! normal `(p - center) / radius` then points inward, as it should.

use vstd::prelude::*;

use crate::fixed::{
    add_spec, div_spec, fadd, fdiv, fmul, fneg, fsqrt, fsub, lemma_div_spec_mono, mul_spec,
    neg_spec, sqrt_spec, sub_spec,
};
use crate::hit::HitRecord;
use crate::material::{material_wf, Material};
use crate::ray::{ray_at_spec, Ray};
use crate::vec3::{dot_spec, lemma_dot_self_nonneg, vdivs, vscale, vsub, Point3, Vec3};

verus! {

#[derive(Clone, Copy, PartialEq, Eq, Structural, Debug)]
pub struct Sphere {
    pub center: Point3,
    pub radius: i64,
    pub material: Material,
}

/// Validity: a nonzero radius and a valid material.
pub open spec fn sphere_wf(s: Sphere) -> bool {
    s.radius != 0 && material_wf(s.material)
}

/// The quadratic's leading coefficient `d . d`.
pub open spec fn sphere_a(r: Ray) -> int {
    dot_spec(r.dir, r.dir)
}

/// The half-b coefficient `d . (o - c)`.
pub open spec fn sphere_half_b(s: Sphere, r: Ray) -> int {
    dot_spec(r.dir, vsub(r.orig, s.center))
}

/// The discriminant of the half-b reduction, `b^2 - a c`.
pub open spec fn sphere_disc(s: Sphere, r: Ray) -> int {
    let oc = vsub(r.orig, s.center);
    let c = sub_spec(dot_spec(oc, oc), mul_spec(s.radius as int, s.radius as int));
    sub_spec(
        mul_spec(sphere_half_b(s, r), sphere_half_b(s, r)),
        mul_spec(sphere_a(r), c),
    )
}

/// The smaller root `(-b - sqrt(disc)) / a`.
pub open spec fn sphere_root1(s: Sphere, r: Ray) -> int {
    div_spec(
        sub_spec(neg_spec(sphere_half_b(s, r)), sqrt_spec(sphere_disc(s, r))),
        sphere_a(r),
    )
}

/// The larger root `(-b + sqrt(disc)) / a`.
pub open spec fn sphere_root2(s: Sphere, r: Ray) -> int {
    div_spec(
        add_spec(neg_spec(sphere_half_b(s, r)), sqrt_spec(sphere_disc(s, r))),
        sphere_a(r),
    )
}

/// The record an accepted root produces: contact point, outward normal
/// `(p - c) / radius` oriented against the ray, and the sphere's material.
pub open spec fn sphere_record(s: Sphere, r: Ray, root: int) -> HitRecord
    recommends
        s.radius != 0,
{
    let p = ray_at_spec(r, root);
    let outward = vdivs(vsub(p, s.center), s.radius as int);
    let front = dot_spec(r.dir, outward) < 0;
    HitRecord {
        p,
        normal: if front {
            outward
        } else {
            vscale(-65536, outward)
        },
        t: root as i64,
        front_face: front,
        material: s.material,
    }
}

/// What `Sphere::hit` returns: a miss when the discriminant is negative
/// (or the direction is degenerate), else the smaller root if it lies
/// strictly inside `(t_min, t_max)`, else the larger root if it does,
/// else a miss.
pub open spec fn sphere_hit_spec(s: Sphere, r: Ray, t_min: int, t_max: int) -> Option<HitRecord>
    recommends
        s.radius != 0,
{
    if sphere_disc(s, r) < 0 || sphere_a(r) == 0 {
        None
    } else {
        let root1 = sphere_root1(s, r);
        if t_min < root1 && root1 < t_max {
            Some(sphere_record(s, r, root1))
        } else {
            let root2 = sphere_root2(s, r);
            if t_min < root2 && root2 < t_max {
                Some(sphere_record(s, r, root2))
            } else {
                None
            }
        }
    }
}

/// An accepted hit carries the sphere's material, a parameter strictly
/// inside the range, and the contact point the ray reaches there.
pub proof fn lemma_sphere_hit_props(s: Sphere, r: Ray, t_min: int, t_max: int, rec: HitRecord)
    requires
        sphere_hit_spec(s, r, t_min, t_max) == Some(rec),
    ensures
        rec.material == s.material,
        t_min < rec.t < t_max,
        rec.p == ray_at_spec(r, rec.t as int),
{
    let root1 = sphere_root1(s, r);
    let root2 = sphere_root2(s, r);
    if t_min < root1 && root1 < t_max {
        assert(rec == sphere_record(s, r, root1));
    } else {
        assert(rec == sphere_record(s, r, root2));
    }
}

proof fn lemma_root2_ge_root1(s: Sphere, r: Ray)
    requires
        sphere_a(r) > 0,
        sphere_disc(s, r) >= 0,
    ensures
        sphere_root2(s, r) >= sphere_root1(s, r),
{
    let nb = neg_spec(sphere_half_b(s, r));
    let sq = sqrt_spec(sphere_disc(s, r));
    assert(sq >= 0);
    lemma_div_spec_mono(sub_spec(nb, sq), add_spec(nb, sq), sphere_a(r));
}

/// How the hit under a tightened upper bound relates to the hit under the
/// original one: an accepted hit is the same record and lies below the
/// tight bound; a miss means any hit under the wide bound lies at or
/// beyond the tight bound.
pub proof fn lemma_sphere_hit_bounds(
    s: Sphere,
    r: Ray,
    t_min: int,
    c: int,
    t_max: int,
    h: Option<HitRecord>,
)
    requires
        c <= t_max,
        h == sphere_hit_spec(s, r, t_min, c),
    ensures
        h matches Some(rec) ==> sphere_hit_spec(s, r, t_min, t_max) == Some(rec) && t_min < rec.t
            && rec.t < c,
        h is None ==> match sphere_hit_spec(s, r, t_min, t_max) {
            Option::Some(other) => other.t >= c,
            Option::None => true,
        },
{
    if sphere_disc(s, r) < 0 || sphere_a(r) == 0 {
    } else {
        lemma_dot_self_nonneg(r.dir);
        lemma_root2_ge_root1(s, r);
    }
}

impl Sphere {
    pub fn new(cen: Point3, radius: i64, material: Material) -> (r: Sphere)
        requires
            radius != 0,
        ensures
            r.center == cen,
            r.radius == radius,
            r.material == material,
    {
        Sphere { center: cen, radius, material }
    }

    fn make_record(&self, ray: &Ray, root: i64) -> (rec: HitRecord)
        requires
            self.radius != 0,
        ensures
            rec == sphere_record(*self, *ray, root as int),
    {
        let p = ray.at(root);
        let outward = p.sub(self.center).divs(self.radius);
        let mut rec = HitRecord {
            p,
            normal: Vec3::new(0, 0, 0),
            t: root,
            front_face: false,
            material: self.material,
        };
        rec.set_face_normal(ray, outward);
        rec
    }

    /// The intersection of the ray with this sphere strictly inside
    /// `(t_min, t_max)`, if any: solve the quadratic, prefer the smaller
    /// root, orient the outward normal against the ray.
    pub fn hit(&self, ray: &Ray, t_min: i64, t_max: i64) -> (res: Option<HitRecord>)
        requires
            self.radius != 0,
        ensures
            res == sphere_hit_spec(*self, *ray, t_min as int, t_max as int),
    {
        let oc = ray.origin().sub(self.center);
        let a = ray.direction().dot(ray.direction());
        let half_b = ray.direction().dot(oc);
        let c = fsub(oc.dot(oc), fmul(self.radius, self.radius));
        let discriminant = fsub(fmul(half_b, half_b), fmul(a, c));
        if discriminant < 0 || a == 0 {
            return None;
        }
        let sqrtd = fsqrt(discriminant);
        let root = fdiv(fsub(fneg(half_b), sqrtd), a);
        if t_min < root && root < t_max {
            return Some(self.make_record(ray, root));
        }
        let root = fdiv(fadd(fneg(half_b), sqrtd), a);
        if t_min < root && root < t_max {
            return Some(self.make_record(ray, root));
        }
        None
    }
}

} // verus!
