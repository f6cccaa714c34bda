//! Intersections: the hit record a surface produces, and the scene
//! aggregate that finds the closest hit with a shrinking upper bound, so
//! that the result does not depend on the order of the surfaces.

use vstd::prelude::*;

use crate::material::Material;
use crate::ray::Ray;
use crate::sphere::{sphere_hit_spec, sphere_wf, Sphere};
use crate::vec3::{dot_spec, vscale, Point3, Vec3};

verus! {

/// Where and how a ray met a surface: contact point, oriented unit-outward
/// normal, ray parameter, which side was struck, and the surface's material.
#[derive(Clone, Copy, PartialEq, Eq, Structural, Debug)]
pub struct HitRecord {
    pub p: Point3,
    pub normal: Vec3,
    pub t: i64,
    pub front_face: bool,
    pub material: Material,
}

impl HitRecord {
    /// Orient the outward normal against the incoming ray: keep it and mark
    /// a front face when the ray approaches from the outward side, else
    /// negate it.
    pub fn set_face_normal(&mut self, r: &Ray, outward_normal: Vec3)
        ensures
            final(self).front_face == (dot_spec(r.dir, outward_normal) < 0),
            final(self).normal == (if dot_spec(r.dir, outward_normal) < 0 {
                outward_normal
            } else {
                vscale(-65536, outward_normal)
            }),
            final(self).p == old(self).p,
            final(self).t == old(self).t,
            final(self).material == old(self).material,
    {
        let d = r.direction().dot(outward_normal);
        self.front_face = d < 0;
        if self.front_face {
            self.normal = outward_normal;
        } else {
            self.normal = outward_normal.scale(-65536);
        }
    }
}

/// The scene: the ordered collection of surfaces a ray is tested against.
pub struct World {
    pub spheres: Vec<Sphere>,
}

pub open spec fn world_wf(w: World) -> bool {
    forall|i: int| 0 <= i < w.spheres.len() ==> sphere_wf(#[trigger] w.spheres[i])
}

/// No surface of the collection intersects the ray inside the range.
pub open spec fn world_hit_none(spheres: Seq<Sphere>, r: Ray, t_min: int, t_max: int) -> bool {
    forall|i: int|
        0 <= i < spheres.len() ==> (#[trigger] sphere_hit_spec(spheres[i], r, t_min, t_max))
            is None
}

/// What the scene's closest-hit search returned: nothing only when every
/// surface missed; otherwise some surface's own hit record, and no surface
/// hits strictly closer.
pub open spec fn world_hit_post(
    spheres: Seq<Sphere>,
    r: Ray,
    t_min: int,
    t_max: int,
    res: Option<HitRecord>,
) -> bool {
    match res {
        Option::None => world_hit_none(spheres, r, t_min, t_max),
        Option::Some(rec) => {
            &&& (exists|i: int|
                0 <= i < spheres.len() && #[trigger] sphere_hit_spec(spheres[i], r, t_min, t_max)
                    == Some(rec))
            &&& (forall|i: int|
                0 <= i < spheres.len() ==> match #[trigger] sphere_hit_spec(
                    spheres[i],
                    r,
                    t_min,
                    t_max,
                ) {
                    Option::Some(other) => rec.t <= other.t,
                    Option::None => true,
                })
        },
    }
}

proof fn lemma_contains_transfer(s1: Seq<Sphere>, s2: Seq<Sphere>, x: Sphere)
    requires
        s1.to_multiset() == s2.to_multiset(),
        s1.contains(x),
    ensures
        s2.contains(x),
{
    s1.to_multiset_ensures();
    s2.to_multiset_ensures();
    assert(s1.to_multiset().count(x) > 0);
}

/// Order independence of the closest-hit search: against two orderings of
/// the same collection of surfaces (permutations: equal multisets), the
/// search misses in both, or hits in both with the same ray parameter and
/// therefore the same contact point.
pub proof fn lemma_world_hit_order_independent(
    s1: Seq<Sphere>,
    s2: Seq<Sphere>,
    r: Ray,
    t_min: int,
    t_max: int,
    res1: Option<HitRecord>,
    res2: Option<HitRecord>,
)
    requires
        s1.to_multiset() == s2.to_multiset(),
        world_hit_post(s1, r, t_min, t_max, res1),
        world_hit_post(s2, r, t_min, t_max, res2),
    ensures
        res1 is Some <==> res2 is Some,
        res1 matches Some(a) ==> res2 matches Some(b) ==> a.t == b.t && a.p == b.p,
{
    match res1 {
        Option::Some(a) => {
            let i = choose|i: int|
                0 <= i < s1.len() && #[trigger] sphere_hit_spec(s1[i], r, t_min, t_max) == Some(a);
            assert(s1.contains(s1[i]));
            lemma_contains_transfer(s1, s2, s1[i]);
            let j = choose|j: int| 0 <= j < s2.len() && s2[j] == s1[i];
            assert(sphere_hit_spec(s2[j], r, t_min, t_max) == Some(a));
            match res2 {
                Option::Some(b) => {
                    let i2 = choose|i2: int|
                        0 <= i2 < s2.len() && #[trigger] sphere_hit_spec(s2[i2], r, t_min, t_max)
                            == Some(b);
                    assert(s2.contains(s2[i2]));
                    lemma_contains_transfer(s2, s1, s2[i2]);
                    let j2 = choose|j2: int| 0 <= j2 < s1.len() && s1[j2] == s2[i2];
                    assert(sphere_hit_spec(s1[j2], r, t_min, t_max) == Some(b));
                    assert(a.t <= b.t && b.t <= a.t);
                    crate::sphere::lemma_sphere_hit_props(s1[i], r, t_min, t_max, a);
                    crate::sphere::lemma_sphere_hit_props(s2[i2], r, t_min, t_max, b);
                },
                Option::None => {
                    assert(sphere_hit_spec(s2[j], r, t_min, t_max) is None);
                },
            }
        },
        Option::None => {
            match res2 {
                Option::Some(b) => {
                    let i = choose|i: int|
                        0 <= i < s2.len() && #[trigger] sphere_hit_spec(s2[i], r, t_min, t_max)
                            == Some(b);
                    assert(s2.contains(s2[i]));
                    lemma_contains_transfer(s2, s1, s2[i]);
                    let j = choose|j: int| 0 <= j < s1.len() && s1[j] == s2[i];
                    assert(sphere_hit_spec(s1[j], r, t_min, t_max) is None);
                },
                Option::None => {
                },
            }
        },
    }
}

impl World {
    pub fn new() -> (r: World)
        ensures
            r.spheres@ =~= Seq::<Sphere>::empty(),
    {
        World { spheres: Vec::new() }
    }

    pub fn push(&mut self, s: Sphere)
        ensures
            final(self).spheres@ == old(self).spheres@.push(s),
    {
        self.spheres.push(s);
    }

    /// Whether every surface of the scene is valid: the executable form
    /// of `world_wf`, so that unverified callers can test the rendering
    /// precondition before they rely on it.
    pub fn is_well_formed(&self) -> (r: bool)
        ensures
            r == world_wf(*self),
    {
        let mut idx: usize = 0;
        while idx < self.spheres.len()
            invariant
                idx <= self.spheres.len(),
                forall|j: int| 0 <= j < idx ==> sphere_wf(#[trigger] self.spheres[j]),
            decreases self.spheres.len() - idx,
        {
            let s = &self.spheres[idx];
            if s.radius == 0 || !crate::material::material_valid(&s.material) {
                proof {
                    assert(!sphere_wf(self.spheres[idx as int]));
                }
                return false;
            }
            idx = idx + 1;
        }
        true
    }

    /// The closest intersection of the ray with any surface, strictly
    /// inside `(t_min, t_max)`. A single pass keeps a shrinking upper
    /// bound, so a later surface can only replace the candidate with a
    /// strictly closer hit.
    #[verifier::rlimit(20)]
    pub fn hit(&self, r: &Ray, t_min: i64, t_max: i64) -> (res: Option<HitRecord>)
        requires
            world_wf(*self),
        ensures
            world_hit_post(self.spheres@, *r, t_min as int, t_max as int, res),
            res matches Some(rec) ==> t_min < rec.t < t_max,
    {
        let ghost gs = self.spheres@;
        let mut tmp_rec: Option<HitRecord> = None;
        let mut closest_so_far = t_max;
        let mut idx: usize = 0;
        while idx < self.spheres.len()
            invariant
                0 <= idx <= self.spheres.len(),
                gs == self.spheres@,
                world_wf(*self),
                match tmp_rec {
                    Option::None => closest_so_far == t_max && (forall|i: int|
                        0 <= i < idx ==> (#[trigger] sphere_hit_spec(
                            gs[i],
                            *r,
                            t_min as int,
                            t_max as int,
                        )) is None),
                    Option::Some(rec) => {
                        &&& closest_so_far == rec.t
                        &&& t_min < rec.t < t_max
                        &&& (exists|i: int|
                            0 <= i < idx && #[trigger] sphere_hit_spec(
                                gs[i],
                                *r,
                                t_min as int,
                                t_max as int,
                            ) == Some(rec))
                        &&& (forall|i: int|
                            0 <= i < idx ==> match #[trigger] sphere_hit_spec(
                                gs[i],
                                *r,
                                t_min as int,
                                t_max as int,
                            ) {
                                Option::Some(other) => rec.t <= other.t,
                                Option::None => true,
                            })
                    },
                },
            decreases self.spheres.len() - idx,
        {
            let s = self.spheres[idx];
            let h = s.hit(r, t_min, closest_so_far);
            proof {
                crate::sphere::lemma_sphere_hit_bounds(
                    s,
                    *r,
                    t_min as int,
                    closest_so_far as int,
                    t_max as int,
                    h,
                );
            }
            match h {
                Option::Some(rec) => {
                    closest_so_far = rec.t;
                    tmp_rec = Some(rec);
                },
                Option::None => {
                },
            }
            idx = idx + 1;
        }
        tmp_rec
    }
}

} // verus!
