use raytrace::fixed::ONE;
use raytrace::hit::World;
use raytrace::material::{Lambertian, Material};
use raytrace::ray::Ray;
use raytrace::sphere::Sphere;
use raytrace::vec3::Vec3;

fn gray() -> Material {
    Material::Lambertian(Lambertian::new(Vec3::new(ONE / 2, ONE / 2, ONE / 2)))
}

#[test]
fn sphere_surface_origin_outward_misses() {
    // A ray starting exactly on the surface and aimed outward: the epsilon
    // lower bound excludes the t == 0 self-intersection and the other root
    // is behind the origin.
    let s = Sphere::new(Vec3::new(0, 0, 0), ONE, gray());
    let ray = Ray::new(Vec3::new(0, 0, ONE), Vec3::new(0, 0, ONE));
    let res = s.hit(&ray, 66, i64::MAX);
    assert!(res.is_none());
}

#[test]
fn sphere_head_on_hit_at_distance_minus_radius() {
    // A sphere of radius 1 centered 3 units down the ray: the hit must be
    // at t == 2 exactly.
    let s = Sphere::new(Vec3::new(0, 0, -3 * ONE), ONE, gray());
    let ray = Ray::new(Vec3::new(0, 0, 0), Vec3::new(0, 0, -ONE));
    let res = s.hit(&ray, 66, i64::MAX);
    let rec = res.expect("head-on ray must hit");
    assert!(rec.t == 2 * ONE);
    assert!(rec.p == Vec3::new(0, 0, -2 * ONE));
    assert!(rec.front_face);
}

#[test]
fn scene_hit_is_order_independent() {
    // The same three spheres pushed in two different orders give the same
    // closest hit parameter and point.
    let a = Sphere::new(Vec3::new(0, 0, -3 * ONE), ONE, gray());
    let b = Sphere::new(Vec3::new(0, 0, -6 * ONE), ONE, gray());
    let c = Sphere::new(Vec3::new(0, 3 * ONE, -3 * ONE), ONE, gray());

    let mut w1 = World::new();
    w1.push(a);
    w1.push(b);
    w1.push(c);
    let mut w2 = World::new();
    w2.push(c);
    w2.push(b);
    w2.push(a);

    let ray = Ray::new(Vec3::new(0, 0, 0), Vec3::new(0, 0, -ONE));
    let r1 = w1.hit(&ray, 66, i64::MAX).expect("hit expected");
    let r2 = w2.hit(&ray, 66, i64::MAX).expect("hit expected");
    assert!(r1.t == r2.t);
    assert!(r1.p == r2.p);
    assert!(r1.t == 2 * ONE);
}

#[test]
fn well_formedness_check_matches_scene() {
    let mut w = World::new();
    w.push(Sphere::new(Vec3::new(0, 0, -3 * ONE), ONE, gray()));
    assert!(w.is_well_formed());
    // A metal whose albedo channel exceeds one is invalid.
    let bad = Material::Metal(raytrace::material::Metal {
        albedo: Vec3::new(2 * ONE, 0, 0),
        fuzz: 0,
    });
    w.push(Sphere::new(Vec3::new(0, 0, -6 * ONE), ONE, bad));
    assert!(!w.is_well_formed());
}

#[test]
fn scene_miss_returns_none() {
    let mut w = World::new();
    w.push(Sphere::new(Vec3::new(0, 0, -3 * ONE), ONE, gray()));
    let ray = Ray::new(Vec3::new(0, 0, 0), Vec3::new(0, ONE, 0));
    assert!(w.hit(&ray, 66, i64::MAX).is_none());
}

#[test]
fn scene_closest_of_two_wins() {
    let near = Sphere::new(Vec3::new(0, 0, -3 * ONE), ONE, gray());
    let far = Sphere::new(Vec3::new(0, 0, -6 * ONE), ONE, gray());
    let mut w = World::new();
    w.push(far);
    w.push(near);
    let ray = Ray::new(Vec3::new(0, 0, 0), Vec3::new(0, 0, -ONE));
    let rec = w.hit(&ray, 66, i64::MAX).expect("hit expected");
    assert!(rec.t == 2 * ONE);
}

#[test]
fn negative_radius_shell_flips_normal() {
    // An inward-facing shell (negative radius): the outward normal of the
    // geometry points toward the center, so a ray from outside strikes a
    // back face.
    let s = Sphere::new(Vec3::new(0, 0, -3 * ONE), -ONE, gray());
    let ray = Ray::new(Vec3::new(0, 0, 0), Vec3::new(0, 0, -ONE));
    let rec = s.hit(&ray, 66, i64::MAX).expect("shell still intersects");
    assert!(!rec.front_face);
    assert!(rec.normal.z() > 0);
}
