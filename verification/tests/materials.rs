use rand::SeedableRng;
use raytrace::fixed::{fadd, fdiv, fmul, fsub, ONE};
use raytrace::hit::HitRecord;
use raytrace::material::{Dielectric, Lambertian, Material, Metal};
use raytrace::ray::Ray;
use raytrace::vec3::Vec3;

fn rng_for_tests() -> rand::rngs::StdRng {
    rand::rngs::StdRng::seed_from_u64(11)
}

fn record_at_origin(material: Material) -> HitRecord {
    HitRecord {
        p: Vec3::new(0, 0, 0),
        normal: Vec3::new(0, ONE, 0),
        t: ONE,
        front_face: true,
        material,
    }
}

#[test]
fn schlick_at_normal_incidence_equals_r0() {
    // cos(theta) == 1 must give exactly R0 = ((1 - n) / (1 + n))^2.
    for ratio in [ONE / 2, ONE, 3 * ONE / 2, fdiv(ONE, 3 * ONE / 2)] {
        let q = fdiv(fsub(ONE, ratio), fadd(ONE, ratio));
        let r0 = fmul(q, q);
        assert_eq!(Dielectric::reflectance(ONE, ratio), r0);
    }
}

#[test]
fn lambertian_always_scatters_with_albedo() {
    let albedo = Vec3::new(ONE / 2, ONE / 4, ONE / 8);
    let lam = Lambertian::new(albedo);
    let rec = record_at_origin(Material::Lambertian(lam));
    let r_in = Ray::new(Vec3::new(0, ONE, 0), Vec3::new(0, -ONE, 0));
    let mut rng = rng_for_tests();
    for _ in 0..32 {
        let (attenuation, scattered) = lam
            .scatter(&mut rng, &r_in, &rec)
            .expect("diffuse never absorbs");
        assert_eq!(attenuation, albedo);
        assert_eq!(scattered.origin(), rec.p);
    }
}

#[test]
fn metal_absorbs_below_tangent_plane() {
    // With a degenerate zero normal the perturbed direction can never
    // point away from the surface, so the metal absorbs the ray.
    let met = Metal::new(Vec3::new(ONE, ONE, ONE), ONE);
    let mut rec = record_at_origin(Material::Metal(met));
    rec.normal = Vec3::new(0, 0, 0);
    let r_in = Ray::new(Vec3::new(0, ONE, 0), Vec3::new(0, -ONE, 0));
    let mut rng = rng_for_tests();
    assert!(met.scatter(&mut rng, &r_in, &rec).is_none());
}

#[test]
fn metal_mirror_reflects_head_on() {
    // Zero fuzz: the scattered direction is the exact mirror image.
    let met = Metal::new(Vec3::new(ONE, ONE, ONE), 0);
    let rec = record_at_origin(Material::Metal(met));
    let r_in = Ray::new(Vec3::new(ONE, ONE, 0), Vec3::new(-ONE, -ONE, 0));
    let mut rng = rng_for_tests();
    let (_, scattered) = met
        .scatter(&mut rng, &r_in, &rec)
        .expect("upward reflection survives");
    assert_eq!(scattered.direction(), Vec3::new(-ONE, ONE, 0));
}

#[test]
fn metal_new_clamps_fuzz() {
    let met = Metal::new(Vec3::new(ONE, ONE, ONE), 3 * ONE);
    assert_eq!(met.fuzz, ONE);
    let met2 = Metal::new(Vec3::new(ONE, ONE, ONE), ONE / 4);
    assert_eq!(met2.fuzz, ONE / 4);
    let met3 = Metal::new(Vec3::new(ONE, ONE, ONE), -ONE);
    assert_eq!(met3.fuzz, 0);
}

#[test]
fn dielectric_always_scatters_white() {
    let glass = Dielectric::new(3 * ONE / 2);
    let rec = record_at_origin(Material::Dielectric(glass));
    let r_in = Ray::new(Vec3::new(0, ONE, 0), Vec3::new(ONE / 2, -ONE, 0));
    let mut rng = rng_for_tests();
    for _ in 0..32 {
        let (attenuation, scattered) = glass
            .scatter(&mut rng, &r_in, &rec)
            .expect("dielectric never absorbs");
        assert_eq!(attenuation, Vec3::new(ONE, ONE, ONE));
        assert_eq!(scattered.origin(), rec.p);
    }
}

#[test]
fn reflect_flips_only_normal_component() {
    // Against a unit normal the reflected vector's normal component is the
    // exact negation, and the tangent component is kept.
    let n = Vec3::new(0, ONE, 0);
    let v = Vec3::new(3 * ONE / 4, -ONE / 2, ONE / 8);
    let r = v.reflect(n);
    assert_eq!(r.dot(n), -v.dot(n));
    let w = Vec3::new(ONE, 0, 0);
    assert_eq!(r.dot(w), v.dot(w));
}
