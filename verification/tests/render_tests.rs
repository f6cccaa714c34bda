use rand::SeedableRng;
use raytrace::camera::Camera;
use raytrace::fixed::{fdiv, ONE};
use raytrace::hit::World;
use raytrace::material::{Lambertian, Material};
use raytrace::ray::Ray;
use raytrace::render::{ray_color, render, sky_color};
use raytrace::sphere::Sphere;
use raytrace::vec3::Vec3;

fn rng_with(seed: u64) -> rand::rngs::StdRng {
    rand::rngs::StdRng::seed_from_u64(seed)
}

fn default_camera() -> Camera {
    // Eye at the origin looking down -z, vertical field of view 90 degrees
    // (tangent of the half angle exactly one), aspect ratio 16:9.
    Camera::new(
        Vec3::new(0, 0, 0),
        Vec3::new(0, 0, -ONE),
        Vec3::new(0, ONE, 0),
        ONE,
        fdiv(16 * ONE, 9 * ONE),
    )
}

fn two_sphere_scene() -> World {
    let mut world = World::new();
    world.push(Sphere::new(
        Vec3::new(0, -100 * ONE - ONE / 2, -ONE),
        100 * ONE,
        Material::Lambertian(Lambertian::new(Vec3::new(
            8 * ONE / 10,
            8 * ONE / 10,
            0,
        ))),
    ));
    world.push(Sphere::new(
        Vec3::new(0, 0, -ONE),
        ONE / 2,
        Material::Lambertian(Lambertian::new(Vec3::new(
            7 * ONE / 10,
            3 * ONE / 10,
            3 * ONE / 10,
        ))),
    ));
    world
}

#[test]
fn normalize_has_unit_length() {
    // Wherever the length is positive, the normalized vector has length
    // one up to the fixed-point resolution.
    let mut rng = rng_with(3);
    for _ in 0..200 {
        let v = Vec3::random(&mut rng, -4 * ONE, 4 * ONE);
        if v.length() >= ONE {
            let len = v.normalized().length();
            assert!((len - ONE).abs() <= 16, "length was {}", len);
        }
    }
    let exact = Vec3::new(3 * ONE, 4 * ONE, 0).normalized().length();
    assert!((exact - ONE).abs() <= 16);
}

#[test]
fn normalize_zero_vector_stays_zero() {
    // The documented degenerate outcome: no number to divide by, the zero
    // vector comes back unchanged.
    let z = Vec3::new(0, 0, 0).normalized();
    assert_eq!(z, Vec3::new(0, 0, 0));
}

#[test]
fn unit_sphere_samples_stay_inside() {
    let mut rng = rng_with(5);
    for _ in 0..1000 {
        let v = Vec3::random_in_unit_sphere(&mut rng);
        assert!(v.length() < ONE);
    }
}

#[test]
fn hemisphere_samples_respect_normal() {
    let mut rng = rng_with(9);
    let normal = Vec3::new(0, ONE, 0);
    for _ in 0..200 {
        let v = Vec3::random_in_hemisphere(&mut rng, normal);
        assert!(v.length() < ONE);
        assert!(v.dot(normal) >= 0);
    }
}

#[test]
fn ray_color_depth_zero_is_black() {
    let world = two_sphere_scene();
    let ray = Ray::new(Vec3::new(0, 0, 0), Vec3::new(0, 0, -ONE));
    let mut rng = rng_with(1);
    let c = ray_color(&ray, &world, 0, &mut rng);
    assert_eq!(c, Vec3::new(0, 0, 0));
}

#[test]
fn sky_gradient_endpoints() {
    // Straight up: full sky blue. Straight down: white.
    let up = sky_color(&Ray::new(Vec3::new(0, 0, 0), Vec3::new(0, ONE, 0)));
    assert_eq!(up, Vec3::new(ONE / 2, 45875, ONE));
    let down = sky_color(&Ray::new(Vec3::new(0, 0, 0), Vec3::new(0, -ONE, 0)));
    assert_eq!(down, Vec3::new(ONE, ONE, ONE));
}

#[test]
fn quantize_maps_channels_exactly() {
    let pixel = Vec3::new(ONE, ONE / 4, 0);
    let (r, g, b) = pixel.quantize(1);
    assert_eq!((r, g, b), (255, 128, 0));
    let s = pixel.format_color(1);
    assert_eq!(s, "255 128 0");
}

#[test]
fn render_two_sphere_scene_end_to_end() {
    // The top row's outer pixels see only the background gradient, whose
    // blue channel is exactly one per sample; the pixel at the viewport
    // center sees the small diffuse sphere instead.
    let world = two_sphere_scene();
    let cam = default_camera();
    let width: usize = 16;
    let height: usize = 9;
    let samples: u32 = 4;
    let mut rng = rng_with(2024);
    let frame = render(&world, &cam, width, height, samples, 4, &mut rng);
    assert_eq!(frame.len(), width * height);

    let background_blue = (samples as i64) * ONE;
    let top_left = frame[0];
    let top_right = frame[width - 1];
    assert_eq!(top_left.z(), background_blue);
    assert_eq!(top_right.z(), background_blue);
    assert!(top_left.z() >= top_left.x());
    assert!(top_right.z() >= top_right.x());

    let center = frame[(height / 2) * width + width / 2];
    assert!(center.z() < background_blue);
    assert!(center.x() > center.z());
}

#[test]
fn render_is_deterministic_with_seed() {
    // Single-threaded rendering with the same seeded generator twice gives
    // bit-identical output.
    let world = two_sphere_scene();
    let cam = default_camera();
    let mut rng1 = rng_with(99);
    let mut rng2 = rng_with(99);
    let frame1 = render(&world, &cam, 12, 8, 3, 5, &mut rng1);
    let frame2 = render(&world, &cam, 12, 8, 3, 5, &mut rng2);
    assert_eq!(frame1, frame2);
}
