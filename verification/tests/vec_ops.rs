use rand::SeedableRng;
use raytrace::fixed::{fdiv, fsqrt, ONE};
use raytrace::vec3::Vec3;

fn fix(n: i64) -> i64 {
    n * ONE
}

fn approx(a: i64, b: i64, tol: i64) -> bool {
    (a - b).abs() <= tol
}

fn rng_for_tests() -> rand::rngs::StdRng {
    rand::rngs::StdRng::seed_from_u64(7)
}

#[test]
fn test_new() {
    let v = Vec3::new(fix(1), fix(2), fix(3));
    assert!(v.x() == fix(1));
    assert!(v.y() == fix(2));
    assert!(v.z() == fix(3));
}

#[test]
fn test_dot() {
    let v1 = Vec3::new(fix(1), fix(2), fix(3));
    let v2 = Vec3::new(fix(4), fix(5), fix(6));
    let result = v1.dot(v2);
    assert!(result == fix(32));
}

#[test]
fn test_cross() {
    let v1 = Vec3::new(fix(1), fix(2), fix(3));
    let v2 = Vec3::new(fix(4), fix(5), fix(6));
    let result = v1.cross(v2);
    assert!(result.x() == fix(-3));
    assert!(result.y() == fix(6));
    assert!(result.z() == fix(-3));
}

#[test]
fn test_length() {
    let v = Vec3::new(fix(1), fix(2), fix(2));
    assert!(v.length() == fix(3));
}

#[test]
fn test_normalized() {
    let v = Vec3::new(fix(1), fix(2), fix(2));
    let result = v.normalized();
    let expected = ONE / 3;
    assert!(approx(result.x(), expected, 1));
    assert!(approx(result.y(), 2 * ONE / 3, 1));
    assert!(approx(result.z(), 2 * ONE / 3, 1));
}

#[test]
fn test_add() {
    let v1 = Vec3::new(fix(1), fix(2), fix(3));
    let v2 = Vec3::new(fix(4), fix(5), fix(6));
    let result = v1.add(v2);
    assert!(result.x() == fix(5));
    assert!(result.y() == fix(7));
    assert!(result.z() == fix(9));
}

#[test]
fn test_sub() {
    let v1 = Vec3::new(fix(1), fix(2), fix(3));
    let v2 = Vec3::new(fix(4), fix(5), fix(6));
    let diff = v1.sub(v2);
    assert!(diff.x() == fix(-3));
    assert!(diff.y() == fix(-3));
    assert!(diff.z() == fix(-3));
}

#[test]
fn test_mul() {
    let v = Vec3::new(fix(1), fix(2), fix(3));
    let product = v.scale(fix(2));
    assert!(product.x() == fix(2));
    assert!(product.y() == fix(4));
    assert!(product.z() == fix(6));
}

#[test]
fn test_div() {
    let v = Vec3::new(fix(2), fix(4), fix(6));
    let quotient = v.divs(fix(2));
    assert!(quotient.x() == fix(1));
    assert!(quotient.y() == fix(2));
    assert!(quotient.z() == fix(3));
}

#[test]
fn test_add_assign() {
    let mut v1 = Vec3::new(fix(1), fix(2), fix(3));
    let v2 = Vec3::new(fix(4), fix(5), fix(6));
    v1 = v1.add(v2);
    assert!(v1.x() == fix(5));
    assert!(v1.y() == fix(7));
    assert!(v1.z() == fix(9));
}

#[test]
fn test_random() {
    let mut rng = rng_for_tests();
    let v = Vec3::random(&mut rng, 0, ONE);
    assert!(v.x() >= 0 && v.x() < ONE);
    assert!(v.y() >= 0 && v.y() < ONE);
    assert!(v.z() >= 0 && v.z() < ONE);
}

#[test]
fn test_random_in_unit_sphere() {
    let mut rng = rng_for_tests();
    let v = Vec3::random_in_unit_sphere(&mut rng);
    assert!(v.length() < ONE);
}

#[test]
fn test_reflect() {
    let incident = Vec3::new(fix(1), fix(-1), 0);
    let normal = Vec3::new(0, fix(1), 0);
    let reflected = incident.reflect(normal);
    assert!(reflected.x() == fix(1));
    assert!(reflected.y() == fix(1));
    assert!(reflected.z() == 0);
}

#[test]
fn test_refract() {
    let sqrt3 = fsqrt(fix(3));
    let incident = Vec3::new(sqrt3, fix(-1), 0).normalized();
    let normal = Vec3::new(0, fix(1), 0);
    let etai_over_etat = fdiv(ONE, sqrt3);
    let refracted = incident.refract(normal, etai_over_etat);

    let unit_expect_out = Vec3::new(fix(1), -sqrt3, 0).normalized();
    assert!(
        approx(refracted.x(), unit_expect_out.x(), 64),
        "x: expected {}, got {}",
        unit_expect_out.x(),
        refracted.x()
    );
    assert!(
        approx(refracted.y(), unit_expect_out.y(), 64),
        "y: expected {}, got {}",
        unit_expect_out.y(),
        refracted.y()
    );
    assert!(
        approx(refracted.z(), unit_expect_out.z(), 64),
        "z: expected {}, got {}",
        unit_expect_out.z(),
        refracted.z()
    );
}
