use raytrace::fixed::{fadd, fdiv, fmul, fneg, fsqrt, fsub, ONE};

#[test]
fn multiplication_rescales_exactly() {
    assert_eq!(fmul(2 * ONE, 3 * ONE), 6 * ONE);
    assert_eq!(fmul(ONE / 2, ONE / 2), ONE / 4);
    assert_eq!(fmul(-2 * ONE, 3 * ONE), -6 * ONE);
    // Truncation is toward zero from either side.
    assert_eq!(fmul(1, 1), 0);
    assert_eq!(fmul(-1, 1), 0);
}

#[test]
fn division_rescales_and_truncates_toward_zero() {
    assert_eq!(fdiv(6 * ONE, 3 * ONE), 2 * ONE);
    assert_eq!(fdiv(ONE, 3 * ONE), 21845);
    assert_eq!(fdiv(-ONE, 3 * ONE), -21845);
}

#[test]
fn addition_saturates_instead_of_wrapping() {
    assert_eq!(fadd(i64::MAX, ONE), i64::MAX);
    assert_eq!(fsub(i64::MIN, ONE), i64::MIN);
    assert_eq!(fneg(i64::MIN), i64::MAX);
    assert_eq!(fadd(2 * ONE, 3 * ONE), 5 * ONE);
}

#[test]
fn square_root_is_exact_on_squares() {
    assert_eq!(fsqrt(0), 0);
    assert_eq!(fsqrt(ONE), ONE);
    assert_eq!(fsqrt(4 * ONE), 2 * ONE);
    assert_eq!(fsqrt(9 * ONE), 3 * ONE);
    assert_eq!(fsqrt(ONE / 4), ONE / 2);
    // Between squares the root is truncated: sqrt(2) in fixed units.
    assert_eq!(fsqrt(2 * ONE), 92681);
}
