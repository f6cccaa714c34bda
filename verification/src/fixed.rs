//! The fixed-point scalar: an `i64` holding a real number scaled by 2^16.
//!
//! Multiplication, division and square root truncate toward zero; every
//! operation saturates at the `i64` range instead of wrapping, so all of
//! them are total and none panics. The spec functions below state the
//! result of each operation exactly.

use vstd::prelude::*;

verus! {

/// Raw units per 1.0.
pub const ONE: i64 = 65536;

/// Clamp a mathematical integer into the `i64` range.
pub open spec fn sat64(x: int) -> int {
    if x > i64::MAX as int {
        i64::MAX as int
    } else if x < i64::MIN as int {
        i64::MIN as int
    } else {
        x
    }
}

/// Absolute value.
pub open spec fn abs1(x: int) -> int {
    if x >= 0 {
        x
    } else {
        -x
    }
}

/// Division truncating toward zero (the sign convention of machine division).
pub open spec fn tdiv(p: int, q: int) -> int
    recommends
        q != 0,
{
    if (p >= 0) == (q >= 0) {
        abs1(p) / abs1(q)
    } else {
        -(abs1(p) / abs1(q))
    }
}

/// What `fadd` returns.
pub open spec fn add_spec(a: int, b: int) -> int {
    sat64(a + b)
}

/// What `fsub` returns.
pub open spec fn sub_spec(a: int, b: int) -> int {
    sat64(a - b)
}

/// What `fneg` returns.
pub open spec fn neg_spec(a: int) -> int {
    sat64(-a)
}

/// What `fmul` returns: the product of two scaled values, rescaled.
pub open spec fn mul_spec(a: int, b: int) -> int {
    sat64(tdiv(a * b, 65536))
}

/// What `fdiv` returns: the quotient of two scaled values, rescaled.
pub open spec fn div_spec(a: int, b: int) -> int
    recommends
        b != 0,
{
    sat64(tdiv(a * 65536, b))
}

/// What `fabs` returns.
pub open spec fn abs_spec(a: int) -> int {
    sat64(abs1(a))
}

pub open spec fn min_spec(a: int, b: int) -> int {
    if a <= b {
        a
    } else {
        b
    }
}

pub open spec fn max_spec(a: int, b: int) -> int {
    if a >= b {
        a
    } else {
        b
    }
}

/// The integer square root, defined by recursion on its argument.
pub open spec fn isqrt_rec(n: nat) -> nat
    decreases n,
{
    if n == 0 {
        0
    } else {
        let r = isqrt_rec((n - 1) as nat);
        if (r + 1) * (r + 1) <= n {
            (r + 1) as nat
        } else {
            r
        }
    }
}

/// `r` is the integer square root of `n`.
pub open spec fn is_isqrt(n: int, r: int) -> bool {
    0 <= r && r * r <= n && n < (r + 1) * (r + 1)
}

/// What `fsqrt` returns: the square root of a scaled value, scaled;
/// `sqrt_spec(x) / 2^16` is the integer square root of `x * 2^16`.
pub open spec fn sqrt_spec(x: int) -> int
    recommends
        x >= 0,
{
    isqrt_rec((x * 65536) as nat) as int
}

pub proof fn lemma_isqrt_rec_is_isqrt(n: nat)
    ensures
        is_isqrt(n as int, isqrt_rec(n) as int),
    decreases n,
{
    if n == 0 {
        assert(is_isqrt(0, 0));
    } else {
        lemma_isqrt_rec_is_isqrt((n - 1) as nat);
        let r = isqrt_rec((n - 1) as nat);
        if (r + 1) * (r + 1) <= n {
            assert((r + 1) * (r + 1) == n) by {
                assert(n - 1 < (r + 1) * (r + 1));
            }
            assert((r + 2) * (r + 2) > (r + 1) * (r + 1)) by (nonlinear_arith)
                requires
                    r >= 0,
            ;
        }
    }
}

pub proof fn lemma_isqrt_unique(n: int, a: int, b: int)
    by (nonlinear_arith)
    requires
        0 <= a,
        a * a <= n,
        n < (a + 1) * (a + 1),
        0 <= b,
        b * b <= n,
        n < (b + 1) * (b + 1),
    ensures
        a == b,
{
}

pub proof fn lemma_abs_mul(a: int, b: int)
    ensures
        abs1(a * b) == abs1(a) * abs1(b),
        ((a >= 0) == (b >= 0)) ==> a * b >= 0,
        ((a >= 0) != (b >= 0)) ==> a * b <= 0,
{
    if a >= 0 && b >= 0 {
        assert(a * b >= 0) by (nonlinear_arith)
            requires
                a >= 0,
                b >= 0,
        ;
    } else if a >= 0 && b < 0 {
        assert(a * b <= 0 && (-(a * b)) == a * (-b)) by (nonlinear_arith)
            requires
                a >= 0,
                b < 0,
        ;
    } else if a < 0 && b >= 0 {
        assert(a * b <= 0 && (-(a * b)) == (-a) * b) by (nonlinear_arith)
            requires
                a < 0,
                b >= 0,
        ;
    } else {
        assert(a * b >= 0 && a * b == (-a) * (-b)) by (nonlinear_arith)
            requires
                a < 0,
                b < 0,
        ;
    }
}

/// Truncating division is monotone in the dividend for a positive divisor.
pub proof fn lemma_tdiv_mono(p1: int, p2: int, q: int)
    requires
        p1 <= p2,
        q > 0,
    ensures
        tdiv(p1, q) <= tdiv(p2, q),
{
    if p1 >= 0 {
        vstd::arithmetic::div_mod::lemma_div_is_ordered(p1, p2, q);
    } else if p2 < 0 {
        vstd::arithmetic::div_mod::lemma_div_is_ordered(-p2, -p1, q);
    } else {
        vstd::arithmetic::div_mod::lemma_div_pos_is_pos(-p1, q);
        vstd::arithmetic::div_mod::lemma_div_pos_is_pos(p2, q);
    }
}

/// The scaled quotient is monotone in the dividend for a positive divisor.
pub proof fn lemma_div_spec_mono(x: int, y: int, b: int)
    requires
        x <= y,
        b > 0,
    ensures
        div_spec(x, b) <= div_spec(y, b),
{
    lemma_tdiv_mono(x * 65536, y * 65536, b);
}

/// The magnitude of an `i64`, as a `u128`.
fn abs_u128(a: i64) -> (r: u128)
    ensures
        r == abs1(a as int),
        r <= 9223372036854775808u128,
{
    if a >= 0 {
        a as u128
    } else {
        (-(a as i128)) as u128
    }
}

/// Saturating addition.
pub fn fadd(a: i64, b: i64) -> (r: i64)
    ensures
        r as int == add_spec(a as int, b as int),
{
    let s: i128 = a as i128 + b as i128;
    if s > i64::MAX as i128 {
        i64::MAX
    } else if s < i64::MIN as i128 {
        i64::MIN
    } else {
        s as i64
    }
}

/// Saturating subtraction.
pub fn fsub(a: i64, b: i64) -> (r: i64)
    ensures
        r as int == sub_spec(a as int, b as int),
{
    let s: i128 = a as i128 - b as i128;
    if s > i64::MAX as i128 {
        i64::MAX
    } else if s < i64::MIN as i128 {
        i64::MIN
    } else {
        s as i64
    }
}

/// Saturating negation.
pub fn fneg(a: i64) -> (r: i64)
    ensures
        r as int == neg_spec(a as int),
{
    fsub(0, a)
}

/// Saturating absolute value.
pub fn fabs(a: i64) -> (r: i64)
    ensures
        r as int == abs_spec(a as int),
{
    if a >= 0 {
        a
    } else {
        fneg(a)
    }
}

/// Fixed-point multiplication: rescaled, truncated toward zero, saturated.
pub fn fmul(a: i64, b: i64) -> (r: i64)
    ensures
        r as int == mul_spec(a as int, b as int),
{
    let am = abs_u128(a);
    let bm = abs_u128(b);
    proof {
        lemma_abs_mul(a as int, b as int);
        assert(am * bm <= 170141183460469231731687303715884105728u128) by (nonlinear_arith)
            requires
                am <= 9223372036854775808u128,
                bm <= 9223372036854775808u128,
        ;
    }
    let q = (am * bm) / 65536;
    if (a >= 0) == (b >= 0) {
        if q > i64::MAX as u128 {
            i64::MAX
        } else {
            q as i64
        }
    } else {
        if q >= 9223372036854775808u128 {
            i64::MIN
        } else {
            -(q as i64)
        }
    }
}

/// Fixed-point division: rescaled, truncated toward zero, saturated.
pub fn fdiv(a: i64, b: i64) -> (r: i64)
    requires
        b != 0,
    ensures
        r as int == div_spec(a as int, b as int),
{
    let am = abs_u128(a);
    let bm = abs_u128(b);
    let q = (am * 65536) / bm;
    proof {
        assert(abs1((a as int) * 65536) == abs1(a as int) * 65536);
        assert(((a as int) * 65536 >= 0) == (a as int >= 0));
    }
    if (a >= 0) == (b >= 0) {
        if q > i64::MAX as u128 {
            i64::MAX
        } else {
            q as i64
        }
    } else {
        if q >= 9223372036854775808u128 {
            i64::MIN
        } else {
            -(q as i64)
        }
    }
}

/// Fixed-point square root of a nonnegative value, truncated.
pub fn fsqrt(x: i64) -> (r: i64)
    requires
        x >= 0,
    ensures
        r as int == sqrt_spec(x as int),
        is_isqrt((x as int) * 65536, r as int),
        r >= 0,
{
    let n: u128 = (x as u128) * 65536;
    let mut lo: u128 = 0;
    let mut hi: u128 = 1099511627776;
    proof {
        assert((n as int) < 1099511627776 * 1099511627776) by (nonlinear_arith)
            requires
                n <= 9223372036854775807u128 * 65536,
        ;
    }
    while lo + 1 < hi
        invariant
            lo < hi,
            hi <= 1099511627776,
            (lo as int) * (lo as int) <= n as int,
            (n as int) < (hi as int) * (hi as int),
        decreases hi - lo,
    {
        let mid = lo + (hi - lo) / 2;
        proof {
            assert((mid as int) * (mid as int) < 1099511627776 * 1099511627776) by (nonlinear_arith)
                requires
                    mid < 1099511627776u128,
            ;
        }
        if mid * mid <= n {
            lo = mid;
        } else {
            hi = mid;
        }
    }
    proof {
        assert(hi == lo + 1);
        assert(is_isqrt(n as int, lo as int));
        lemma_isqrt_rec_is_isqrt(n as nat);
        lemma_isqrt_unique(n as int, lo as int, isqrt_rec(n as nat) as int);
        assert(n as int == (x as int) * 65536);
    }
    lo as i64
}

/// The smaller of two scalars.
pub fn fmin(a: i64, b: i64) -> (r: i64)
    ensures
        r as int == min_spec(a as int, b as int),
{
    if a <= b {
        a
    } else {
        b
    }
}

/// The larger of two scalars.
pub fn fmax(a: i64, b: i64) -> (r: i64)
    ensures
        r as int == max_spec(a as int, b as int),
{
    if a >= b {
        a
    } else {
        b
    }
}

} // verus!
