//! Three-component vectors over the fixed-point scalar, used as points,
//! directions and colors. Every operation's result is stated exactly over
//! the scalar spec functions of `fixed`.

use vstd::prelude::*;

use crate::fixed::{
    abs1, abs_spec, add_spec, div_spec, fabs, fadd, fdiv, fmax, fmin, fmul, fneg, fsqrt, fsub,
    max_spec, min_spec, mul_spec, neg_spec, sqrt_spec, sub_spec, ONE,
};
use crate::rng::rand_between;

verus! {

#[derive(Clone, Copy, PartialEq, Eq, Structural, Debug)]
pub struct Vec3 {
    pub x: i64,
    pub y: i64,
    pub z: i64,
}

pub type Point3 = Vec3;

pub type Color = Vec3;

pub open spec fn vzero() -> Vec3 {
    Vec3 { x: 0, y: 0, z: 0 }
}

pub open spec fn vadd(a: Vec3, b: Vec3) -> Vec3 {
    Vec3 {
        x: add_spec(a.x as int, b.x as int) as i64,
        y: add_spec(a.y as int, b.y as int) as i64,
        z: add_spec(a.z as int, b.z as int) as i64,
    }
}

pub open spec fn vsub(a: Vec3, b: Vec3) -> Vec3 {
    Vec3 {
        x: sub_spec(a.x as int, b.x as int) as i64,
        y: sub_spec(a.y as int, b.y as int) as i64,
        z: sub_spec(a.z as int, b.z as int) as i64,
    }
}

/// Componentwise product, used for color modulation.
pub open spec fn vmul(a: Vec3, b: Vec3) -> Vec3 {
    Vec3 {
        x: mul_spec(a.x as int, b.x as int) as i64,
        y: mul_spec(a.y as int, b.y as int) as i64,
        z: mul_spec(a.z as int, b.z as int) as i64,
    }
}

/// The scalar multiple `k * v`.
pub open spec fn vscale(k: int, v: Vec3) -> Vec3 {
    Vec3 {
        x: mul_spec(k, v.x as int) as i64,
        y: mul_spec(k, v.y as int) as i64,
        z: mul_spec(k, v.z as int) as i64,
    }
}

/// The componentwise quotient `v / k`.
pub open spec fn vdivs(v: Vec3, k: int) -> Vec3
    recommends
        k != 0,
{
    Vec3 {
        x: div_spec(v.x as int, k) as i64,
        y: div_spec(v.y as int, k) as i64,
        z: div_spec(v.z as int, k) as i64,
    }
}

pub open spec fn dot_spec(a: Vec3, b: Vec3) -> int {
    add_spec(
        add_spec(mul_spec(a.x as int, b.x as int), mul_spec(a.y as int, b.y as int)),
        mul_spec(a.z as int, b.z as int),
    )
}

pub open spec fn cross_spec(a: Vec3, b: Vec3) -> Vec3 {
    Vec3 {
        x: sub_spec(mul_spec(a.y as int, b.z as int), mul_spec(a.z as int, b.y as int)) as i64,
        y: sub_spec(mul_spec(a.z as int, b.x as int), mul_spec(a.x as int, b.z as int)) as i64,
        z: sub_spec(mul_spec(a.x as int, b.y as int), mul_spec(a.y as int, b.x as int)) as i64,
    }
}

pub open spec fn length_spec(v: Vec3) -> int {
    sqrt_spec(dot_spec(v, v))
}

/// What `normalized` returns: the vector divided by its length, or the zero
/// vector when the squared length truncates to zero.
pub open spec fn normalized_spec(v: Vec3) -> Vec3 {
    if length_spec(v) == 0 {
        vzero()
    } else {
        vdivs(v, length_spec(v))
    }
}

pub open spec fn reflect_spec(v: Vec3, n: Vec3) -> Vec3 {
    vsub(v, vscale(mul_spec(131072, dot_spec(v, n)), n))
}

pub open spec fn refract_spec(v: Vec3, n: Vec3, etai_over_etat: int) -> Vec3 {
    let cos_theta = min_spec(dot_spec(vscale(-65536, v), n), 65536);
    let perp = vscale(etai_over_etat, vadd(v, vscale(cos_theta, n)));
    let lp = length_spec(perp);
    let inner = abs_spec(sub_spec(65536, mul_spec(lp, lp)));
    let par_k = neg_spec(sqrt_spec(inner));
    vadd(perp, vscale(par_k, n))
}

/// The vector lies strictly inside the unit ball.
pub open spec fn in_ball(v: Vec3) -> bool {
    dot_spec(v, v) < 65536
}

pub proof fn lemma_square_term_nonneg(a: int)
    ensures
        mul_spec(a, a) >= 0,
{
    assert(a * a >= 0) by (nonlinear_arith);
}

pub proof fn lemma_dot_self_nonneg(v: Vec3)
    ensures
        dot_spec(v, v) >= 0,
{
    lemma_square_term_nonneg(v.x as int);
    lemma_square_term_nonneg(v.y as int);
    lemma_square_term_nonneg(v.z as int);
}

proof fn lemma_component_bound_from_sq(a: int)
    requires
        mul_spec(a, a) < 65536,
    ensures
        abs1(a) <= 65535,
{
    assert(a * a >= 0) by (nonlinear_arith);
    assert((a * a) / 65536 < 65536);
    assert(a * a <= 4294967295) by {
        vstd::arithmetic::div_mod::lemma_fundamental_div_mod(a * a, 65536);
    }
    assert(-65535 <= a && a <= 65535) by (nonlinear_arith)
        requires
            a * a <= 4294967295,
    ;
}

/// A vector inside the unit ball has every component below one.
pub proof fn lemma_ball_component_bound(v: Vec3)
    requires
        in_ball(v),
    ensures
        abs1(v.x as int) <= 65535,
        abs1(v.y as int) <= 65535,
        abs1(v.z as int) <= 65535,
{
    lemma_square_term_nonneg(v.x as int);
    lemma_square_term_nonneg(v.y as int);
    lemma_square_term_nonneg(v.z as int);
    lemma_component_bound_from_sq(v.x as int);
    lemma_component_bound_from_sq(v.y as int);
    lemma_component_bound_from_sq(v.z as int);
}

/// For small operands the scaled product negates exactly with either factor.
proof fn lemma_mul_spec_neg_small(a: int, b: int)
    requires
        abs1(a) <= 65535,
        abs1(b) <= 131072,
    ensures
        mul_spec(-a, b) == -mul_spec(a, b),
        abs1(mul_spec(a, b)) <= 131070,
{
    crate::fixed::lemma_abs_mul(a, b);
    crate::fixed::lemma_abs_mul(-a, b);
    assert(abs1(a) * abs1(b) <= 8589803520) by (nonlinear_arith)
        requires
            0 <= abs1(a) <= 65535,
            0 <= abs1(b) <= 131072,
    ;
    assert((-a) * b == -(a * b)) by (nonlinear_arith);
    assert(abs1(a * b) / 65536 <= 131070);
}

proof fn lemma_mul_spec_neg_both(a: int)
    ensures
        mul_spec(-a, -a) == mul_spec(a, a),
{
    assert((-a) * (-a) == a * a) by (nonlinear_arith);
}

/// Scaling by minus one negates each component exactly.
proof fn lemma_scale_neg_component(x: int)
    requires
        abs1(x) <= 65535,
    ensures
        mul_spec(-65536, x) == -x,
{
    crate::fixed::lemma_abs_mul(-65536, x);
    assert(abs1(-65536 as int) == 65536);
    assert((65536 * abs1(x)) / 65536 == abs1(x)) by {
        vstd::arithmetic::div_mod::lemma_div_multiples_vanish(abs1(x), 65536);
    }
}

impl Vec3 {
    pub fn new(x: i64, y: i64, z: i64) -> (r: Vec3)
        ensures
            r == (Vec3 { x, y, z }),
    {
        Vec3 { x, y, z }
    }

    pub fn x(self) -> (r: i64)
        ensures
            r == self.x,
    {
        self.x
    }

    pub fn y(self) -> (r: i64)
        ensures
            r == self.y,
    {
        self.y
    }

    pub fn z(self) -> (r: i64)
        ensures
            r == self.z,
    {
        self.z
    }

    pub fn add(self, o: Vec3) -> (r: Vec3)
        ensures
            r == vadd(self, o),
    {
        Vec3 { x: fadd(self.x, o.x), y: fadd(self.y, o.y), z: fadd(self.z, o.z) }
    }

    pub fn sub(self, o: Vec3) -> (r: Vec3)
        ensures
            r == vsub(self, o),
    {
        Vec3 { x: fsub(self.x, o.x), y: fsub(self.y, o.y), z: fsub(self.z, o.z) }
    }

    /// Componentwise product.
    pub fn mul(self, o: Vec3) -> (r: Vec3)
        ensures
            r == vmul(self, o),
    {
        Vec3 { x: fmul(self.x, o.x), y: fmul(self.y, o.y), z: fmul(self.z, o.z) }
    }

    /// The scalar multiple `k * self`.
    pub fn scale(self, k: i64) -> (r: Vec3)
        ensures
            r == vscale(k as int, self),
    {
        Vec3 { x: fmul(k, self.x), y: fmul(k, self.y), z: fmul(k, self.z) }
    }

    /// The componentwise quotient `self / k`.
    pub fn divs(self, k: i64) -> (r: Vec3)
        requires
            k != 0,
        ensures
            r == vdivs(self, k as int),
    {
        Vec3 { x: fdiv(self.x, k), y: fdiv(self.y, k), z: fdiv(self.z, k) }
    }

    pub fn dot(self, o: Vec3) -> (r: i64)
        ensures
            r as int == dot_spec(self, o),
    {
        fadd(fadd(fmul(self.x, o.x), fmul(self.y, o.y)), fmul(self.z, o.z))
    }

    pub fn cross(self, o: Vec3) -> (r: Vec3)
        ensures
            r == cross_spec(self, o),
    {
        Vec3 {
            x: fsub(fmul(self.y, o.z), fmul(self.z, o.y)),
            y: fsub(fmul(self.z, o.x), fmul(self.x, o.z)),
            z: fsub(fmul(self.x, o.y), fmul(self.y, o.x)),
        }
    }

    /// Euclidean length (magnitude).
    pub fn length(self) -> (r: i64)
        ensures
            r as int == length_spec(self),
            r >= 0,
    {
        let d = self.dot(self);
        proof {
            lemma_dot_self_nonneg(self);
        }
        fsqrt(d)
    }

    /// The vector scaled to length one. A vector whose squared length
    /// truncates to zero cannot be normalized; it is mapped to the zero
    /// vector, the documented degenerate outcome.
    pub fn normalized(self) -> (r: Vec3)
        ensures
            r == normalized_spec(self),
    {
        let len = self.length();
        if len == 0 {
            Vec3 { x: 0, y: 0, z: 0 }
        } else {
            self.divs(len)
        }
    }

    /// All components below the near-zero tolerance; one raw unit is the
    /// smallest positive scalar, so only the zero vector qualifies.
    pub fn near_zero(self) -> (r: bool)
        ensures
            r <==> (self.x == 0 && self.y == 0 && self.z == 0),
    {
        let ax = fabs(self.x);
        let ay = fabs(self.y);
        let az = fabs(self.z);
        ax < 1 && ay < 1 && az < 1
    }

    /// Mirror reflection about the normal `n`: `self - 2 (self . n) n`.
    pub fn reflect(self, n: Vec3) -> (r: Vec3)
        ensures
            r == reflect_spec(self, n),
    {
        let d = self.dot(n);
        let k = fmul(131072, d);
        self.sub(n.scale(k))
    }

    /// Snell refraction of `self` about the unit normal `n`, with the given
    /// ratio of refractive indices.
    pub fn refract(self, n: Vec3, etai_over_etat: i64) -> (r: Vec3)
        ensures
            r == refract_spec(self, n, etai_over_etat as int),
    {
        let neg_self = self.scale(-65536);
        let cos_theta = fmin(neg_self.dot(n), ONE);
        let perp = self.add(n.scale(cos_theta)).scale(etai_over_etat);
        let lp = perp.length();
        let inner = fabs(fsub(ONE, fmul(lp, lp)));
        proof {
            assert(inner >= 0);
        }
        let par_k = fneg(fsqrt(inner));
        perp.add(n.scale(par_k))
    }

    /// A vector whose components are independent draws in `[min, max)`.
    pub fn random(rng: &mut rand::rngs::StdRng, min: i64, max: i64) -> (r: Vec3)
        requires
            min < max,
        ensures
            min <= r.x < max,
            min <= r.y < max,
            min <= r.z < max,
    {
        let x = rand_between(rng, min, max);
        let y = rand_between(rng, min, max);
        let z = rand_between(rng, min, max);
        Vec3 { x, y, z }
    }

    /// A point inside the unit ball, by rejection sampling: draw uniformly
    /// from the enclosing cube and retry while the squared length is 1 or
    /// more. The loop is given a generous iteration bound so that it
    /// provably terminates; if the bound were ever exhausted the origin,
    /// which lies inside the ball, would be returned.
    pub fn random_in_unit_sphere(rng: &mut rand::rngs::StdRng) -> (r: Vec3)
        ensures
            in_ball(r),
    {
        let mut tries: u32 = 0;
        while tries < 100000
            decreases 100000 - tries,
        {
            let v = Vec3::random(rng, -65536, 65536);
            let d = v.dot(v);
            if d < ONE {
                return v;
            }
            tries = tries + 1;
        }
        proof {
            lemma_dot_self_nonneg(vzero());
            assert(mul_spec(0, 0) == 0);
            assert(dot_spec(vzero(), vzero()) == 0);
        }
        Vec3 { x: 0, y: 0, z: 0 }
    }

    /// A point inside the unit ball lying on the side of the given normal:
    /// a ball sample, flipped when it points into the opposite hemisphere.
    /// The normal's components may not exceed two in magnitude, which keeps
    /// the flip exact.
    pub fn random_in_hemisphere(rng: &mut rand::rngs::StdRng, normal: Vec3) -> (r: Vec3)
        requires
            abs1(normal.x as int) <= 131072,
            abs1(normal.y as int) <= 131072,
            abs1(normal.z as int) <= 131072,
        ensures
            in_ball(r),
            dot_spec(r, normal) >= 0,
    {
        let in_unit_sphere = Vec3::random_in_unit_sphere(rng);
        let d = in_unit_sphere.dot(normal);
        if d > 0 {
            in_unit_sphere
        } else {
            let w = in_unit_sphere.scale(-65536);
            proof {
                let vx = in_unit_sphere.x as int;
                let vy = in_unit_sphere.y as int;
                let vz = in_unit_sphere.z as int;
                lemma_ball_component_bound(in_unit_sphere);
                lemma_scale_neg_component(vx);
                lemma_scale_neg_component(vy);
                lemma_scale_neg_component(vz);
                assert(w.x as int == -vx && w.y as int == -vy && w.z as int == -vz);
                lemma_mul_spec_neg_small(vx, normal.x as int);
                lemma_mul_spec_neg_small(vy, normal.y as int);
                lemma_mul_spec_neg_small(vz, normal.z as int);
                assert(dot_spec(w, normal) == -dot_spec(in_unit_sphere, normal));
                lemma_mul_spec_neg_both(vx);
                lemma_mul_spec_neg_both(vy);
                lemma_mul_spec_neg_both(vz);
                assert(dot_spec(w, w) == dot_spec(in_unit_sphere, in_unit_sphere));
            }
            w
        }
    }

    /// The three 8-bit channels of an accumulated pixel color: average over
    /// the sample count, gamma-correct by a square root, clamp just below
    /// one, and scale to the 0..=255 range.
    pub fn quantize(self, samples_per_pixel: u64) -> (r: (u64, u64, u64))
        requires
            1 <= samples_per_pixel <= 140737488355327,
        ensures
            r.0 as int == channel_spec(self.x as int, samples_per_pixel as int),
            r.1 as int == channel_spec(self.y as int, samples_per_pixel as int),
            r.2 as int == channel_spec(self.z as int, samples_per_pixel as int),
            r.0 <= 255,
            r.1 <= 255,
            r.2 <= 255,
    {
        let a = quantize_channel(self.x, samples_per_pixel);
        let b = quantize_channel(self.y, samples_per_pixel);
        let c = quantize_channel(self.z, samples_per_pixel);
        (a, b, c)
    }

    /// The pixel's channels as the plain-text triple the image format
    /// wants: the three quantized channels in decimal, space-separated.
    pub fn format_color(self, samples_per_pixel: u64) -> (s: String)
        requires
            1 <= samples_per_pixel <= 140737488355327,
        ensures
            s@ == dec_digits(
                channel_spec(self.x as int, samples_per_pixel as int) as nat,
            ) + seq![' '] + dec_digits(
                channel_spec(self.y as int, samples_per_pixel as int) as nat,
            ) + seq![' '] + dec_digits(
                channel_spec(self.z as int, samples_per_pixel as int) as nat,
            ),
    {
        let (a, b, c) = self.quantize(samples_per_pixel);
        fmt_triple(a, b, c)
    }
}

/// What one quantized channel is.
pub open spec fn channel_spec(c: int, samples: int) -> int
    recommends
        samples >= 1,
{
    let per = div_spec(c, samples * 65536);
    let q = sqrt_spec(max_spec(per, 0));
    min_spec(q, 65470) / 256
}

fn quantize_channel(c: i64, samples: u64) -> (r: u64)
    requires
        1 <= samples <= 140737488355327,
    ensures
        r as int == channel_spec(c as int, samples as int),
        r <= 255,
{
    let s_fix: i64 = (samples as i64) * 65536;
    let per = fdiv(c, s_fix);
    let q = fsqrt(fmax(per, 0));
    let cl = fmin(q, 65470);
    (cl as u64) / 256
}

/// The character of one decimal digit.
pub open spec fn dec_digit(d: nat) -> char {
    if d == 0 {
        '0'
    } else if d == 1 {
        '1'
    } else if d == 2 {
        '2'
    } else if d == 3 {
        '3'
    } else if d == 4 {
        '4'
    } else if d == 5 {
        '5'
    } else if d == 6 {
        '6'
    } else if d == 7 {
        '7'
    } else if d == 8 {
        '8'
    } else {
        '9'
    }
}

/// The decimal digits of `n`, most significant first, as integer
/// formatting renders them: no leading zeros, one zero for zero.
pub open spec fn dec_digits(n: nat) -> Seq<char>
    decreases n,
{
    if n < 10 {
        seq![dec_digit(n)]
    } else {
        dec_digits(n / 10).push(dec_digit(n % 10))
    }
}

/// Relies on std's `format!`: renders the three channel values as their
/// decimal digits, separated by single spaces.
#[verifier::external_body]
fn fmt_triple(a: u64, b: u64, c: u64) -> (s: String)
    ensures
        s@ == dec_digits(a as nat) + seq![' '] + dec_digits(b as nat) + seq![' '] + dec_digits(
            c as nat,
        ),
{
    format!("{} {} {}", a, b, c)
}

/// A vector over the mathematical integers, for stating the exact algebra
/// that the fixed-point operations approximate.
pub ghost struct IVec3 {
    pub x: int,
    pub y: int,
    pub z: int,
}

pub open spec fn idot(a: IVec3, b: IVec3) -> int {
    a.x * b.x + a.y * b.y + a.z * b.z
}

pub open spec fn iscale(k: int, v: IVec3) -> IVec3 {
    IVec3 { x: k * v.x, y: k * v.y, z: k * v.z }
}

pub open spec fn isub(a: IVec3, b: IVec3) -> IVec3 {
    IVec3 { x: a.x - b.x, y: a.y - b.y, z: a.z - b.z }
}

/// Exact mirror reflection about `n`, scaled through by `n . n` so that it
/// is polynomial: `(n . n) v - 2 (v . n) n`. For a unit normal
/// (`idot(n, n) == 1`) this is the familiar `v - 2 (v . n) n`.
pub open spec fn ireflect(v: IVec3, n: IVec3) -> IVec3 {
    isub(iscale(idot(n, n), v), iscale(2 * idot(v, n), n))
}

/// Reflection flips the component along the normal: the dot product with
/// `n` changes sign (scaled by `n . n`; exactly negated for a unit normal).
pub proof fn lemma_reflect_flips_normal_component(v: IVec3, n: IVec3)
    ensures
        idot(ireflect(v, n), n) == -(idot(v, n) * idot(n, n)),
{
    let nn = idot(n, n);
    let vn = idot(v, n);
    let ax = v.x;
    let ay = v.y;
    let az = v.z;
    let nx = n.x;
    let ny = n.y;
    let nz = n.z;
    assert((nn * ax - 2 * vn * nx) * nx == nn * (ax * nx) - 2 * vn * (nx * nx)) by (nonlinear_arith);
    assert((nn * ay - 2 * vn * ny) * ny == nn * (ay * ny) - 2 * vn * (ny * ny)) by (nonlinear_arith);
    assert((nn * az - 2 * vn * nz) * nz == nn * (az * nz) - 2 * vn * (nz * nz)) by (nonlinear_arith);
    assert(nn * (ax * nx) + nn * (ay * ny) + nn * (az * nz) == nn * vn) by (nonlinear_arith)
        requires
            vn == ax * nx + ay * ny + az * nz,
    ;
    assert(2 * vn * (nx * nx) + 2 * vn * (ny * ny) + 2 * vn * (nz * nz) == 2 * vn * nn)
        by (nonlinear_arith)
        requires
            nn == nx * nx + ny * ny + nz * nz,
    ;
    assert(nn * vn - 2 * vn * nn == -(vn * nn)) by (nonlinear_arith);
}

/// Reflection preserves the component in the tangent plane: against any
/// vector `w` orthogonal to the normal, the dot product is unchanged
/// (scaled by `n . n`; exactly preserved for a unit normal).
pub proof fn lemma_reflect_preserves_tangent(v: IVec3, n: IVec3, w: IVec3)
    requires
        idot(w, n) == 0,
    ensures
        idot(ireflect(v, n), w) == idot(n, n) * idot(v, w),
{
    let nn = idot(n, n);
    let vn = idot(v, n);
    let vw = idot(v, w);
    let ax = v.x;
    let ay = v.y;
    let az = v.z;
    let nx = n.x;
    let ny = n.y;
    let nz = n.z;
    let wx = w.x;
    let wy = w.y;
    let wz = w.z;
    assert((nn * ax - 2 * vn * nx) * wx == nn * (ax * wx) - 2 * vn * (nx * wx)) by (nonlinear_arith);
    assert((nn * ay - 2 * vn * ny) * wy == nn * (ay * wy) - 2 * vn * (ny * wy)) by (nonlinear_arith);
    assert((nn * az - 2 * vn * nz) * wz == nn * (az * wz) - 2 * vn * (nz * wz)) by (nonlinear_arith);
    assert(nn * (ax * wx) + nn * (ay * wy) + nn * (az * wz) == nn * vw) by (nonlinear_arith)
        requires
            vw == ax * wx + ay * wy + az * wz,
    ;
    assert(2 * vn * (nx * wx) + 2 * vn * (ny * wy) + 2 * vn * (nz * wz) == 2 * vn * (wx * nx + wy
        * ny + wz * nz)) by (nonlinear_arith);
    assert(wx * nx + wy * ny + wz * nz == 0);
}

} // verus!
