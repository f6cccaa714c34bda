//! The integrator and the sampling loop: the recursive radiance estimator
//! bounded by a depth budget, the background gradient, and the per-pixel
//! Monte Carlo accumulation over a row and over a whole frame.

use vstd::prelude::*;

use crate::camera::Camera;
use crate::fixed::{add_spec, div_spec, fadd, fmax, fmin, fmul, fsub, max_spec, min_spec,
    mul_spec, sub_spec, ONE};
use crate::hit::{world_hit_none, world_hit_post, world_wf, HitRecord, World};
use crate::material::{color_in_unit, material_wf, scatter_post, Material};
use crate::ray::Ray;
use crate::rng::rand_between;
use crate::sphere::{lemma_sphere_hit_props, sphere_hit_spec, Sphere};
use crate::vec3::{normalized_spec, vadd, vmul, vscale, Color, Vec3};

verus! {

/// The shadow-acne epsilon: hits closer than this along the ray are
/// ignored, so a bounce does not immediately re-intersect the surface it
/// just left (about 0.001 in fixed-point units).
pub const T_MIN_EPS: i64 = 66;

pub open spec fn black() -> Color {
    Vec3 { x: 0, y: 0, z: 0 }
}

/// The background gradient: lerp white to sky blue by
/// `t = (unit_direction.y + 1) / 2`. `t` is clamped to [0, 1]: an exact
/// unit direction needs no clamp, but a fixed-point one may overshoot by
/// a few raw units.
pub open spec fn sky_spec(r: Ray) -> Color {
    let unit = normalized_spec(r.dir);
    let t = min_spec(max_spec(mul_spec(32768, add_spec(unit.y as int, 65536)), 0), 65536);
    vadd(
        vscale(sub_spec(65536, t), Vec3 { x: 65536, y: 65536, z: 65536 }),
        vscale(t, Vec3 { x: 32768, y: 45875, z: 65536 }),
    )
}

/// The product of two channels in [0, 1] stays in [0, 1].
pub proof fn lemma_unit_mul(a: int, b: int)
    requires
        0 <= a <= 65536,
        0 <= b <= 65536,
    ensures
        0 <= mul_spec(a, b) <= 65536,
{
    assert(0 <= a * b <= 65536 * 65536) by (nonlinear_arith)
        requires
            0 <= a <= 65536,
            0 <= b <= 65536,
    ;
    assert((a * b) / 65536 <= 65536);
}

proof fn lemma_scale_unit_channel(t: int, k: int)
    requires
        0 <= t <= 65536,
        0 <= k <= 65536,
    ensures
        0 <= mul_spec(t, k) <= min_spec(t, 65536),
        mul_spec(t, 65536) == t,
{
    lemma_unit_mul(t, k);
    assert(t * k <= t * 65536) by (nonlinear_arith)
        requires
            0 <= t,
            k <= 65536,
    ;
    vstd::arithmetic::div_mod::lemma_div_is_ordered(t * k, t * 65536, 65536);
    vstd::arithmetic::div_mod::lemma_div_multiples_vanish(t, 65536);
    assert(t * 65536 == 65536 * t);
}

/// The background gradient is a fractional color.
pub proof fn lemma_sky_bounded(r: Ray)
    ensures
        color_in_unit(sky_spec(r)),
{
    let unit = normalized_spec(r.dir);
    let t = min_spec(max_spec(mul_spec(32768, add_spec(unit.y as int, 65536)), 0), 65536);
    let s = sub_spec(65536, t);
    lemma_scale_unit_channel(s, 65536);
    lemma_scale_unit_channel(t, 32768);
    lemma_scale_unit_channel(t, 45875);
    lemma_scale_unit_channel(t, 65536);
}

/// The background gradient for a ray that missed everything.
pub fn sky_color(r: &Ray) -> (c: Color)
    ensures
        c == sky_spec(*r),
        color_in_unit(c),
{
    let unit_direction = r.direction().normalized();
    let t = fmin(fmax(fmul(32768, fadd(unit_direction.y(), ONE)), 0), ONE);
    let white = Vec3::new(ONE, ONE, ONE);
    let blue = Vec3::new(32768, 45875, ONE);
    let c = white.scale(fsub(ONE, t)).add(blue.scale(t));
    proof {
        lemma_sky_bounded(*r);
    }
    c
}

/// The scene's closest-hit outcome for the ray, over the whole forward
/// range; an alias of `world_hit_post` kept opaque so that proofs about
/// the transport relation treat it as one fact.
#[verifier::opaque]
pub open spec fn scene_outcome(spheres: Seq<Sphere>, r: Ray, found: Option<HitRecord>) -> bool {
    world_hit_post(spheres, r, T_MIN_EPS as int, i64::MAX as int, found)
}

/// A scatter outcome the hit material allows; an alias of `scatter_post`
/// kept opaque for the same reason.
#[verifier::opaque]
pub open spec fn scatter_outcome(
    m: Material,
    r: Ray,
    rec: HitRecord,
    sc: Option<(Color, Ray)>,
) -> bool {
    scatter_post(m, r, rec, sc)
}

/// An estimate that `ray_color_post` allows for a ray at the given depth;
/// an alias of `ray_color_post` that keeps the recursive occurrence of
/// the relation out of its definition's trigger terms.
pub open spec fn bounce_estimate(spheres: Seq<Sphere>, r: Ray, depth: int, c: Color) -> bool
    decreases depth, 1int,
{
    ray_color_post(spheres, r, depth, c)
}

/// One valid bounce, apart from the recursive part: the scene hit `rec`,
/// the material allowed the scatter outcome `(att, sray)`, and `c` is
/// `att` modulating `rest`.
pub open spec fn bounce_step(
    spheres: Seq<Sphere>,
    r: Ray,
    rec: HitRecord,
    att: Color,
    sray: Ray,
    rest: Color,
    c: Color,
) -> bool {
    &&& scene_outcome(spheres, r, Option::Some(rec))
    &&& scatter_outcome(rec.material, r, rec, Option::Some((att, sray)))
    &&& c == vmul(att, rest)
}

/// What one transport step may produce for the ray at the given depth:
/// black once the depth budget is spent; otherwise, for the scene's
/// closest-hit outcome, the background gradient on a miss, and on a hit
/// either black (the material absorbed the path) or the attenuation of
/// some scatter outcome modulating a color this relation allows for the
/// scattered ray one step deeper. The samples each step drew are
/// existentially quantified, as in `scatter_post`.
pub open spec fn ray_color_post(spheres: Seq<Sphere>, r: Ray, depth: int, c: Color) -> bool
    decreases depth, 0int,
{
    if depth <= 0 {
        c == black()
    } else {
        ||| (scene_outcome(spheres, r, Option::None) && c == sky_spec(r))
        ||| (exists|rec: HitRecord|
            {
                &&& #[trigger] scene_outcome(spheres, r, Option::Some(rec))
                &&& scatter_outcome(rec.material, r, rec, Option::None)
                &&& c == black()
            })
        ||| (exists|rec: HitRecord, att: Color, sray: Ray, rest: Color|
            {
                &&& #[trigger] bounce_step(spheres, r, rec, att, sray, rest, c)
                &&& bounce_estimate(spheres, sray, depth - 1, rest)
            })
    }
}

proof fn lemma_ray_color_post_depth0(spheres: Seq<Sphere>, r: Ray, c: Color)
    requires
        c == black(),
    ensures
        ray_color_post(spheres, r, 0, c),
{
}

proof fn lemma_ray_color_post_miss(spheres: Seq<Sphere>, r: Ray, depth: int, c: Color)
    requires
        depth > 0,
        scene_outcome(spheres, r, Option::<HitRecord>::None),
        c == sky_spec(r),
    ensures
        ray_color_post(spheres, r, depth, c),
{
}

proof fn lemma_ray_color_post_absorb(
    spheres: Seq<Sphere>,
    r: Ray,
    depth: int,
    rec: HitRecord,
    c: Color,
)
    requires
        depth > 0,
        scene_outcome(spheres, r, Option::Some(rec)),
        scatter_outcome(rec.material, r, rec, Option::<(Color, Ray)>::None),
        c == black(),
    ensures
        ray_color_post(spheres, r, depth, c),
{
}

proof fn lemma_ray_color_post_bounce(
    spheres: Seq<Sphere>,
    r: Ray,
    depth: int,
    rec: HitRecord,
    att: Color,
    scattered: Ray,
    rest: Color,
    c: Color,
)
    requires
        depth > 0,
        scene_outcome(spheres, r, Option::Some(rec)),
        scatter_outcome(rec.material, r, rec, Option::Some((att, scattered))),
        ray_color_post(spheres, scattered, depth - 1, rest),
        c == vmul(att, rest),
    ensures
        ray_color_post(spheres, r, depth, c),
{
    assert(bounce_estimate(spheres, scattered, depth - 1, rest));
    assert(bounce_step(spheres, r, rec, att, scattered, rest, c));
}

/// The radiance estimate for one ray: black once the depth budget is
/// spent; on a hit, the material's attenuation modulating the estimate of
/// the scattered ray, or black on absorption; on a miss, the background
/// gradient. The result is always a fractional color, and the whole
/// recursion satisfies `ray_color_post`.
pub fn ray_color(r: &Ray, world: &World, depth: u32, rng: &mut rand::rngs::StdRng) -> (c: Color)
    requires
        world_wf(*world),
    ensures
        depth == 0 ==> c == black(),
        depth > 0 && world_hit_none(world.spheres@, *r, T_MIN_EPS as int, i64::MAX as int) ==> c
            == sky_spec(*r),
        color_in_unit(c),
        ray_color_post(world.spheres@, *r, depth as int, c),
    decreases depth,
{
    if depth == 0 {
        let c = Vec3::new(0, 0, 0);
        proof {
            lemma_ray_color_post_depth0(world.spheres@, *r, c);
        }
        return c;
    }
    let found = world.hit(r, T_MIN_EPS, i64::MAX);
    match found {
        Option::Some(rec) => {
            proof {
                let i = choose|i: int|
                    0 <= i < world.spheres@.len() && sphere_hit_spec(
                        world.spheres@[i],
                        *r,
                        T_MIN_EPS as int,
                        i64::MAX as int,
                    ) == Some(rec);
                lemma_sphere_hit_props(
                    world.spheres@[i],
                    *r,
                    T_MIN_EPS as int,
                    i64::MAX as int,
                    rec,
                );
                assert(material_wf(rec.material));
                assert(scene_outcome(world.spheres@, *r, Option::Some(rec))) by {
                    reveal(scene_outcome);
                }
            }
            match rec.material.scatter(rng, r, &rec) {
                Option::Some((attenuation, scattered)) => {
                    let rest = ray_color(&scattered, world, depth - 1, rng);
                    let out = attenuation.mul(rest);
                    proof {
                        lemma_unit_mul(attenuation.x as int, rest.x as int);
                        lemma_unit_mul(attenuation.y as int, rest.y as int);
                        lemma_unit_mul(attenuation.z as int, rest.z as int);
                        assert(scatter_outcome(
                            rec.material,
                            *r,
                            rec,
                            Option::Some((attenuation, scattered)),
                        )) by {
                            reveal(scatter_outcome);
                        }
                        lemma_ray_color_post_bounce(
                            world.spheres@,
                            *r,
                            depth as int,
                            rec,
                            attenuation,
                            scattered,
                            rest,
                            out,
                        );
                    }
                    out
                },
                Option::None => {
                    let c = Vec3::new(0, 0, 0);
                    proof {
                        assert(scatter_outcome(
                            rec.material,
                            *r,
                            rec,
                            Option::<(Color, Ray)>::None,
                        )) by {
                            reveal(scatter_outcome);
                        }
                        lemma_ray_color_post_absorb(world.spheres@, *r, depth as int, rec, c);
                    }
                    c
                },
            }
        },
        Option::None => {
            let c = sky_color(r);
            proof {
                assert(scene_outcome(world.spheres@, *r, Option::<HitRecord>::None)) by {
                    reveal(scene_outcome);
                }
                lemma_ray_color_post_miss(world.spheres@, *r, depth as int, c);
            }
            c
        },
    }
}

/// Every channel of an accumulated pixel lies in `[0, samples]`.
pub open spec fn pixel_bounded(c: Color, samples: int) -> bool {
    0 <= c.x <= samples * 65536 && 0 <= c.y <= samples * 65536 && 0 <= c.z <= samples * 65536
}

/// The primary ray for pixel column `i` of row `row`, jittered by the
/// draws `(ru, rv)`: the viewport fractions are `(i + ru) / (width - 1)`
/// and `(row + rv) / (height - 1)`.
pub open spec fn jitter_ray(
    cam: Camera,
    width: int,
    height: int,
    i: int,
    row: int,
    ru: int,
    rv: int,
) -> Ray {
    crate::camera::get_ray_spec(
        cam,
        div_spec(add_spec(i * 65536, ru), (width - 1) * 65536),
        div_spec(add_spec(row * 65536, rv), (height - 1) * 65536),
    )
}

/// One sample's contribution to a pixel: for some jitter pair in [0, 1),
/// `c` is a radiance estimate the transport relation allows for the
/// jittered camera ray at the given depth.
pub open spec fn sample_post(
    spheres: Seq<Sphere>,
    cam: Camera,
    width: int,
    height: int,
    i: int,
    row: int,
    depth: int,
    c: Color,
) -> bool {
    exists|ru: int, rv: int|
        #![trigger jitter_ray(cam, width, height, i, row, ru, rv)]
        {
            &&& 0 <= ru < 65536
            &&& 0 <= rv < 65536
            &&& ray_color_post(spheres, jitter_ray(cam, width, height, i, row, ru, rv), depth, c)
        }
}

/// What an accumulated pixel is: the sum of `samples` single-sample
/// estimates, starting from black.
pub open spec fn pixel_post(
    spheres: Seq<Sphere>,
    cam: Camera,
    width: int,
    height: int,
    i: int,
    row: int,
    samples: int,
    depth: int,
    c: Color,
) -> bool
    decreases samples,
{
    if samples <= 0 {
        c == black()
    } else {
        exists|prev: Color, one: Color|
            #![trigger sample_post(spheres, cam, width, height, i, row, depth, one), vadd(prev, one)]
            {
                &&& pixel_post(spheres, cam, width, height, i, row, samples - 1, depth, prev)
                &&& sample_post(spheres, cam, width, height, i, row, depth, one)
                &&& c == vadd(prev, one)
            }
    }
}

proof fn lemma_sample_post_intro(
    spheres: Seq<Sphere>,
    cam: Camera,
    width: int,
    height: int,
    i: int,
    row: int,
    depth: int,
    c: Color,
    ru: int,
    rv: int,
)
    requires
        0 <= ru < 65536,
        0 <= rv < 65536,
        ray_color_post(spheres, jitter_ray(cam, width, height, i, row, ru, rv), depth, c),
    ensures
        sample_post(spheres, cam, width, height, i, row, depth, c),
{
}

proof fn lemma_pixel_post_zero(
    spheres: Seq<Sphere>,
    cam: Camera,
    width: int,
    height: int,
    i: int,
    row: int,
    depth: int,
    c: Color,
)
    requires
        c == black(),
    ensures
        pixel_post(spheres, cam, width, height, i, row, 0, depth, c),
{
}

proof fn lemma_pixel_post_add(
    spheres: Seq<Sphere>,
    cam: Camera,
    width: int,
    height: int,
    i: int,
    row: int,
    samples: int,
    depth: int,
    prev: Color,
    one: Color,
    c: Color,
)
    requires
        samples >= 0,
        pixel_post(spheres, cam, width, height, i, row, samples, depth, prev),
        sample_post(spheres, cam, width, height, i, row, depth, one),
        c == vadd(prev, one),
    ensures
        pixel_post(spheres, cam, width, height, i, row, samples + 1, depth, c),
{
}

/// One row of the image: for each pixel, average `samples_per_pixel`
/// jittered primary rays through the camera. `row` counts from the bottom
/// of the image, as the viewport's vertical coordinate does.
pub fn render_row(
    world: &World,
    cam: &Camera,
    width: usize,
    height: usize,
    row: usize,
    samples_per_pixel: u32,
    depth: u32,
    rng: &mut rand::rngs::StdRng,
) -> (r: Vec<Color>)
    requires
        world_wf(*world),
        2 <= width <= 30000,
        2 <= height <= 30000,
        row < height,
    ensures
        r@.len() == width,
        forall|i: int|
            0 <= i < width ==> pixel_bounded(#[trigger] r@[i], samples_per_pixel as int),
        forall|i: int|
            0 <= i < width ==> pixel_post(
                world.spheres@,
                *cam,
                width as int,
                height as int,
                i,
                row as int,
                samples_per_pixel as int,
                depth as int,
                #[trigger] r@[i],
            ),
{
    let mut colors: Vec<Color> = Vec::new();
    let mut i: usize = 0;
    let w_span: i64 = ((width - 1) as i64) * 65536;
    let h_span: i64 = ((height - 1) as i64) * 65536;
    while i < width
        invariant
            i <= width,
            2 <= width <= 30000,
            2 <= height <= 30000,
            row < height,
            w_span == (width - 1) * 65536,
            h_span == (height - 1) * 65536,
            world_wf(*world),
            colors@.len() == i,
            forall|j: int|
                0 <= j < i ==> pixel_bounded(#[trigger] colors@[j], samples_per_pixel as int),
            forall|j: int|
                0 <= j < i ==> pixel_post(
                    world.spheres@,
                    *cam,
                    width as int,
                    height as int,
                    j,
                    row as int,
                    samples_per_pixel as int,
                    depth as int,
                    #[trigger] colors@[j],
                ),
        decreases width - i,
    {
        let mut pixel_color = Vec3::new(0, 0, 0);
        proof {
            lemma_pixel_post_zero(
                world.spheres@,
                *cam,
                width as int,
                height as int,
                i as int,
                row as int,
                depth as int,
                pixel_color,
            );
        }
        let mut s: u32 = 0;
        while s < samples_per_pixel
            invariant
                s <= samples_per_pixel,
                2 <= width <= 30000,
                2 <= height <= 30000,
                row < height,
                i < width,
                w_span == (width - 1) * 65536,
                h_span == (height - 1) * 65536,
                world_wf(*world),
                pixel_bounded(pixel_color, s as int),
                pixel_post(
                    world.spheres@,
                    *cam,
                    width as int,
                    height as int,
                    i as int,
                    row as int,
                    s as int,
                    depth as int,
                    pixel_color,
                ),
            decreases samples_per_pixel - s,
        {
            let random_u = rand_between(rng, 0, ONE);
            let random_v = rand_between(rng, 0, ONE);
            let u = crate::fixed::fdiv(fadd((i as i64) * 65536, random_u), w_span);
            let v = crate::fixed::fdiv(fadd((row as i64) * 65536, random_v), h_span);
            let ray = cam.get_ray(u, v);
            let c = ray_color(&ray, world, depth, rng);
            proof {
                assert(ray == jitter_ray(
                    *cam,
                    width as int,
                    height as int,
                    i as int,
                    row as int,
                    random_u as int,
                    random_v as int,
                ));
                lemma_sample_post_intro(
                    world.spheres@,
                    *cam,
                    width as int,
                    height as int,
                    i as int,
                    row as int,
                    depth as int,
                    c,
                    random_u as int,
                    random_v as int,
                );
            }
            let prev = pixel_color;
            pixel_color = pixel_color.add(c);
            proof {
                lemma_pixel_post_add(
                    world.spheres@,
                    *cam,
                    width as int,
                    height as int,
                    i as int,
                    row as int,
                    s as int,
                    depth as int,
                    prev,
                    c,
                    pixel_color,
                );
            }
            s = s + 1;
        }
        colors.push(pixel_color);
        i = i + 1;
    }
    colors
}

/// The whole frame, row-major, top row first: row `height - 1` of the
/// viewport down to row 0. Each pixel holds the plain sum of its samples;
/// `quantize` or `format_color` divides by the sample count.
pub fn render(
    world: &World,
    cam: &Camera,
    width: usize,
    height: usize,
    samples_per_pixel: u32,
    depth: u32,
    rng: &mut rand::rngs::StdRng,
) -> (r: Vec<Color>)
    requires
        world_wf(*world),
        2 <= width <= 30000,
        2 <= height <= 30000,
    ensures
        r@.len() == width * height,
        forall|i: int|
            0 <= i < r@.len() ==> pixel_bounded(#[trigger] r@[i], samples_per_pixel as int),
        forall|slot: int, i: int|
            0 <= slot < height && 0 <= i < width ==> pixel_post(
                world.spheres@,
                *cam,
                width as int,
                height as int,
                i,
                height - 1 - slot,
                samples_per_pixel as int,
                depth as int,
                #[trigger] r@[slot * width + i],
            ),
{
    let mut buf: Vec<Color> = Vec::new();
    let mut done: usize = 0;
    while done < height
        invariant
            done <= height,
            2 <= width <= 30000,
            2 <= height <= 30000,
            world_wf(*world),
            buf@.len() == done * width,
            forall|i: int|
                0 <= i < buf@.len() ==> pixel_bounded(#[trigger] buf@[i], samples_per_pixel as int),
            forall|slot: int, i: int|
                0 <= slot < done && 0 <= i < width ==> pixel_post(
                    world.spheres@,
                    *cam,
                    width as int,
                    height as int,
                    i,
                    height - 1 - slot,
                    samples_per_pixel as int,
                    depth as int,
                    #[trigger] buf@[slot * width + i],
                ),
        decreases height - done,
    {
        let row = height - 1 - done;
        let mut line = render_row(world, cam, width, height, row, samples_per_pixel, depth, rng);
        let ghost old_len = buf@.len();
        buf.append(&mut line);
        proof {
            assert((done + 1) * width == done * width + width) by (nonlinear_arith);
            assert forall|slot: int, i: int|
                0 <= slot < done + 1 && 0 <= i < width implies pixel_post(
                world.spheres@,
                *cam,
                width as int,
                height as int,
                i,
                height - 1 - slot,
                samples_per_pixel as int,
                depth as int,
                #[trigger] buf@[slot * width + i],
            ) by {
                if slot < done {
                    assert(0 <= slot * width + i < old_len) by (nonlinear_arith)
                        requires
                            0 <= slot < done,
                            0 <= i < width,
                            old_len == done * width,
                    ;
                } else {
                    assert(slot * width + i == old_len + i) by (nonlinear_arith)
                        requires
                            slot == done,
                            old_len == done * width,
                    ;
                }
            }
        }
        done = done + 1;
    }
    proof {
        assert(height * width == width * height) by (nonlinear_arith);
    }
    buf
}

} // verus!
