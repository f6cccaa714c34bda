//! The pinhole camera: immutable viewport geometry derived once from the
//! eye position, the look-at target, an up hint, the vertical field of
//! view and the aspect ratio, with the focal length fixed at one unit.

use vstd::prelude::*;

use crate::fixed::mul_spec;
use crate::ray::Ray;
use crate::vec3::{cross_spec, normalized_spec, vadd, vdivs, vscale, vsub, Point3, Vec3};

verus! {

#[derive(Clone, Copy, PartialEq, Eq, Structural, Debug)]
pub struct Camera {
    pub origin: Point3,
    pub lower_left_corner: Point3,
    pub horizontal: Vec3,
    pub vertical: Vec3,
}

/// What `Camera::new` builds: viewport height `2 tan(vfov / 2)`, width
/// scaled by the aspect ratio, an orthonormal basis from the view
/// direction and the up hint, and the lower-left corner one focal unit
/// ahead of the eye.
pub open spec fn camera_spec(
    lookfrom: Point3,
    lookat: Point3,
    vup: Vec3,
    tan_half_vfov: int,
    aspect_ratio: int,
) -> Camera {
    let viewport_height = mul_spec(131072, tan_half_vfov);
    let viewport_width = mul_spec(aspect_ratio, viewport_height);
    let cw = normalized_spec(vsub(lookfrom, lookat));
    let cu = normalized_spec(cross_spec(vup, cw));
    let cv = cross_spec(cw, cu);
    let h = vscale(viewport_width, cu);
    let v = vscale(viewport_height, cv);
    let llc = vsub(vsub(vsub(lookfrom, vdivs(h, 131072)), vdivs(v, 131072)), cw);
    Camera { origin: lookfrom, lower_left_corner: llc, horizontal: h, vertical: v }
}

/// What `Camera::get_ray` returns: a ray from the eye through the viewport
/// point at fractions `(s, t)` of the horizontal and vertical spans.
pub open spec fn get_ray_spec(c: Camera, s: int, t: int) -> Ray {
    Ray {
        orig: c.origin,
        dir: vsub(
            vadd(vadd(c.lower_left_corner, vscale(s, c.horizontal)), vscale(t, c.vertical)),
            c.origin,
        ),
    }
}

impl Camera {
    /// Build the viewport. The vertical field of view enters as the
    /// tangent of its half angle, already a plain scalar: the trigonometry
    /// from an angle in degrees is the caller's, since it lies outside the
    /// library's fixed-point domain.
    pub fn new(
        lookfrom: Point3,
        lookat: Point3,
        vup: Vec3,
        tan_half_vfov: i64,
        aspect_ratio: i64,
    ) -> (r: Camera)
        ensures
            r == camera_spec(lookfrom, lookat, vup, tan_half_vfov as int, aspect_ratio as int),
    {
        let viewport_height = crate::fixed::fmul(131072, tan_half_vfov);
        let viewport_width = crate::fixed::fmul(aspect_ratio, viewport_height);
        let cw = lookfrom.sub(lookat).normalized();
        let cu = vup.cross(cw).normalized();
        let cv = cw.cross(cu);
        let h = cu.scale(viewport_width);
        let v = cv.scale(viewport_height);
        let llc = lookfrom.sub(h.divs(131072)).sub(v.divs(131072)).sub(cw);
        Camera { origin: lookfrom, lower_left_corner: llc, horizontal: h, vertical: v }
    }

    /// The primary ray for viewport fractions `(s, t)` in [0, 1].
    pub fn get_ray(&self, s: i64, t: i64) -> (r: Ray)
        ensures
            r == get_ray_spec(*self, s as int, t as int),
    {
        Ray::new(
            self.origin,
            self.lower_left_corner.add(self.horizontal.scale(s)).add(self.vertical.scale(t)).sub(
                self.origin,
            ),
        )
    }
}

} // verus!
