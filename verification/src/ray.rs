//! A ray: the parametric line `origin + t * direction`. A ray is local to
//! one transport step and never stored.

use vstd::prelude::*;

use crate::vec3::{reflect_spec, vadd, vscale, Point3, Vec3};

verus! {

#[derive(Clone, Copy, PartialEq, Eq, Structural, Debug)]
pub struct Ray {
    pub orig: Point3,
    pub dir: Vec3,
}

/// The point the ray reaches at parameter `t`.
pub open spec fn ray_at_spec(r: Ray, t: int) -> Point3 {
    vadd(r.orig, vscale(t, r.dir))
}

impl Ray {
    pub fn new(origin: Point3, direction: Vec3) -> (r: Ray)
        ensures
            r.orig == origin,
            r.dir == direction,
    {
        Ray { orig: origin, dir: direction }
    }

    pub fn origin(&self) -> (r: Point3)
        ensures
            r == self.orig,
    {
        self.orig
    }

    pub fn direction(&self) -> (r: Vec3)
        ensures
            r == self.dir,
    {
        self.dir
    }

    pub fn at(self, t: i64) -> (r: Vec3)
        ensures
            r == ray_at_spec(self, t as int),
    {
        self.orig.add(self.dir.scale(t))
    }

    /// The ray's direction reflected about the normal `n`.
    pub fn reflect(self, n: Vec3) -> (r: Vec3)
        ensures
            r == reflect_spec(self.dir, n),
    {
        self.dir.reflect(n)
    }
}

} // verus!
