//! Rays: an origin and a direction.

use vstd::prelude::*;

use crate::fixed::Scalar;
use crate::vec3::Vec3;
use crate::vec3::vadd;
use crate::vec3::vscale;

verus! {

/// A ray through the scene: all points `a + t * b` for parameters `t`.
/// The direction `b` need not be normalized; the intersection math accounts
/// for its magnitude.
#[derive(Clone, Copy, Debug, PartialEq, Eq, Structural)]
pub struct Ray {
    pub a: Vec3,
    pub b: Vec3,
}

/// The point reached after travelling `t` along the ray:
/// `origin + t * direction`.
pub open spec fn ray_at(r: Ray, t: Scalar) -> Vec3 {
    vadd(r.a, vscale(r.b, t))
}

impl Ray {
    /// The ray with origin `a` and direction `b`.
    pub fn new(a: Vec3, b: Vec3) -> (r: Ray)
        ensures
            r == (Ray { a, b }),
    {
        Ray { a, b }
    }

    /// The ray's origin.
    pub fn origin(&self) -> (r: Vec3)
        ensures
            r == self.a,
    {
        self.a
    }

    /// The ray's direction.
    pub fn direction(&self) -> (r: Vec3)
        ensures
            r == self.b,
    {
        self.b
    }

    /// The point at parameter `t`; `t` may be any scalar, negative included.
    pub fn point_at_parameter(&self, t: Scalar) -> (r: Vec3)
        ensures
            r == ray_at(*self, t),
    {
        self.a.add(self.b.scale(t))
    }
}

} // verus!
