//! A ray: a half-line from an origin along a direction, evaluated at a
//! fixed-point parameter.

use vstd::prelude::*;
use crate::vec3::{vadd, vscale, Vec3};

verus! {

/// A ray with its origin and (not necessarily unit) direction.
#[derive(Clone, Copy, Debug, PartialEq, Eq, Structural)]
pub struct Ray {
    pub origin: Vec3,
    pub direction: Vec3,
}

/// The point a parameter `t` along a ray: `origin + t * direction`.
pub open spec fn ray_at(r: Ray, t: int) -> Vec3 {
    vadd(r.origin, vscale(r.direction, t))
}

impl Ray {
    /// The ray from `origin` along `direction`.
    pub fn new(origin: Vec3, direction: Vec3) -> (r: Ray)
        ensures
            r == (Ray { origin, direction }),
    {
        Ray { origin, direction }
    }

    /// The ray's origin.
    pub fn origin(&self) -> (r: Vec3)
        ensures
            r == self.origin,
    {
        self.origin
    }

    /// The ray's direction.
    pub fn direction(&self) -> (r: Vec3)
        ensures
            r == self.direction,
    {
        self.direction
    }

    /// The point a parameter `t` along the ray.
    pub fn point_at_parameter(&self, t: i64) -> (r: Vec3)
        ensures
            r == ray_at(*self, t as int),
    {
        self.origin.add(self.direction.mul_s(t))
    }
}

} // verus!
