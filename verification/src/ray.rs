//! Rays: an origin point plus a direction, with point-at-parameter
//! evaluation.  Directions need not be unit length.

use vstd::prelude::*;

verus! {

use crate::fx::Fx;
use crate::fx::fx_mul;
use crate::fx::fits_i64;
use crate::point::Point;
use crate::vector3::Vector3;

#[derive(Clone, Copy, PartialEq, Eq, Structural, Debug)]
pub struct Ray {
    pub origin: Point,
    pub direction: Vector3,
}

/// The raw coordinate of `origin + direction * t` along one axis.
pub open spec fn ray_at_spec(o: int, d: int, t: int) -> int {
    o + fx_mul(d, t)
}

impl Ray {
    pub fn new(orig: Point, dir: Vector3) -> (r: Ray)
        ensures
            r.origin == orig,
            r.direction == dir,
    {
        Ray { origin: orig, direction: dir }
    }

    pub fn origin(&self) -> (r: &Point)
        ensures
            *r == self.origin,
    {
        &self.origin
    }

    pub fn direction(&self) -> (r: &Vector3)
        ensures
            *r == self.direction,
    {
        &self.direction
    }

    /// The point reached after travelling `t` along the direction; `t` may
    /// be negative, and callers constrain the admissible range.
    pub fn at(&self, t: Fx) -> (r: Point)
        requires
            fits_i64(fx_mul(self.direction.x.raw as int, t.raw as int)),
            fits_i64(fx_mul(self.direction.y.raw as int, t.raw as int)),
            fits_i64(fx_mul(self.direction.z.raw as int, t.raw as int)),
            fits_i64(ray_at_spec(self.origin.x.raw as int, self.direction.x.raw as int, t.raw as int)),
            fits_i64(ray_at_spec(self.origin.y.raw as int, self.direction.y.raw as int, t.raw as int)),
            fits_i64(ray_at_spec(self.origin.z.raw as int, self.direction.z.raw as int, t.raw as int)),
        ensures
            r.x.raw == ray_at_spec(self.origin.x.raw as int, self.direction.x.raw as int, t.raw as int),
            r.y.raw == ray_at_spec(self.origin.y.raw as int, self.direction.y.raw as int, t.raw as int),
            r.z.raw == ray_at_spec(self.origin.z.raw as int, self.direction.z.raw as int, t.raw as int),
    {
        self.origin.add(self.direction.mul(t))
    }
}

} // verus!
