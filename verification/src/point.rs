//! Points in space.  A `Point` is a location; subtracting two points gives
//! a displacement `Vector3`, and adding a `Vector3` to a point gives a point.

use vstd::prelude::*;

verus! {

use crate::fx::Fx;
use crate::fx::fits_i64;
use crate::vector3::Vector3;

#[derive(Clone, Copy, PartialEq, Eq, Structural, Debug)]
pub struct Point {
    pub x: Fx,
    pub y: Fx,
    pub z: Fx,
}

/// All coordinates within the geometry working range.
pub open spec fn p_geom(p: Point) -> bool {
    crate::vector3::fx_geom(p.x.raw as int) && crate::vector3::fx_geom(p.y.raw as int)
        && crate::vector3::fx_geom(p.z.raw as int)
}

impl Point {
    pub fn new(x: Fx, y: Fx, z: Fx) -> (r: Point)
        ensures
            r.x == x,
            r.y == y,
            r.z == z,
    {
        Point { x, y, z }
    }

    pub fn x(&self) -> (r: Fx)
        ensures
            r == self.x,
    {
        self.x
    }

    pub fn y(&self) -> (r: Fx)
        ensures
            r == self.y,
    {
        self.y
    }

    pub fn z(&self) -> (r: Fx)
        ensures
            r == self.z,
    {
        self.z
    }

    pub fn origin() -> (r: Point)
        ensures
            r.x.raw == 0,
            r.y.raw == 0,
            r.z.raw == 0,
    {
        Point { x: Fx::zero(), y: Fx::zero(), z: Fx::zero() }
    }

    /// Translate the point by a displacement.
    pub fn add(self, rhs: Vector3) -> (r: Point)
        requires
            fits_i64(self.x.raw + rhs.x.raw),
            fits_i64(self.y.raw + rhs.y.raw),
            fits_i64(self.z.raw + rhs.z.raw),
        ensures
            r.x.raw == self.x.raw + rhs.x.raw,
            r.y.raw == self.y.raw + rhs.y.raw,
            r.z.raw == self.z.raw + rhs.z.raw,
    {
        Point { x: self.x.add(rhs.x), y: self.y.add(rhs.y), z: self.z.add(rhs.z) }
    }

    /// Add the coordinates of another point, coordinatewise.
    pub fn add_point(self, rhs: Point) -> (r: Point)
        requires
            fits_i64(self.x.raw + rhs.x.raw),
            fits_i64(self.y.raw + rhs.y.raw),
            fits_i64(self.z.raw + rhs.z.raw),
        ensures
            r.x.raw == self.x.raw + rhs.x.raw,
            r.y.raw == self.y.raw + rhs.y.raw,
            r.z.raw == self.z.raw + rhs.z.raw,
    {
        Point { x: self.x.add(rhs.x), y: self.y.add(rhs.y), z: self.z.add(rhs.z) }
    }

    /// The displacement from `rhs` to `self`.
    pub fn sub(self, rhs: Point) -> (r: Vector3)
        requires
            fits_i64(self.x.raw - rhs.x.raw),
            fits_i64(self.y.raw - rhs.y.raw),
            fits_i64(self.z.raw - rhs.z.raw),
        ensures
            r.x.raw == self.x.raw - rhs.x.raw,
            r.y.raw == self.y.raw - rhs.y.raw,
            r.z.raw == self.z.raw - rhs.z.raw,
    {
        Vector3 { x: self.x.sub(rhs.x), y: self.y.sub(rhs.y), z: self.z.sub(rhs.z) }
    }

    /// Translate the point backwards along a displacement.
    pub fn sub_vector(self, rhs: Vector3) -> (r: Point)
        requires
            fits_i64(self.x.raw - rhs.x.raw),
            fits_i64(self.y.raw - rhs.y.raw),
            fits_i64(self.z.raw - rhs.z.raw),
        ensures
            r.x.raw == self.x.raw - rhs.x.raw,
            r.y.raw == self.y.raw - rhs.y.raw,
            r.z.raw == self.z.raw - rhs.z.raw,
    {
        Point { x: self.x.sub(rhs.x), y: self.y.sub(rhs.y), z: self.z.sub(rhs.z) }
    }

    /// Whether every coordinate is within the geometry working range.
    pub fn is_geom(&self) -> (r: bool)
        ensures
            r == p_geom(*self),
    {
        -crate::vector3::GEOM_MAX <= self.x.raw && self.x.raw <= crate::vector3::GEOM_MAX
            && -crate::vector3::GEOM_MAX <= self.y.raw && self.y.raw <= crate::vector3::GEOM_MAX
            && -crate::vector3::GEOM_MAX <= self.z.raw && self.z.raw <= crate::vector3::GEOM_MAX
    }

    /// The coordinate along axis `index`; only axes 0, 1 and 2 exist.
    pub fn index(&self, index: usize) -> (r: Fx)
        requires
            index < 3,
        ensures
            r == if index == 0 {
                self.x
            } else if index == 1 {
                self.y
            } else {
                self.z
            },
    {
        if index == 0 {
            self.x
        } else if index == 1 {
            self.y
        } else {
            self.z
        }
    }
}

} // verus!
