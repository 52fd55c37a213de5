//! A small CPU path tracer over a fixed-point scalar type.
//!
//! Every quantity is a fixed-point number: an `i64` count of steps of
//! size `1 / SCALE`.  All arithmetic is exact integer arithmetic with
//! floor rounding, so every function in this crate is a pure, total,
//! deterministic function of its arguments and carries an exact
//! contract.  Rendering produces the bytes of a plain-text pixel file.

pub mod bounding_box;
pub mod camera;
pub mod color;
pub mod cube;
pub mod dielectric;
pub mod fx;
pub mod hittable;
pub mod hittable_vec;
pub mod lambertian;
pub mod material;
pub mod metal;
pub mod point;
pub mod ray;
pub mod rotated;
pub mod rect;
pub mod render;
pub mod sphere;
pub mod utility;
pub mod vector3;

use vstd::prelude::*;

verus! {

} // verus!
