//! Hit records and the face-normal convention.
//!
//! A `HitRecord` describes one successful ray-primitive intersection.  The
//! stored normal always faces against the incoming ray: `front_face`
//! records whether the geometric outward normal already did, and the
//! normal is flipped when it did not.  Materials are shared through an
//! arena of `Material` values, so a record carries the index of the
//! material at the hit point.

use vstd::prelude::*;

verus! {

use crate::fx::Fx;
use crate::point::Point;
use crate::point::p_geom;
use crate::ray::Ray;
use crate::vector3::Vector3;
use crate::vector3::dot_spec;
use crate::vector3::v_geom;
use crate::vector3::v_unitish;

#[derive(Clone, Copy, PartialEq, Eq, Structural, Debug)]
pub struct HitRecord {
    pub point: Point,
    pub normal: Vector3,
    pub t: Fx,
    pub u: Fx,
    pub v: Fx,
    pub front_face: bool,
    pub material: usize,
}

/// Every well-formed record keeps its point in the geometry range, its
/// normal unit-bounded, and its material inside an arena of `n_materials`.
pub open spec fn rec_wf(rec: HitRecord, n_materials: int) -> bool {
    p_geom(rec.point) && v_unitish(rec.normal) && rec.material < n_materials
}

/// The flipped-normal convention: the stored normal, and whether the
/// outward normal already faced against the ray.
pub open spec fn face_normal_spec(r: Ray, outward: Vector3) -> (Vector3, bool) {
    let front = dot_spec(r.direction, outward) < 0;
    if front {
        (outward, true)
    } else {
        (crate::vector3::neg_spec(outward), false)
    }
}

impl HitRecord {
    pub fn new(point: Point, normal: Vector3, t: Fx, front_face: bool, material: usize) -> (r:
        HitRecord)
        ensures
            r.point == point,
            r.normal == normal,
            r.t == t,
            r.front_face == front_face,
            r.material == material,
            r.u.raw == 0,
            r.v.raw == 0,
    {
        HitRecord { point, normal, t, u: Fx::zero(), v: Fx::zero(), front_face, material }
    }

    /// Orient `outward_normal` against the incoming ray: keep it when it
    /// already points against the ray direction, flip it otherwise.
    pub fn set_face_normal(r: &Ray, outward_normal: &Vector3) -> (res: (Vector3, bool))
        requires
            v_geom(r.direction),
            v_unitish(*outward_normal),
        ensures
            res == face_normal_spec(*r, *outward_normal),
            v_unitish(res.0),
    {
        let front_face = Vector3::dot(r.direction(), outward_normal).lt(Fx::zero());
        let normal = if front_face {
            *outward_normal
        } else {
            outward_normal.neg()
        };
        (normal, front_face)
    }
}


use crate::bounding_box::BoundingBox;
use crate::cube::Cube;
use crate::cube::cube_wf;
use crate::cube::scan_rects_spec;
use crate::rect::Rect;
use crate::rect::rect_wf;
use crate::rect::rect_hit_spec;
use crate::rotated::Rotated;
use crate::rotated::rot_params_wf;
use crate::rotated::rotated_ray_spec;
use crate::rotated::rotated_rec_spec;
use crate::sphere::Sphere;
use crate::sphere::sphere_wf;
use crate::sphere::sphere_hit_spec;
use crate::vector3::GEOM_MAX;

/// The closed set of primitives a scene can hold.
pub enum Hittable {
    Sphere(Sphere),
    Rect(Rect),
    Cube(Cube),
    Rotated(Box<Rotated>),
}

/// Geometric well-formedness, through any nesting of rotations.
pub open spec fn object_shape_wf(obj: Hittable) -> bool
    decreases obj,
{
    match obj {
        Hittable::Sphere(s) => sphere_wf(s),
        Hittable::Rect(rc) => rect_wf(rc),
        Hittable::Cube(c) => cube_wf(c),
        Hittable::Rotated(b) => rot_params_wf(b.sin_theta, b.cos_theta) && object_shape_wf(b.obj)
            && b.bounding_box == (match object_bb_spec(b.obj) {
            None => None::<BoundingBox>,
            Some(bb) => if crate::bounding_box::bb_geom(bb) {
                Some(
                    crate::rotated::rotated_bbox_spec(
                        b.sin_theta.raw as int,
                        b.cos_theta.raw as int,
                        bb,
                    ),
                )
            } else {
                None
            },
        }),
    }
}

/// Every material index mentioned by the object lies below `n`.
pub open spec fn object_mat_bound(obj: Hittable, n: int) -> bool
    decreases obj,
{
    match obj {
        Hittable::Sphere(s) => s.material < n,
        Hittable::Rect(rc) => rc.material < n,
        Hittable::Cube(c) => c.material < n && forall|i: int|
            0 <= i < c.sides@.len() ==> #[trigger] c.sides@[i].material < n,
        Hittable::Rotated(b) => object_mat_bound(b.obj, n),
    }
}

/// The intersection of a ray with any primitive, as a function of its
/// arguments: each variant defers to its own mirror, and a rotation tests
/// the child in the local frame and carries the record back.
pub open spec fn object_hit_spec(obj: Hittable, r: Ray, tmin: int, tmax: int) -> Option<HitRecord>
    decreases obj,
{
    match obj {
        Hittable::Sphere(s) => sphere_hit_spec(s, r, tmin, tmax),
        Hittable::Rect(rc) => rect_hit_spec(rc, r, tmin, tmax),
        Hittable::Cube(c) => scan_rects_spec(c.sides@, r, tmin, tmax),
        Hittable::Rotated(b) => {
            let rr = rotated_ray_spec(b.sin_theta.raw as int, b.cos_theta.raw as int, r);
            if p_geom(rr.origin) && v_geom(rr.direction) {
                match object_hit_spec(b.obj, rr, tmin, tmax) {
                    None => None,
                    Some(rec) => rotated_rec_spec(
                        b.sin_theta.raw as int,
                        b.cos_theta.raw as int,
                        r,
                        rec,
                    ),
                }
            } else {
                None
            }
        },
    }
}

/// The bounding box of any primitive, as a function of its arguments.
pub open spec fn object_bb_spec(obj: Hittable) -> Option<BoundingBox>
    decreases obj,
{
    match obj {
        Hittable::Sphere(s) => Some(
            BoundingBox {
                minimum: Point {
                    x: Fx { raw: (s.center.x.raw - s.radius.raw) as i64 },
                    y: Fx { raw: (s.center.y.raw - s.radius.raw) as i64 },
                    z: Fx { raw: (s.center.z.raw - s.radius.raw) as i64 },
                },
                maximum: Point {
                    x: Fx { raw: (s.center.x.raw + s.radius.raw) as i64 },
                    y: Fx { raw: (s.center.y.raw + s.radius.raw) as i64 },
                    z: Fx { raw: (s.center.z.raw + s.radius.raw) as i64 },
                },
            },
        ),
        Hittable::Rect(rc) => {
            let tol: int = 1;
            match rc.rect_type {
                crate::rect::RectType::XYrect => Some(
                    BoundingBox {
                        minimum: Point { x: rc.a0, y: rc.b0, z: Fx { raw: (rc.k.raw - tol) as i64 } },
                        maximum: Point { x: rc.a1, y: rc.b1, z: Fx { raw: (rc.k.raw + tol) as i64 } },
                    },
                ),
                crate::rect::RectType::XZrect => Some(
                    BoundingBox {
                        minimum: Point { x: rc.a0, y: Fx { raw: (rc.k.raw - tol) as i64 }, z: rc.b0 },
                        maximum: Point { x: rc.a1, y: Fx { raw: (rc.k.raw + tol) as i64 }, z: rc.b1 },
                    },
                ),
                crate::rect::RectType::YZrect => Some(
                    BoundingBox {
                        minimum: Point { x: Fx { raw: (rc.k.raw - tol) as i64 }, y: rc.a0, z: rc.b0 },
                        maximum: Point { x: Fx { raw: (rc.k.raw + tol) as i64 }, y: rc.a1, z: rc.b1 },
                    },
                ),
            }
        },
        Hittable::Cube(c) => Some(BoundingBox { minimum: c.box_min, maximum: c.box_max }),
        Hittable::Rotated(b) => match object_bb_spec(b.obj) {
            None => None,
            Some(bb) => if crate::bounding_box::bb_geom(bb) {
                Some(
                    crate::rotated::rotated_bbox_spec(
                        b.sin_theta.raw as int,
                        b.cos_theta.raw as int,
                        bb,
                    ),
                )
            } else {
                None
            },
        },
    }
}

impl Hittable {
    /// The closest intersection with this primitive inside `[t_min, t_max]`.
    pub fn hit(&self, r: &Ray, t_min: Fx, t_max: Fx) -> (res: Option<HitRecord>)
        requires
            object_shape_wf(*self),
            p_geom(r.origin),
            v_geom(r.direction),
            -(GEOM_MAX as int) <= t_min.raw <= GEOM_MAX as int,
            -(GEOM_MAX as int) <= t_max.raw <= GEOM_MAX as int,
        ensures
            res == object_hit_spec(*self, *r, t_min.raw as int, t_max.raw as int),
            res matches Some(rec) ==> p_geom(rec.point) && v_unitish(rec.normal) && t_min.raw
                <= rec.t.raw <= t_max.raw,
        decreases *self,
    {
        match self {
            Hittable::Sphere(s) => s.hit(r, t_min, t_max),
            Hittable::Rect(rc) => rc.hit(r, t_min, t_max),
            Hittable::Cube(c) => c.hit(r, t_min, t_max),
            Hittable::Rotated(b) => {
                let rotated_r = crate::rotated::rotate_ray(b.sin_theta, b.cos_theta, r);
                match rotated_r {
                    None => None,
                    Some(rr) => {
                        let child = b.obj.hit(&rr, t_min, t_max);
                        match child {
                            None => None,
                            Some(rec) => crate::rotated::rotate_record(
                                b.sin_theta,
                                b.cos_theta,
                                r,
                                &rec,
                            ),
                        }
                    },
                }
            },
        }
    }

    /// The bounding box of this primitive, if it has one.
    pub fn bounding_box(&self) -> (res: Option<BoundingBox>)
        requires
            object_shape_wf(*self),
        ensures
            res == object_bb_spec(*self),
        decreases *self,
    {
        match self {
            Hittable::Sphere(s) => s.bounding_box(),
            Hittable::Rect(rc) => rc.bounding_box(),
            Hittable::Cube(c) => c.bounding_box(),
            Hittable::Rotated(b) => b.bounding_box(),
        }
    }
}

} // verus!
