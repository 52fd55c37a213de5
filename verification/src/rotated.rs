//! Rotation of a hittable about the y axis.
//!
//! The wrapper stores the sine and cosine of the angle, supplied by the
//! caller since the scalar type has no trigonometry of its own.  A hit
//! rotates the ray into the child's local frame, tests the child there,
//! rotates the hit point and normal back to world space, and re-derives
//! the face orientation against the original world-space ray.  The
//! bounding box of the child, when it has one, is rotated corner by
//! corner and re-boxed; the rotation leaves y alone, so the eight corners
//! give four distinct x-z pairs.

use vstd::prelude::*;

verus! {

use crate::bounding_box::BoundingBox;
use crate::fx::Fx;
use crate::fx::SCALE;
use crate::fx::fx_mul;
use crate::hittable::HitRecord;
use crate::hittable::Hittable;
use crate::hittable::face_normal_spec;
use crate::point::Point;
use crate::point::p_geom;
use crate::ray::Ray;
use crate::vector3::Vector3;
use crate::vector3::fx_geom;
use crate::vector3::fx_unitish;
use crate::vector3::v_geom;
use crate::vector3::lemma_fx_mul_tight;

pub struct Rotated {
    pub obj: Hittable,
    pub sin_theta: Fx,
    pub cos_theta: Fx,
    pub bounding_box: Option<BoundingBox>,
}

/// The stored sine and cosine stay within one unit.
pub open spec fn rot_params_wf(sin_theta: Fx, cos_theta: Fx) -> bool {
    -(SCALE as int) <= sin_theta.raw <= SCALE as int && -(SCALE as int) <= cos_theta.raw
        <= SCALE as int
}

/// Rotate a raw x-z pair into the local frame: `(c x - s z, s x + c z)`.
pub open spec fn rot_local_x(s: int, c: int, x: int, z: int) -> int {
    fx_mul(c, x) - fx_mul(s, z)
}

pub open spec fn rot_local_z(s: int, c: int, x: int, z: int) -> int {
    fx_mul(s, x) + fx_mul(c, z)
}

/// Rotate a raw x-z pair back to world: `(c x + s z, -(s x) + c z)`.
pub open spec fn rot_world_x(s: int, c: int, x: int, z: int) -> int {
    fx_mul(c, x) + fx_mul(s, z)
}

pub open spec fn rot_world_z(s: int, c: int, x: int, z: int) -> int {
    -fx_mul(s, x) + fx_mul(c, z)
}

/// The incoming ray in the child's local frame.
pub open spec fn rotated_ray_spec(s: int, c: int, r: Ray) -> Ray {
    Ray {
        origin: Point {
            x: Fx { raw: rot_local_x(s, c, r.origin.x.raw as int, r.origin.z.raw as int) as i64 },
            y: r.origin.y,
            z: Fx { raw: rot_local_z(s, c, r.origin.x.raw as int, r.origin.z.raw as int) as i64 },
        },
        direction: Vector3 {
            x: Fx {
                raw: rot_local_x(s, c, r.direction.x.raw as int, r.direction.z.raw as int) as i64,
            },
            y: r.direction.y,
            z: Fx {
                raw: rot_local_z(s, c, r.direction.x.raw as int, r.direction.z.raw as int) as i64,
            },
        },
    }
}

/// A child record carried back to world space, or `None` when the rotated
/// point or normal leaves the working range.
pub open spec fn rotated_rec_spec(s: int, c: int, world_ray: Ray, rec: HitRecord) -> Option<
    HitRecord,
> {
    let px = rot_world_x(s, c, rec.point.x.raw as int, rec.point.z.raw as int);
    let pz = rot_world_z(s, c, rec.point.x.raw as int, rec.point.z.raw as int);
    let nx = rot_world_x(s, c, rec.normal.x.raw as int, rec.normal.z.raw as int);
    let nz = rot_world_z(s, c, rec.normal.x.raw as int, rec.normal.z.raw as int);
    if fx_geom(px) && fx_geom(pz) && fx_unitish(nx) && fx_unitish(nz) {
        let pt = Point { x: Fx { raw: px as i64 }, y: rec.point.y, z: Fx { raw: pz as i64 } };
        let outward = Vector3 { x: Fx { raw: nx as i64 }, y: rec.normal.y, z: Fx { raw: nz as i64 } };
        let oriented = face_normal_spec(world_ray, outward);
        Some(
            HitRecord {
                point: pt,
                normal: oriented.0,
                t: rec.t,
                u: rec.u,
                v: rec.v,
                front_face: oriented.1,
                material: rec.material,
            },
        )
    } else {
        None
    }
}

/// Rotate the raw x-z pair of one corner to world space and keep the
/// running minima and maxima.
pub open spec fn min2(a: int, b: int) -> int {
    if a <= b {
        a
    } else {
        b
    }
}

pub open spec fn max2(a: int, b: int) -> int {
    if a >= b {
        a
    } else {
        b
    }
}

/// The rotated bounding box of a child box: the tight box around the
/// rotated corners.
pub open spec fn rotated_bbox_spec(s: int, c: int, bb: BoundingBox) -> BoundingBox {
    let x0 = bb.minimum.x.raw as int;
    let x1 = bb.maximum.x.raw as int;
    let z0 = bb.minimum.z.raw as int;
    let z1 = bb.maximum.z.raw as int;
    let wx00 = rot_world_x(s, c, x0, z0);
    let wx01 = rot_world_x(s, c, x0, z1);
    let wx10 = rot_world_x(s, c, x1, z0);
    let wx11 = rot_world_x(s, c, x1, z1);
    let wz00 = rot_world_z(s, c, x0, z0);
    let wz01 = rot_world_z(s, c, x0, z1);
    let wz10 = rot_world_z(s, c, x1, z0);
    let wz11 = rot_world_z(s, c, x1, z1);
    BoundingBox {
        minimum: Point {
            x: Fx { raw: min2(min2(wx00, wx01), min2(wx10, wx11)) as i64 },
            y: Fx { raw: min2(bb.minimum.y.raw as int, bb.maximum.y.raw as int) as i64 },
            z: Fx { raw: min2(min2(wz00, wz01), min2(wz10, wz11)) as i64 },
        },
        maximum: Point {
            x: Fx { raw: max2(max2(wx00, wx01), max2(wx10, wx11)) as i64 },
            y: Fx { raw: max2(bb.minimum.y.raw as int, bb.maximum.y.raw as int) as i64 },
            z: Fx { raw: max2(max2(wz00, wz01), max2(wz10, wz11)) as i64 },
        },
    }
}

/// Rotate one raw pair to world space, executably.
fn rot_world(sin_theta: Fx, cos_theta: Fx, x: Fx, z: Fx) -> (r: (Fx, Fx))
    requires
        rot_params_wf(sin_theta, cos_theta),
        fx_geom(x.raw as int),
        fx_geom(z.raw as int),
    ensures
        r.0.raw == rot_world_x(sin_theta.raw as int, cos_theta.raw as int, x.raw as int, z.raw as int),
        r.1.raw == rot_world_z(sin_theta.raw as int, cos_theta.raw as int, x.raw as int, z.raw as int),
        -0x8000_0002 <= r.0.raw <= 0x8000_0002,
        -0x8000_0002 <= r.1.raw <= 0x8000_0002,
{
    proof {
        lemma_fx_mul_tight(cos_theta.raw as int, x.raw as int, SCALE as int, 0x4000_0000);
        lemma_fx_mul_tight(sin_theta.raw as int, z.raw as int, SCALE as int, 0x4000_0000);
        lemma_fx_mul_tight(sin_theta.raw as int, x.raw as int, SCALE as int, 0x4000_0000);
        lemma_fx_mul_tight(cos_theta.raw as int, z.raw as int, SCALE as int, 0x4000_0000);
        crate::fx::lemma_fdiv_exact(0x4000_0000, SCALE as int);
        assert((SCALE as int) * 0x4000_0000 == 0x4000_0000 * (SCALE as int)) by (nonlinear_arith);
    }
    let cx = cos_theta.mul(x);
    let sz = sin_theta.mul(z);
    let sx = sin_theta.mul(x);
    let cz = cos_theta.mul(z);
    (cx.add(sz), sx.neg().add(cz))
}

/// Rotate one raw pair into the local frame, executably.
fn rot_local(sin_theta: Fx, cos_theta: Fx, x: Fx, z: Fx) -> (r: (Fx, Fx))
    requires
        rot_params_wf(sin_theta, cos_theta),
        fx_geom(x.raw as int),
        fx_geom(z.raw as int),
    ensures
        r.0.raw == rot_local_x(sin_theta.raw as int, cos_theta.raw as int, x.raw as int, z.raw as int),
        r.1.raw == rot_local_z(sin_theta.raw as int, cos_theta.raw as int, x.raw as int, z.raw as int),
{
    proof {
        lemma_fx_mul_tight(cos_theta.raw as int, x.raw as int, SCALE as int, 0x4000_0000);
        lemma_fx_mul_tight(sin_theta.raw as int, z.raw as int, SCALE as int, 0x4000_0000);
        lemma_fx_mul_tight(sin_theta.raw as int, x.raw as int, SCALE as int, 0x4000_0000);
        lemma_fx_mul_tight(cos_theta.raw as int, z.raw as int, SCALE as int, 0x4000_0000);
        crate::fx::lemma_fdiv_exact(0x4000_0000, SCALE as int);
        assert((SCALE as int) * 0x4000_0000 == 0x4000_0000 * (SCALE as int)) by (nonlinear_arith);
    }
    let cx = cos_theta.mul(x);
    let sz = sin_theta.mul(z);
    let sx = sin_theta.mul(x);
    let cz = cos_theta.mul(z);
    (cx.sub(sz), sx.add(cz))
}

impl Rotated {
    /// Wrap `obj` with a rotation whose sine and cosine are given; the
    /// rotated bounding box is precomputed from the child's, when the
    /// child has one and all rotated corners stay in the working range.
    pub fn new(obj: Hittable, sin_theta: Fx, cos_theta: Fx) -> (res: Rotated)
        requires
            rot_params_wf(sin_theta, cos_theta),
            crate::hittable::object_shape_wf(obj),
        ensures
            res.obj == obj,
            res.sin_theta == sin_theta,
            res.cos_theta == cos_theta,
            res.bounding_box == ({
                match crate::hittable::object_bb_spec(obj) {
                    None => None::<BoundingBox>,
                    Some(bb) => if crate::bounding_box::bb_geom(bb) {
                        Some(
                            rotated_bbox_spec(sin_theta.raw as int, cos_theta.raw as int, bb),
                        )
                    } else {
                        None
                    },
                }
            }),
    {
        let child_bb = obj.bounding_box();
        let bounding_box = match child_bb {
            None => None,
            Some(bb) => {
                if !(bb.minimum.is_geom() && bb.maximum.is_geom()) {
                    None
                } else {
                    let w00 = rot_world(sin_theta, cos_theta, bb.minimum.x, bb.minimum.z);
                    let w01 = rot_world(sin_theta, cos_theta, bb.minimum.x, bb.maximum.z);
                    let w10 = rot_world(sin_theta, cos_theta, bb.maximum.x, bb.minimum.z);
                    let w11 = rot_world(sin_theta, cos_theta, bb.maximum.x, bb.maximum.z);
                    let min_x = w00.0.min(w01.0).min(w10.0.min(w11.0));
                    let max_x = w00.0.max(w01.0).max(w10.0.max(w11.0));
                    let min_z = w00.1.min(w01.1).min(w10.1.min(w11.1));
                    let max_z = w00.1.max(w01.1).max(w10.1.max(w11.1));
                    let min_y = bb.minimum.y.min(bb.maximum.y);
                    let max_y = bb.minimum.y.max(bb.maximum.y);
                    Some(
                        BoundingBox::new(
                            Point::new(min_x, min_y, min_z),
                            Point::new(max_x, max_y, max_z),
                        ),
                    )
                }
            },
        };
        Rotated { obj, sin_theta, cos_theta, bounding_box }
    }

    /// The precomputed rotated box, if the child had one.
    pub fn bounding_box(&self) -> (res: Option<BoundingBox>)
        ensures
            res == self.bounding_box,
    {
        match &self.bounding_box {
            Some(bb) => Some(*bb),
            None => None,
        }
    }
}

/// Rotate the world ray into the child's local frame; `None` when the
/// rotated coordinates leave the working range.
pub fn rotate_ray(sin_theta: Fx, cos_theta: Fx, r: &Ray) -> (res: Option<Ray>)
    requires
        rot_params_wf(sin_theta, cos_theta),
        p_geom(r.origin),
        v_geom(r.direction),
    ensures
        ({
            let rr = rotated_ray_spec(sin_theta.raw as int, cos_theta.raw as int, *r);
            if p_geom(rr.origin) && v_geom(rr.direction) {
                res == Some(rr)
            } else {
                res is None
            }
        }),
        res matches Some(rr2) ==> p_geom(rr2.origin) && v_geom(rr2.direction),
{
    let o = rot_local(sin_theta, cos_theta, r.origin.x, r.origin.z);
    let d = rot_local(sin_theta, cos_theta, r.direction.x, r.direction.z);
    let origin = Point::new(o.0, r.origin.y, o.1);
    let direction = Vector3::new(d.0, r.direction.y, d.1);
    if !(origin.is_geom() && direction.is_geom()) {
        return None;
    }
    Some(Ray::new(origin, direction))
}

/// Carry a child record back to world space, re-orienting the normal
/// against the original world ray.
pub fn rotate_record(sin_theta: Fx, cos_theta: Fx, world_ray: &Ray, rec: &HitRecord) -> (res:
    Option<HitRecord>)
    requires
        rot_params_wf(sin_theta, cos_theta),
        p_geom(rec.point),
        crate::vector3::v_unitish(rec.normal),
        v_geom(world_ray.direction),
    ensures
        res == rotated_rec_spec(sin_theta.raw as int, cos_theta.raw as int, *world_ray, *rec),
        res matches Some(out) ==> p_geom(out.point) && crate::vector3::v_unitish(out.normal)
            && out.material == rec.material && out.t == rec.t,
{
    let p = rot_world(sin_theta, cos_theta, rec.point.x, rec.point.z);
    let n = rot_world(sin_theta, cos_theta, rec.normal.x, rec.normal.z);
    let point = Point::new(p.0, rec.point.y, p.1);
    let outward = Vector3::new(n.0, rec.normal.y, n.1);
    if !(point.is_geom() && outward.is_unitish()) {
        return None;
    }
    let oriented = HitRecord::set_face_normal(world_ray, &outward);
    let mut out = HitRecord::new(point, oriented.0, rec.t, oriented.1, rec.material);
    out.u = rec.u;
    out.v = rec.v;
    Some(out)
}

} // verus!
