//! Axis-aligned rectangles in the three coordinate planes.
//!
//! Each rectangle spans two in-plane ranges at a fixed offset `k` along
//! the remaining axis.  A ray parallel to the plane (zero direction
//! component along the fixed axis) misses; a floating-point tracer gets
//! the same effect from the division producing a non-finite parameter
//! that every later range check rejects.

use vstd::prelude::*;

verus! {

use crate::bounding_box::BoundingBox;
use crate::fx::Fx;
use crate::fx::fx_div;
use crate::fx::fx_mul;
use crate::hittable::HitRecord;
use crate::hittable::face_normal_spec;
use crate::point::Point;
use crate::point::p_geom;
use crate::ray::Ray;
use crate::ray::ray_at_spec;
use crate::vector3::GEOM_MAX;
use crate::vector3::Vector3;
use crate::vector3::fx_geom;
use crate::vector3::v_geom;
use crate::vector3::v_unitish;
use crate::vector3::lemma_fx_mul_tight;
use crate::vector3::lemma_fx_div_bound;
use crate::fx::SCALE;

#[derive(Clone, Copy, PartialEq, Eq, Structural, Debug)]
pub enum RectType {
    XYrect,
    XZrect,
    YZrect,
}

#[derive(Clone, Copy, PartialEq, Eq, Structural, Debug)]
pub struct Rect {
    pub a0: Fx,
    pub a1: Fx,
    pub b0: Fx,
    pub b1: Fx,
    pub k: Fx,
    pub rect_type: RectType,
    pub material: usize,
}

pub open spec fn rect_wf(rect: Rect) -> bool {
    fx_geom(rect.a0.raw as int) && fx_geom(rect.a1.raw as int) && fx_geom(rect.b0.raw as int)
        && fx_geom(rect.b1.raw as int) && fx_geom(rect.k.raw as int) && rect.a0.raw < rect.a1.raw
        && rect.b0.raw < rect.b1.raw
}

/// The in-plane intersection for one orientation, over raw values.
/// `oa, da` follow the first in-plane axis, `ob, db` the second, and
/// `ok, dk` the fixed axis.
pub open spec fn rect_plane_spec(
    rect: Rect,
    oa: int,
    da: int,
    ob: int,
    db: int,
    ok: int,
    dk: int,
    tmin: int,
    tmax: int,
) -> Option<(int, int, int)> {
    if dk == 0 {
        None
    } else {
        let t = fx_div(rect.k.raw - ok, dk);
        if t < tmin || t > tmax {
            None
        } else {
            let pa = oa + fx_mul(da, t);
            let pb = ob + fx_mul(db, t);
            if pa < rect.a0.raw || pa > rect.a1.raw || pb < rect.b0.raw || pb > rect.b1.raw {
                None
            } else {
                let uu = fx_div(pa - rect.a0.raw, rect.a1.raw - rect.a0.raw);
                let vv = fx_div(pb - rect.b0.raw, rect.b1.raw - rect.b0.raw);
                Some((t, uu, vv))
            }
        }
    }
}

/// The oriented record built at parameter `t`, or `None` when the hit
/// point leaves the working range.
pub open spec fn rect_rec_spec(rect: Rect, r: Ray, t: int, uu: int, vv: int, ax: int, ay: int, az: int) -> Option<
    HitRecord,
> {
    let px = ray_at_spec(r.origin.x.raw as int, r.direction.x.raw as int, t);
    let py = ray_at_spec(r.origin.y.raw as int, r.direction.y.raw as int, t);
    let pz = ray_at_spec(r.origin.z.raw as int, r.direction.z.raw as int, t);
    if fx_geom(px) && fx_geom(py) && fx_geom(pz) {
        let pt = Point { x: Fx { raw: px as i64 }, y: Fx { raw: py as i64 }, z: Fx { raw: pz as i64 } };
        let outward = Vector3 {
            x: Fx { raw: ax as i64 },
            y: Fx { raw: ay as i64 },
            z: Fx { raw: az as i64 },
        };
        let oriented = face_normal_spec(r, outward);
        Some(
            HitRecord {
                point: pt,
                normal: oriented.0,
                t: Fx { raw: t as i64 },
                u: Fx { raw: uu as i64 },
                v: Fx { raw: vv as i64 },
                front_face: oriented.1,
                material: rect.material,
            },
        )
    } else {
        None
    }
}

/// The full intersection for any orientation.
pub open spec fn rect_hit_spec(rect: Rect, r: Ray, tmin: int, tmax: int) -> Option<HitRecord> {
    let ox = r.origin.x.raw as int;
    let oy = r.origin.y.raw as int;
    let oz = r.origin.z.raw as int;
    let dx = r.direction.x.raw as int;
    let dy = r.direction.y.raw as int;
    let dz = r.direction.z.raw as int;
    match rect.rect_type {
        RectType::XYrect => match rect_plane_spec(rect, ox, dx, oy, dy, oz, dz, tmin, tmax) {
            Some(tuv) => rect_rec_spec(rect, r, tuv.0, tuv.1, tuv.2, 0, 0, SCALE as int),
            None => None,
        },
        RectType::XZrect => match rect_plane_spec(rect, ox, dx, oz, dz, oy, dy, tmin, tmax) {
            Some(tuv) => rect_rec_spec(rect, r, tuv.0, tuv.1, tuv.2, 0, SCALE as int, 0),
            None => None,
        },
        RectType::YZrect => match rect_plane_spec(rect, oy, dy, oz, dz, ox, dx, tmin, tmax) {
            Some(tuv) => rect_rec_spec(rect, r, tuv.0, tuv.1, tuv.2, SCALE as int, 0, 0),
            None => None,
        },
    }
}

/// The in-plane test, shared by the three orientations.
fn rect_plane(rect: &Rect, oa: Fx, da: Fx, ob: Fx, db: Fx, ok: Fx, dk: Fx, t_min: Fx, t_max: Fx) -> (res:
    Option<(Fx, Fx, Fx)>)
    requires
        rect_wf(*rect),
        fx_geom(oa.raw as int),
        fx_geom(da.raw as int),
        fx_geom(ob.raw as int),
        fx_geom(db.raw as int),
        fx_geom(ok.raw as int),
        fx_geom(dk.raw as int),
        -(GEOM_MAX as int) <= t_min.raw <= GEOM_MAX as int,
        -(GEOM_MAX as int) <= t_max.raw <= GEOM_MAX as int,
    ensures
        ({
            let spec = rect_plane_spec(
                *rect,
                oa.raw as int,
                da.raw as int,
                ob.raw as int,
                db.raw as int,
                ok.raw as int,
                dk.raw as int,
                t_min.raw as int,
                t_max.raw as int,
            );
            match spec {
                None => res is None,
                Some(tuv) => res matches Some(p) && p.0.raw == tuv.0 && p.1.raw == tuv.1
                    && p.2.raw == tuv.2 && t_min.raw <= p.0.raw <= t_max.raw,
            }
        }),
{
    if dk.raw == 0 {
        return None;
    }
    proof {
        lemma_fx_div_bound(rect.k.raw - ok.raw, dk.raw as int, 0x8000_0000);
    }
    let t = rect.k.sub(ok).div(dk);
    if t.raw < t_min.raw || t.raw > t_max.raw {
        return None;
    }
    proof {
        lemma_fx_mul_tight(da.raw as int, t.raw as int, 0x4000_0000, 0x4000_0000);
        lemma_fx_mul_tight(db.raw as int, t.raw as int, 0x4000_0000, 0x4000_0000);
    }
    let pa = oa.add(da.mul(t));
    let pb = ob.add(db.mul(t));
    if pa.raw < rect.a0.raw || pa.raw > rect.a1.raw || pb.raw < rect.b0.raw || pb.raw > rect.b1.raw {
        return None;
    }
    proof {
        lemma_fx_div_bound(pa.raw - rect.a0.raw, rect.a1.raw - rect.a0.raw, 0x8000_0000);
        lemma_fx_div_bound(pb.raw - rect.b0.raw, rect.b1.raw - rect.b0.raw, 0x8000_0000);
    }
    let uu = pa.sub(rect.a0).div(rect.a1.sub(rect.a0));
    let vv = pb.sub(rect.b0).div(rect.b1.sub(rect.b0));
    Some((t, uu, vv))
}

impl Rect {
    pub fn new(a0: Fx, a1: Fx, b0: Fx, b1: Fx, k: Fx, rect_type: RectType, material: usize) -> (r:
        Rect)
        ensures
            r.a0 == a0,
            r.a1 == a1,
            r.b0 == b0,
            r.b1 == b1,
            r.k == k,
            r.rect_type == rect_type,
            r.material == material,
    {
        Rect { a0, a1, b0, b1, k, rect_type, material }
    }

    /// Intersection of the ray with this rectangle inside `[t_min, t_max]`.
    pub fn hit(&self, r: &Ray, t_min: Fx, t_max: Fx) -> (res: Option<HitRecord>)
        requires
            rect_wf(*self),
            p_geom(r.origin),
            v_geom(r.direction),
            -(GEOM_MAX as int) <= t_min.raw <= GEOM_MAX as int,
            -(GEOM_MAX as int) <= t_max.raw <= GEOM_MAX as int,
        ensures
            res == rect_hit_spec(*self, *r, t_min.raw as int, t_max.raw as int),
            res matches Some(rec) ==> p_geom(rec.point) && v_unitish(rec.normal) && rec.material
                == self.material && t_min.raw <= rec.t.raw <= t_max.raw,
    {
        let plane = match self.rect_type {
            RectType::XYrect => rect_plane(
                self,
                r.origin.x,
                r.direction.x,
                r.origin.y,
                r.direction.y,
                r.origin.z,
                r.direction.z,
                t_min,
                t_max,
            ),
            RectType::XZrect => rect_plane(
                self,
                r.origin.x,
                r.direction.x,
                r.origin.z,
                r.direction.z,
                r.origin.y,
                r.direction.y,
                t_min,
                t_max,
            ),
            RectType::YZrect => rect_plane(
                self,
                r.origin.y,
                r.direction.y,
                r.origin.z,
                r.direction.z,
                r.origin.x,
                r.direction.x,
                t_min,
                t_max,
            ),
        };
        let (t, uu, vv) = match plane {
            None => {
                return None;
            },
            Some(p) => p,
        };
        proof {
            lemma_fx_mul_tight(r.direction.x.raw as int, t.raw as int, 0x4000_0000, 0x4000_0000);
            lemma_fx_mul_tight(r.direction.y.raw as int, t.raw as int, 0x4000_0000, 0x4000_0000);
            lemma_fx_mul_tight(r.direction.z.raw as int, t.raw as int, 0x4000_0000, 0x4000_0000);
        }
        let p = r.at(t);
        if !p.is_geom() {
            return None;
        }
        let outward = match self.rect_type {
            RectType::XYrect => Vector3::new(Fx::zero(), Fx::zero(), Fx::one()),
            RectType::XZrect => Vector3::new(Fx::zero(), Fx::one(), Fx::zero()),
            RectType::YZrect => Vector3::new(Fx::one(), Fx::zero(), Fx::zero()),
        };
        let oriented = HitRecord::set_face_normal(r, &outward);
        let mut rec = HitRecord::new(p, oriented.0, t, oriented.1, self.material);
        rec.u = uu;
        rec.v = vv;
        Some(rec)
    }

    /// The box around this rectangle, thickened by one fixed-point step
    /// along the zero-thickness axis.
    pub fn bounding_box(&self) -> (res: Option<BoundingBox>)
        requires
            rect_wf(*self),
        ensures
            ({
                let tol: int = 1;
                match self.rect_type {
                    RectType::XYrect => res matches Some(bb) && bb.minimum.x.raw == self.a0.raw
                        && bb.minimum.y.raw == self.b0.raw && bb.minimum.z.raw == self.k.raw - tol
                        && bb.maximum.x.raw == self.a1.raw && bb.maximum.y.raw == self.b1.raw
                        && bb.maximum.z.raw == self.k.raw + tol,
                    RectType::XZrect => res matches Some(bb) && bb.minimum.x.raw == self.a0.raw
                        && bb.minimum.y.raw == self.k.raw - tol && bb.minimum.z.raw == self.b0.raw
                        && bb.maximum.x.raw == self.a1.raw && bb.maximum.y.raw == self.k.raw + tol
                        && bb.maximum.z.raw == self.b1.raw,
                    RectType::YZrect => res matches Some(bb) && bb.minimum.x.raw == self.k.raw - tol
                        && bb.minimum.y.raw == self.a0.raw && bb.minimum.z.raw == self.b0.raw
                        && bb.maximum.x.raw == self.k.raw + tol && bb.maximum.y.raw == self.a1.raw
                        && bb.maximum.z.raw == self.b1.raw,
                }
            }),
    {
        let tol = Fx::from_raw(1);
        match self.rect_type {
            RectType::XYrect => Some(
                BoundingBox::new(
                    Point::new(self.a0, self.b0, self.k.sub(tol)),
                    Point::new(self.a1, self.b1, self.k.add(tol)),
                ),
            ),
            RectType::XZrect => Some(
                BoundingBox::new(
                    Point::new(self.a0, self.k.sub(tol), self.b0),
                    Point::new(self.a1, self.k.add(tol), self.b1),
                ),
            ),
            RectType::YZrect => Some(
                BoundingBox::new(
                    Point::new(self.k.sub(tol), self.a0, self.b0),
                    Point::new(self.k.add(tol), self.a1, self.b1),
                ),
            ),
        }
    }
}

} // verus!
