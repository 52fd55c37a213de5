//! Axis-aligned cubes, composed of six rectangles: one pair of faces per
//! axis, spanning the other two axes' full ranges.  Intersection is the
//! closest-hit scan over the six faces; the bounding box is the cube's own
//! extent.

use vstd::prelude::*;

verus! {

use crate::bounding_box::BoundingBox;
use crate::fx::Fx;
use crate::hittable::HitRecord;
use crate::point::Point;
use crate::point::p_geom;
use crate::ray::Ray;
use crate::rect::Rect;
use crate::rect::RectType;
use crate::rect::rect_hit_spec;
use crate::rect::rect_wf;
use crate::vector3::GEOM_MAX;
use crate::vector3::v_geom;
use crate::vector3::v_unitish;

#[derive(PartialEq, Eq, Debug)]
pub struct Cube {
    pub box_min: Point,
    pub box_max: Point,
    pub sides: Vec<Rect>,
    pub material: usize,
}

/// The six faces of the cube spanned by `bmin` and `bmax`.
pub open spec fn cube_sides_spec(bmin: Point, bmax: Point, mat: usize) -> Seq<Rect> {
    seq![
        Rect {
            a0: bmin.x,
            a1: bmax.x,
            b0: bmin.y,
            b1: bmax.y,
            k: bmax.z,
            rect_type: RectType::XYrect,
            material: mat,
        },
        Rect {
            a0: bmin.x,
            a1: bmax.x,
            b0: bmin.y,
            b1: bmax.y,
            k: bmin.z,
            rect_type: RectType::XYrect,
            material: mat,
        },
        Rect {
            a0: bmin.x,
            a1: bmax.x,
            b0: bmin.z,
            b1: bmax.z,
            k: bmax.y,
            rect_type: RectType::XZrect,
            material: mat,
        },
        Rect {
            a0: bmin.x,
            a1: bmax.x,
            b0: bmin.z,
            b1: bmax.z,
            k: bmin.y,
            rect_type: RectType::XZrect,
            material: mat,
        },
        Rect {
            a0: bmin.y,
            a1: bmax.y,
            b0: bmin.z,
            b1: bmax.z,
            k: bmax.x,
            rect_type: RectType::YZrect,
            material: mat,
        },
        Rect {
            a0: bmin.y,
            a1: bmax.y,
            b0: bmin.z,
            b1: bmax.z,
            k: bmin.x,
            rect_type: RectType::YZrect,
            material: mat,
        },
    ]
}

pub open spec fn cube_wf(c: Cube) -> bool {
    p_geom(c.box_min) && p_geom(c.box_max) && c.box_min.x.raw < c.box_max.x.raw
        && c.box_min.y.raw < c.box_max.y.raw && c.box_min.z.raw < c.box_max.z.raw && c.sides@
        == cube_sides_spec(c.box_min, c.box_max, c.material)
}

/// The closest-hit scan over a sequence of rectangles, in order: each later
/// face can only replace the current best with a hit at most as far.
pub open spec fn scan_rects_spec(sides: Seq<Rect>, r: Ray, tmin: int, tmax: int) -> Option<
    HitRecord,
>
    decreases sides.len(),
{
    if sides.len() == 0 {
        None
    } else {
        let prev = scan_rects_spec(sides.drop_last(), r, tmin, tmax);
        let cur_max = match prev {
            Some(rec) => rec.t.raw as int,
            None => tmax,
        };
        match rect_hit_spec(sides.last(), r, tmin, cur_max) {
            Some(rec2) => Some(rec2),
            None => prev,
        }
    }
}

impl Cube {
    /// The cube between `box_min` and `box_max`, all six faces sharing one
    /// material.
    pub fn new(box_min: Point, box_max: Point, material: usize) -> (c: Cube)
        requires
            p_geom(box_min),
            p_geom(box_max),
            box_min.x.raw < box_max.x.raw,
            box_min.y.raw < box_max.y.raw,
            box_min.z.raw < box_max.z.raw,
        ensures
            c.box_min == box_min,
            c.box_max == box_max,
            c.material == material,
            cube_wf(c),
    {
        let mut sides: Vec<Rect> = Vec::new();
        sides.push(
            Rect::new(box_min.x, box_max.x, box_min.y, box_max.y, box_max.z, RectType::XYrect, material),
        );
        sides.push(
            Rect::new(box_min.x, box_max.x, box_min.y, box_max.y, box_min.z, RectType::XYrect, material),
        );
        sides.push(
            Rect::new(box_min.x, box_max.x, box_min.z, box_max.z, box_max.y, RectType::XZrect, material),
        );
        sides.push(
            Rect::new(box_min.x, box_max.x, box_min.z, box_max.z, box_min.y, RectType::XZrect, material),
        );
        sides.push(
            Rect::new(box_min.y, box_max.y, box_min.z, box_max.z, box_max.x, RectType::YZrect, material),
        );
        sides.push(
            Rect::new(box_min.y, box_max.y, box_min.z, box_max.z, box_min.x, RectType::YZrect, material),
        );
        let c = Cube { box_min, box_max, sides, material };
        proof {
            assert(c.sides@ =~= cube_sides_spec(box_min, box_max, material));
        }
        c
    }

    /// Closest intersection with any of the six faces.
    pub fn hit(&self, r: &Ray, t_min: Fx, t_max: Fx) -> (res: Option<HitRecord>)
        requires
            cube_wf(*self),
            p_geom(r.origin),
            v_geom(r.direction),
            -(GEOM_MAX as int) <= t_min.raw <= GEOM_MAX as int,
            -(GEOM_MAX as int) <= t_max.raw <= GEOM_MAX as int,
        ensures
            res == scan_rects_spec(self.sides@, *r, t_min.raw as int, t_max.raw as int),
            res matches Some(rec) ==> p_geom(rec.point) && v_unitish(rec.normal) && rec.material
                == self.material && t_min.raw <= rec.t.raw <= t_max.raw,
    {
        proof {
            assert forall|j: int| 0 <= j < self.sides@.len() implies rect_wf(#[trigger] self.sides@[j]) by {
                assert(self.sides@ == cube_sides_spec(self.box_min, self.box_max, self.material));
            }
        }
        let mut result: Option<HitRecord> = None;
        let mut closest = t_max;
        let mut i: usize = 0;
        while i < self.sides.len()
            invariant
                cube_wf(*self),
                p_geom(r.origin),
                v_geom(r.direction),
                -(GEOM_MAX as int) <= t_min.raw <= GEOM_MAX as int,
                -(GEOM_MAX as int) <= t_max.raw <= GEOM_MAX as int,
                0 <= i <= self.sides@.len(),
                forall|j: int| 0 <= j < self.sides@.len() ==> rect_wf(#[trigger] self.sides@[j]),
                result == scan_rects_spec(
                    self.sides@.take(i as int),
                    *r,
                    t_min.raw as int,
                    t_max.raw as int,
                ),
                closest.raw as int == match result {
                    Some(rec) => rec.t.raw as int,
                    None => t_max.raw as int,
                },
                result matches Some(rec) ==> p_geom(rec.point) && v_unitish(rec.normal)
                    && rec.material == self.material && t_min.raw <= rec.t.raw <= t_max.raw,
            decreases self.sides@.len() - i,
        {
            let side = self.sides[i];
            let attempt = side.hit(r, t_min, closest);
            proof {
                assert(self.sides@.take(i + 1).drop_last() =~= self.sides@.take(i as int));
                assert(self.sides@.take(i + 1).last() == self.sides@[i as int]);
            }
            match attempt {
                Some(x) => {
                    closest = x.t;
                    result = Some(x);
                },
                None => {},
            }
            i = i + 1;
        }
        proof {
            assert(self.sides@.take(self.sides@.len() as int) =~= self.sides@);
        }
        result
    }

    /// The cube's own extent, directly.
    pub fn bounding_box(&self) -> (res: Option<BoundingBox>)
        ensures
            res matches Some(bb) && bb.minimum == self.box_min && bb.maximum == self.box_max,
    {
        Some(BoundingBox::new(self.box_min, self.box_max))
    }
}

} // verus!
