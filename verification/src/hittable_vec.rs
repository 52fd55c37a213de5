//! The scene aggregate: an unordered collection of primitives queried by
//! linear scan.  The scan keeps the closest accepted hit by shrinking the
//! admissible range's upper end to the best parameter found so far, so a
//! later member can only replace the current best with a hit at most as
//! close.  The bounding box folds the members' boxes with
//! `surrounding_box`, skipping members that report none.

use vstd::prelude::*;

verus! {

use crate::bounding_box::BoundingBox;
use crate::bounding_box::surrounding_spec;
use crate::fx::Fx;
use crate::hittable::HitRecord;
use crate::hittable::Hittable;
use crate::hittable::object_bb_spec;
use crate::hittable::object_hit_spec;
use crate::hittable::object_mat_bound;
use crate::hittable::object_shape_wf;
use crate::point::p_geom;
use crate::ray::Ray;
use crate::vector3::GEOM_MAX;
use crate::vector3::v_geom;
use crate::vector3::v_unitish;

pub struct HittableVec {
    pub objects: Vec<Hittable>,
}

/// Every member is geometrically well formed.
pub open spec fn hv_shape_wf(hv: HittableVec) -> bool {
    forall|i: int| 0 <= i < hv.objects@.len() ==> object_shape_wf(#[trigger] hv.objects@[i])
}

/// Every member's material indices lie below `n`.
pub open spec fn hv_mat_bound(hv: HittableVec, n: int) -> bool {
    forall|i: int| 0 <= i < hv.objects@.len() ==> object_mat_bound(#[trigger] hv.objects@[i], n)
}

/// The closest-hit scan, in member order: the latest member is queried
/// with the range narrowed to the best hit over the earlier ones.
pub open spec fn scan_objects_spec(objs: Seq<Hittable>, r: Ray, tmin: int, tmax: int) -> Option<
    HitRecord,
>
    decreases objs.len(),
{
    if objs.len() == 0 {
        None
    } else {
        let prev = scan_objects_spec(objs.drop_last(), r, tmin, tmax);
        let cur_max = match prev {
            Some(rec) => rec.t.raw as int,
            None => tmax,
        };
        match object_hit_spec(objs.last(), r, tmin, cur_max) {
            Some(rec2) => Some(rec2),
            None => prev,
        }
    }
}

/// The fold of the members' boxes: `None` only when no member has one.
pub open spec fn scan_boxes_spec(objs: Seq<Hittable>) -> Option<BoundingBox>
    decreases objs.len(),
{
    if objs.len() == 0 {
        None
    } else {
        let prev = scan_boxes_spec(objs.drop_last());
        match object_bb_spec(objs.last()) {
            None => prev,
            Some(x) => Some(
                surrounding_spec(
                    match prev {
                        Some(p) => p,
                        None => x,
                    },
                    x,
                ),
            ),
        }
    }
}

impl HittableVec {
    pub fn new() -> (r: HittableVec)
        ensures
            r.objects@.len() == 0,
    {
        HittableVec { objects: Vec::new() }
    }

    pub fn clear(&mut self)
        ensures
            final (self).objects@.len() == 0,
    {
        self.objects.clear();
    }

    pub fn push(&mut self, object: Hittable)
        ensures
            final (self).objects@ == old(self).objects@.push(object),
    {
        self.objects.push(object);
    }

    /// The single closest hit over all members, if any.
    pub fn hit(&self, r: &Ray, t_min: Fx, t_max: Fx) -> (res: Option<HitRecord>)
        requires
            hv_shape_wf(*self),
            p_geom(r.origin),
            v_geom(r.direction),
            -(GEOM_MAX as int) <= t_min.raw <= GEOM_MAX as int,
            -(GEOM_MAX as int) <= t_max.raw <= GEOM_MAX as int,
        ensures
            res == scan_objects_spec(self.objects@, *r, t_min.raw as int, t_max.raw as int),
            res matches Some(rec) ==> p_geom(rec.point) && v_unitish(rec.normal) && t_min.raw
                <= rec.t.raw <= t_max.raw,
    {
        let mut result: Option<HitRecord> = None;
        let mut closest_so_far = t_max;
        let mut i: usize = 0;
        while i < self.objects.len()
            invariant
                hv_shape_wf(*self),
                p_geom(r.origin),
                v_geom(r.direction),
                -(GEOM_MAX as int) <= t_min.raw <= GEOM_MAX as int,
                -(GEOM_MAX as int) <= t_max.raw <= GEOM_MAX as int,
                0 <= i <= self.objects@.len(),
                result == scan_objects_spec(
                    self.objects@.take(i as int),
                    *r,
                    t_min.raw as int,
                    t_max.raw as int,
                ),
                closest_so_far.raw as int == match result {
                    Some(rec) => rec.t.raw as int,
                    None => t_max.raw as int,
                },
                result matches Some(rec) ==> p_geom(rec.point) && v_unitish(rec.normal)
                    && t_min.raw <= rec.t.raw <= t_max.raw,
            decreases self.objects@.len() - i,
        {
            let object = &self.objects[i];
            let attempt = object.hit(r, t_min, closest_so_far);
            proof {
                assert(self.objects@.take(i + 1).drop_last() =~= self.objects@.take(i as int));
                assert(self.objects@.take(i + 1).last() == self.objects@[i as int]);
            }
            match attempt {
                Some(x) => {
                    closest_so_far = x.t;
                    result = Some(x);
                },
                None => {},
            }
            i = i + 1;
        }
        proof {
            assert(self.objects@.take(self.objects@.len() as int) =~= self.objects@);
        }
        result
    }

    /// The box enclosing every member that has one; `None` when none has.
    pub fn bounding_box(&self) -> (res: Option<BoundingBox>)
        requires
            hv_shape_wf(*self),
        ensures
            res == scan_boxes_spec(self.objects@),
    {
        let mut result: Option<BoundingBox> = None;
        let mut i: usize = 0;
        while i < self.objects.len()
            invariant
                hv_shape_wf(*self),
                0 <= i <= self.objects@.len(),
                result == scan_boxes_spec(self.objects@.take(i as int)),
            decreases self.objects@.len() - i,
        {
            let object = &self.objects[i];
            let bb = object.bounding_box();
            proof {
                assert(self.objects@.take(i + 1).drop_last() =~= self.objects@.take(i as int));
                assert(self.objects@.take(i + 1).last() == self.objects@[i as int]);
            }
            match bb {
                Some(x) => {
                    let base = match &result {
                        Some(p) => BoundingBox::surrounding_box(p, &x),
                        None => BoundingBox::surrounding_box(&x, &x),
                    };
                    result = Some(base);
                },
                None => {},
            }
            i = i + 1;
        }
        proof {
            assert(self.objects@.take(self.objects@.len() as int) =~= self.objects@);
        }
        result
    }
}

/// A record reported by any member carries a material index below any
/// bound that all the members respect.
pub proof fn lemma_object_hit_material(obj: Hittable, r: Ray, tmin: int, tmax: int, n: int)
    requires
        object_mat_bound(obj, n),
        object_hit_spec(obj, r, tmin, tmax) is Some,
    ensures
        object_hit_spec(obj, r, tmin, tmax)->Some_0.material < n,
    decreases obj,
{
    match obj {
        Hittable::Sphere(s) => {},
        Hittable::Rect(rc) => {},
        Hittable::Cube(c) => {
            lemma_scan_rects_material(c.sides@, r, tmin, tmax, n);
        },
        Hittable::Rotated(b) => {
            let rr = crate::rotated::rotated_ray_spec(b.sin_theta.raw as int, b.cos_theta.raw as int, r);
            if p_geom(rr.origin) && v_geom(rr.direction) {
                if object_hit_spec(b.obj, rr, tmin, tmax) is Some {
                    lemma_object_hit_material(b.obj, rr, tmin, tmax, n);
                }
            }
        },
    }
}

/// The same bound through the closest-hit scan over rectangles.
proof fn lemma_scan_rects_material(sides: Seq<crate::rect::Rect>, r: Ray, tmin: int, tmax: int, n: int)
    requires
        forall|i: int| 0 <= i < sides.len() ==> #[trigger] sides[i].material < n,
        crate::cube::scan_rects_spec(sides, r, tmin, tmax) is Some,
    ensures
        crate::cube::scan_rects_spec(sides, r, tmin, tmax)->Some_0.material < n,
    decreases sides.len(),
{
    if sides.len() == 0 {
    } else {
        let prev = crate::cube::scan_rects_spec(sides.drop_last(), r, tmin, tmax);
        if prev is Some {
            lemma_scan_rects_material(sides.drop_last(), r, tmin, tmax, n);
        }
        assert(sides.last() == sides[sides.len() - 1]);
    }
}

/// The same bound through the closest-hit scan over the scene.
pub proof fn lemma_scan_objects_material(objs: Seq<Hittable>, r: Ray, tmin: int, tmax: int, n: int)
    requires
        forall|i: int| 0 <= i < objs.len() ==> object_mat_bound(#[trigger] objs[i], n),
        scan_objects_spec(objs, r, tmin, tmax) is Some,
    ensures
        scan_objects_spec(objs, r, tmin, tmax)->Some_0.material < n,
    decreases objs.len(),
{
    if objs.len() == 0 {
    } else {
        let prev = scan_objects_spec(objs.drop_last(), r, tmin, tmax);
        if prev is Some {
            lemma_scan_objects_material(objs.drop_last(), r, tmin, tmax, n);
        }
        let cur_max = match prev {
            Some(rec) => rec.t.raw as int,
            None => tmax,
        };
        assert(objs.last() == objs[objs.len() - 1]);
        if object_hit_spec(objs.last(), r, tmin, cur_max) is Some {
            lemma_object_hit_material(objs.last(), r, tmin, cur_max, n);
        }
    }
}


/// Over a scene of spheres, the scan returns exactly the member hit that
/// the ray strikes first: when it reports a record, some member reports
/// that record over the full range and no member reports a closer one,
/// and when it reports nothing, no member hits at all.
pub proof fn lemma_scene_hit_closest(objs: Seq<Hittable>, r: Ray, tmin: int, tmax: int)
    requires
        forall|i: int| 0 <= i < objs.len() ==> (#[trigger] objs[i]) is Sphere,
        -(GEOM_MAX as int) <= tmin,
        tmax <= GEOM_MAX as int,
    ensures
        scan_objects_spec(objs, r, tmin, tmax) is None ==> forall|i: int|
            0 <= i < objs.len() ==> object_hit_spec(#[trigger] objs[i], r, tmin, tmax) is None,
        scan_objects_spec(objs, r, tmin, tmax) matches Some(rec) ==> {
            &&& tmin <= rec.t.raw <= tmax
            &&& exists|i: int|
                0 <= i < objs.len() && object_hit_spec(#[trigger] objs[i], r, tmin, tmax) == Some(
                    rec,
                )
            &&& forall|i: int|
                0 <= i < objs.len() ==> match object_hit_spec(#[trigger] objs[i], r, tmin, tmax) {
                    Some(o) => o.t.raw >= rec.t.raw,
                    None => true,
                }
        },
    decreases objs.len(),
{
    if objs.len() == 0 {
    } else {
        let shorter = objs.drop_last();
        let l = objs.last();
        let ls = l->Sphere_0;
        lemma_scene_hit_closest(shorter, r, tmin, tmax);
        assert(forall|i: int| 0 <= i < shorter.len() ==> shorter[i] == #[trigger] objs[i]);
        let prev = scan_objects_spec(shorter, r, tmin, tmax);
        match prev {
            Some(p) => {
                let q = object_hit_spec(l, r, tmin, p.t.raw as int);
                match q {
                    Some(rec2) => {
                        crate::sphere::lemma_sphere_hit_t_range(ls, r, tmin, p.t.raw as int);
                        crate::sphere::lemma_sphere_hit_widen(ls, r, tmin, p.t.raw as int, tmax);
                        assert(object_hit_spec(objs[objs.len() - 1], r, tmin, tmax) == Some(rec2));
                    },
                    None => {
                        // any full-range hit of the last member sits at or
                        // beyond the best so far, else narrowing keeps it
                        if object_hit_spec(l, r, tmin, tmax) is Some {
                            let o = object_hit_spec(l, r, tmin, tmax)->Some_0;
                            crate::sphere::lemma_sphere_hit_t_range(ls, r, tmin, tmax);
                            if o.t.raw < p.t.raw {
                                crate::sphere::lemma_sphere_hit_narrow(
                                    ls,
                                    r,
                                    tmin,
                                    p.t.raw as int,
                                    tmax,
                                );
                                assert(false);
                            }
                        }
                        assert(exists|i: int|
                            0 <= i < shorter.len() && object_hit_spec(
                                #[trigger] shorter[i],
                                r,
                                tmin,
                                tmax,
                            ) == Some(p));
                        let wit = choose|i: int|
                            0 <= i < shorter.len() && object_hit_spec(
                                #[trigger] shorter[i],
                                r,
                                tmin,
                                tmax,
                            ) == Some(p);
                        assert(object_hit_spec(objs[wit], r, tmin, tmax) == Some(p));
                    },
                }
            },
            None => {
                let q = object_hit_spec(l, r, tmin, tmax);
                match q {
                    Some(rec2) => {
                        crate::sphere::lemma_sphere_hit_t_range(ls, r, tmin, tmax);
                        assert(object_hit_spec(objs[objs.len() - 1], r, tmin, tmax) == Some(rec2));
                    },
                    None => {},
                }
            },
        }
    }
}

} // verus!
