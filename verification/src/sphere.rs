//! Spheres and their ray intersection.
//!
//! The quadratic is solved exactly over wide integers at squared scale:
//! with `a = |d|^2`, `half_b = (o - c) . d` and `c = |o - c|^2 - r^2`,
//! a hit exists when the discriminant `half_b^2 - a c` is non-negative;
//! the smaller root is preferred, and the larger one tried if the smaller
//! falls outside the admissible range.  A hit whose computed point or
//! normal would leave the working range is reported as a miss, the
//! fixed-point analogue of a non-finite value failing every later range
//! check.

use vstd::prelude::*;

verus! {

use crate::bounding_box::BoundingBox;
use crate::fx::Fx;
use crate::fx::SCALE;
use crate::fx::fdiv;
use crate::fx::fx_div;
use crate::fx::fx_mul;
use crate::fx::sqrt_floor;
use crate::hittable::HitRecord;
use crate::hittable::face_normal_spec;
use crate::point::Point;
use crate::point::p_geom;
use crate::ray::Ray;
use crate::ray::ray_at_spec;
use crate::vector3::GEOM_MAX;
use crate::vector3::Vector3;
use crate::vector3::fx_geom;
use crate::vector3::fx_unitish;
use crate::vector3::v_geom;
use crate::vector3::v_unitish;
use crate::vector3::lemma_fx_mul_tight;
use crate::vector3::lemma_fx_div_bound;
use crate::fx::lemma_mul_bound;
use crate::fx::lemma_sqrt_floor_unique;

#[derive(Clone, Copy, PartialEq, Eq, Structural, Debug)]
pub struct Sphere {
    pub center: Point,
    pub radius: Fx,
    pub material: usize,
}

pub open spec fn sphere_wf(s: Sphere) -> bool {
    p_geom(s.center) && s.radius.raw != 0 && fx_geom(s.radius.raw as int)
}

/// `|direction|^2`, exactly, at squared scale.
pub open spec fn sph_a(s: Sphere, r: Ray) -> int {
    let dx = r.direction.x.raw as int;
    let dy = r.direction.y.raw as int;
    let dz = r.direction.z.raw as int;
    dx * dx + dy * dy + dz * dz
}

/// `(origin - center) . direction`, exactly, at squared scale.
pub open spec fn sph_half_b(s: Sphere, r: Ray) -> int {
    let dx = r.direction.x.raw as int;
    let dy = r.direction.y.raw as int;
    let dz = r.direction.z.raw as int;
    let ocx = r.origin.x.raw - s.center.x.raw;
    let ocy = r.origin.y.raw - s.center.y.raw;
    let ocz = r.origin.z.raw - s.center.z.raw;
    ocx * dx + ocy * dy + ocz * dz
}

/// `|origin - center|^2 - radius^2`, exactly, at squared scale.
pub open spec fn sph_c(s: Sphere, r: Ray) -> int {
    let ocx = r.origin.x.raw - s.center.x.raw;
    let ocy = r.origin.y.raw - s.center.y.raw;
    let ocz = r.origin.z.raw - s.center.z.raw;
    let rad = s.radius.raw as int;
    ocx * ocx + ocy * ocy + ocz * ocz - rad * rad
}

/// The discriminant `half_b^2 - a c`, exactly.
pub open spec fn sph_disc(s: Sphere, r: Ray) -> int {
    sph_half_b(s, r) * sph_half_b(s, r) - sph_a(s, r) * sph_c(s, r)
}

/// The record for a given accepted root, or `None` when the computed
/// point or normal leaves the working range.
pub open spec fn sphere_rec_spec(s: Sphere, r: Ray, root: int) -> Option<HitRecord> {
    let px = ray_at_spec(r.origin.x.raw as int, r.direction.x.raw as int, root);
    let py = ray_at_spec(r.origin.y.raw as int, r.direction.y.raw as int, root);
    let pz = ray_at_spec(r.origin.z.raw as int, r.direction.z.raw as int, root);
    let nx = fx_div(px - s.center.x.raw, s.radius.raw as int);
    let ny = fx_div(py - s.center.y.raw, s.radius.raw as int);
    let nz = fx_div(pz - s.center.z.raw, s.radius.raw as int);
    if fx_geom(px) && fx_geom(py) && fx_geom(pz) && fx_unitish(nx) && fx_unitish(ny) && fx_unitish(
        nz,
    ) {
        let pt = Point { x: Fx { raw: px as i64 }, y: Fx { raw: py as i64 }, z: Fx { raw: pz as i64 } };
        let outward = Vector3 {
            x: Fx { raw: nx as i64 },
            y: Fx { raw: ny as i64 },
            z: Fx { raw: nz as i64 },
        };
        let oriented = face_normal_spec(r, outward);
        Some(
            HitRecord {
                point: pt,
                normal: oriented.0,
                t: Fx { raw: root as i64 },
                u: Fx { raw: 0 },
                v: Fx { raw: 0 },
                front_face: oriented.1,
                material: s.material,
            },
        )
    } else {
        None
    }
}

/// The full intersection: no real root, or no root in range, is a miss;
/// otherwise the smaller admissible root is taken.
pub open spec fn sphere_hit_spec(s: Sphere, r: Ray, tmin: int, tmax: int) -> Option<HitRecord> {
    let a = sph_a(s, r);
    if a <= 0 {
        None
    } else {
        let disc = sph_disc(s, r);
        if disc < 0 {
            None
        } else {
            let sq = sqrt_floor(disc);
            let hb = sph_half_b(s, r);
            let r1 = fdiv((-hb - sq) * (SCALE as int), a);
            let r2 = fdiv((-hb + sq) * (SCALE as int), a);
            if tmin <= r1 && r1 <= tmax {
                sphere_rec_spec(s, r, r1)
            } else if tmin <= r2 && r2 <= tmax {
                sphere_rec_spec(s, r, r2)
            } else {
                None
            }
        }
    }
}

impl Sphere {
    pub fn new(center: Point, radius: Fx, material: usize) -> (s: Sphere)
        ensures
            s.center == center,
            s.radius == radius,
            s.material == material,
    {
        Sphere { center, radius, material }
    }

    pub fn center(&self) -> (r: &Point)
        ensures
            *r == self.center,
    {
        &self.center
    }

    pub fn radius(&self) -> (r: Fx)
        ensures
            r == self.radius,
    {
        self.radius
    }

    /// Closest intersection of the ray with this sphere inside
    /// `[t_min, t_max]`, if any.
    pub fn hit(&self, r: &Ray, t_min: Fx, t_max: Fx) -> (res: Option<HitRecord>)
        requires
            sphere_wf(*self),
            p_geom(r.origin),
            v_geom(r.direction),
            -(GEOM_MAX as int) <= t_min.raw <= GEOM_MAX as int,
            -(GEOM_MAX as int) <= t_max.raw <= GEOM_MAX as int,
        ensures
            res == sphere_hit_spec(*self, *r, t_min.raw as int, t_max.raw as int),
            res matches Some(rec) ==> p_geom(rec.point) && v_unitish(rec.normal) && rec.material
                == self.material && t_min.raw <= rec.t.raw <= t_max.raw,
    {
        let ox = r.origin.x.raw as i128;
        let oy = r.origin.y.raw as i128;
        let oz = r.origin.z.raw as i128;
        let dx = r.direction.x.raw as i128;
        let dy = r.direction.y.raw as i128;
        let dz = r.direction.z.raw as i128;
        let cx = self.center.x.raw as i128;
        let cy = self.center.y.raw as i128;
        let cz = self.center.z.raw as i128;
        let rad = self.radius.raw as i128;
        let ocx = ox - cx;
        let ocy = oy - cy;
        let ocz = oz - cz;
        proof {
            lemma_mul_bound(dx as int, dx as int, 0x4000_0000, 0x4000_0000);
            lemma_mul_bound(dy as int, dy as int, 0x4000_0000, 0x4000_0000);
            lemma_mul_bound(dz as int, dz as int, 0x4000_0000, 0x4000_0000);
        }
        let a = dx * dx + dy * dy + dz * dz;
        if a <= 0 {
            return None;
        }
        proof {
            lemma_mul_bound(ocx as int, dx as int, 0x8000_0000, 0x4000_0000);
            lemma_mul_bound(ocy as int, dy as int, 0x8000_0000, 0x4000_0000);
            lemma_mul_bound(ocz as int, dz as int, 0x8000_0000, 0x4000_0000);
            lemma_mul_bound(ocx as int, ocx as int, 0x8000_0000, 0x8000_0000);
            lemma_mul_bound(ocy as int, ocy as int, 0x8000_0000, 0x8000_0000);
            lemma_mul_bound(ocz as int, ocz as int, 0x8000_0000, 0x8000_0000);
            lemma_mul_bound(rad as int, rad as int, 0x4000_0000, 0x4000_0000);
        }
        let half_b = ocx * dx + ocy * dy + ocz * dz;
        let c = ocx * ocx + ocy * ocy + ocz * ocz - rad * rad;
        proof {
            lemma_mul_bound(
                half_b as int,
                half_b as int,
                0x6000_0000_0000_0000,
                0x6000_0000_0000_0000,
            );
            lemma_mul_bound(a as int, c as int, 0x3000_0000_0000_0000, 0xD000_0000_0000_0000);
        }
        let disc = half_b * half_b - a * c;
        if disc < 0 {
            return None;
        }
        let sq_u = crate::fx::isqrt_u128(disc as u128);
        proof {
            lemma_sqrt_floor_unique(disc as int, sq_u as int);
        }
        let sq = sq_u as i128;
        let s128 = SCALE as i128;
        proof {
            lemma_mul_bound((-half_b - sq) as int, s128 as int, 0x2_0000_0000_0000_0000, 10000);
            lemma_mul_bound((-half_b + sq) as int, s128 as int, 0x2_0000_0000_0000_0000, 10000);
        }
        let root1 = crate::fx::flrdiv128((-half_b - sq) * s128, a);
        let root2 = crate::fx::flrdiv128((-half_b + sq) * s128, a);
        let tmin128 = t_min.raw as i128;
        let tmax128 = t_max.raw as i128;
        let root: i128 = if tmin128 <= root1 && root1 <= tmax128 {
            root1
        } else if tmin128 <= root2 && root2 <= tmax128 {
            root2
        } else {
            return None;
        };
        let t = Fx::from_raw(root as i64);
        proof {
            lemma_fx_mul_tight(r.direction.x.raw as int, t.raw as int, 0x4000_0000, 0x4000_0000);
            lemma_fx_mul_tight(r.direction.y.raw as int, t.raw as int, 0x4000_0000, 0x4000_0000);
            lemma_fx_mul_tight(r.direction.z.raw as int, t.raw as int, 0x4000_0000, 0x4000_0000);
        }
        let p = r.at(t);
        let pc = p.sub(self.center);
        proof {
            lemma_fx_div_bound(pc.x.raw as int, self.radius.raw as int, 0x1_0000_0000_0000);
            lemma_fx_div_bound(pc.y.raw as int, self.radius.raw as int, 0x1_0000_0000_0000);
            lemma_fx_div_bound(pc.z.raw as int, self.radius.raw as int, 0x1_0000_0000_0000);
        }
        let outward = pc.div(self.radius);
        if !(p.is_geom() && outward.is_unitish()) {
            return None;
        }
        let oriented = HitRecord::set_face_normal(r, &outward);
        Some(HitRecord::new(p, oriented.0, t, oriented.1, self.material))
    }

    /// The tight axis-aligned box around this sphere.
    pub fn bounding_box(&self) -> (res: Option<BoundingBox>)
        requires
            sphere_wf(*self),
        ensures
            res matches Some(bb) && bb.minimum.x.raw == self.center.x.raw - self.radius.raw
                && bb.minimum.y.raw == self.center.y.raw - self.radius.raw && bb.minimum.z.raw
                == self.center.z.raw - self.radius.raw && bb.maximum.x.raw == self.center.x.raw
                + self.radius.raw && bb.maximum.y.raw == self.center.y.raw + self.radius.raw
                && bb.maximum.z.raw == self.center.z.raw + self.radius.raw,
    {
        let rv = Vector3::new(self.radius, self.radius, self.radius);
        Some(BoundingBox::new(self.center.sub_vector(rv), self.center.add(rv)))
    }
}


/// The normal of a sphere record always faces against the incoming ray:
/// strictly when the geometric outward normal already did, and weakly
/// after the flip, where flooring can only push the dot further down.
pub proof fn lemma_sphere_hit_faces_ray(s: Sphere, r: Ray, tmin: int, tmax: int)
    requires
        sphere_hit_spec(s, r, tmin, tmax) is Some,
    ensures
        ({
            let rec = sphere_hit_spec(s, r, tmin, tmax)->Some_0;
            &&& (rec.front_face ==> crate::vector3::dot_spec(r.direction, rec.normal) < 0)
            &&& crate::vector3::dot_spec(r.direction, rec.normal) <= 0
        }),
{
    let disc = sph_disc(s, r);
    let sq = sqrt_floor(disc);
    let hb = sph_half_b(s, r);
    let a = sph_a(s, r);
    let r1 = fdiv((-hb - sq) * (SCALE as int), a);
    let r2 = fdiv((-hb + sq) * (SCALE as int), a);
    if tmin <= r1 && r1 <= tmax {
        lemma_sphere_rec_faces_ray(s, r, r1);
    } else {
        lemma_sphere_rec_faces_ray(s, r, r2);
    }
}

/// The facing property for the record built at one root.
proof fn lemma_sphere_rec_faces_ray(s: Sphere, r: Ray, root: int)
    requires
        sphere_rec_spec(s, r, root) is Some,
    ensures
        ({
            let rec = sphere_rec_spec(s, r, root)->Some_0;
            &&& (rec.front_face ==> crate::vector3::dot_spec(r.direction, rec.normal) < 0)
            &&& crate::vector3::dot_spec(r.direction, rec.normal) <= 0
        }),
{
    let px = crate::ray::ray_at_spec(r.origin.x.raw as int, r.direction.x.raw as int, root);
    let py = crate::ray::ray_at_spec(r.origin.y.raw as int, r.direction.y.raw as int, root);
    let pz = crate::ray::ray_at_spec(r.origin.z.raw as int, r.direction.z.raw as int, root);
    let nx = fx_div(px - s.center.x.raw, s.radius.raw as int);
    let ny = fx_div(py - s.center.y.raw, s.radius.raw as int);
    let nz = fx_div(pz - s.center.z.raw, s.radius.raw as int);
    let outward = Vector3 {
        x: Fx { raw: nx as i64 },
        y: Fx { raw: ny as i64 },
        z: Fx { raw: nz as i64 },
    };
    if !(crate::vector3::dot_spec(r.direction, outward) < 0) {
        crate::vector3::lemma_dot_flip(r.direction, outward);
    }
}

/// The two roots of the quadratic come out in order: the preferred root
/// is never beyond the other.
pub proof fn lemma_sphere_roots_ordered(s: Sphere, r: Ray)
    requires
        sph_a(s, r) > 0,
        sph_disc(s, r) >= 0,
    ensures
        fdiv((-sph_half_b(s, r) - sqrt_floor(sph_disc(s, r))) * (SCALE as int), sph_a(s, r)) <= fdiv(
            (-sph_half_b(s, r) + sqrt_floor(sph_disc(s, r))) * (SCALE as int),
            sph_a(s, r),
        ),
{
    let hb = sph_half_b(s, r);
    let sq = sqrt_floor(sph_disc(s, r));
    crate::fx::lemma_sqrt_floor_props(sph_disc(s, r));
    assert((-hb - sq) * (SCALE as int) <= (-hb + sq) * (SCALE as int)) by (nonlinear_arith)
        requires
            sq >= 0,
    ;
    crate::fx::lemma_fdiv_mono((-hb - sq) * (SCALE as int), (-hb + sq) * (SCALE as int), sph_a(s, r));
}

/// A hit found inside a narrower range is still the hit of any wider
/// range: widening the upper end cannot change which root is taken.
pub proof fn lemma_sphere_hit_widen(s: Sphere, r: Ray, tmin: int, t1: int, t2: int)
    requires
        t1 <= t2,
        sphere_hit_spec(s, r, tmin, t1) is Some,
    ensures
        sphere_hit_spec(s, r, tmin, t2) == sphere_hit_spec(s, r, tmin, t1),
{
    lemma_sphere_roots_ordered(s, r);
}

/// A hit of a wider range that already lies inside a narrower range is
/// the narrower range's hit too.
pub proof fn lemma_sphere_hit_narrow(s: Sphere, r: Ray, tmin: int, t1: int, t2: int)
    requires
        t1 <= t2,
        -(GEOM_MAX as int) <= tmin,
        t2 <= GEOM_MAX as int,
        sphere_hit_spec(s, r, tmin, t2) is Some,
        (sphere_hit_spec(s, r, tmin, t2)->Some_0).t.raw <= t1,
    ensures
        sphere_hit_spec(s, r, tmin, t1) == sphere_hit_spec(s, r, tmin, t2),
{
    lemma_sphere_roots_ordered(s, r);
}

/// The reported parameter lies inside the queried range.
pub proof fn lemma_sphere_hit_t_range(s: Sphere, r: Ray, tmin: int, tmax: int)
    requires
        -(GEOM_MAX as int) <= tmin,
        tmax <= GEOM_MAX as int,
        sphere_hit_spec(s, r, tmin, tmax) is Some,
    ensures
        tmin <= (sphere_hit_spec(s, r, tmin, tmax)->Some_0).t.raw <= tmax,
{
}


/// Whether a sphere of the given center and radius stays clear of `s` in
/// the ground plane: the squared x-z distance between the centers exceeds
/// the squared sum of the radii.
pub open spec fn clear_of_sphere(center: Point, radius: Fx, s: Sphere) -> bool {
    let dx = center.x.raw - s.center.x.raw;
    let dz = center.z.raw - s.center.z.raw;
    let rs = radius.raw + s.radius.raw;
    fx_mul(dx, dx) + fx_mul(dz, dz) > fx_mul(rs, rs)
}

/// False exactly when the sphere described by `center` and `radius`
/// meets one of the given spheres in the ground plane.
pub fn not_intersecting_with_big_spheres(center: &Point, radius: Fx, spheres: &Vec<Sphere>) -> (r:
    bool)
    requires
        p_geom(*center),
        fx_geom(radius.raw as int),
        forall|i: int| 0 <= i < spheres@.len() ==> sphere_wf(#[trigger] spheres@[i]),
    ensures
        r == forall|i: int|
            0 <= i < spheres@.len() ==> clear_of_sphere(*center, radius, #[trigger] spheres@[i]),
{
    let mut result = true;
    let mut i: usize = 0;
    while i < spheres.len()
        invariant
            p_geom(*center),
            fx_geom(radius.raw as int),
            forall|k: int| 0 <= k < spheres@.len() ==> sphere_wf(#[trigger] spheres@[k]),
            0 <= i <= spheres@.len(),
            result == forall|k: int|
                0 <= k < i ==> clear_of_sphere(*center, radius, #[trigger] spheres@[k]),
        decreases spheres@.len() - i,
    {
        let sphere = &spheres[i];
        proof {
            lemma_mul_bound(
                center.x.raw - sphere.center.x.raw,
                center.x.raw - sphere.center.x.raw,
                0x8000_0000,
                0x8000_0000,
            );
            lemma_mul_bound(
                center.z.raw - sphere.center.z.raw,
                center.z.raw - sphere.center.z.raw,
                0x8000_0000,
                0x8000_0000,
            );
            lemma_mul_bound(
                radius.raw + sphere.radius.raw,
                radius.raw + sphere.radius.raw,
                0x8000_0000,
                0x8000_0000,
            );
            crate::fx::lemma_fdiv_bound(
                (center.x.raw - sphere.center.x.raw) * (center.x.raw - sphere.center.x.raw),
                SCALE as int,
                0x4000_0000_0000_0000,
            );
            crate::fx::lemma_fdiv_bound(
                (center.z.raw - sphere.center.z.raw) * (center.z.raw - sphere.center.z.raw),
                SCALE as int,
                0x4000_0000_0000_0000,
            );
            crate::fx::lemma_fdiv_bound(
                (radius.raw + sphere.radius.raw) * (radius.raw + sphere.radius.raw),
                SCALE as int,
                0x4000_0000_0000_0000,
            );
        }
        let dx = center.x.sub(sphere.center.x);
        let dz = center.z.sub(sphere.center.z);
        let dist_sq = dx.mul(dx).add(dz.mul(dz));
        let rad_sum = radius.add(sphere.radius);
        let rad_sum_sq = rad_sum.mul(rad_sum);
        result = result && dist_sq.raw > rad_sum_sq.raw;
        i = i + 1;
    }
    result
}

} // verus!
