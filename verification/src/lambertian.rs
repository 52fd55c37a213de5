//! Diffuse scattering: the new direction is the surface normal plus a
//! random unit vector, falling back to the bare normal when the sum
//! cancels to zero.  Always succeeds; the attenuation is the albedo.

use vstd::prelude::*;

verus! {

use crate::color::Color;
use crate::color::color_unit;
use crate::fx::Fx;
use crate::hittable::HitRecord;
use crate::material::ScatterResult;
use crate::point::p_geom;
use crate::ray::Ray;
use crate::utility::Rng;
use crate::vector3::Vector3;
use crate::vector3::random_unit_vector_spec;
use crate::vector3::sample_attempts;
use crate::vector3::sample_sphere_spec;
use crate::vector3::v_geom;
use crate::vector3::v_unitish;

#[derive(Clone, Copy, PartialEq, Eq, Structural, Debug)]
pub struct Lambertian {
    pub albedo: Color,
}

pub open spec fn lambertian_wf(l: Lambertian) -> bool {
    color_unit(l.albedo)
}

/// Diffuse scatter: normal plus random unit vector, bare normal when the
/// sum cancels; always a success with the albedo as attenuation.
pub open spec fn lambertian_scatter_spec(l: Lambertian, rec: HitRecord, s: u64) -> (
    ScatterResult,
    u64,
) {
    let u = random_unit_vector_spec(s);
    let s2 = sample_sphere_spec(s, sample_attempts()).1;
    let d0 = Vector3 {
        x: Fx { raw: (rec.normal.x.raw + u.x.raw) as i64 },
        y: Fx { raw: (rec.normal.y.raw + u.y.raw) as i64 },
        z: Fx { raw: (rec.normal.z.raw + u.z.raw) as i64 },
    };
    let dir = if d0.x.raw == 0 && d0.y.raw == 0 && d0.z.raw == 0 {
        rec.normal
    } else {
        d0
    };
    (
        ScatterResult {
            success: true,
            attenuation: l.albedo,
            scattered: Ray { origin: rec.point, direction: dir },
        },
        s2,
    )
}

impl Lambertian {
    pub fn new(albedo: Color) -> (r: Lambertian)
        ensures
            r.albedo == albedo,
    {
        Lambertian { albedo }
    }

    /// Diffuse scatter; the incoming ray plays no part.
    pub fn scatter(&self, _r_in: &Ray, rec: &HitRecord, rng: &mut Rng) -> (res: ScatterResult)
        requires
            lambertian_wf(*self),
            p_geom(rec.point),
            v_unitish(rec.normal),
        ensures
            res == lambertian_scatter_spec(*self, *rec, old(rng).state).0,
            final (rng).state == lambertian_scatter_spec(*self, *rec, old(rng).state).1,
            res.scattered.origin == rec.point,
            v_geom(res.scattered.direction),
            color_unit(res.attenuation),
            res.success,
    {
        let u = Vector3::random_unit_vector(rng);
        let mut scatter_direction = rec.normal.add(u);
        if scatter_direction.near_zero() {
            scatter_direction = rec.normal;
        }
        let scattered = Ray::new(rec.point, scatter_direction);
        ScatterResult { success: true, attenuation: self.albedo, scattered }
    }
}

} // verus!
