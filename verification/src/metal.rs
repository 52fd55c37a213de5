//! Reflective scattering: mirror the incoming unit direction about the
//! normal, then blur it by `fuzz` times a random point in the unit ball.
//! The scatter succeeds only when the blurred direction still leaves the
//! surface; a direction too short to normalise is absorbed.

use vstd::prelude::*;

verus! {

use crate::color::Color;
use crate::color::color_unit;
use crate::fx::Fx;
use crate::fx::SCALE;
use crate::fx::fx_mul;
use crate::hittable::HitRecord;
use crate::material::ScatterResult;
use crate::point::p_geom;
use crate::ray::Ray;
use crate::utility::Rng;
use crate::vector3::Vector3;
use crate::vector3::dot_spec;
use crate::vector3::length_squared_spec;
use crate::vector3::lemma_fx_mul_tight;
use crate::vector3::lemma_unit_vector_unitish;
use crate::vector3::reflect_spec;
use crate::vector3::sample_attempts;
use crate::vector3::sample_sphere_spec;
use crate::vector3::unit_spec;
use crate::vector3::v_geom;
use crate::vector3::v_unitish;

#[derive(Clone, Copy, PartialEq, Eq, Structural, Debug)]
pub struct Metal {
    pub albedo: Color,
    pub fuzz: Fx,
}

pub open spec fn metal_wf(m: Metal) -> bool {
    color_unit(m.albedo) && 0 <= m.fuzz.raw <= SCALE
}

/// Reflective scatter: reflect the normalised incoming direction, perturb
/// by `fuzz` times a ball sample, succeed only when the result points away
/// from the surface.  An incoming direction shorter than one raw step
/// cannot be normalised and is absorbed.
pub open spec fn metal_scatter_spec(m: Metal, r_in: Ray, rec: HitRecord, s: u64) -> (
    ScatterResult,
    u64,
) {
    if length_squared_spec(r_in.direction) < 1 {
        (
            ScatterResult {
                success: false,
                attenuation: m.albedo,
                scattered: Ray { origin: rec.point, direction: rec.normal },
            },
            s,
        )
    } else {
        let ud = unit_spec(r_in.direction);
        let refl = reflect_spec(ud, rec.normal);
        let pair = sample_sphere_spec(s, sample_attempts());
        let dir = Vector3 {
            x: Fx { raw: (refl.x.raw + fx_mul(pair.0.x.raw as int, m.fuzz.raw as int)) as i64 },
            y: Fx { raw: (refl.y.raw + fx_mul(pair.0.y.raw as int, m.fuzz.raw as int)) as i64 },
            z: Fx { raw: (refl.z.raw + fx_mul(pair.0.z.raw as int, m.fuzz.raw as int)) as i64 },
        };
        (
            ScatterResult {
                success: dot_spec(dir, rec.normal) >= 0,
                attenuation: m.albedo,
                scattered: Ray { origin: rec.point, direction: dir },
            },
            pair.1,
        )
    }
}

impl Metal {
    pub fn new(albedo: Color, fuzz: Fx) -> (r: Metal)
        ensures
            r.albedo == albedo,
            r.fuzz == fuzz,
    {
        Metal { albedo, fuzz }
    }

    /// Reflective scatter.
    pub fn scatter(&self, r_in: &Ray, rec: &HitRecord, rng: &mut Rng) -> (res: ScatterResult)
        requires
            metal_wf(*self),
            p_geom(rec.point),
            v_unitish(rec.normal),
            p_geom(r_in.origin),
            v_geom(r_in.direction),
        ensures
            res == metal_scatter_spec(*self, *r_in, *rec, old(rng).state).0,
            final (rng).state == metal_scatter_spec(*self, *r_in, *rec, old(rng).state).1,
            res.scattered.origin == rec.point,
            v_geom(res.scattered.direction),
            color_unit(res.attenuation),
    {
        let lsq = r_in.direction.length_squared();
        if lsq.raw < 1 {
            return ScatterResult {
                success: false,
                attenuation: self.albedo,
                scattered: Ray::new(rec.point, rec.normal),
            };
        }
        proof {
            lemma_unit_vector_unitish(r_in.direction);
        }
        let ud = Vector3::unit_vector(&r_in.direction);
        let reflected = Vector3::reflect(&ud, &rec.normal);
        let sample = Vector3::random_in_unit_sphere(rng);
        proof {
            let s = SCALE as int;
            lemma_fx_mul_tight(sample.x.raw as int, self.fuzz.raw as int, 3 * s, s);
            lemma_fx_mul_tight(sample.y.raw as int, self.fuzz.raw as int, 3 * s, s);
            lemma_fx_mul_tight(sample.z.raw as int, self.fuzz.raw as int, 3 * s, s);
            crate::fx::lemma_fdiv_exact(3 * s, s);
        }
        let fuzzed = sample.mul(self.fuzz);
        let dir = reflected.add(fuzzed);
        let success = Vector3::dot(&dir, &rec.normal).raw >= 0;
        ScatterResult { success, attenuation: self.albedo, scattered: Ray::new(rec.point, dir) }
    }
}

} // verus!
