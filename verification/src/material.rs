//! The material model: a closed set of scattering behaviours.
//!
//! Each scatter consumes an incoming ray and a hit record and produces a
//! `ScatterResult`; `success == false` means the ray was absorbed and
//! contributes no further light.  Scattering that draws randomness takes
//! the generator explicitly, and every variant's contract states the exact
//! result and the exact generator state afterwards.

use vstd::prelude::*;

verus! {

use crate::color::Color;
use crate::color::color_unit;
use crate::dielectric::Dielectric;
use crate::dielectric::dielectric_scatter_spec;
use crate::dielectric::dielectric_wf;
use crate::hittable::HitRecord;
use crate::lambertian::Lambertian;
use crate::lambertian::lambertian_scatter_spec;
use crate::lambertian::lambertian_wf;
use crate::metal::Metal;
use crate::metal::metal_scatter_spec;
use crate::metal::metal_wf;
use crate::point::p_geom;
use crate::ray::Ray;
use crate::utility::Rng;
use crate::vector3::v_geom;
use crate::vector3::v_unitish;

#[derive(Clone, Copy, PartialEq, Eq, Structural, Debug)]
pub struct ScatterResult {
    pub success: bool,
    pub attenuation: Color,
    pub scattered: Ray,
}

impl ScatterResult {
    pub fn new(success: bool, attenuation: Color, scattered: Ray) -> (r: ScatterResult)
        ensures
            r.success == success,
            r.attenuation == attenuation,
            r.scattered == scattered,
    {
        ScatterResult { success, attenuation, scattered }
    }
}

/// The closed set of materials.
#[derive(Clone, Copy, PartialEq, Eq, Structural, Debug)]
pub enum Material {
    Lambertian(Lambertian),
    Metal(Metal),
    Dielectric(Dielectric),
}

pub open spec fn material_wf(m: Material) -> bool {
    match m {
        Material::Lambertian(l) => lambertian_wf(l),
        Material::Metal(mm) => metal_wf(mm),
        Material::Dielectric(d) => dielectric_wf(d),
    }
}

/// The scatter result and the generator state after it, by variant.
pub open spec fn scatter_spec(m: Material, r_in: Ray, rec: HitRecord, s: u64) -> (
    ScatterResult,
    u64,
) {
    match m {
        Material::Lambertian(l) => lambertian_scatter_spec(l, rec, s),
        Material::Metal(mm) => metal_scatter_spec(mm, r_in, rec, s),
        Material::Dielectric(d) => dielectric_scatter_spec(d, r_in, rec, s),
    }
}

impl Material {
    /// Scatter the incoming ray at the recorded hit point.
    pub fn scatter(&self, r_in: &Ray, rec: &HitRecord, rng: &mut Rng) -> (res: ScatterResult)
        requires
            material_wf(*self),
            p_geom(rec.point),
            v_unitish(rec.normal),
            p_geom(r_in.origin),
            v_geom(r_in.direction),
        ensures
            res == scatter_spec(*self, *r_in, *rec, old(rng).state).0,
            final (rng).state == scatter_spec(*self, *r_in, *rec, old(rng).state).1,
            res.scattered.origin == rec.point,
            v_geom(res.scattered.direction),
            color_unit(res.attenuation),
    {
        match self {
            Material::Lambertian(l) => l.scatter(r_in, rec, rng),
            Material::Metal(m) => m.scatter(r_in, rec, rng),
            Material::Dielectric(d) => d.scatter(r_in, rec, rng),
        }
    }
}

} // verus!
