//! Refractive scattering with the Fresnel-Schlick approximation.
//!
//! The refraction ratio is the reciprocal of the index when the ray hits
//! the front face, and the index itself when it leaves the medium.  When
//! Snell's law admits no refracted ray the scatter reflects; otherwise a
//! uniform draw against Schlick's reflectance decides between reflecting
//! and refracting.  Glass absorbs nothing: the scatter always succeeds
//! and the attenuation is white.

use vstd::prelude::*;

verus! {

use crate::color::Color;
use crate::color::color_unit;
use crate::fx::Fx;
use crate::fx::SCALE;
use crate::fx::fdiv;
use crate::fx::fx_div;
use crate::fx::fx_mul;
use crate::fx::fx_sqrt;
use crate::hittable::HitRecord;
use crate::material::ScatterResult;
use crate::point::p_geom;
use crate::ray::Ray;
use crate::utility::Rng;
use crate::utility::lcg_next_spec;
use crate::utility::rand_raw_spec;
use crate::vector3::Vector3;
use crate::vector3::dot3_spec;
use crate::vector3::length_squared_spec;
use crate::vector3::length_spec;
use crate::vector3::lemma_dot_unitish;
use crate::vector3::lemma_fx_mul_tight;
use crate::vector3::lemma_unit_vector_unitish;
use crate::vector3::refract_spec;
use crate::vector3::reflect_spec;
use crate::vector3::unit_spec;
use crate::vector3::v_geom;
use crate::vector3::v_unitish;

#[derive(Clone, Copy, PartialEq, Eq, Structural, Debug)]
pub struct Dielectric {
    /// Index of refraction: about 1 for air, 1.3 to 1.7 for glass, 2.4
    /// for diamond.
    pub ir: Fx,
}

/// The index must be positive and of sensible size: between one tenth
/// and ten.
pub open spec fn dielectric_wf(d: Dielectric) -> bool {
    (SCALE as int) / 10 <= d.ir.raw <= 10 * (SCALE as int)
}

/// Schlick's reflectance approximation:
/// `r0 + (1 - r0) (1 - cos)^5` with `r0 = ((1 - idx) / (1 + idx))^2`,
/// the fifth power associated as `((w^2)^2) w`.
pub open spec fn reflectance_spec(cos: int, ridx: int) -> int {
    let r0 = fx_div((SCALE as int) - ridx, (SCALE as int) + ridx);
    let r0sq = fx_mul(r0, r0);
    let w = (SCALE as int) - cos;
    let w2 = fx_mul(w, w);
    let w4 = fx_mul(w2, w2);
    let w5 = fx_mul(w4, w);
    r0sq + fx_mul((SCALE as int) - r0sq, w5)
}

/// The clamped cosine between the reversed incoming unit direction and
/// the normal.
pub open spec fn diel_cos_spec(ud: Vector3, n: Vector3) -> int {
    let c0 = dot3_spec(
        -(ud.x.raw as int),
        -(ud.y.raw as int),
        -(ud.z.raw as int),
        n.x.raw as int,
        n.y.raw as int,
        n.z.raw as int,
    );
    if c0 <= SCALE as int {
        c0
    } else {
        SCALE as int
    }
}

/// The sine from the cosine: `sqrt(|1 - cos^2|)`.
pub open spec fn diel_sin_spec(cos: int) -> int {
    let d = (SCALE as int) - fx_mul(cos, cos);
    fx_sqrt(
        if d >= 0 {
            d
        } else {
            -d
        },
    )
}

/// Refractive scatter: reflect on total internal reflection, otherwise
/// draw once and reflect when the draw falls below the reflectance, else
/// refract.  Always succeeds with white attenuation.  An incoming
/// direction shorter than one raw step cannot be normalised and is
/// absorbed.
pub open spec fn dielectric_scatter_spec(d: Dielectric, r_in: Ray, rec: HitRecord, s: u64) -> (
    ScatterResult,
    u64,
) {
    let white = Color { red: Fx { raw: SCALE }, green: Fx { raw: SCALE }, blue: Fx { raw: SCALE } };
    if length_squared_spec(r_in.direction) < 1 {
        (
            ScatterResult {
                success: false,
                attenuation: white,
                scattered: Ray { origin: rec.point, direction: rec.normal },
            },
            s,
        )
    } else {
        let ratio = if rec.front_face {
            fx_div(SCALE as int, d.ir.raw as int)
        } else {
            d.ir.raw as int
        };
        let ud = unit_spec(r_in.direction);
        let cos = diel_cos_spec(ud, rec.normal);
        let sin = diel_sin_spec(cos);
        let cannot_refract = fx_mul(ratio, sin) > SCALE as int;
        if cannot_refract {
            (
                ScatterResult {
                    success: true,
                    attenuation: white,
                    scattered: Ray { origin: rec.point, direction: reflect_spec(ud, rec.normal) },
                },
                s,
            )
        } else {
            let draw = rand_raw_spec(s);
            let s2 = lcg_next_spec(s);
            let dir = if reflectance_spec(cos, ratio) > draw {
                reflect_spec(ud, rec.normal)
            } else {
                Vector3 {
                    x: Fx { raw: refract_spec(ud, rec.normal, ratio, 0) as i64 },
                    y: Fx { raw: refract_spec(ud, rec.normal, ratio, 1) as i64 },
                    z: Fx { raw: refract_spec(ud, rec.normal, ratio, 2) as i64 },
                }
            };
            (
                ScatterResult {
                    success: true,
                    attenuation: white,
                    scattered: Ray { origin: rec.point, direction: dir },
                },
                s2,
            )
        }
    }
}

/// Schlick's approximation, executably.
fn reflectance(cosine: Fx, ref_idx: Fx) -> (r: Fx)
    requires
        -29 * (SCALE as int) <= cosine.raw <= SCALE as int,
        0 < ref_idx.raw <= 10 * (SCALE as int),
    ensures
        r.raw == reflectance_spec(cosine.raw as int, ref_idx.raw as int),
{
    let s: i64 = SCALE;
    let ghost si = SCALE as int;
    let num = Fx::from_raw(s - ref_idx.raw);
    let den = Fx::from_raw(s + ref_idx.raw);
    proof {
        crate::fx::lemma_fdiv_bracket(num.raw * si, den.raw as int);
        assert(-10 * si <= fx_div(num.raw as int, den.raw as int) <= 10 * si) by (nonlinear_arith)
            requires
                si == 10000,
                -10 * si <= num.raw <= 10 * si,
                den.raw > si,
                den.raw * fdiv(num.raw * si, den.raw as int) <= num.raw * si,
                num.raw * si < den.raw * (fdiv(num.raw * si, den.raw as int) + 1),
        ;
    }
    let r0a = num.div(den);
    proof {
        lemma_fx_mul_tight(r0a.raw as int, r0a.raw as int, 10 * si, 10 * si);
        crate::fx::lemma_fdiv_exact(100 * si, si);
        assert(10 * si * (10 * si) == 100 * si * si) by (nonlinear_arith);
    }
    let r0 = r0a.mul(r0a);
    let w = Fx::from_raw(s - cosine.raw);
    proof {
        lemma_fx_mul_tight(w.raw as int, w.raw as int, 30 * si, 30 * si);
        crate::fx::lemma_fdiv_exact(900 * si, si);
        assert(30 * si * (30 * si) == 900 * si * si) by (nonlinear_arith);
    }
    let w2 = w.mul(w);
    proof {
        lemma_fx_mul_tight(w2.raw as int, w2.raw as int, 901 * si, 901 * si);
        crate::fx::lemma_fdiv_exact(811801 * si, si);
        assert(901 * si * (901 * si) == 811801 * si * si) by (nonlinear_arith);
    }
    let w4 = w2.mul(w2);
    proof {
        lemma_fx_mul_tight(w4.raw as int, w.raw as int, 811802 * si, 30 * si);
        crate::fx::lemma_fdiv_exact(24354060 * si, si);
        assert(811802 * si * (30 * si) == 24354060 * si * si) by (nonlinear_arith);
    }
    let w5 = w4.mul(w);
    let one_minus = Fx::from_raw(s - r0.raw);
    proof {
        lemma_fx_mul_tight(one_minus.raw as int, w5.raw as int, 102 * si, 24354061 * si);
        crate::fx::lemma_fdiv_exact(2484114222 * si, si);
        assert(102 * si * (24354061 * si) == 2484114222 * si * si) by (nonlinear_arith);
    }
    r0.add(one_minus.mul(w5))
}

impl Dielectric {
    pub fn new(ir: Fx) -> (r: Dielectric)
        ensures
            r.ir == ir,
    {
        Dielectric { ir }
    }

    /// Refractive scatter.
    pub fn scatter(&self, r_in: &Ray, rec: &HitRecord, rng: &mut Rng) -> (res: ScatterResult)
        requires
            dielectric_wf(*self),
            p_geom(rec.point),
            v_unitish(rec.normal),
            p_geom(r_in.origin),
            v_geom(r_in.direction),
        ensures
            res == dielectric_scatter_spec(*self, *r_in, *rec, old(rng).state).0,
            final (rng).state == dielectric_scatter_spec(*self, *r_in, *rec, old(rng).state).1,
            res.scattered.origin == rec.point,
            v_geom(res.scattered.direction),
            color_unit(res.attenuation),
    {
        let ghost si = SCALE as int;
        let white = Color::new(Fx::one(), Fx::one(), Fx::one());
        let lsq = r_in.direction.length_squared();
        if lsq.raw < 1 {
            return ScatterResult {
                success: false,
                attenuation: white,
                scattered: Ray::new(rec.point, rec.normal),
            };
        }
        proof {
            if rec.front_face {
                crate::fx::lemma_fdiv_bracket(si * si, self.ir.raw as int);
                assert(1000 <= fdiv(si * si, self.ir.raw as int) <= 10 * si) by (nonlinear_arith)
                    requires
                        si == 10000,
                        1000 <= self.ir.raw <= 10 * si,
                        self.ir.raw * fdiv(si * si, self.ir.raw as int) <= si * si,
                        si * si < self.ir.raw * (fdiv(si * si, self.ir.raw as int) + 1),
                ;
            }
        }
        let refraction_ratio = if rec.front_face {
            Fx::one().div(self.ir)
        } else {
            self.ir
        };
        proof {
            lemma_unit_vector_unitish(r_in.direction);
        }
        let unit_direction = Vector3::unit_vector(&r_in.direction);
        let neg_ud = unit_direction.neg();
        let cos_theta = Vector3::dot(&neg_ud, &rec.normal).min(Fx::one());
        proof {
            lemma_dot_unitish(neg_ud, rec.normal);
            lemma_fx_mul_tight(cos_theta.raw as int, cos_theta.raw as int, 28 * si, 28 * si);
            crate::fx::lemma_fdiv_exact(784 * si, si);
            assert(28 * si * (28 * si) == 784 * si * si) by (nonlinear_arith);
        }
        let cos_sq = cos_theta.mul(cos_theta);
        let diff = Fx::one().sub(cos_sq);
        let ad = diff.abs();
        let sin_theta = ad.sqrt();
        proof {
            crate::fx::lemma_sqrt_floor_props(ad.raw * si);
            assert(sin_theta.raw <= 29 * si) by (nonlinear_arith)
                requires
                    sin_theta.raw >= 0,
                    (sin_theta.raw as int) * (sin_theta.raw as int) <= ad.raw * si,
                    0 <= ad.raw <= 786 * si,
                    si == 10000,
            ;
            lemma_fx_mul_tight(refraction_ratio.raw as int, sin_theta.raw as int, 10 * si, 29 * si);
        }
        let cannot_refract = refraction_ratio.mul(sin_theta).raw > SCALE;
        if cannot_refract {
            let direction = Vector3::reflect(&unit_direction, &rec.normal);
            return ScatterResult {
                success: true,
                attenuation: white,
                scattered: Ray::new(rec.point, direction),
            };
        }
        let refl = reflectance(cos_theta, refraction_ratio);
        let draw = rng.rand();
        let direction = if refl.raw > draw.raw {
            Vector3::reflect(&unit_direction, &rec.normal)
        } else {
            Vector3::refract(&unit_direction, &rec.normal, refraction_ratio)
        };
        ScatterResult { success: true, attenuation: white, scattered: Ray::new(rec.point, direction) }
    }
}


/// Through a medium with index one, a ray at normal incidence refracts
/// without bending: the scattered direction equals the incoming unit
/// direction, the scatter succeeds, and exactly one sample is drawn.
/// At normal incidence Schlick's reflectance is exactly zero, so no draw
/// can choose reflection.  Away from normal incidence the reflectance is
/// positive and a small enough draw reflects instead.
pub proof fn lemma_vacuum_normal_incidence(d: Dielectric, r_in: Ray, rec: HitRecord, s: u64)
    requires
        d.ir.raw == SCALE,
        crate::vector3::axis_unit(rec.normal),
        r_in.direction == crate::vector3::neg_spec(rec.normal),
    ensures
        dielectric_scatter_spec(d, r_in, rec, s).0.success,
        dielectric_scatter_spec(d, r_in, rec, s).0.scattered.direction == r_in.direction,
        dielectric_scatter_spec(d, r_in, rec, s).1 == lcg_next_spec(s),
{
    crate::utility::lemma_rand_raw_range(s);
    let si = SCALE as int;
    let n = rec.normal;
    let dirv = r_in.direction;
    // generic one-step facts about the scalar arithmetic involved
    crate::fx::lemma_fx_mul_zero_left(0);
    crate::fx::lemma_fx_mul_zero_left(si);
    crate::fx::lemma_fx_mul_zero_left(-si);
    crate::fx::lemma_fx_mul_one_right(0);
    crate::fx::lemma_fx_mul_one_right(n.x.raw as int);
    crate::fx::lemma_fx_mul_one_right(n.y.raw as int);
    crate::fx::lemma_fx_mul_one_right(n.z.raw as int);
    crate::fx::lemma_fx_mul_neg_one_right(n.x.raw as int);
    crate::fx::lemma_fx_mul_neg_one_right(n.y.raw as int);
    crate::fx::lemma_fx_mul_neg_one_right(n.z.raw as int);
    crate::fx::lemma_fdiv_exact(0, si);
    crate::fx::lemma_fdiv_exact(0, 2 * si);
    crate::fx::lemma_fdiv_exact(si, si);
    crate::fx::lemma_fdiv_exact(dirv.x.raw as int, si);
    crate::fx::lemma_fdiv_exact(dirv.y.raw as int, si);
    crate::fx::lemma_fdiv_exact(dirv.z.raw as int, si);
    // the incoming squared length and cosine both come to exactly one
    if n.x.raw != 0 {
        crate::fx::lemma_fx_square_pm_one(dirv.x.raw as int);
        crate::fx::lemma_fx_square_pm_one(n.x.raw as int);
    } else if n.y.raw != 0 {
        crate::fx::lemma_fx_square_pm_one(dirv.y.raw as int);
        crate::fx::lemma_fx_square_pm_one(n.y.raw as int);
    } else {
        crate::fx::lemma_fx_square_pm_one(dirv.z.raw as int);
        crate::fx::lemma_fx_square_pm_one(n.z.raw as int);
    }
    assert(length_squared_spec(dirv) == si);
    // its length is exactly one as well
    assert(si * si < (si + 1) * (si + 1)) by (nonlinear_arith)
        requires
            si == 10000,
    ;
    crate::fx::lemma_sqrt_floor_unique(si * si, si);
    assert(length_spec(dirv) == si);
    assert(unit_spec(dirv) == dirv);
    // a vacuum keeps the refraction ratio at exactly one either way
    assert((if rec.front_face {
        fx_div(SCALE as int, d.ir.raw as int)
    } else {
        d.ir.raw as int
    }) == si);
    // the cosine is one, the sine zero, so refraction is possible
    assert(diel_cos_spec(unit_spec(dirv), n) == si);
    crate::fx::lemma_fx_square_pm_one(si);
    assert(crate::fx::sqrt_floor(0) == 0);
    assert(diel_sin_spec(si) == 0);
    crate::fx::lemma_fx_mul_one_right(si);
    // Schlick at normal incidence through a vacuum is exactly zero
    assert(reflectance_spec(si, si) == 0) by {
        crate::fx::lemma_fdiv_exact(0, 2 * si);
        crate::fx::lemma_fx_mul_zero_left(0);
        crate::fx::lemma_fx_mul_one_right(si);
        assert(fx_div(si - si, si + si) == 0);
        assert(fx_mul(si, 0) == 0) by {
            assert(si * 0 == 0 * si) by (nonlinear_arith);
            crate::fx::lemma_fdiv_exact(0, si);
        }
    }
    // the refracted direction is the incoming direction, unchanged
    assert(crate::vector3::refract_cos_spec(unit_spec(dirv), n) == si);
    assert(fx_mul(si, 0) == 0) by {
        assert(si * 0 == 0 * si) by (nonlinear_arith);
        crate::fx::lemma_fdiv_exact(0, si);
    }
    assert(crate::vector3::refract_perp_spec(unit_spec(dirv), n, si, 0) == 0) by {
        crate::fx::lemma_fx_mul_one_right(0);
    }
    assert(crate::vector3::refract_perp_spec(unit_spec(dirv), n, si, 1) == 0);
    assert(crate::vector3::refract_perp_spec(unit_spec(dirv), n, si, 2) == 0);
    assert(crate::vector3::refract_par_spec(unit_spec(dirv), n, si) == si);
    assert(crate::vector3::refract_spec(unit_spec(dirv), n, si, 0) == dirv.x.raw);
    assert(crate::vector3::refract_spec(unit_spec(dirv), n, si, 1) == dirv.y.raw);
    assert(crate::vector3::refract_spec(unit_spec(dirv), n, si, 2) == dirv.z.raw);
}

} // verus!
