//! The camera: maps normalized image-plane coordinates, plus an optional
//! depth-of-field lens jitter, to a world-space ray.
//!
//! The scalar type has no trigonometry, so the constructor takes the
//! tangent of half the vertical field of view directly; callers convert
//! an angle to its tangent before building the camera.

use vstd::prelude::*;

verus! {

use crate::fx::Fx;
use crate::fx::SCALE;
use crate::fx::fx_div;
use crate::fx::fx_mul;
use crate::point::Point;
use crate::point::p_geom;
use crate::ray::Ray;
use crate::utility::Rng;
use crate::vector3::Vector3;
use crate::vector3::cross_spec;
use crate::vector3::length_squared_spec;
use crate::vector3::lemma_fx_mul_tight;
use crate::vector3::lemma_unit_vector_unitish;
use crate::vector3::sample_disk_spec;
use crate::vector3::sample_attempts;
use crate::vector3::unit_spec;
use crate::vector3::v_geom;
use crate::vector3::v_unitish;

/// Largest raw magnitude a camera field may hold so that every generated
/// ray stays inside the geometry working range.
pub const CAM_MAX: i64 = 100_000_000;

#[derive(Clone, Copy, PartialEq, Eq, Structural, Debug)]
pub struct Camera {
    pub origin: Point,
    pub lower_left_corner: Point,
    pub horizontal: Vector3,
    pub vertical: Vector3,
    pub u: Vector3,
    pub v: Vector3,
    pub lens_radius: Fx,
}

/// The displacement from the look-at target to the eye.
pub open spec fn cam_dir_spec(lookfrom: Point, lookat: Point) -> Vector3 {
    Vector3 {
        x: Fx { raw: (lookfrom.x.raw - lookat.x.raw) as i64 },
        y: Fx { raw: (lookfrom.y.raw - lookat.y.raw) as i64 },
        z: Fx { raw: (lookfrom.z.raw - lookat.z.raw) as i64 },
    }
}

/// Camera fields small enough that every generated ray stays in range.
pub open spec fn cam_wf(c: Camera) -> bool {
    &&& -(CAM_MAX as int) <= c.origin.x.raw <= CAM_MAX as int
    &&& -(CAM_MAX as int) <= c.origin.y.raw <= CAM_MAX as int
    &&& -(CAM_MAX as int) <= c.origin.z.raw <= CAM_MAX as int
    &&& -(CAM_MAX as int) <= c.lower_left_corner.x.raw <= CAM_MAX as int
    &&& -(CAM_MAX as int) <= c.lower_left_corner.y.raw <= CAM_MAX as int
    &&& -(CAM_MAX as int) <= c.lower_left_corner.z.raw <= CAM_MAX as int
    &&& -(CAM_MAX as int) <= c.horizontal.x.raw <= CAM_MAX as int
    &&& -(CAM_MAX as int) <= c.horizontal.y.raw <= CAM_MAX as int
    &&& -(CAM_MAX as int) <= c.horizontal.z.raw <= CAM_MAX as int
    &&& -(CAM_MAX as int) <= c.vertical.x.raw <= CAM_MAX as int
    &&& -(CAM_MAX as int) <= c.vertical.y.raw <= CAM_MAX as int
    &&& -(CAM_MAX as int) <= c.vertical.z.raw <= CAM_MAX as int
    &&& -30 * (SCALE as int) <= c.u.x.raw <= 30 * (SCALE as int)
    &&& -30 * (SCALE as int) <= c.u.y.raw <= 30 * (SCALE as int)
    &&& -30 * (SCALE as int) <= c.u.z.raw <= 30 * (SCALE as int)
    &&& -30 * (SCALE as int) <= c.v.x.raw <= 30 * (SCALE as int)
    &&& -30 * (SCALE as int) <= c.v.y.raw <= 30 * (SCALE as int)
    &&& -30 * (SCALE as int) <= c.v.z.raw <= 30 * (SCALE as int)
    &&& 0 <= c.lens_radius.raw <= 2 * (SCALE as int)
}

/// The ray of one sample: the lens jitter offsets the origin within the
/// aperture disk, and the ray aims at the viewport point `(s, t)`.
pub open spec fn get_ray_spec(c: Camera, s: Fx, t: Fx, state: u64) -> (Ray, u64) {
    let pair = sample_disk_spec(state, sample_attempts());
    let rdx = fx_mul(pair.0.x.raw as int, c.lens_radius.raw as int);
    let rdy = fx_mul(pair.0.y.raw as int, c.lens_radius.raw as int);
    let offx = fx_mul(c.u.x.raw as int, rdx) + fx_mul(c.v.x.raw as int, rdy);
    let offy = fx_mul(c.u.y.raw as int, rdx) + fx_mul(c.v.y.raw as int, rdy);
    let offz = fx_mul(c.u.z.raw as int, rdx) + fx_mul(c.v.z.raw as int, rdy);
    let ox = c.origin.x.raw + offx;
    let oy = c.origin.y.raw + offy;
    let oz = c.origin.z.raw + offz;
    let dx = c.lower_left_corner.x.raw + fx_mul(c.horizontal.x.raw as int, s.raw as int) + fx_mul(
        c.vertical.x.raw as int,
        t.raw as int,
    ) - c.origin.x.raw - offx;
    let dy = c.lower_left_corner.y.raw + fx_mul(c.horizontal.y.raw as int, s.raw as int) + fx_mul(
        c.vertical.y.raw as int,
        t.raw as int,
    ) - c.origin.y.raw - offy;
    let dz = c.lower_left_corner.z.raw + fx_mul(c.horizontal.z.raw as int, s.raw as int) + fx_mul(
        c.vertical.z.raw as int,
        t.raw as int,
    ) - c.origin.z.raw - offz;
    (
        Ray {
            origin: Point { x: Fx { raw: ox as i64 }, y: Fx { raw: oy as i64 }, z: Fx { raw: oz as i64 } },
            direction: Vector3 {
                x: Fx { raw: dx as i64 },
                y: Fx { raw: dy as i64 },
                z: Fx { raw: dz as i64 },
            },
        },
        pair.1,
    )
}

impl Camera {
    /// Build the camera from eye, target, up direction, the tangent of
    /// half the vertical field of view, aspect ratio, aperture and focus
    /// distance.
    pub fn new(
        lookfrom: Point,
        lookat: Point,
        vup: Vector3,
        tan_half_vfov: Fx,
        aspect_ratio: Fx,
        aperture: Fx,
        focus_dist: Fx,
    ) -> (c: Camera)
        requires
            p_geom(lookfrom),
            p_geom(lookat),
            v_unitish(vup),
            0 <= tan_half_vfov.raw <= 100 * (SCALE as int),
            0 <= aspect_ratio.raw <= 10 * (SCALE as int),
            0 <= aperture.raw <= 10 * (SCALE as int),
            0 <= focus_dist.raw <= 100_000 * (SCALE as int),
            v_geom(cam_dir_spec(lookfrom, lookat)),
            length_squared_spec(cam_dir_spec(lookfrom, lookat)) >= 1,
            length_squared_spec(
                cross_spec(vup, unit_spec(cam_dir_spec(lookfrom, lookat))),
            ) >= 1,
        ensures
            c.origin == lookfrom,
            c.lens_radius.raw == fx_div(aperture.raw as int, 2 * (SCALE as int)),
            ({
                let w = unit_spec(cam_dir_spec(lookfrom, lookat));
                let cu = unit_spec(cross_spec(vup, w));
                let cv = cross_spec(w, cu);
                let vh = 2 * tan_half_vfov.raw;
                let vw = fx_mul(aspect_ratio.raw as int, vh);
                c.u == cu && c.v == cv && c.horizontal.x.raw == fx_mul(
                    fx_mul(cu.x.raw as int, vw),
                    focus_dist.raw as int,
                ) && c.horizontal.y.raw == fx_mul(fx_mul(cu.y.raw as int, vw), focus_dist.raw as int)
                    && c.horizontal.z.raw == fx_mul(
                    fx_mul(cu.z.raw as int, vw),
                    focus_dist.raw as int,
                ) && c.vertical.x.raw == fx_mul(fx_mul(cv.x.raw as int, vh), focus_dist.raw as int)
                    && c.vertical.y.raw == fx_mul(
                    fx_mul(cv.y.raw as int, vh),
                    focus_dist.raw as int,
                ) && c.vertical.z.raw == fx_mul(fx_mul(cv.z.raw as int, vh), focus_dist.raw as int)
                    && c.lower_left_corner.x.raw == lookfrom.x.raw - fx_div(
                    c.horizontal.x.raw as int,
                    2 * (SCALE as int),
                ) - fx_div(c.vertical.x.raw as int, 2 * (SCALE as int)) - fx_mul(
                    w.x.raw as int,
                    focus_dist.raw as int,
                ) && c.lower_left_corner.y.raw == lookfrom.y.raw - fx_div(
                    c.horizontal.y.raw as int,
                    2 * (SCALE as int),
                ) - fx_div(c.vertical.y.raw as int, 2 * (SCALE as int)) - fx_mul(
                    w.y.raw as int,
                    focus_dist.raw as int,
                ) && c.lower_left_corner.z.raw == lookfrom.z.raw - fx_div(
                    c.horizontal.z.raw as int,
                    2 * (SCALE as int),
                ) - fx_div(c.vertical.z.raw as int, 2 * (SCALE as int)) - fx_mul(
                    w.z.raw as int,
                    focus_dist.raw as int,
                )
            }),
    {
        let ghost si = SCALE as int;
        let h = tan_half_vfov;
        let viewport_height = h.add(h);
        proof {
            lemma_fx_mul_tight(aspect_ratio.raw as int, viewport_height.raw as int, 10 * si, 200 * si);
            crate::fx::lemma_fdiv_exact(2000 * si, si);
            assert(10 * si * (200 * si) == 2000 * si * si) by (nonlinear_arith);
        }
        let viewport_width = aspect_ratio.mul(viewport_height);
        let diff = lookfrom.sub(lookat);
        proof {
            lemma_unit_vector_unitish(diff);
        }
        let w = Vector3::unit_vector(&diff);
        let crossed = Vector3::cross(&vup, &w);
        proof {
            lemma_fx_mul_tight(vup.y.raw as int, w.z.raw as int, 3 * si, 3 * si);
            lemma_fx_mul_tight(vup.z.raw as int, w.y.raw as int, 3 * si, 3 * si);
            lemma_fx_mul_tight(vup.z.raw as int, w.x.raw as int, 3 * si, 3 * si);
            lemma_fx_mul_tight(vup.x.raw as int, w.z.raw as int, 3 * si, 3 * si);
            lemma_fx_mul_tight(vup.x.raw as int, w.y.raw as int, 3 * si, 3 * si);
            lemma_fx_mul_tight(vup.y.raw as int, w.x.raw as int, 3 * si, 3 * si);
            crate::fx::lemma_fdiv_exact(9 * si, si);
            assert(3 * si * (3 * si) == 9 * si * si) by (nonlinear_arith);
            lemma_unit_vector_unitish(crossed);
        }
        let u = Vector3::unit_vector(&crossed);
        let v = Vector3::cross(&w, &u);
        proof {
            lemma_fx_mul_tight(w.y.raw as int, u.z.raw as int, 3 * si, 3 * si);
            lemma_fx_mul_tight(w.z.raw as int, u.y.raw as int, 3 * si, 3 * si);
            lemma_fx_mul_tight(w.z.raw as int, u.x.raw as int, 3 * si, 3 * si);
            lemma_fx_mul_tight(w.x.raw as int, u.z.raw as int, 3 * si, 3 * si);
            lemma_fx_mul_tight(w.x.raw as int, u.y.raw as int, 3 * si, 3 * si);
            lemma_fx_mul_tight(w.y.raw as int, u.x.raw as int, 3 * si, 3 * si);
            crate::fx::lemma_fdiv_exact(9 * si, si);
            assert(3 * si * (3 * si) == 9 * si * si) by (nonlinear_arith);
        }
        proof {
            let vwr = viewport_width.raw as int;
            let fdr = focus_dist.raw as int;
            lemma_fx_mul_tight(u.x.raw as int, vwr, 3 * si, 2001 * si);
            lemma_fx_mul_tight(u.y.raw as int, vwr, 3 * si, 2001 * si);
            lemma_fx_mul_tight(u.z.raw as int, vwr, 3 * si, 2001 * si);
            crate::fx::lemma_fdiv_exact(6003 * si, si);
            assert(3 * si * (2001 * si) == 6003 * si * si) by (nonlinear_arith);
            lemma_fx_mul_tight(fx_mul(u.x.raw as int, vwr), fdr, 6004 * si, 100_000 * si);
            lemma_fx_mul_tight(fx_mul(u.y.raw as int, vwr), fdr, 6004 * si, 100_000 * si);
            lemma_fx_mul_tight(fx_mul(u.z.raw as int, vwr), fdr, 6004 * si, 100_000 * si);
            crate::fx::lemma_fdiv_exact(600_400_000 * si, si);
            assert(6004 * si * (100_000 * si) == 600_400_000 * si * si) by (nonlinear_arith);
        }
        let horizontal = u.mul(viewport_width).mul(focus_dist);
        proof {
            let vhr = viewport_height.raw as int;
            let fdr = focus_dist.raw as int;
            lemma_fx_mul_tight(v.x.raw as int, vhr, 19 * si, 200 * si);
            lemma_fx_mul_tight(v.y.raw as int, vhr, 19 * si, 200 * si);
            lemma_fx_mul_tight(v.z.raw as int, vhr, 19 * si, 200 * si);
            crate::fx::lemma_fdiv_exact(3800 * si, si);
            assert(19 * si * (200 * si) == 3800 * si * si) by (nonlinear_arith);
            lemma_fx_mul_tight(fx_mul(v.x.raw as int, vhr), fdr, 3801 * si, 100_000 * si);
            lemma_fx_mul_tight(fx_mul(v.y.raw as int, vhr), fdr, 3801 * si, 100_000 * si);
            lemma_fx_mul_tight(fx_mul(v.z.raw as int, vhr), fdr, 3801 * si, 100_000 * si);
            crate::fx::lemma_fdiv_exact(380_100_000 * si, si);
            assert(3801 * si * (100_000 * si) == 380_100_000 * si * si) by (nonlinear_arith);
        }
        let vertical = v.mul(viewport_height).mul(focus_dist);
        let two = Fx::from_int(2);
        proof {
            let fdr = focus_dist.raw as int;
            crate::vector3::lemma_fx_div_bound(horizontal.x.raw as int, 2 * si, 0x1_0000_0000_0000);
            crate::vector3::lemma_fx_div_bound(horizontal.y.raw as int, 2 * si, 0x1_0000_0000_0000);
            crate::vector3::lemma_fx_div_bound(horizontal.z.raw as int, 2 * si, 0x1_0000_0000_0000);
            crate::vector3::lemma_fx_div_bound(vertical.x.raw as int, 2 * si, 0x1_0000_0000_0000);
            crate::vector3::lemma_fx_div_bound(vertical.y.raw as int, 2 * si, 0x1_0000_0000_0000);
            crate::vector3::lemma_fx_div_bound(vertical.z.raw as int, 2 * si, 0x1_0000_0000_0000);
            lemma_fx_mul_tight(w.x.raw as int, fdr, 3 * si, 100_000 * si);
            lemma_fx_mul_tight(w.y.raw as int, fdr, 3 * si, 100_000 * si);
            lemma_fx_mul_tight(w.z.raw as int, fdr, 3 * si, 100_000 * si);
            crate::fx::lemma_fdiv_exact(300_000 * si, si);
            assert(3 * si * (100_000 * si) == 300_000 * si * si) by (nonlinear_arith);
        }
        let lower_left_corner = lookfrom.sub_vector(horizontal.div(two)).sub_vector(
            vertical.div(two),
        ).sub_vector(w.mul(focus_dist));
        proof {
            crate::vector3::lemma_fx_div_bound(aperture.raw as int, 2 * si, 10 * si);
        }
        let lens_radius = aperture.div(two);
        Camera { origin: lookfrom, lower_left_corner, horizontal, vertical, u, v, lens_radius }
    }

    /// Whether the camera's fields are small enough for ray generation.
    pub fn wf_check(&self) -> (r: bool)
        ensures
            r == cam_wf(*self),
    {
        let m = CAM_MAX;
        -m <= self.origin.x.raw && self.origin.x.raw <= m && -m <= self.origin.y.raw
            && self.origin.y.raw <= m && -m <= self.origin.z.raw && self.origin.z.raw <= m && -m
            <= self.lower_left_corner.x.raw && self.lower_left_corner.x.raw <= m && -m
            <= self.lower_left_corner.y.raw && self.lower_left_corner.y.raw <= m && -m
            <= self.lower_left_corner.z.raw && self.lower_left_corner.z.raw <= m && -m
            <= self.horizontal.x.raw && self.horizontal.x.raw <= m && -m <= self.horizontal.y.raw
            && self.horizontal.y.raw <= m && -m <= self.horizontal.z.raw && self.horizontal.z.raw
            <= m && -m <= self.vertical.x.raw && self.vertical.x.raw <= m && -m
            <= self.vertical.y.raw && self.vertical.y.raw <= m && -m <= self.vertical.z.raw
            && self.vertical.z.raw <= m && -30 * SCALE <= self.u.x.raw && self.u.x.raw <= 30
            * SCALE && -30 * SCALE <= self.u.y.raw && self.u.y.raw <= 30 * SCALE && -30 * SCALE
            <= self.u.z.raw && self.u.z.raw <= 30 * SCALE && -30 * SCALE <= self.v.x.raw
            && self.v.x.raw <= 30 * SCALE && -30 * SCALE <= self.v.y.raw && self.v.y.raw <= 30
            * SCALE && -30 * SCALE <= self.v.z.raw && self.v.z.raw <= 30 * SCALE && 0
            <= self.lens_radius.raw && self.lens_radius.raw <= 2 * SCALE
    }

    /// The ray through normalized viewport coordinates `(s, t)`, with a
    /// fresh lens sample.
    pub fn get_ray(&self, s: Fx, t: Fx, rng: &mut Rng) -> (r: Ray)
        requires
            cam_wf(*self),
            0 <= s.raw <= 2 * (SCALE as int),
            0 <= t.raw <= 2 * (SCALE as int),
        ensures
            r == get_ray_spec(*self, s, t, old(rng).state).0,
            final (rng).state == get_ray_spec(*self, s, t, old(rng).state).1,
            p_geom(r.origin),
            v_geom(r.direction),
    {
        let ghost si = SCALE as int;
        let disk = Vector3::random_in_unit_disk(rng);
        proof {
            lemma_fx_mul_tight(disk.x.raw as int, self.lens_radius.raw as int, 3 * si, 2 * si);
            lemma_fx_mul_tight(disk.y.raw as int, self.lens_radius.raw as int, 3 * si, 2 * si);
            lemma_fx_mul_tight(disk.z.raw as int, self.lens_radius.raw as int, 3 * si, 2 * si);
            crate::fx::lemma_fdiv_exact(6 * si, si);
            assert(3 * si * (2 * si) == 6 * si * si) by (nonlinear_arith);
        }
        let rd = disk.mul(self.lens_radius);
        proof {
            lemma_fx_mul_tight(self.u.x.raw as int, rd.x.raw as int, 30 * si, 7 * si);
            lemma_fx_mul_tight(self.u.y.raw as int, rd.x.raw as int, 30 * si, 7 * si);
            lemma_fx_mul_tight(self.u.z.raw as int, rd.x.raw as int, 30 * si, 7 * si);
            lemma_fx_mul_tight(self.v.x.raw as int, rd.y.raw as int, 30 * si, 7 * si);
            lemma_fx_mul_tight(self.v.y.raw as int, rd.y.raw as int, 30 * si, 7 * si);
            lemma_fx_mul_tight(self.v.z.raw as int, rd.y.raw as int, 30 * si, 7 * si);
            crate::fx::lemma_fdiv_exact(210 * si, si);
            assert(30 * si * (7 * si) == 210 * si * si) by (nonlinear_arith);
        }
        let offset = self.u.mul(rd.x).add(self.v.mul(rd.y));
        proof {
            lemma_fx_mul_tight(self.horizontal.x.raw as int, s.raw as int, CAM_MAX as int, 2 * si);
            lemma_fx_mul_tight(self.horizontal.y.raw as int, s.raw as int, CAM_MAX as int, 2 * si);
            lemma_fx_mul_tight(self.horizontal.z.raw as int, s.raw as int, CAM_MAX as int, 2 * si);
            lemma_fx_mul_tight(self.vertical.x.raw as int, t.raw as int, CAM_MAX as int, 2 * si);
            lemma_fx_mul_tight(self.vertical.y.raw as int, t.raw as int, CAM_MAX as int, 2 * si);
            lemma_fx_mul_tight(self.vertical.z.raw as int, t.raw as int, CAM_MAX as int, 2 * si);
            crate::fx::lemma_fdiv_exact(200_000_000, si);
            assert((CAM_MAX as int) * (2 * si) == 200_000_000 * si) by (nonlinear_arith);
        }
        let origin = self.origin.add(offset);
        let target = self.lower_left_corner.add(self.horizontal.mul(s)).add(self.vertical.mul(t));
        let direction = target.sub(self.origin).sub(offset);
        Ray::new(origin, direction)
    }
}

} // verus!
