//! The recursive shader and the render loop.
//!
//! `ray_color` bounces a ray through the scene, multiplying attenuations,
//! until the bounce budget runs out (black), the ray escapes (the sky
//! gradient), or a scatter absorbs it (black).  `render` walks pixels in
//! row-major order, top row first, accumulates `samples_per_pixel`
//! jittered samples per pixel, and emits the plain-text pixel stream:
//! a three-line header, then one line per pixel.  Everything is an exact
//! function of the scene, the camera and the generator seed, so a fixed
//! seed reproduces the same bytes.

use vstd::prelude::*;

verus! {

use crate::camera::Camera;
use crate::camera::cam_wf;
use crate::camera::get_ray_spec;
use crate::color::Color;
use crate::color::color_unit;
use crate::color::dec_digits;
use crate::color::pixel_line_spec;
use crate::color::push_dec;
use crate::fx::Fx;
use crate::fx::SCALE;
use crate::fx::fdiv;
use crate::fx::fx_div;
use crate::fx::fx_mul;
use crate::hittable_vec::HittableVec;
use crate::hittable_vec::hv_mat_bound;
use crate::hittable_vec::hv_shape_wf;
use crate::hittable_vec::lemma_scan_objects_material;
use crate::hittable_vec::scan_objects_spec;
use crate::material::Material;
use crate::material::material_wf;
use crate::material::scatter_spec;
use crate::point::p_geom;
use crate::ray::Ray;
use crate::utility::Rng;
use crate::utility::lcg_next_spec;
use crate::utility::rand_raw_spec;
use crate::vector3::GEOM_MAX;
use crate::vector3::length_squared_spec;
use crate::vector3::lemma_fx_mul_tight;
use crate::vector3::lemma_unit_vector_unitish;
use crate::vector3::unit_spec;
use crate::vector3::v_geom;

/// Lower end of every shading ray's range: far enough from the surface to
/// avoid immediately re-hitting it.
pub const T_MIN_RAW: i64 = 10;

pub open spec fn black_spec() -> Color {
    Color { red: Fx { raw: 0 }, green: Fx { raw: 0 }, blue: Fx { raw: 0 } }
}

/// The background gradient: white blended towards sky blue by the ray's
/// normalized upward component.  A direction too short to normalise gives
/// black.
pub open spec fn sky_spec(r: Ray) -> Color {
    if length_squared_spec(r.direction) < 1 {
        black_spec()
    } else {
        let ud = unit_spec(r.direction);
        let t0 = fx_mul(5000, ud.y.raw + SCALE);
        let t = if t0 > SCALE as int {
            SCALE as int
        } else if t0 < 0 {
            0
        } else {
            t0
        };
        Color {
            red: Fx { raw: (fx_mul(SCALE as int, (SCALE as int) - t) + fx_mul(5000, t)) as i64 },
            green: Fx { raw: (fx_mul(SCALE as int, (SCALE as int) - t) + fx_mul(7000, t)) as i64 },
            blue: Fx {
                raw: (fx_mul(SCALE as int, (SCALE as int) - t) + fx_mul(SCALE as int, t)) as i64,
            },
        }
    }
}

/// The color carried back by one ray, and the generator state after all
/// its bounces.  Out of bounces, or absorbed, means black; a miss means
/// the sky; a successful scatter recurses and filters by the attenuation.
pub open spec fn ray_color_spec(
    r: Ray,
    objs: Seq<crate::hittable::Hittable>,
    mats: Seq<Material>,
    depth: int,
    s: u64,
) -> (Color, u64)
    decreases depth,
{
    if depth <= 0 {
        (black_spec(), s)
    } else {
        match scan_objects_spec(objs, r, T_MIN_RAW as int, GEOM_MAX as int) {
            Some(rec) => {
                if 0 <= rec.material < mats.len() {
                    let pair = scatter_spec(mats[rec.material as int], r, rec, s);
                    if pair.0.success {
                        let rc = ray_color_spec(pair.0.scattered, objs, mats, depth - 1, pair.1);
                        (
                            Color {
                                red: Fx {
                                    raw: fx_mul(
                                        pair.0.attenuation.red.raw as int,
                                        rc.0.red.raw as int,
                                    ) as i64,
                                },
                                green: Fx {
                                    raw: fx_mul(
                                        pair.0.attenuation.green.raw as int,
                                        rc.0.green.raw as int,
                                    ) as i64,
                                },
                                blue: Fx {
                                    raw: fx_mul(
                                        pair.0.attenuation.blue.raw as int,
                                        rc.0.blue.raw as int,
                                    ) as i64,
                                },
                            },
                            rc.1,
                        )
                    } else {
                        (black_spec(), pair.1)
                    }
                } else {
                    (black_spec(), s)
                }
            },
            None => (sky_spec(r), s),
        }
    }
}

/// A product of two channels in `[0, 1]` stays in `[0, 1]`.
proof fn lemma_channel_product(a: int, b: int)
    requires
        0 <= a <= SCALE as int,
        0 <= b <= SCALE as int,
    ensures
        0 <= fx_mul(a, b) <= SCALE as int,
{
    let si = SCALE as int;
    crate::fx::lemma_fdiv_bracket(a * b, si);
    assert(0 <= fx_mul(a, b) <= si) by (nonlinear_arith)
        requires
            si == 10000,
            0 <= a <= si,
            0 <= b <= si,
            si * fx_mul(a, b) <= a * b,
            a * b < si * (fx_mul(a, b) + 1),
    ;
}

/// The sky gradient, executably.
fn sky(r: &Ray) -> (c: Color)
    requires
        v_geom(r.direction),
    ensures
        c == sky_spec(*r),
        color_unit(c),
{
    let ghost si = SCALE as int;
    let lsq = r.direction.length_squared();
    if lsq.raw < 1 {
        return Color::new(Fx::zero(), Fx::zero(), Fx::zero());
    }
    proof {
        lemma_unit_vector_unitish(r.direction);
    }
    let unit_direction = normalize(&r.direction);
    proof {
        lemma_fx_mul_tight(5000, unit_direction.y.raw + SCALE, 5000, 4 * si);
    }
    let t0 = Fx::from_raw(5000).mul(unit_direction.y.add(Fx::one()));
    let t = crate::utility::clamp(t0, Fx::zero(), Fx::one());
    proof {
        lemma_channel_product(si, si - t.raw);
        lemma_channel_product(5000, t.raw as int);
        lemma_channel_product(7000, t.raw as int);
        lemma_channel_product(si, t.raw as int);
    }
    let white = Color::new(Fx::one(), Fx::one(), Fx::one());
    let blueish = Color::new(Fx::from_raw(5000), Fx::from_raw(7000), Fx::one());
    let one_minus = Fx::one().sub(t);
    white.mul(one_minus).add(blueish.mul(t))
}

/// Normalise a direction whose squared length is at least one step.
fn normalize(v: &crate::vector3::Vector3) -> (r: crate::vector3::Vector3)
    requires
        v_geom(*v),
        length_squared_spec(*v) >= 1,
    ensures
        r == unit_spec(*v),
        crate::vector3::v_unitish(r),
{
    proof {
        lemma_unit_vector_unitish(*v);
    }
    crate::vector3::Vector3::unit_vector(v)
}

/// The recursive shader.
pub fn ray_color(
    r: &Ray,
    world: &HittableVec,
    materials: &Vec<Material>,
    depth: i32,
    rng: &mut Rng,
) -> (c: Color)
    requires
        hv_shape_wf(*world),
        hv_mat_bound(*world, materials@.len() as int),
        forall|i: int| 0 <= i < materials@.len() ==> material_wf(#[trigger] materials@[i]),
        p_geom(r.origin),
        v_geom(r.direction),
    ensures
        c == ray_color_spec(*r, world.objects@, materials@, depth as int, old(rng).state).0,
        final (rng).state == ray_color_spec(
            *r,
            world.objects@,
            materials@,
            depth as int,
            old(rng).state,
        ).1,
        color_unit(c),
    decreases depth,
{
    if depth <= 0 {
        return Color::new(Fx::zero(), Fx::zero(), Fx::zero());
    }
    let t_min = Fx::from_raw(T_MIN_RAW);
    let t_max = Fx::from_raw(crate::vector3::GEOM_MAX);
    let attempt = world.hit(r, t_min, t_max);
    match attempt {
        Some(x) => {
            proof {
                lemma_scan_objects_material(
                    world.objects@,
                    *r,
                    T_MIN_RAW as int,
                    GEOM_MAX as int,
                    materials@.len() as int,
                );
            }
            let m = materials[x.material];
            let scatter_result = m.scatter(r, &x, rng);
            if scatter_result.success {
                let bounced = ray_color(&scatter_result.scattered, world, materials, depth - 1, rng);
                proof {
                    lemma_channel_product(
                        scatter_result.attenuation.red.raw as int,
                        bounced.red.raw as int,
                    );
                    lemma_channel_product(
                        scatter_result.attenuation.green.raw as int,
                        bounced.green.raw as int,
                    );
                    lemma_channel_product(
                        scatter_result.attenuation.blue.raw as int,
                        bounced.blue.raw as int,
                    );
                }
                scatter_result.attenuation.mul_color(bounced)
            } else {
                Color::new(Fx::zero(), Fx::zero(), Fx::zero())
            }
        },
        None => sky(r),
    }
}

/// The color of one pixel: the sum of `spp` jittered samples, each traced
/// through the scene, with the generator state threaded through.
pub open spec fn pixel_color_spec(
    objs: Seq<crate::hittable::Hittable>,
    mats: Seq<Material>,
    cam: Camera,
    i: int,
    j: int,
    width: int,
    height: int,
    spp: int,
    max_depth: int,
    s: u64,
) -> (Color, u64)
    decreases spp,
{
    if spp <= 0 {
        (black_spec(), s)
    } else {
        let prev = pixel_color_spec(objs, mats, cam, i, j, width, height, spp - 1, max_depth, s);
        let s1 = prev.1;
        let du = rand_raw_spec(s1);
        let s2 = lcg_next_spec(s1);
        let dv = rand_raw_spec(s2);
        let s3 = lcg_next_spec(s2);
        let uu = fx_div(i * (SCALE as int) + du, (width - 1) * (SCALE as int));
        let vv = fx_div(j * (SCALE as int) + dv, (height - 1) * (SCALE as int));
        let ray_pair = get_ray_spec(cam, Fx { raw: uu as i64 }, Fx { raw: vv as i64 }, s3);
        let col = ray_color_spec(ray_pair.0, objs, mats, max_depth, ray_pair.1);
        (
            Color {
                red: Fx { raw: (prev.0.red.raw + col.0.red.raw) as i64 },
                green: Fx { raw: (prev.0.green.raw + col.0.green.raw) as i64 },
                blue: Fx { raw: (prev.0.blue.raw + col.0.blue.raw) as i64 },
            },
            col.1,
        )
    }
}

/// The viewport coordinate of a pixel index plus jitter stays within twice
/// the unit range.
proof fn lemma_uv_range(i: int, d: int, w: int)
    requires
        0 <= i <= w - 1,
        0 <= d < SCALE as int,
        w >= 2,
    ensures
        0 <= fx_div(i * (SCALE as int) + d, (w - 1) * (SCALE as int)) <= 2 * (SCALE as int),
        (w - 1) * (SCALE as int) >= SCALE as int,
{
    let si = SCALE as int;
    let num = i * si + d;
    let den = (w - 1) * si;
    assert(den >= si && 0 <= num && num * si <= den * (2 * si)) by (nonlinear_arith)
        requires
            si == 10000,
            0 <= i <= w - 1,
            0 <= d < si,
            w >= 2,
            num == i * si + d,
            den == (w - 1) * si,
    ;
    crate::fx::lemma_fdiv_bracket(num * si, den);
    assert(0 <= fdiv(num * si, den) <= 2 * si) by (nonlinear_arith)
        requires
            si == 10000,
            den >= si,
            0 <= num,
            num * si <= den * (2 * si),
            den * fdiv(num * si, den) <= num * si,
            num * si < den * (fdiv(num * si, den) + 1),
    ;
}

/// One pixel, executably.
fn pixel_color(
    world: &HittableVec,
    materials: &Vec<Material>,
    camera: &Camera,
    i: u32,
    j: u32,
    image_width: u32,
    image_height: u32,
    samples_per_pixel: u32,
    max_depth: i32,
    rng: &mut Rng,
) -> (c: Color)
    requires
        hv_shape_wf(*world),
        hv_mat_bound(*world, materials@.len() as int),
        forall|k: int| 0 <= k < materials@.len() ==> material_wf(#[trigger] materials@[k]),
        cam_wf(*camera),
        2 <= image_width <= 20000,
        2 <= image_height <= 20000,
        1 <= samples_per_pixel <= 10000,
        i < image_width,
        j < image_height,
    ensures
        ({
            let pair = pixel_color_spec(
                world.objects@,
                materials@,
                *camera,
                i as int,
                j as int,
                image_width as int,
                image_height as int,
                samples_per_pixel as int,
                max_depth as int,
                old(rng).state,
            );
            c == pair.0 && final (rng).state == pair.1
        }),
        0 <= c.red.raw <= samples_per_pixel * (SCALE as int),
        0 <= c.green.raw <= samples_per_pixel * (SCALE as int),
        0 <= c.blue.raw <= samples_per_pixel * (SCALE as int),
{
    let ghost si = SCALE as int;
    let mut acc = Color::new(Fx::zero(), Fx::zero(), Fx::zero());
    let mut sample: u32 = 0;
    let width_minus = Fx::from_int((image_width - 1) as i64);
    let height_minus = Fx::from_int((image_height - 1) as i64);
    let i_fx = Fx::from_int(i as i64);
    let j_fx = Fx::from_int(j as i64);
    while sample < samples_per_pixel
        invariant
            hv_shape_wf(*world),
            hv_mat_bound(*world, materials@.len() as int),
            forall|k: int| 0 <= k < materials@.len() ==> material_wf(#[trigger] materials@[k]),
            cam_wf(*camera),
            2 <= image_width <= 20000,
            2 <= image_height <= 20000,
            1 <= samples_per_pixel <= 10000,
            i < image_width,
            j < image_height,
            0 <= sample <= samples_per_pixel,
            width_minus.raw == (image_width - 1) * (SCALE as int),
            height_minus.raw == (image_height - 1) * (SCALE as int),
            i_fx.raw == i * (SCALE as int),
            j_fx.raw == j * (SCALE as int),
            ({
                let pair = pixel_color_spec(
                    world.objects@,
                    materials@,
                    *camera,
                    i as int,
                    j as int,
                    image_width as int,
                    image_height as int,
                    sample as int,
                    max_depth as int,
                    old(rng).state,
                );
                acc == pair.0 && rng.state == pair.1
            }),
            0 <= acc.red.raw <= sample * (SCALE as int),
            0 <= acc.green.raw <= sample * (SCALE as int),
            0 <= acc.blue.raw <= sample * (SCALE as int),
        decreases samples_per_pixel - sample,
    {
        let du = rng.rand();
        let dv = rng.rand();
        proof {
            lemma_uv_range(i as int, du.raw as int, image_width as int);
            lemma_uv_range(j as int, dv.raw as int, image_height as int);
        }
        let uu = i_fx.add(du).div(width_minus);
        let vv = j_fx.add(dv).div(height_minus);
        let sample_ray = camera.get_ray(uu, vv, rng);
        let col = ray_color(&sample_ray, world, materials, max_depth, rng);
        acc = acc.add(col);
        sample = sample + 1;
    }
    acc
}

/// The bytes of the three-line header: `P3`, the dimensions, and the
/// maximum channel value.
pub open spec fn ppm_header_spec(width: int, height: int) -> Seq<u8> {
    seq![80u8, 51u8, 10u8] + dec_digits(width) + seq![32u8] + dec_digits(height) + seq![
        10u8,
        50u8,
        53u8,
        53u8,
        10u8,
    ]
}

/// The bytes of one row of pixels, columns `0 .. i_count`, and the state
/// after tracing them.
pub open spec fn row_spec(
    objs: Seq<crate::hittable::Hittable>,
    mats: Seq<Material>,
    cam: Camera,
    j: int,
    i_count: int,
    width: int,
    height: int,
    spp: int,
    max_depth: int,
    s: u64,
) -> (Seq<u8>, u64)
    decreases i_count,
{
    if i_count <= 0 {
        (Seq::empty(), s)
    } else {
        let prev = row_spec(objs, mats, cam, j, i_count - 1, width, height, spp, max_depth, s);
        let px = pixel_color_spec(
            objs,
            mats,
            cam,
            i_count - 1,
            j,
            width,
            height,
            spp,
            max_depth,
            prev.1,
        );
        (
            prev.0 + pixel_line_spec(
                px.0.red.raw as int,
                px.0.green.raw as int,
                px.0.blue.raw as int,
                spp * (SCALE as int),
            ),
            px.1,
        )
    }
}

/// The bytes of the bottom `j_count` rows still to be written have not
/// been produced yet; this is the fold over the rows already written,
/// top row first: row `height - 1` down to `height - j_count`.
pub open spec fn rows_spec(
    objs: Seq<crate::hittable::Hittable>,
    mats: Seq<Material>,
    cam: Camera,
    j_count: int,
    width: int,
    height: int,
    spp: int,
    max_depth: int,
    s: u64,
) -> (Seq<u8>, u64)
    decreases j_count,
{
    if j_count <= 0 {
        (Seq::empty(), s)
    } else {
        let prev = rows_spec(objs, mats, cam, j_count - 1, width, height, spp, max_depth, s);
        let row = row_spec(
            objs,
            mats,
            cam,
            height - j_count,
            width,
            width,
            height,
            spp,
            max_depth,
            prev.1,
        );
        (prev.0 + row.0, row.1)
    }
}

/// The full pixel stream: header plus every row, top row first.
pub open spec fn render_spec(
    objs: Seq<crate::hittable::Hittable>,
    mats: Seq<Material>,
    cam: Camera,
    width: int,
    height: int,
    spp: int,
    max_depth: int,
    s: u64,
) -> (Seq<u8>, u64) {
    let rows = rows_spec(objs, mats, cam, height, width, height, spp, max_depth, s);
    (ppm_header_spec(width, height) + rows.0, rows.1)
}

/// One row of the image, executably.
pub fn render_row(
    world: &HittableVec,
    materials: &Vec<Material>,
    camera: &Camera,
    j: u32,
    image_width: u32,
    image_height: u32,
    samples_per_pixel: u32,
    max_depth: i32,
    rng: &mut Rng,
) -> (out: Vec<u8>)
    requires
        hv_shape_wf(*world),
        hv_mat_bound(*world, materials@.len() as int),
        forall|k: int| 0 <= k < materials@.len() ==> material_wf(#[trigger] materials@[k]),
        cam_wf(*camera),
        2 <= image_width <= 20000,
        2 <= image_height <= 20000,
        1 <= samples_per_pixel <= 10000,
        j < image_height,
    ensures
        ({
            let pair = row_spec(
                world.objects@,
                materials@,
                *camera,
                j as int,
                image_width as int,
                image_width as int,
                image_height as int,
                samples_per_pixel as int,
                max_depth as int,
                old(rng).state,
            );
            out@ == pair.0 && final (rng).state == pair.1
        }),
{
    let mut out: Vec<u8> = Vec::new();
    let mut i: u32 = 0;
    let spp_fx = Fx::from_int(samples_per_pixel as i64);
    while i < image_width
        invariant
            hv_shape_wf(*world),
            hv_mat_bound(*world, materials@.len() as int),
            forall|k: int| 0 <= k < materials@.len() ==> material_wf(#[trigger] materials@[k]),
            cam_wf(*camera),
            2 <= image_width <= 20000,
            2 <= image_height <= 20000,
            1 <= samples_per_pixel <= 10000,
            j < image_height,
            0 <= i <= image_width,
            spp_fx.raw == samples_per_pixel * (SCALE as int),
            ({
                let pair = row_spec(
                    world.objects@,
                    materials@,
                    *camera,
                    j as int,
                    i as int,
                    image_width as int,
                    image_height as int,
                    samples_per_pixel as int,
                    max_depth as int,
                    old(rng).state,
                );
                out@ == pair.0 && rng.state == pair.1
            }),
        decreases image_width - i,
    {
        let px = pixel_color(
            world,
            materials,
            camera,
            i,
            j,
            image_width,
            image_height,
            samples_per_pixel,
            max_depth,
            rng,
        );
        proof {
            crate::vector3::lemma_fx_div_bound(
                px.red.raw as int,
                spp_fx.raw as int,
                0x1_0000_0000,
            );
            crate::vector3::lemma_fx_div_bound(
                px.green.raw as int,
                spp_fx.raw as int,
                0x1_0000_0000,
            );
            crate::vector3::lemma_fx_div_bound(
                px.blue.raw as int,
                spp_fx.raw as int,
                0x1_0000_0000,
            );
        }
        let line = px.write(spp_fx);
        let ghost out_snap = out@;
        let mut k: usize = 0;
        while k < line.len()
            invariant
                0 <= k <= line@.len(),
                out@ == out_snap + line@.take(k as int),
            decreases line@.len() - k,
        {
            let b = line[k];
            out.push(b);
            proof {
                assert(line@.take(k + 1) =~= line@.take(k as int).push(line@[k as int]));
            }
            k = k + 1;
        }
        proof {
            assert(line@.take(line@.len() as int) =~= line@);
        }
        i = i + 1;
    }
    out
}

/// The whole image as the bytes of the pixel stream.
#[verifier::rlimit(80)]
pub fn render(
    world: &HittableVec,
    materials: &Vec<Material>,
    camera: &Camera,
    image_width: u32,
    image_height: u32,
    samples_per_pixel: u32,
    max_depth: i32,
    rng: &mut Rng,
) -> (out: Vec<u8>)
    requires
        hv_shape_wf(*world),
        hv_mat_bound(*world, materials@.len() as int),
        forall|k: int| 0 <= k < materials@.len() ==> material_wf(#[trigger] materials@[k]),
        cam_wf(*camera),
        2 <= image_width <= 20000,
        2 <= image_height <= 20000,
        1 <= samples_per_pixel <= 10000,
    ensures
        ({
            let pair = render_spec(
                world.objects@,
                materials@,
                *camera,
                image_width as int,
                image_height as int,
                samples_per_pixel as int,
                max_depth as int,
                old(rng).state,
            );
            out@ == pair.0 && final (rng).state == pair.1
        }),
{
    let mut out: Vec<u8> = Vec::new();
    out.push(80u8);
    out.push(51u8);
    out.push(10u8);
    push_dec(&mut out, image_width);
    out.push(32u8);
    push_dec(&mut out, image_height);
    out.push(10u8);
    out.push(50u8);
    out.push(53u8);
    out.push(53u8);
    out.push(10u8);
    proof {
        assert(out@ =~= ppm_header_spec(image_width as int, image_height as int));
    }
    let mut j: u32 = image_height;
    while j > 0
        invariant
            hv_shape_wf(*world),
            hv_mat_bound(*world, materials@.len() as int),
            forall|k: int| 0 <= k < materials@.len() ==> material_wf(#[trigger] materials@[k]),
            cam_wf(*camera),
            2 <= image_width <= 20000,
            2 <= image_height <= 20000,
            1 <= samples_per_pixel <= 10000,
            0 <= j <= image_height,
            ({
                let pair = rows_spec(
                    world.objects@,
                    materials@,
                    *camera,
                    image_height - j,
                    image_width as int,
                    image_height as int,
                    samples_per_pixel as int,
                    max_depth as int,
                    old(rng).state,
                );
                out@ == ppm_header_spec(image_width as int, image_height as int) + pair.0
                    && rng.state == pair.1
            }),
        decreases j,
    {
        let row = render_row(
            world,
            materials,
            camera,
            j - 1,
            image_width,
            image_height,
            samples_per_pixel,
            max_depth,
            rng,
        );
        let ghost out_snap = out@;
        let mut k: usize = 0;
        while k < row.len()
            invariant
                0 <= k <= row@.len(),
                out@ == out_snap + row@.take(k as int),
            decreases row@.len() - k,
        {
            let b = row[k];
            out.push(b);
            proof {
                assert(row@.take(k + 1) =~= row@.take(k as int).push(row@[k as int]));
            }
            k = k + 1;
        }
        proof {
            assert(row@.take(row@.len() as int) =~= row@);
        }
        j = j - 1;
    }
    out
}


/// With no bounces left the shader returns black, whatever the scene
/// holds, and leaves the generator untouched.
pub proof fn lemma_ray_color_depth_zero(
    r: Ray,
    objs: Seq<crate::hittable::Hittable>,
    mats: Seq<Material>,
    depth: int,
    s: u64,
)
    requires
        depth <= 0,
    ensures
        ray_color_spec(r, objs, mats, depth, s) == (black_spec(), s),
{
}

} // verus!
