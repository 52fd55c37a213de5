//! The shader, the pixel format, and the end-to-end render.

use raytracer::camera::Camera;
use raytracer::color::Color;
use raytracer::fx::Fx;
use raytracer::fx::SCALE;
use raytracer::hittable::Hittable;
use raytracer::hittable_vec::HittableVec;
use raytracer::lambertian::Lambertian;
use raytracer::material::Material;
use raytracer::point::Point;
use raytracer::ray::Ray;
use raytracer::render::ray_color;
use raytracer::render::render;
use raytracer::render::render_row;
use raytracer::sphere::Sphere;
use raytracer::utility::Rng;
use raytracer::vector3::Vector3;

fn p(x: i64, y: i64, z: i64) -> Point {
    Point::new(Fx::from_int(x), Fx::from_int(y), Fx::from_int(z))
}

fn dir(x: i64, y: i64, z: i64) -> Vector3 {
    Vector3::new(Fx::from_int(x), Fx::from_int(y), Fx::from_int(z))
}

/// The scene of the regression image: one small diffuse sphere ahead and
/// one large diffuse ground sphere below.
fn two_sphere_scene() -> (HittableVec, Vec<Material>) {
    let mut world = HittableVec::new();
    let grey = Color::new(Fx::from_raw(5000), Fx::from_raw(5000), Fx::from_raw(5000));
    let materials = vec![
        Material::Lambertian(Lambertian::new(grey)),
        Material::Lambertian(Lambertian::new(grey)),
    ];
    world.push(Hittable::Sphere(Sphere::new(p(0, 0, -1), Fx::from_raw(5000), 0)));
    world.push(Hittable::Sphere(Sphere::new(
        Point::new(Fx::zero(), Fx::from_raw(-1_005_000), Fx::from_int(-1)),
        Fx::from_int(100),
        1,
    )));
    (world, materials)
}

fn simple_camera() -> Camera {
    Camera::new(
        p(0, 0, 0),
        p(0, 0, -1),
        dir(0, 1, 0),
        Fx::one(),
        Fx::one(),
        Fx::zero(),
        Fx::one(),
    )
}

#[test]
fn ray_color_with_no_bounces_is_black() {
    let (world, materials) = two_sphere_scene();
    let r = Ray::new(p(0, 0, 0), dir(0, 0, -1));
    let mut rng = Rng::new(7);
    let c = ray_color(&r, &world, &materials, 0, &mut rng);
    assert_eq!((c.red.raw, c.green.raw, c.blue.raw), (0, 0, 0));
    // the generator is untouched
    assert_eq!(rng.state, 7);
}

#[test]
fn ray_color_miss_gives_the_sky_gradient() {
    let world = HittableVec::new();
    let materials: Vec<Material> = vec![];
    let mut rng = Rng::new(7);
    // straight up: the gradient's far end, sky blue
    let up = Ray::new(p(0, 0, 0), dir(0, 1, 0));
    let c = ray_color(&up, &world, &materials, 5, &mut rng);
    assert_eq!((c.red.raw, c.green.raw, c.blue.raw), (5000, 7000, SCALE));
    // straight down: the near end, white
    let down = Ray::new(p(0, 0, 0), dir(0, -1, 0));
    let c2 = ray_color(&down, &world, &materials, 5, &mut rng);
    assert_eq!((c2.red.raw, c2.green.raw, c2.blue.raw), (SCALE, SCALE, SCALE));
}

#[test]
fn ray_color_absorbs_at_the_bounce_limit() {
    let (world, materials) = two_sphere_scene();
    let towards = Ray::new(p(0, 0, 0), dir(0, 0, -1));
    let mut rng = Rng::new(7);
    // depth one: the hit scatters once and the recursion returns black
    let c = ray_color(&towards, &world, &materials, 1, &mut rng);
    assert_eq!((c.red.raw, c.green.raw, c.blue.raw), (0, 0, 0));
}

#[test]
fn camera_rays_start_at_the_eye() {
    let cam = simple_camera();
    assert!(cam.wf_check());
    let mut rng = Rng::new(7);
    let half = Fx::from_raw(5000);
    let r = cam.get_ray(half, half, &mut rng);
    // no aperture: the origin is exactly the eye
    assert_eq!((r.origin.x.raw, r.origin.y.raw, r.origin.z.raw), (0, 0, 0));
    // the centre of the viewport sits straight ahead
    assert_eq!((r.direction.x.raw, r.direction.y.raw), (0, 0));
    assert_eq!(r.direction.z.raw, -SCALE);
}

#[test]
fn render_emits_header_and_pixel_lines() {
    let (world, materials) = two_sphere_scene();
    let cam = simple_camera();
    assert!(cam.wf_check());
    let mut rng = Rng::new(42);
    let out = render(&world, &materials, &cam, 2, 2, 1, 1, &mut rng);
    let text = String::from_utf8(out).unwrap();
    let lines: Vec<&str> = text.lines().collect();
    assert_eq!(lines[0], "P3");
    assert_eq!(lines[1], "2 2");
    assert_eq!(lines[2], "255");
    assert_eq!(lines.len(), 3 + 4);
    for line in &lines[3..] {
        let parts: Vec<&str> = line.split(' ').collect();
        assert_eq!(parts.len(), 3);
        for part in parts {
            let value: u32 = part.parse().unwrap();
            assert!(value <= 255);
        }
    }
}

#[test]
fn render_is_reproducible_for_a_fixed_seed() {
    let (world, materials) = two_sphere_scene();
    let cam = simple_camera();
    let mut rng1 = Rng::new(42);
    let out1 = render(&world, &materials, &cam, 2, 2, 1, 1, &mut rng1);
    let (world2, materials2) = two_sphere_scene();
    let mut rng2 = Rng::new(42);
    let out2 = render(&world2, &materials2, &cam, 2, 2, 1, 1, &mut rng2);
    assert_eq!(out1, out2);
    assert_eq!(rng1.state, rng2.state);
    // a different seed samples differently
    let mut rng3 = Rng::new(43);
    let out3 = render(&world, &materials, &cam, 2, 2, 1, 1, &mut rng3);
    assert!(out1 != out3);
}

#[test]
fn render_golden_image() {
    let (world, materials) = two_sphere_scene();
    let cam = simple_camera();
    let mut rng = Rng::new(42);
    let out = render(&world, &materials, &cam, 2, 2, 1, 1, &mut rng);
    let text = String::from_utf8(out).unwrap();
    assert_eq!(text, "P3\n2 2\n255\n183 215 255\n195 221 255\n0 0 0\n0 0 0\n");
}

#[test]
fn render_rows_compose_the_image() {
    let (world, materials) = two_sphere_scene();
    let cam = simple_camera();
    let mut rng = Rng::new(42);
    let whole = render(&world, &materials, &cam, 2, 2, 1, 1, &mut rng);
    // the same image row by row, top row (j = 1) first
    let mut rng2 = Rng::new(42);
    let mut partwise: Vec<u8> = b"P3\n2 2\n255\n".to_vec();
    let top = render_row(&world, &materials, &cam, 1, 2, 2, 1, 1, &mut rng2);
    partwise.extend_from_slice(&top);
    let bottom = render_row(&world, &materials, &cam, 0, 2, 2, 1, 1, &mut rng2);
    partwise.extend_from_slice(&bottom);
    assert_eq!(whole, partwise);
}

#[test]
fn pixel_lines_quantize_with_gamma() {
    // a full-white accumulated pixel over one sample prints 255s
    let white = Color::new(Fx::one(), Fx::one(), Fx::one());
    let line = white.write(Fx::one());
    assert_eq!(String::from_utf8(line).unwrap(), "255 255 255\n");
    // a quarter-intensity channel gamma-corrects to one half
    let quarter = Color::new(Fx::from_raw(2500), Fx::zero(), Fx::one());
    let line2 = quarter.write(Fx::one());
    assert_eq!(String::from_utf8(line2).unwrap(), "128 0 255\n");
    // averaging over two samples halves the accumulated channel
    let doubled = Color::new(Fx::from_raw(5000), Fx::from_raw(20000), Fx::zero());
    let line3 = doubled.write(Fx::from_int(2));
    assert_eq!(String::from_utf8(line3).unwrap(), "128 255 0\n");
    // a negative accumulated channel prints zero
    let negative = Color::new(Fx::from_raw(-5000), Fx::zero(), Fx::zero());
    let line4 = negative.write(Fx::one());
    assert_eq!(String::from_utf8(line4).unwrap(), "0 0 0\n");
}

#[test]
fn color_arithmetic_is_componentwise() {
    let a = Color::new(Fx::from_raw(1000), Fx::from_raw(2000), Fx::from_raw(3000));
    let b = Color::new(Fx::from_raw(100), Fx::from_raw(200), Fx::from_raw(300));
    let s = a.add(b);
    assert_eq!((s.red.raw, s.green.raw, s.blue.raw), (1100, 2200, 3300));
    let m = a.mul(Fx::from_int(2));
    assert_eq!((m.red.raw, m.green.raw, m.blue.raw), (2000, 4000, 6000));
    let f = a.mul_color(Color::new(Fx::from_raw(5000), Fx::from_raw(5000), Fx::from_raw(5000)));
    assert_eq!((f.red.raw, f.green.raw, f.blue.raw), (500, 1000, 1500));
    let from_v = Color::from_vector(Vector3::new(Fx::one(), Fx::zero(), Fx::one()));
    assert_eq!(from_v.red.raw, SCALE);
    assert_eq!(from_v.green().raw, 0);
    assert_eq!(from_v.blue().raw, SCALE);
}
