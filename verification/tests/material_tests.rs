//! The scatter models: diffuse, reflective, refractive.

use raytracer::color::Color;
use raytracer::dielectric::Dielectric;
use raytracer::fx::Fx;
use raytracer::fx::SCALE;
use raytracer::hittable::HitRecord;
use raytracer::lambertian::Lambertian;
use raytracer::material::Material;
use raytracer::metal::Metal;
use raytracer::point::Point;
use raytracer::ray::Ray;
use raytracer::utility::Rng;
use raytracer::vector3::Vector3;

fn p(x: i64, y: i64, z: i64) -> Point {
    Point::new(Fx::from_int(x), Fx::from_int(y), Fx::from_int(z))
}

fn dir(x: i64, y: i64, z: i64) -> Vector3 {
    Vector3::new(Fx::from_int(x), Fx::from_int(y), Fx::from_int(z))
}

fn record_at(point: Point, normal: Vector3, front: bool) -> HitRecord {
    HitRecord::new(point, normal, Fx::one(), front, 0)
}

#[test]
fn lambertian_always_scatters_with_albedo() {
    let albedo = Color::new(Fx::from_raw(5000), Fx::from_raw(5000), Fx::from_raw(5000));
    let mat = Lambertian::new(albedo);
    let rec = record_at(p(0, 0, -1), dir(0, 1, 0), true);
    let incoming = Ray::new(p(0, 0, 0), dir(0, 0, -1));
    let mut rng = Rng::new(1);
    for _ in 0..10 {
        let sr = mat.scatter(&incoming, &rec, &mut rng);
        assert!(sr.success);
        assert_eq!(sr.attenuation.red.raw, 5000);
        // the bounce starts at the hit point
        assert_eq!(sr.scattered.origin.y.raw, rec.point.y.raw);
        // normal plus a unit sample always points somewhere
        assert!(!sr.scattered.direction.near_zero());
    }
}

#[test]
fn metal_without_fuzz_reflects_exactly() {
    let albedo = Color::new(Fx::one(), Fx::one(), Fx::one());
    let mat = Metal::new(albedo, Fx::zero());
    let rec = record_at(p(0, 0, -1), dir(0, 1, 0), true);
    // a unit incoming direction going down and forward
    let incoming = Ray::new(p(0, -1, 0), Vector3::new(Fx::zero(), Fx::from_raw(-10000), Fx::zero()));
    let mut rng = Rng::new(1);
    let sr = mat.scatter(&incoming, &rec, &mut rng);
    assert!(sr.success);
    // straight down reflects straight up
    assert_eq!(
        (sr.scattered.direction.x.raw, sr.scattered.direction.y.raw, sr.scattered.direction.z.raw),
        (0, SCALE, 0),
    );
}

#[test]
fn metal_absorbs_rays_into_the_surface() {
    let albedo = Color::new(Fx::one(), Fx::one(), Fx::one());
    // full fuzz can push a grazing reflection under the surface; instead
    // check the reported flag on a degenerate, unnormalisable direction
    let mat = Metal::new(albedo, Fx::one());
    let rec = record_at(p(0, 0, -1), dir(0, 1, 0), true);
    let too_short = Ray::new(p(0, 0, 0), Vector3::new(Fx::from_raw(1), Fx::zero(), Fx::zero()));
    let mut rng = Rng::new(1);
    let sr = mat.scatter(&too_short, &rec, &mut rng);
    assert!(!sr.success);
}

#[test]
fn dielectric_vacuum_at_normal_incidence_goes_straight() {
    let mat = Dielectric::new(Fx::one());
    let normal = Vector3::new(Fx::zero(), Fx::zero(), Fx::one());
    let rec = record_at(p(0, 0, -1), normal, true);
    let incoming = Ray::new(p(0, 0, 0), Vector3::new(Fx::zero(), Fx::zero(), Fx::from_raw(-10000)));
    for seed in 0..20u64 {
        let mut rng = Rng::new(seed);
        let sr = mat.scatter(&incoming, &rec, &mut rng);
        assert!(sr.success);
        // glass absorbs nothing
        assert_eq!(sr.attenuation.blue.raw, SCALE);
        // the direction passes through unchanged, whatever was drawn
        assert_eq!(
            (
                sr.scattered.direction.x.raw,
                sr.scattered.direction.y.raw,
                sr.scattered.direction.z.raw,
            ),
            (0, 0, -10000),
        );
    }
}

#[test]
fn dielectric_reflects_on_total_internal_reflection() {
    // leaving glass at a grazing angle: refraction is impossible
    let mat = Dielectric::new(Fx::from_raw(15000));
    let normal = Vector3::new(Fx::zero(), Fx::zero(), Fx::one());
    // back face: the ratio is the index itself, 1.5
    let rec = record_at(p(0, 0, -1), normal, false);
    let grazing = Ray::new(
        p(0, 0, 0),
        Vector3::new(Fx::from_raw(9000), Fx::zero(), Fx::from_raw(-4359)),
    );
    let mut rng = Rng::new(3);
    let sr = mat.scatter(&grazing, &rec, &mut rng);
    assert!(sr.success);
    // a reflection flips the z component rather than bending through
    assert!(sr.scattered.direction.z.raw > 0);
}

#[test]
fn material_dispatch_matches_variants() {
    let albedo = Color::new(Fx::one(), Fx::zero(), Fx::zero());
    let rec = record_at(p(0, 0, -1), dir(0, 1, 0), true);
    let incoming = Ray::new(p(0, 0, 1), Vector3::new(Fx::zero(), Fx::from_raw(-10000), Fx::zero()));
    let mut rng = Rng::new(5);
    let lam = Material::Lambertian(Lambertian::new(albedo));
    let sr = lam.scatter(&incoming, &rec, &mut rng);
    assert!(sr.success);
    assert_eq!(sr.attenuation.red.raw, SCALE);
    assert_eq!(sr.attenuation.green.raw, 0);
    let met = Material::Metal(Metal::new(albedo, Fx::zero()));
    let sr2 = met.scatter(&incoming, &rec, &mut rng);
    assert_eq!(sr2.scattered.direction.y.raw, SCALE);
}

#[test]
fn scatter_result_new_keeps_fields() {
    let c = Color::new(Fx::one(), Fx::zero(), Fx::one());
    let r = Ray::new(p(0, 0, 0), dir(1, 0, 0));
    let sr = raytracer::material::ScatterResult::new(true, c, r);
    assert!(sr.success);
    assert_eq!(sr.attenuation.blue.raw, SCALE);
    assert_eq!(sr.scattered.direction.x.raw, SCALE);
}
