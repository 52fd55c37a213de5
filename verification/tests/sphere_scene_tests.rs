//! Spheres, hit records, and the closest-hit scan over a scene.

use raytracer::fx::Fx;
use raytracer::fx::SCALE;
use raytracer::hittable::Hittable;
use raytracer::hittable_vec::HittableVec;
use raytracer::point::Point;
use raytracer::ray::Ray;
use raytracer::sphere::not_intersecting_with_big_spheres;
use raytracer::sphere::Sphere;
use raytracer::vector3::Vector3;

fn p(x: i64, y: i64, z: i64) -> Point {
    Point::new(Fx::from_int(x), Fx::from_int(y), Fx::from_int(z))
}

fn dir(x: i64, y: i64, z: i64) -> Vector3 {
    Vector3::new(Fx::from_int(x), Fx::from_int(y), Fx::from_int(z))
}

#[test]
fn sphere_hit_is_exact_for_round_numbers() {
    let s = Sphere::new(p(0, 0, -2), Fx::from_raw(5000), 3);
    let r = Ray::new(p(0, 0, 0), dir(0, 0, -1));
    let rec = s.hit(&r, Fx::zero(), Fx::from_int(100)).unwrap();
    assert_eq!(rec.t.raw, 15000);
    assert_eq!((rec.point.x.raw, rec.point.y.raw, rec.point.z.raw), (0, 0, -15000));
    assert!(rec.front_face);
    assert_eq!((rec.normal.x.raw, rec.normal.y.raw, rec.normal.z.raw), (0, 0, SCALE));
    assert_eq!(rec.material, 3);
}

#[test]
fn sphere_hit_point_lies_on_the_surface() {
    let center = p(1, 2, -5);
    let radius = Fx::from_raw(15000);
    let s = Sphere::new(center, radius, 0);
    let r = Ray::new(p(0, 0, 0), dir(1, 2, -5));
    let rec = s.hit(&r, Fx::zero(), Fx::from_int(100)).unwrap();
    let offset = rec.point.sub(center);
    // |point - center| is the radius, within a few rounding steps
    assert!((offset.length().raw - radius.raw).abs() <= 20);
    // the stored normal faces against the incoming ray
    assert!(Vector3::dot(&r.direction, &rec.normal).raw <= 0);
}

#[test]
fn sphere_from_inside_flips_the_normal() {
    let s = Sphere::new(p(0, 0, 0), Fx::from_int(2), 0);
    let r = Ray::new(p(0, 0, 0), dir(0, 0, -1));
    let rec = s.hit(&r, Fx::zero(), Fx::from_int(100)).unwrap();
    assert!(!rec.front_face);
    // the outward normal at the hit is -z, stored flipped to +z
    assert_eq!((rec.normal.x.raw, rec.normal.y.raw, rec.normal.z.raw), (0, 0, SCALE));
    assert!(Vector3::dot(&r.direction, &rec.normal).raw <= 0);
}

#[test]
fn sphere_miss_and_range_rejection() {
    let s = Sphere::new(p(0, 0, -5), Fx::one(), 0);
    let wide = Ray::new(p(0, 3, 0), dir(0, 0, -1));
    assert!(s.hit(&wide, Fx::zero(), Fx::from_int(100)).is_none());
    let towards = Ray::new(p(0, 0, 0), dir(0, 0, -1));
    // the hit at t = 4 is outside [0, 2]
    assert!(s.hit(&towards, Fx::zero(), Fx::from_int(2)).is_none());
    assert!(s.hit(&towards, Fx::zero(), Fx::from_int(100)).is_some());
}

#[test]
fn sphere_bounding_box_wraps_the_sphere() {
    let s = Sphere::new(p(1, 1, 1), Fx::from_int(2), 0);
    let bb = s.bounding_box().unwrap();
    assert_eq!(bb.minimum.x.raw, -SCALE);
    assert_eq!(bb.maximum.x.raw, 3 * SCALE);
}

#[test]
fn scene_returns_the_nearer_sphere() {
    // two spheres straight ahead: the nearer one's material is chosen
    let mut world = HittableVec::new();
    world.push(Hittable::Sphere(Sphere::new(p(0, 0, -10), Fx::one(), 7)));
    world.push(Hittable::Sphere(Sphere::new(p(0, 0, -4), Fx::one(), 2)));
    let r = Ray::new(p(0, 0, 0), dir(0, 0, -1));
    let rec = world.hit(&r, Fx::zero(), Fx::from_int(100)).unwrap();
    assert_eq!(rec.material, 2);
    assert_eq!(rec.t.raw, 3 * SCALE);

    // the same scene with the members swapped gives the same answer
    let mut world2 = HittableVec::new();
    world2.push(Hittable::Sphere(Sphere::new(p(0, 0, -4), Fx::one(), 2)));
    world2.push(Hittable::Sphere(Sphere::new(p(0, 0, -10), Fx::one(), 7)));
    let rec2 = world2.hit(&r, Fx::zero(), Fx::from_int(100)).unwrap();
    assert_eq!(rec2.material, 2);
    assert_eq!(rec2.t.raw, 3 * SCALE);
}

#[test]
fn empty_scene_reports_nothing() {
    let world = HittableVec::new();
    let r = Ray::new(p(0, 0, 0), dir(0, 0, -1));
    assert!(world.hit(&r, Fx::zero(), Fx::from_int(100)).is_none());
    assert!(world.bounding_box().is_none());
}

#[test]
fn scene_bounding_box_folds_members() {
    let mut world = HittableVec::new();
    world.push(Hittable::Sphere(Sphere::new(p(0, 0, 0), Fx::one(), 0)));
    world.push(Hittable::Sphere(Sphere::new(p(5, 0, 0), Fx::one(), 0)));
    let bb = world.bounding_box().unwrap();
    assert_eq!(bb.minimum.x.raw, -SCALE);
    assert_eq!(bb.maximum.x.raw, 6 * SCALE);
}

#[test]
fn clear_of_spheres_in_the_ground_plane() {
    let big = vec![Sphere::new(p(4, 1, 0), Fx::one(), 0)];
    // far away: clear
    assert!(not_intersecting_with_big_spheres(&p(0, 0, 4), Fx::from_raw(2000), &big));
    // overlapping in x-z: not clear
    assert!(!not_intersecting_with_big_spheres(&p(4, 0, 0), Fx::from_raw(2000), &big));
    // an empty list is always clear
    let none: Vec<Sphere> = vec![];
    assert!(not_intersecting_with_big_spheres(&p(0, 0, 0), Fx::one(), &none));
}

#[test]
fn ray_at_walks_the_ray() {
    let r = Ray::new(p(1, 2, 3), dir(0, 0, -2));
    let q = r.at(Fx::from_raw(5000));
    assert_eq!((q.x.raw, q.y.raw, q.z.raw), (SCALE, 2 * SCALE, 2 * SCALE));
    assert_eq!(r.origin().x.raw, SCALE);
    assert_eq!(r.direction().z.raw, -2 * SCALE);
}
