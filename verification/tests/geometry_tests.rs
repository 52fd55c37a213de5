//! Bounding boxes, rectangles, cubes and rotations.

use raytracer::bounding_box::BoundingBox;
use raytracer::fx::Fx;
use raytracer::fx::SCALE;
use raytracer::hittable::Hittable;
use raytracer::point::Point;
use raytracer::ray::Ray;
use raytracer::rect::Rect;
use raytracer::rect::RectType;
use raytracer::rotated::Rotated;
use raytracer::vector3::Vector3;

fn p(x: i64, y: i64, z: i64) -> Point {
    Point::new(Fx::from_int(x), Fx::from_int(y), Fx::from_int(z))
}

fn dir(x: i64, y: i64, z: i64) -> Vector3 {
    Vector3::new(Fx::from_int(x), Fx::from_int(y), Fx::from_int(z))
}

#[test]
fn box_hit_and_miss() {
    let bb = BoundingBox::new(p(-1, -1, -1), p(1, 1, 1));
    let towards = Ray::new(p(0, 0, 5), dir(0, 0, -1));
    assert!(bb.hit(&towards, Fx::zero(), Fx::from_int(100)));
    let away = Ray::new(p(0, 0, 5), dir(0, 0, 1));
    assert!(!bb.hit(&away, Fx::zero(), Fx::from_int(100)));
    let sideways = Ray::new(p(5, 0, 5), dir(0, 0, -1));
    assert!(!bb.hit(&sideways, Fx::zero(), Fx::from_int(100)));
}

#[test]
fn box_hit_parallel_ray() {
    let bb = BoundingBox::new(p(-1, -1, -1), p(1, 1, 1));
    // parallel to the x slab, origin inside it
    let inside = Ray::new(p(0, 0, 5), dir(0, 0, -1));
    assert!(bb.hit(&inside, Fx::zero(), Fx::from_int(100)));
    // parallel to the x slab, origin outside it
    let outside = Ray::new(p(3, 0, 5), dir(0, 0, -1));
    assert!(!bb.hit(&outside, Fx::zero(), Fx::from_int(100)));
}

#[test]
fn surrounding_box_takes_componentwise_extremes() {
    let a = BoundingBox::new(p(-1, 0, 2), p(1, 2, 4));
    let b = BoundingBox::new(p(0, -3, 3), p(2, 1, 6));
    let u = BoundingBox::surrounding_box(&a, &b);
    assert_eq!(u.minimum.x.raw, -SCALE);
    assert_eq!(u.minimum.y.raw, -3 * SCALE);
    assert_eq!(u.minimum.z.raw, 2 * SCALE);
    assert_eq!(u.maximum.x.raw, 2 * SCALE);
    assert_eq!(u.maximum.y.raw, 2 * SCALE);
    assert_eq!(u.maximum.z.raw, 6 * SCALE);
}

#[test]
fn union_box_never_misses_what_a_part_reports() {
    let a = BoundingBox::new(p(-1, -1, -1), p(1, 1, 1));
    let b = BoundingBox::new(p(10, 10, 10), p(12, 12, 12));
    let u = BoundingBox::surrounding_box(&a, &b);
    let rays = [
        Ray::new(p(0, 0, 5), dir(0, 0, -1)),
        Ray::new(p(11, 11, 20), dir(0, 0, -1)),
        Ray::new(p(-5, 0, 0), dir(1, 0, 0)),
    ];
    for r in rays {
        let t0 = Fx::zero();
        let t1 = Fx::from_int(1000);
        if a.hit(&r, t0, t1) || b.hit(&r, t0, t1) {
            assert!(u.hit(&r, t0, t1));
        }
    }
}

#[test]
fn area_and_longest_axis() {
    let bb = BoundingBox::new(p(0, 0, 0), p(3, 1, 2));
    // 2 (3*1 + 1*2 + 3*2) = 22
    assert_eq!(bb.area().raw, 22 * SCALE);
    assert_eq!(bb.longest_axis(), 0);
    let tall = BoundingBox::new(p(0, 0, 0), p(1, 5, 2));
    assert_eq!(tall.longest_axis(), 1);
    let deep = BoundingBox::new(p(0, 0, 0), p(1, 1, 2));
    assert_eq!(deep.longest_axis(), 2);
}

#[test]
fn rect_hit_gives_t_uv_and_normal() {
    // the xy rectangle [0,2]x[0,2] at z = -3
    let rect = Rect::new(
        Fx::zero(),
        Fx::from_int(2),
        Fx::zero(),
        Fx::from_int(2),
        Fx::from_int(-3),
        RectType::XYrect,
        0,
    );
    let r = Ray::new(p(1, 1, 0), dir(0, 0, -1));
    let rec = rect.hit(&r, Fx::zero(), Fx::from_int(100)).unwrap();
    assert_eq!(rec.t.raw, 3 * SCALE);
    assert_eq!((rec.point.x.raw, rec.point.y.raw, rec.point.z.raw), (SCALE, SCALE, -3 * SCALE));
    assert_eq!(rec.u.raw, SCALE / 2);
    assert_eq!(rec.v.raw, SCALE / 2);
    // the outward normal +z faces the incoming ray
    assert!(rec.front_face);
    assert_eq!((rec.normal.x.raw, rec.normal.y.raw, rec.normal.z.raw), (0, 0, SCALE));
}

#[test]
fn rect_misses_outside_and_parallel() {
    let rect = Rect::new(
        Fx::zero(),
        Fx::from_int(2),
        Fx::zero(),
        Fx::from_int(2),
        Fx::from_int(-3),
        RectType::XYrect,
        0,
    );
    let outside = Ray::new(p(5, 5, 0), dir(0, 0, -1));
    assert!(rect.hit(&outside, Fx::zero(), Fx::from_int(100)).is_none());
    let parallel = Ray::new(p(1, 1, 0), dir(1, 0, 0));
    assert!(rect.hit(&parallel, Fx::zero(), Fx::from_int(100)).is_none());
}

#[test]
fn rect_bounding_box_is_thin() {
    let rect = Rect::new(
        Fx::zero(),
        Fx::from_int(2),
        Fx::zero(),
        Fx::from_int(2),
        Fx::from_int(-3),
        RectType::XYrect,
        0,
    );
    let bb = rect.bounding_box().unwrap();
    assert_eq!(bb.minimum.z.raw, -3 * SCALE - 1);
    assert_eq!(bb.maximum.z.raw, -3 * SCALE + 1);
    assert_eq!(bb.minimum.x.raw, 0);
    assert_eq!(bb.maximum.y.raw, 2 * SCALE);
}

#[test]
fn cube_hit_takes_nearest_face() {
    let cube = raytracer::cube::Cube::new(p(-1, -1, -3), p(1, 1, -1), 0);
    let r = Ray::new(p(0, 0, 0), dir(0, 0, -1));
    let rec = cube.hit(&r, Fx::zero(), Fx::from_int(100)).unwrap();
    // the near face sits at z = -1
    assert_eq!(rec.t.raw, SCALE);
    assert_eq!(rec.point.z.raw, -SCALE);
    assert!(rec.front_face);
    assert_eq!((rec.normal.x.raw, rec.normal.y.raw, rec.normal.z.raw), (0, 0, SCALE));
    let bb = cube.bounding_box().unwrap();
    assert_eq!(bb.minimum.z.raw, -3 * SCALE);
    assert_eq!(bb.maximum.z.raw, -SCALE);
}

#[test]
fn identity_rotation_preserves_hits() {
    let cube = raytracer::cube::Cube::new(p(-1, -1, -3), p(1, 1, -1), 0);
    let plain_rec = {
        let r = Ray::new(p(0, 0, 0), dir(0, 0, -1));
        cube.hit(&r, Fx::zero(), Fx::from_int(100)).unwrap()
    };
    let wrapped = Rotated::new(
        Hittable::Cube(raytracer::cube::Cube::new(p(-1, -1, -3), p(1, 1, -1), 0)),
        Fx::zero(),
        Fx::one(),
    );
    let obj = Hittable::Rotated(Box::new(wrapped));
    let r = Ray::new(p(0, 0, 0), dir(0, 0, -1));
    let rec = obj.hit(&r, Fx::zero(), Fx::from_int(100)).unwrap();
    assert_eq!(rec.t.raw, plain_rec.t.raw);
    assert_eq!(rec.point.z.raw, plain_rec.point.z.raw);
    assert_eq!(rec.normal.z.raw, plain_rec.normal.z.raw);
}

#[test]
fn quarter_turn_rotation_moves_geometry() {
    // a cube ahead on the -z axis, rotated a quarter turn about y, moves
    // to the -x side: sin 90 = 1, cos 90 = 0
    let cube = raytracer::cube::Cube::new(p(-1, -1, -4), p(1, 1, -2), 0);
    let wrapped = Rotated::new(Hittable::Cube(cube), Fx::one(), Fx::zero());
    let obj = Hittable::Rotated(Box::new(wrapped));
    let towards_minus_x = Ray::new(p(0, 0, 0), dir(-1, 0, 0));
    assert!(obj.hit(&towards_minus_x, Fx::zero(), Fx::from_int(100)).is_some());
    let towards_minus_z = Ray::new(p(0, 0, 0), dir(0, 0, -1));
    assert!(obj.hit(&towards_minus_z, Fx::zero(), Fx::from_int(100)).is_none());
    // the precomputed box follows the rotation: local z becomes world x
    let bb = obj.bounding_box().unwrap();
    assert_eq!(bb.minimum.x.raw, -4 * SCALE);
    assert_eq!(bb.maximum.x.raw, -2 * SCALE);
    assert_eq!(bb.minimum.z.raw, -SCALE);
    assert_eq!(bb.maximum.z.raw, SCALE);
}
