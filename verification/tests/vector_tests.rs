//! Vectors: dot, cross, length, normalisation, reflection, refraction,
//! and the sampling helpers.

use raytracer::fx::Fx;
use raytracer::fx::SCALE;
use raytracer::utility::Rng;
use raytracer::vector3::Vector3;

fn v(x: i64, y: i64, z: i64) -> Vector3 {
    Vector3::new(Fx::from_raw(x), Fx::from_raw(y), Fx::from_raw(z))
}

#[test]
fn length_squared_equals_dot() {
    let samples = [
        v(10000, 20000, 20000),
        v(-5000, 2, 7),
        v(0, 0, 0),
        v(123456, -98765, 4321),
    ];
    for s in samples {
        assert_eq!(s.length_squared().raw, Vector3::dot(&s, &s).raw);
    }
}

#[test]
fn unit_vector_has_length_about_one() {
    // (1, 2, 2) has length exactly 3
    let a = v(10000, 20000, 20000);
    let ua = Vector3::unit_vector(&a);
    assert!((ua.length().raw - SCALE).abs() <= 5);
    // (1, 1, 0) has an irrational length; the result is within a few steps
    let b = v(10000, 10000, 0);
    let ub = Vector3::unit_vector(&b);
    assert!((ub.length().raw - SCALE).abs() <= 5);
    // an axis vector of whole length normalises exactly
    let c = v(70000, 0, 0);
    let uc = Vector3::unit_vector(&c);
    assert_eq!(uc.x.raw, SCALE);
    assert_eq!(uc.length().raw, SCALE);
}

#[test]
fn dot_and_cross_values() {
    let a = v(10000, 0, 0);
    let b = v(0, 10000, 0);
    assert_eq!(Vector3::dot(&a, &b).raw, 0);
    let c = Vector3::cross(&a, &b);
    assert_eq!((c.x.raw, c.y.raw, c.z.raw), (0, 0, 10000));
    let d = v(20000, 30000, 40000);
    let e = v(10000, 10000, 10000);
    // 2*1 + 3*1 + 4*1 = 9
    assert_eq!(Vector3::dot(&d, &e).raw, 90000);
}

#[test]
fn arithmetic_componentwise() {
    let a = v(1, 2, 3);
    let b = v(10, 20, 30);
    let s = a.add(b);
    assert_eq!((s.x.raw, s.y.raw, s.z.raw), (11, 22, 33));
    let d = b.sub(a);
    assert_eq!((d.x.raw, d.y.raw, d.z.raw), (9, 18, 27));
    let n = a.neg();
    assert_eq!((n.x.raw, n.y.raw, n.z.raw), (-1, -2, -3));
    let m = b.mul(Fx::from_int(2));
    assert_eq!((m.x.raw, m.y.raw, m.z.raw), (20, 40, 60));
    let q = b.div(Fx::from_int(2));
    assert_eq!((q.x.raw, q.y.raw, q.z.raw), (5, 10, 15));
}

#[test]
fn near_zero_only_for_zero() {
    assert!(v(0, 0, 0).near_zero());
    assert!(!v(1, 0, 0).near_zero());
    assert!(!v(0, 0, -1).near_zero());
}

#[test]
fn reflect_about_axis_normal() {
    let n = v(0, 10000, 0);
    let a = v(10000, -10000, 0);
    let r = Vector3::reflect(&a, &n);
    assert_eq!((r.x.raw, r.y.raw, r.z.raw), (10000, 10000, 0));
    // reflecting twice returns the original exactly
    let rr = Vector3::reflect(&r, &n);
    assert_eq!((rr.x.raw, rr.y.raw, rr.z.raw), (a.x.raw, a.y.raw, a.z.raw));
}

#[test]
fn reflect_twice_about_general_normal_is_close() {
    // a normal not aligned with any axis: rounding may move the result a
    // few steps, never more
    let n = v(6000, 8000, 0);
    let a = v(3000, -7000, 2000);
    let r = Vector3::reflect(&a, &n);
    let rr = Vector3::reflect(&r, &n);
    assert!((rr.x.raw - a.x.raw).abs() <= 16);
    assert!((rr.y.raw - a.y.raw).abs() <= 16);
    assert!((rr.z.raw - a.z.raw).abs() <= 16);
}

#[test]
fn refract_straight_through_vacuum() {
    // normal incidence with ratio one: direction unchanged
    let n = v(0, 0, 10000);
    let uv = v(0, 0, -10000);
    let r = Vector3::refract(&uv, &n, Fx::one());
    assert_eq!((r.x.raw, r.y.raw, r.z.raw), (0, 0, -10000));
}

#[test]
fn refract_bends_towards_surface() {
    // entering a denser medium at 45 degrees: the direction bends towards
    // the normal, so the tangential part shrinks
    let n = v(0, 0, 10000);
    let uv = v(7071, 0, -7071);
    let ratio = Fx::from_raw(6667); // about 1/1.5
    let r = Vector3::refract(&uv, &n, ratio);
    assert!(r.x.raw > 0 && r.x.raw < uv.x.raw);
    assert!(r.z.raw < 0);
}

#[test]
fn random_samples_stay_inside_their_regions() {
    let mut rng = Rng::new(9);
    for _ in 0..20 {
        let s = Vector3::random_in_unit_sphere(&mut rng);
        let lsq = s.length_squared().raw;
        assert!(1 <= lsq && lsq < SCALE);
        let u = Vector3::random_unit_vector(&mut rng);
        assert!((u.length().raw - SCALE).abs() <= 120);
        let d = Vector3::random_in_unit_disk(&mut rng);
        assert_eq!(d.z.raw, 0);
        assert!(d.length_squared().raw < SCALE);
    }
}

#[test]
fn hemisphere_sample_faces_normal() {
    let n = v(0, 10000, 0);
    let mut rng = Rng::new(11);
    for _ in 0..20 {
        let h = Vector3::random_in_hemisphere(&mut rng, &n);
        assert!(Vector3::dot(&h, &n).raw >= 0);
    }
}

#[test]
fn new_random_range_is_deterministic() {
    let mut a = Rng::new(5);
    let mut b = Rng::new(5);
    let va = Vector3::new_random_range(&mut a, Fx::from_int(-1), Fx::one());
    let vb = Vector3::new_random_range(&mut b, Fx::from_int(-1), Fx::one());
    assert_eq!((va.x.raw, va.y.raw, va.z.raw), (vb.x.raw, vb.y.raw, vb.z.raw));
    assert!(va.x.raw >= -SCALE && va.x.raw <= SCALE);
}
