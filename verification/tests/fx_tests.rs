//! The fixed-point scalar: exact arithmetic, rounding, square roots.

use raytracer::fx::Fx;
use raytracer::fx::SCALE;
use raytracer::utility::clamp;
use raytracer::utility::degrees_to_radians;
use raytracer::utility::Rng;
use raytracer::utility::PI_RAW;

#[test]
fn from_int_scales() {
    assert_eq!(Fx::from_int(3).raw, 3 * SCALE);
    assert_eq!(Fx::from_int(-2).raw, -2 * SCALE);
    assert_eq!(Fx::zero().raw, 0);
    assert_eq!(Fx::one().raw, SCALE);
}

#[test]
fn add_sub_neg_exact() {
    let a = Fx::from_raw(12345);
    let b = Fx::from_raw(-2345);
    assert_eq!(a.add(b).raw, 10000);
    assert_eq!(a.sub(b).raw, 14690);
    assert_eq!(b.neg().raw, 2345);
    assert_eq!(a.abs().raw, 12345);
    assert_eq!(b.abs().raw, 2345);
}

#[test]
fn mul_rounds_towards_negative_infinity() {
    // 1.5 * 2.5 = 3.75 exactly representable
    assert_eq!(Fx::from_raw(15000).mul(Fx::from_raw(25000)).raw, 37500);
    // 0.0001 * 0.5 = 0.00005 floors to 0
    assert_eq!(Fx::from_raw(1).mul(Fx::from_raw(5000)).raw, 0);
    // -0.0001 * 0.5 = -0.00005 floors to -0.0001
    assert_eq!(Fx::from_raw(-1).mul(Fx::from_raw(5000)).raw, -1);
}

#[test]
fn div_rounds_towards_negative_infinity() {
    assert_eq!(Fx::from_int(7).div(Fx::from_int(2)).raw, 35000);
    // 1 / 3 = 0.3333...
    assert_eq!(Fx::one().div(Fx::from_int(3)).raw, 3333);
    // -1 / 3 floors to -0.3334
    assert_eq!(Fx::one().neg().div(Fx::from_int(3)).raw, -3334);
    // division by a negative divisor keeps the floor convention
    assert_eq!(Fx::one().div(Fx::from_int(-3)).raw, -3334);
}

#[test]
fn sqrt_exact_and_floored() {
    assert_eq!(Fx::from_int(4).sqrt().raw, 2 * SCALE);
    assert_eq!(Fx::from_int(9).sqrt().raw, 3 * SCALE);
    assert_eq!(Fx::zero().sqrt().raw, 0);
    // sqrt(2) = 1.41421...
    assert_eq!(Fx::from_int(2).sqrt().raw, 14142);
}

#[test]
fn min_max_compare() {
    let a = Fx::from_raw(5);
    let b = Fx::from_raw(7);
    assert_eq!(a.min(b).raw, 5);
    assert_eq!(a.max(b).raw, 7);
    assert!(a.lt(b));
    assert!(a.le(b));
    assert!(!b.le(a));
}

#[test]
fn clamp_keeps_range() {
    let lo = Fx::zero();
    let hi = Fx::one();
    assert_eq!(clamp(Fx::from_raw(-5), lo, hi).raw, 0);
    assert_eq!(clamp(Fx::from_raw(5000), lo, hi).raw, 5000);
    assert_eq!(clamp(Fx::from_raw(20000), lo, hi).raw, SCALE);
}

#[test]
fn degrees_to_radians_matches_pi() {
    assert_eq!(degrees_to_radians(Fx::from_int(180)).raw, PI_RAW);
    assert_eq!(degrees_to_radians(Fx::from_int(90)).raw, PI_RAW / 2);
    assert_eq!(degrees_to_radians(Fx::zero()).raw, 0);
}

#[test]
fn rng_is_deterministic_and_in_range() {
    let mut a = Rng::new(42);
    let mut b = Rng::new(42);
    for _ in 0..100 {
        let x = a.rand();
        let y = b.rand();
        assert_eq!(x.raw, y.raw);
        assert!(0 <= x.raw && x.raw < SCALE);
    }
    let mut c = Rng::new(43);
    let mut any_diff = false;
    let mut a2 = Rng::new(42);
    for _ in 0..10 {
        if c.rand().raw != a2.rand().raw {
            any_diff = true;
        }
    }
    assert!(any_diff);
}

#[test]
fn rand_range_spans_interval() {
    let mut rng = Rng::new(7);
    for _ in 0..50 {
        let x = rng.rand_range(Fx::from_int(-1), Fx::one());
        assert!(-SCALE <= x.raw && x.raw <= SCALE);
    }
}
