//! The fixed-point scalar and vector algebra on concrete values.

use raytrace::fx::{abs_fx, add_fx, div_fx, min_fx, mul_fx, neg_fx, sqrt_fx, sub_fx, SCALE};
use raytrace::interval::Interval;
use raytrace::rand_src::RandSource;
use raytrace::ray::Ray;
use raytrace::vec3::Vec3;

#[test]
fn scalar_products_floor_exactly() {
    // 1.5 * 1.5 == 2.25
    assert_eq!(mul_fx(98304, 98304), 147456);
    // 0.5 * 0.7(floored) == 0.34999... floored
    assert_eq!(mul_fx(32768, 45875), 22937);
    assert_eq!(mul_fx(0, 12345), 0);
    assert_eq!(mul_fx(-98304, 98304), -147456);
}

#[test]
fn scalar_sums_saturate() {
    assert_eq!(add_fx(i64::MAX, 1), i64::MAX);
    assert_eq!(sub_fx(i64::MIN, 1), i64::MIN);
    assert_eq!(neg_fx(i64::MIN), i64::MAX);
    assert_eq!(add_fx(65536, 65536), 131072);
}

#[test]
fn scalar_quotients_floor_exactly() {
    // 1 / 2 == 0.5
    assert_eq!(div_fx(65536, 131072), 32768);
    // (-1) / 2 == -0.5 exactly; flooring keeps it
    assert_eq!(div_fx(-65536, 131072), -32768);
    // 1 / 3 floors
    assert_eq!(div_fx(65536, 196608), 21845);
}

#[test]
fn scalar_sqrt_is_exact_on_squares() {
    // sqrt(2.25) == 1.5
    assert_eq!(sqrt_fx(147456), 98304);
    assert_eq!(sqrt_fx(0), 0);
    // sqrt(1.0) == 1.0
    assert_eq!(sqrt_fx(65536), 65536);
}

#[test]
fn scalar_abs_min() {
    assert_eq!(abs_fx(-5), 5);
    assert_eq!(abs_fx(7), 7);
    assert_eq!(min_fx(3, -4), -4);
}

#[test]
fn vector_dot_cross() {
    let x = Vec3::new(65536, 0, 0);
    let y = Vec3::new(0, 65536, 0);
    let z = Vec3::new(0, 0, 65536);
    assert_eq!(x.dot(y), 0);
    assert_eq!(x.dot(x), 65536);
    assert_eq!(x.cross(y), z);
    assert_eq!(y.cross(x), z.neg());
}

#[test]
fn vector_componentwise() {
    let a = Vec3::new(65536, 131072, -65536);
    let b = Vec3::new(32768, 32768, 32768);
    assert_eq!(a.add(b), Vec3::new(98304, 163840, -32768));
    assert_eq!(a.sub(b), Vec3::new(32768, 98304, -98304));
    assert_eq!(a.mul(b), Vec3::new(32768, 65536, -32768));
    assert_eq!(a.scale(131072), Vec3::new(131072, 262144, -131072));
    assert_eq!(a.div_scalar(131072), Vec3::new(32768, 65536, -32768));
}

#[test]
fn vector_length_and_unit() {
    let v = Vec3::new(196608, 0, 0);
    assert_eq!(v.length_squared(), 589824);
    assert_eq!(v.length(), 196608);
    assert_eq!(v.unit_vector(), Vec3::new(65536, 0, 0));
}

#[test]
fn vector_near_zero() {
    assert!(Vec3::new(0, 0, 0).near_zero());
    assert!(!Vec3::new(1, 0, 0).near_zero());
    assert!(!Vec3::new(0, 0, -1).near_zero());
}

#[test]
fn vector_reflect_mirrors() {
    let v = Vec3::new(65536, -65536, 0);
    let n = Vec3::new(0, 65536, 0);
    assert_eq!(Vec3::reflect(v, n), Vec3::new(65536, 65536, 0));
}

#[test]
fn vector_refract_head_on_is_straight() {
    let uv = Vec3::new(0, 0, -65536);
    let n = Vec3::new(0, 0, 65536);
    assert_eq!(Vec3::refract(uv, n, 65536), uv);
}

#[test]
fn interval_membership() {
    let i = Interval::new(0, 100);
    assert!(i.contains(0));
    assert!(i.contains(100));
    assert!(!i.surronds(0));
    assert!(i.surronds(50));
    assert!(!i.surronds(100));
    assert!(!i.contains(-1));
}

#[test]
fn interval_clamp() {
    let i = Interval::new(0, 65470);
    assert_eq!(i.clamp(-5), 0);
    assert_eq!(i.clamp(70000), 65470);
    assert_eq!(i.clamp(100), 100);
}

#[test]
fn ray_at_walks_the_parameter() {
    let r = Ray::new(Vec3::new(65536, 0, 0), Vec3::new(0, 0, -65536));
    assert_eq!(r.at(131072), Vec3::new(65536, 0, -131072));
    assert_eq!(r.at(0), Vec3::new(65536, 0, 0));
}

#[test]
fn random_samples_respect_their_ranges() {
    let mut rng = RandSource::from_seed(11);
    for _ in 0..50 {
        let v = Vec3::random_range(&mut rng, 10, 20);
        for c in [v.x, v.y, v.z] {
            assert!((10..20).contains(&c));
        }
        let u = Vec3::random(&mut rng);
        for c in [u.x, u.y, u.z] {
            assert!((0..SCALE).contains(&c));
        }
    }
}

#[test]
fn random_unit_vector_is_usable() {
    let mut rng = RandSource::from_seed(3);
    for _ in 0..20 {
        let u = Vec3::random_unit_vector(&mut rng);
        assert!(!u.near_zero());
        // Within a few raw units of unit length.
        let ls = u.length_squared();
        assert!((SCALE - 1024..=SCALE + 1024).contains(&ls), "ls = {ls}");
    }
}

#[test]
fn random_in_unit_disk_is_flat() {
    let mut rng = RandSource::from_seed(5);
    for _ in 0..20 {
        let p = Vec3::random_in_unit_disk(&mut rng);
        assert_eq!(p.z, 0);
        assert!(p.length_squared() < SCALE);
    }
}
