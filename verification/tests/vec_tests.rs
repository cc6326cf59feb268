use ray_tracer_in_one_weekend::vec::{NEAR_ZERO_BITS, TINY_LENGTH_SQUARED_BITS};
use ray_tracer_in_one_weekend::{Point3, Ray, Scalar, Vec3};

fn s(x: f64) -> Scalar {
    Scalar::from_bits(x.to_bits())
}

fn f(x: Scalar) -> f64 {
    f64::from_bits(x.to_bits())
}

fn v(x: f64, y: f64, z: f64) -> Vec3 {
    Vec3::new(s(x), s(y), s(z))
}

#[test]
fn thresholds_are_the_numbers_they_name() {
    assert_eq!(f64::from_bits(NEAR_ZERO_BITS), 1e-8);
    assert_eq!(f64::from_bits(TINY_LENGTH_SQUARED_BITS), 1e-160);
}

#[test]
fn vec3_components() {
    let a = v(1.0, -2.0, 3.5);
    assert_eq!(f(a.x()), 1.0);
    assert_eq!(f(a.y()), -2.0);
    assert_eq!(f(a.z()), 3.5);
    assert_eq!(Vec3::default(), v(0.0, 0.0, 0.0));
}

#[test]
fn point3_components() {
    let p = Point3::new(s(4.0), s(0.2), s(-9.0));
    assert_eq!(f(p.x()), 4.0);
    assert_eq!(f(p.y()), 0.2);
    assert_eq!(f(p.z()), -9.0);
    assert_eq!(Point3::default(), Point3::new(s(0.0), s(0.0), s(0.0)));
}

#[test]
fn ray_keeps_origin_and_direction() {
    let r = Ray::new(Point3::new(s(1.0), s(2.0), s(3.0)), v(0.0, 0.0, -1.0));
    assert_eq!(*r.origin(), Point3::new(s(1.0), s(2.0), s(3.0)));
    assert_eq!(*r.direction(), v(0.0, 0.0, -1.0));
}

#[test]
fn neg_flips_every_component() {
    assert_eq!(v(1.0, -2.0, 0.0).neg(), v(-1.0, 2.0, -0.0));
    assert_eq!(v(1.0, -2.0, 0.0).neg().neg(), v(1.0, -2.0, 0.0));
}

#[test]
fn near_zero_needs_every_component_small() {
    assert!(v(0.0, 0.0, 0.0).near_zero());
    assert!(v(9.9e-9, -9.9e-9, 1e-300).near_zero());
    assert!(!v(1e-8, 0.0, 0.0).near_zero());
    assert!(!v(0.0, -1e-8, 0.0).near_zero());
    assert!(!v(0.0, 0.0, 2e-8).near_zero());
    assert!(!v(0.0, 0.0, f64::NAN).near_zero());
    assert!(!v(1.0, 1.0, 1.0).near_zero());
}

#[test]
fn near_zero_agrees_with_the_numbers() {
    for &x in &[0.0, 1e-9, -1e-9, 9.999999e-9, 1e-8, 1.0000001e-8, -1e-8, 0.5] {
        let want = f64::abs(x) < 1e-8;
        assert_eq!(v(x, 0.0, 0.0).near_zero(), want);
        assert_eq!(v(0.0, x, 0.0).near_zero(), want);
        assert_eq!(v(0.0, 0.0, x).near_zero(), want);
    }
}

#[test]
fn unit_vector_samples_are_kept_inside_the_ball() {
    let n = v(0.6, 0.0, 0.8);
    assert_eq!(Vec3::random_unit_vector(n, s(0.25)), Some(n));
    assert_eq!(Vec3::random_unit_vector(n, s(1.0)), Some(n));
    assert_eq!(Vec3::random_unit_vector(n, s(2e-160)), Some(n));
    assert_eq!(Vec3::random_unit_vector(n, s(1.0000000000000002)), None);
    assert_eq!(Vec3::random_unit_vector(n, s(3.0)), None);
    assert_eq!(Vec3::random_unit_vector(n, s(1e-160)), None);
    assert_eq!(Vec3::random_unit_vector(n, s(0.0)), None);
    assert_eq!(Vec3::random_unit_vector(n, s(f64::NAN)), None);
}

#[test]
fn disk_samples_are_kept_inside_the_disk() {
    let p = v(0.6, -0.3, 0.0);
    assert_eq!(Vec3::random_in_unit_disk(p, s(0.45)), Some(p));
    assert_eq!(Vec3::random_in_unit_disk(p, s(0.0)), Some(p));
    assert_eq!(Vec3::random_in_unit_disk(p, s(0.9999999999999999)), Some(p));
    assert_eq!(Vec3::random_in_unit_disk(p, s(1.0)), None);
    assert_eq!(Vec3::random_in_unit_disk(p, s(1.7)), None);
    assert_eq!(Vec3::random_in_unit_disk(p, s(f64::NAN)), None);
}

#[test]
fn disk_samples_agree_with_the_numbers() {
    let mut x = -1.0;
    while x < 1.0 {
        let mut y = -1.0;
        while y < 1.0 {
            let length_squared: f64 = x * x + y * y;
            let got = Vec3::random_in_unit_disk(v(x, y, 0.0), s(length_squared));
            assert_eq!(got.is_some(), length_squared < 1.0);
            y += 0.0625;
        }
        x += 0.0625;
    }
}

#[test]
fn hemisphere_keeps_or_reverses() {
    let u = v(0.0, 0.6, -0.8);
    assert_eq!(Vec3::random_on_hemisphere(u, s(0.3)), u);
    assert_eq!(Vec3::random_on_hemisphere(u, s(-0.3)), u.neg());
    assert_eq!(Vec3::random_on_hemisphere(u, s(0.0)), u.neg());
    assert_eq!(Vec3::random_on_hemisphere(u, s(f64::NAN)), u.neg());
}
