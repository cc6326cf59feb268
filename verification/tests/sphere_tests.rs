use ray_tracer_in_one_weekend::hittable::{Crossing, Probe};
use ray_tracer_in_one_weekend::{
    Color, HitRecord, Hittable, Interval, Lambertian, Material, Point3, Scalar, Sphere, Vec3,
};

fn s(x: f64) -> Scalar {
    Scalar::from_bits(x.to_bits())
}

fn f(x: Scalar) -> f64 {
    f64::from_bits(x.to_bits())
}

fn v(a: [f64; 3]) -> Vec3 {
    Vec3::new(s(a[0]), s(a[1]), s(a[2]))
}

fn p(a: [f64; 3]) -> Point3 {
    Point3::new(s(a[0]), s(a[1]), s(a[2]))
}

fn dot(a: [f64; 3], b: [f64; 3]) -> f64 {
    a[0] * b[0] + a[1] * b[1] + a[2] * b[2]
}

fn crossing(center: [f64; 3], radius: f64, origin: [f64; 3], dir: [f64; 3], t: f64) -> Crossing {
    let point = [origin[0] + t * dir[0], origin[1] + t * dir[1], origin[2] + t * dir[2]];
    let outward = [
        (point[0] - center[0]) / radius,
        (point[1] - center[1]) / radius,
        (point[2] - center[2]) / radius,
    ];
    Crossing { t: s(t), point: p(point), outward_normal: v(outward), facing: s(dot(dir, outward)) }
}

/// What a ray measures of a sphere, in ordinary arithmetic.
fn probe(center: [f64; 3], radius: f64, origin: [f64; 3], dir: [f64; 3]) -> Probe {
    let oc = [center[0] - origin[0], center[1] - origin[1], center[2] - origin[2]];
    let a = dot(dir, dir);
    let h = dot(dir, oc);
    let c = dot(oc, oc) - radius * radius;
    let discriminant = h * h - a * c;
    let sqrtd = discriminant.sqrt();
    Probe {
        discriminant: s(discriminant),
        near: crossing(center, radius, origin, dir, (h - sqrtd) / a),
        far: crossing(center, radius, origin, dir, (h + sqrtd) / a),
    }
}

fn matte() -> Material {
    Material::Lambertian(Lambertian::new(Color::new(s(0.5), s(0.5), s(0.5))))
}

fn forward() -> Interval {
    Interval::new(s(0.0), s(f64::INFINITY))
}

#[test]
fn sphere_radius_is_clamped_at_zero() {
    let c = p([0.0, 0.0, -1.0]);
    assert_eq!(f(Sphere::new(c, s(0.5), matte()).radius()), 0.5);
    assert_eq!(f(Sphere::new(c, s(-2.0), matte()).radius()), 0.0);
    assert_eq!(f(Sphere::new(c, s(0.0), matte()).radius()), 0.0);
    assert_eq!(f(Sphere::new(c, s(f64::NAN), matte()).radius()), 0.0);
    assert_eq!(f(Sphere::new(c, s(1000.0), matte()).radius()), 1000.0);
    let sphere = Sphere::new(c, s(0.5), matte());
    assert_eq!(sphere.center(), c);
    assert_eq!(sphere.material(), matte());
}

#[test]
fn sphere_is_hit_head_on() {
    let center = [0.0, 0.0, -1.0];
    let sphere = Sphere::new(p(center), s(0.5), matte());
    let measured = probe(center, 0.5, [0.0, 0.0, 0.0], [0.0, 0.0, -1.0]);
    let rec = sphere.hit(&measured, forward()).expect("the ray hits the sphere");
    assert_eq!(f(rec.t), 0.5);
    assert_eq!(rec.p, p([0.0, 0.0, -0.5]));
    assert_eq!(rec.normal, v([0.0, 0.0, 1.0]));
    assert!(rec.front_face);
    assert_eq!(rec.mat, matte());
}

#[test]
fn sphere_is_missed_on_a_negative_discriminant() {
    let center = [0.0, 0.0, -1.0];
    let sphere = Sphere::new(p(center), s(0.5), matte());
    let measured = probe(center, 0.5, [0.0, 0.0, 0.0], [0.0, 1.0, 0.0]);
    assert!(f(measured.discriminant) < 0.0);
    assert_eq!(sphere.hit(&measured, forward()), None);
    let sideways = probe(center, 0.5, [0.0, 2.0, 0.0], [0.0, 0.0, -1.0]);
    assert!(f(sideways.discriminant) < 0.0);
    assert_eq!(sphere.hit(&sideways, Interval::new(s(f64::NEG_INFINITY), s(f64::INFINITY))), None);
}

#[test]
fn a_negative_discriminant_wins_over_valid_roots() {
    let center = [0.0, 0.0, -1.0];
    let sphere = Sphere::new(p(center), s(0.5), matte());
    let mut measured = probe(center, 0.5, [0.0, 0.0, 0.0], [0.0, 0.0, -1.0]);
    measured.discriminant = s(-1e-300);
    assert_eq!(sphere.hit(&measured, forward()), None);
    measured.discriminant = s(-0.0);
    assert!(sphere.hit(&measured, forward()).is_some());
}

#[test]
fn sphere_hit_from_inside_takes_the_far_root() {
    let center = [0.0, 0.0, -1.0];
    let sphere = Sphere::new(p(center), s(0.5), matte());
    // From the centre: the roots are -0.5 and 0.5.
    let measured = probe(center, 0.5, center, [0.0, 0.0, -1.0]);
    assert_eq!(f(measured.near.t), -0.5);
    assert_eq!(f(measured.far.t), 0.5);
    let rec = sphere.hit(&measured, forward()).unwrap();
    assert_eq!(f(rec.t), 0.5);
    assert_eq!(rec.p, p([0.0, 0.0, -1.5]));
    assert!(!rec.front_face);
    // The outward normal is (0, 0, -1); the record's opposes the ray.
    assert_eq!(rec.normal, v([-0.0, -0.0, 1.0]));
}

#[test]
fn sphere_hit_respects_the_interval() {
    let center = [0.0, 0.0, -1.0];
    let sphere = Sphere::new(p(center), s(0.5), matte());
    let measured = probe(center, 0.5, [0.0, 0.0, 0.0], [0.0, 0.0, -1.0]);
    // Roots 0.5 and 1.5.
    let at = |lo: f64, hi: f64| sphere.hit(&measured, Interval::new(s(lo), s(hi))).map(|r| f(r.t));
    assert_eq!(at(0.0, 10.0), Some(0.5));
    assert_eq!(at(0.5, 10.0), Some(1.5));
    assert_eq!(at(0.6, 10.0), Some(1.5));
    assert_eq!(at(0.6, 1.5), None);
    assert_eq!(at(0.0, 0.5), None);
    assert_eq!(at(0.0, 0.4), None);
    assert_eq!(at(2.0, 10.0), None);
    assert_eq!(at(0.001, f64::INFINITY), Some(0.5));
}

#[test]
fn sphere_behind_the_ray_is_not_hit() {
    let center = [0.0, 0.0, 1.0];
    let sphere = Sphere::new(p(center), s(0.5), matte());
    let measured = probe(center, 0.5, [0.0, 0.0, 0.0], [0.0, 0.0, -1.0]);
    assert!(f(measured.discriminant) >= 0.0);
    assert_eq!(sphere.hit(&measured, Interval::new(s(0.001), s(f64::INFINITY))), None);
}

#[test]
fn hittable_dispatches_to_the_sphere() {
    let center = [0.0, 0.0, -1.0];
    let sphere = Sphere::new(p(center), s(0.5), matte());
    let measured = probe(center, 0.5, [0.0, 0.0, 0.0], [0.0, 0.0, -1.0]);
    assert_eq!(
        Hittable::Sphere(sphere).hit(&measured, forward()),
        sphere.hit(&measured, forward())
    );
}

#[test]
fn set_face_normal_turns_the_normal_against_the_ray() {
    let outward = v([0.0, 0.6, 0.8]);
    let mut rec = HitRecord::default();
    rec.t = s(2.0);
    rec.set_face_normal(s(-0.25), outward);
    assert!(rec.front_face);
    assert_eq!(rec.normal, outward);
    rec.set_face_normal(s(0.25), outward);
    assert!(!rec.front_face);
    assert_eq!(rec.normal, outward.neg());
    rec.set_face_normal(s(0.0), outward);
    assert!(!rec.front_face);
    assert_eq!(rec.normal, outward.neg());
    rec.set_face_normal(s(f64::NAN), outward);
    assert!(!rec.front_face);
    assert_eq!(f(rec.t), 2.0);
    assert_eq!(rec.p, Point3::default());
}

#[test]
fn hit_record_default() {
    let rec = HitRecord::default();
    assert_eq!(rec.p, Point3::default());
    assert_eq!(rec.normal, Vec3::default());
    assert_eq!(f(rec.t), 0.0);
    assert!(!rec.front_face);
    assert!(matches!(rec.mat, Material::Metal(_)));
}
