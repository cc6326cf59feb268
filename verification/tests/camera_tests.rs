use ray_tracer_in_one_weekend::camera::{Encounter, PathEnd, Trace, SHADOW_ACNE_BITS};
use ray_tracer_in_one_weekend::material::Scatter;
use ray_tracer_in_one_weekend::{Camera, Color, Point3, Ray, Scalar, Vec3};

fn s(x: f64) -> Scalar {
    Scalar::from_bits(x.to_bits())
}

fn f(x: Scalar) -> f64 {
    f64::from_bits(x.to_bits())
}

fn c(r: f64, g: f64, b: f64) -> Color {
    Color::new(s(r), s(g), s(b))
}

#[test]
fn camera_default() {
    let cam = Camera::default();
    assert_eq!(f(cam.aspect_ratio), 1.0);
    assert_eq!(cam.image_width, 100);
    assert_eq!(cam.samples_per_pixel, 10);
    assert_eq!(cam.max_depth, 10);
    assert_eq!(f(cam.vfov), 90.0);
    assert_eq!(cam.lookfrom, Point3::new(s(0.0), s(0.0), s(0.0)));
    assert_eq!(cam.lookat, Point3::new(s(0.0), s(0.0), s(-1.0)));
    assert_eq!(cam.vup, Vec3::new(s(0.0), s(1.0), s(0.0)));
    assert_eq!(f(cam.defocus_angle), 0.0);
    assert_eq!(f(cam.focus_dist), 10.0);
    assert!(!cam.has_defocus());
}

#[test]
fn image_height_is_the_ratio_cut_down() {
    assert_eq!(Camera::image_height(s(400.0 / (16.0 / 9.0))), 225);
    assert_eq!(Camera::image_height(s(1200.0 / (16.0 / 9.0))), 675);
    assert_eq!(Camera::image_height(s(100.0 / 1.0)), 100);
    assert_eq!(Camera::image_height(s(256.0)), 256);
    assert_eq!(Camera::image_height(s(224.99999)), 224);
}

#[test]
fn image_height_is_at_least_one() {
    assert_eq!(Camera::image_height(s(10.0 / 100.0)), 1);
    assert_eq!(Camera::image_height(s(0.0)), 1);
    assert_eq!(Camera::image_height(s(0.9999999)), 1);
    assert_eq!(Camera::image_height(s(1.0)), 1);
    assert_eq!(Camera::image_height(s(1.9)), 1);
    assert_eq!(Camera::image_height(s(2.0)), 2);
    assert_eq!(Camera::image_height(s(-50.0)), 1);
    assert_eq!(Camera::image_height(s(f64::NAN)), 1);
    assert_eq!(Camera::image_height(s(f64::INFINITY)), usize::MAX);
}

#[test]
fn image_height_agrees_with_the_numbers() {
    for width in [1usize, 2, 3, 100, 400, 1200, 1921] {
        for aspect in [0.3, 1.0, 16.0 / 9.0, 2.4, 5000.0] {
            let ratio = width as f64 / aspect;
            assert_eq!(Camera::image_height(s(ratio)), usize::max(ratio as usize, 1));
        }
    }
}

#[test]
fn rays_are_traced_from_just_above_the_surface() {
    let range = Camera::ray_interval();
    assert_eq!(f(range.min), 0.001);
    assert_eq!(range.min.to_bits(), SHADOW_ACNE_BITS);
    assert_eq!(f(range.max), f64::INFINITY);
    assert!(!range.surrounds(s(0.0)));
    assert!(!range.surrounds(s(0.001)));
    assert!(range.surrounds(s(0.0010000000000000002)));
    assert!(range.surrounds(s(1e300)));
}

#[test]
fn defocus_needs_a_positive_angle() {
    let mut cam = Camera::default();
    cam.defocus_angle = s(0.6);
    assert!(cam.has_defocus());
    cam.defocus_angle = s(0.0);
    assert!(!cam.has_defocus());
    cam.defocus_angle = s(-10.0);
    assert!(!cam.has_defocus());
    cam.defocus_angle = s(f64::NAN);
    assert!(!cam.has_defocus());
}

fn bounce() -> Scatter {
    Scatter {
        attenuation: c(0.5, 0.25, 0.125),
        scattered: Ray::new(Point3::new(s(1.0), s(2.0), s(3.0)), Vec3::new(s(0.0), s(1.0), s(0.0))),
    }
}

#[test]
fn a_ray_without_bounces_left_is_black() {
    assert_eq!(Camera::ray_color(0, Encounter::Miss), Trace::Black);
    assert_eq!(Camera::ray_color(0, Encounter::Absorbed), Trace::Black);
    assert_eq!(Camera::ray_color(0, Encounter::Scattered(bounce())), Trace::Black);
}

#[test]
fn a_ray_that_misses_sees_the_background() {
    assert_eq!(Camera::ray_color(1, Encounter::Miss), Trace::Background);
    assert_eq!(Camera::ray_color(50, Encounter::Miss), Trace::Background);
}

#[test]
fn an_absorbed_ray_is_black() {
    assert_eq!(Camera::ray_color(1, Encounter::Absorbed), Trace::Black);
    assert_eq!(Camera::ray_color(50, Encounter::Absorbed), Trace::Black);
}

#[test]
fn a_scattered_ray_goes_on_with_one_bounce_less() {
    let b = bounce();
    assert_eq!(
        Camera::ray_color(50, Encounter::Scattered(b)),
        Trace::Bounce { attenuation: b.attenuation, scattered: b.scattered, depth: 49 }
    );
    assert_eq!(
        Camera::ray_color(1, Encounter::Scattered(b)),
        Trace::Bounce { attenuation: b.attenuation, scattered: b.scattered, depth: 0 }
    );
}

#[test]
fn a_path_ends_after_max_depth_bounces() {
    let mut depth = Camera::default().max_depth;
    let mut bounces = 0;
    loop {
        match Camera::ray_color(depth, Encounter::Scattered(bounce())) {
            Trace::Bounce { depth: left, .. } => {
                assert!(left < depth);
                depth = left;
                bounces += 1;
            }
            Trace::Black => break,
            Trace::Background => panic!("a scattered ray does not see the background"),
        }
    }
    assert_eq!(bounces, 10);
}

fn ray_from(x: f64) -> Ray {
    Ray::new(Point3::new(s(x), s(0.0), s(0.0)), Vec3::new(s(0.0), s(0.0), s(-1.0)))
}

/// A scene in which a ray from `(x, 0, 0)` is scattered to `(x + 1, 0, 0)`
/// with attenuation `x / 8` in every channel, as long as `x < limit`.
fn corridor(limit: f64, then: Encounter) -> impl Fn(Ray) -> Encounter {
    move |ray: Ray| {
        let x = f(ray.origin().x());
        if x < limit {
            Encounter::Scattered(Scatter {
                attenuation: c(x / 8.0, x / 8.0, x / 8.0),
                scattered: ray_from(x + 1.0),
            })
        } else {
            then
        }
    }
}

#[test]
fn a_path_without_bounces_is_not_traced() {
    let path = Camera::trace(ray_from(0.0), 0, |_| -> Encounter {
        panic!("a ray with no bounce left meets nothing")
    });
    assert_eq!(path.attenuations, Vec::new());
    assert_eq!(path.end, PathEnd::Black);
}

#[test]
fn a_path_that_misses_at_once_ends_in_the_background() {
    let path = Camera::trace(ray_from(5.0), 10, |_| Encounter::Miss);
    assert_eq!(path.attenuations, Vec::new());
    assert_eq!(path.end, PathEnd::Background { ray: ray_from(5.0) });
}

#[test]
fn a_path_that_is_absorbed_ends_in_the_dark() {
    let path = Camera::trace(ray_from(5.0), 10, |_| Encounter::Absorbed);
    assert_eq!(path.attenuations, Vec::new());
    assert_eq!(path.end, PathEnd::Black);
}

#[test]
fn a_path_collects_the_attenuations_in_order() {
    let path = Camera::trace(ray_from(1.0), 10, corridor(4.0, Encounter::Miss));
    assert_eq!(
        path.attenuations,
        vec![c(0.125, 0.125, 0.125), c(0.25, 0.25, 0.25), c(0.375, 0.375, 0.375)]
    );
    assert_eq!(path.end, PathEnd::Background { ray: ray_from(4.0) });

    let path = Camera::trace(ray_from(1.0), 10, corridor(3.0, Encounter::Absorbed));
    assert_eq!(path.attenuations, vec![c(0.125, 0.125, 0.125), c(0.25, 0.25, 0.25)]);
    assert_eq!(path.end, PathEnd::Black);
}

#[test]
fn a_path_is_cut_when_the_bounces_run_out() {
    for depth in 0..6usize {
        let path = Camera::trace(ray_from(0.0), depth, corridor(100.0, Encounter::Miss));
        assert_eq!(path.attenuations.len(), depth);
        assert_eq!(path.end, PathEnd::Black);
        for (k, attenuation) in path.attenuations.iter().enumerate() {
            assert_eq!(f(attenuation.r()), k as f64 / 8.0);
        }
    }
    // With exactly as many bounces as the corridor is long, the last ray is
    // not traced any more.
    let path = Camera::trace(ray_from(0.0), 3, corridor(3.0, Encounter::Miss));
    assert_eq!(path.attenuations.len(), 3);
    assert_eq!(path.end, PathEnd::Black);
    let path = Camera::trace(ray_from(0.0), 4, corridor(3.0, Encounter::Miss));
    assert_eq!(path.attenuations.len(), 3);
    assert_eq!(path.end, PathEnd::Background { ray: ray_from(3.0) });
}

#[test]
fn encode_writes_header_and_lines() {
    let mut cam = Camera::default();
    cam.image_width = 2;
    let pixels = vec![c(0.0, 0.0, 0.0), c(1.0, 1.0, 1.0), c(0.5, 0.25, 0.75), c(0.1, 0.2, 0.3)];
    let out = cam.encode(2, &pixels);
    assert_eq!(
        String::from_utf8(out).unwrap(),
        "P3\n2 2\n255\n0 0 0\n255 255 255\n128 64 192\n25 51 76\n"
    );
}

#[test]
fn encode_of_no_pixels_is_the_header() {
    let mut cam = Camera::default();
    cam.image_width = 0;
    assert_eq!(cam.encode(1, &Vec::new()), b"P3\n0 1\n255\n");
}

/// A linear colour with the square roots of its channels.
fn lin(r: f64, g: f64, b: f64) -> (Color, Color) {
    (c(r, g, b), c(r.sqrt(), g.sqrt(), b.sqrt()))
}

#[test]
fn render_asks_for_every_pixel_in_raster_order() {
    let mut cam = Camera::default();
    cam.image_width = 3;
    let asked = std::cell::RefCell::new(Vec::new());
    let out = cam.render(s(2.5), |i, j| {
        asked.borrow_mut().push((i, j));
        lin(i as f64 / 4.0, j as f64 / 4.0, 0.0)
    });
    assert_eq!(*asked.borrow(), vec![(0, 0), (1, 0), (2, 0), (0, 1), (1, 1), (2, 1)]);
    assert_eq!(
        String::from_utf8(out).unwrap(),
        "P3\n3 2\n255\n0 0 0\n128 0 0\n181 0 0\n0 128 0\n128 128 0\n181 128 0\n"
    );
}

#[test]
fn render_applies_gamma() {
    let mut cam = Camera::default();
    cam.image_width = 1;
    assert_eq!(cam.render(s(1.0), |_, _| lin(0.25, 0.25, 0.25)), b"P3\n1 1\n255\n128 128 128\n");
    assert_eq!(cam.render(s(1.0), |_, _| lin(-0.25, 0.0, 9.0)), b"P3\n1 1\n255\n0 0 255\n");
}

#[test]
fn render_agrees_with_encode_of_what_is_shown() {
    let mut cam = Camera::default();
    cam.image_width = 7;
    let color_at = |i: usize, j: usize| lin(i as f64 / 7.0, j as f64 / 5.0, (i + j) as f64 / 12.0);
    let mut pixels = Vec::new();
    for j in 0..5 {
        for i in 0..7 {
            let (color, roots) = color_at(i, j);
            pixels.push(color.gamma(roots));
        }
    }
    assert_eq!(cam.render(s(5.0), color_at), cam.encode(5, &pixels));
    assert_eq!(cam.render(s(5.9), color_at), cam.encode(5, &pixels));
}

#[test]
fn render_has_at_least_one_row() {
    let mut cam = Camera::default();
    cam.image_width = 2;
    for ratio in [0.0, 0.2, -3.0, f64::NAN] {
        let out = cam.render(s(ratio), |_, _| lin(1.0, 1.0, 1.0));
        assert_eq!(out, b"P3\n2 1\n255\n255 255 255\n255 255 255\n");
    }
    cam.image_width = 0;
    assert_eq!(cam.render(s(3.0), |_, _| lin(1.0, 1.0, 1.0)), b"P3\n0 3\n255\n");
}

#[test]
fn render_twice_gives_the_same_bytes() {
    let mut cam = Camera::default();
    cam.image_width = 16;
    let color_at = |i: usize, j: usize| {
        let mut state: u64 = (j * 16 + i) as u64 + 99;
        let mut channel = || {
            state = state.wrapping_mul(6364136223846793005).wrapping_add(1442695040888963407);
            (state >> 11) as f64 / (1u64 << 53) as f64
        };
        lin(channel(), channel(), channel())
    };
    let first = cam.render(s(9.0), color_at);
    let second = cam.render(s(9.0), color_at);
    assert_eq!(first, second);
    assert_eq!(first.iter().filter(|&&b| b == b'\n').count(), 3 + 16 * 9);
}
