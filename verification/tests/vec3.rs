use rayst::color::Color;
use rayst::ray::Ray;
use rayst::scalar::Scalar;
use rayst::vec3::{Vec3, NEAR_ZERO_BITS};

fn s(x: f64) -> Scalar {
    Scalar::from_bits(x.to_bits())
}

fn f(x: Scalar) -> f64 {
    f64::from_bits(x.to_bits())
}

fn v(x: f64, y: f64, z: f64) -> Vec3 {
    Vec3::new(s(x), s(y), s(z))
}

fn each(a: Vec3, g: impl Fn(f64) -> f64) -> Vec3 {
    v(g(f(a.x)), g(f(a.y)), g(f(a.z)))
}

fn length_squared(a: Vec3) -> f64 {
    f(a.x).powi(2) + f(a.y).powi(2) + f(a.z).powi(2)
}

#[test]
fn operations() {
    const EPSILON: f64 = 0.00000001;

    let mut a = v(1.0, 2.0, 3.0);
    let b = v(4.0, 5.0, 6.0);

    a = v(f(a.x) + f(b.x), f(a.y) + f(b.y), f(a.z) + f(b.z));
    assert!((f(a.x) - 5.0).abs() < EPSILON);
    assert!((f(a.y) - 7.0).abs() < EPSILON);
    assert!((f(a.z) - 9.0).abs() < EPSILON);

    a = each(a, |c| c / 2.0);
    assert!((f(a.x) - 2.5).abs() < EPSILON);
    assert!((f(a.y) - 3.5).abs() < EPSILON);
    assert!((f(a.z) - 4.5).abs() < EPSILON);

    a = each(a, |c| c * 4.0);
    assert!((f(a.x) - 10.0).abs() < EPSILON);
    assert!((f(a.y) - 14.0).abs() < EPSILON);
    assert!((f(a.z) - 18.0).abs() < EPSILON);

    a = a.neg();
    assert!((f(a.x) + 10.0).abs() < EPSILON);
    assert!((f(a.y) + 14.0).abs() < EPSILON);
    assert!((f(a.z) + 18.0).abs() < EPSILON);

    assert_eq!(f(a.x), f(a.axis(0)));
    assert_eq!(f(a.y), f(a.axis(1)));
    assert_eq!(f(a.z), f(a.axis(2)));

    assert!((length_squared(a) - 620.0) < EPSILON);
    assert!((length_squared(a).sqrt() - 24.899799196) < EPSILON);

    let x = v(2.0, 2.0, 2.0);
    let len = length_squared(x).sqrt();
    let n = each(x, |c| c / len);
    println!("{:?}", n);
    assert!((f(n.x) - 0.577350269).abs() < EPSILON);
    assert!((f(n.y) - 0.577350269).abs() < EPSILON);
    assert!((f(n.z) - 0.577350269).abs() < EPSILON);
    assert!((length_squared(n).sqrt() - 1.0).abs() < EPSILON);
}

#[test]
fn vec3_constructors_place_their_arguments() {
    let a = v(1.0, 2.0, 3.0);
    assert_eq!((f(a.x), f(a.y), f(a.z)), (1.0, 2.0, 3.0));
    let e = Vec3::new_eq(s(7.5));
    assert_eq!((f(e.x), f(e.y), f(e.z)), (7.5, 7.5, 7.5));
    let x = Vec3::x(s(-2.0));
    assert_eq!((x.x.to_bits(), x.y.to_bits(), x.z.to_bits()), ((-2.0f64).to_bits(), 0, 0));
    let y = Vec3::y(s(-2.0));
    assert_eq!((y.x.to_bits(), y.y.to_bits(), y.z.to_bits()), (0, (-2.0f64).to_bits(), 0));
    let z = Vec3::z(s(-2.0));
    assert_eq!((z.x.to_bits(), z.y.to_bits(), z.z.to_bits()), (0, 0, (-2.0f64).to_bits()));
    let d = Vec3::default();
    assert_eq!((d.x.to_bits(), d.y.to_bits(), d.z.to_bits()), (0, 0, 0));
}

#[test]
fn vec3_neg_flips_every_sign() {
    let a = v(1.0, -2.0, 0.0).neg();
    assert_eq!(a.x.to_bits(), (-1.0f64).to_bits());
    assert_eq!(a.y.to_bits(), 2.0f64.to_bits());
    assert_eq!(a.z.to_bits(), (-0.0f64).to_bits());
}

#[test]
fn vec3_near_zero_needs_every_component_below_the_threshold() {
    assert_eq!(NEAR_ZERO_BITS, 1e-8f64.to_bits());
    assert!(v(0.0, 0.0, 0.0).near_zero());
    assert!(v(9.9e-9, -9.9e-9, -0.0).near_zero());
    assert!(!v(1e-8, 0.0, 0.0).near_zero());
    assert!(!v(0.0, -1e-8, 0.0).near_zero());
    assert!(!v(0.0, 0.0, 1.0).near_zero());
    assert!(!v(f64::NAN, 0.0, 0.0).near_zero());
}

#[test]
fn vec3_in_hemisphere_turns_a_sample_toward_the_normal() {
    let p = v(0.3, -0.2, 0.1);
    let same = p.in_hemisphere(s(0.25));
    assert_eq!((f(same.x), f(same.y), f(same.z)), (0.3, -0.2, 0.1));
    for facing in [-0.25, 0.0, -0.0, f64::NAN] {
        let turned = p.in_hemisphere(s(facing));
        assert_eq!((f(turned.x), f(turned.y), f(turned.z)), (-0.3, 0.2, -0.1));
    }
}

#[test]
fn color_and_ray_keep_their_parts() {
    let c = Color::new(s(0.1), s(0.2), s(0.3));
    assert_eq!((f(c.r), f(c.g), f(c.b)), (0.1, 0.2, 0.3));
    let c = Color::new_from_vec3(v(0.4, 0.5, 0.6));
    assert_eq!((f(c.r), f(c.g), f(c.b)), (0.4, 0.5, 0.6));
    let black = Color::default();
    assert_eq!((black.r.to_bits(), black.g.to_bits(), black.b.to_bits()), (0, 0, 0));
    let r = Ray::new(v(1.0, 2.0, 3.0), v(0.0, 0.0, -1.0), s(0.5));
    assert_eq!(f(r.orig.y), 2.0);
    assert_eq!(f(r.dir.z), -1.0);
    assert_eq!(f(r.time), 0.5);
    let r = Ray::default();
    assert_eq!(r.time.to_bits(), 0);
    assert_eq!(r.dir.x.to_bits(), 0);
}
