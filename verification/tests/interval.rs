use rayst::interval::Interval;
use rayst::scalar::Scalar;
use rayst::texture::texel_index;

fn s(x: f64) -> Scalar {
    Scalar::from_bits(x.to_bits())
}

fn f(x: Scalar) -> f64 {
    f64::from_bits(x.to_bits())
}

fn root(i: &Interval, d: f64, near: f64, far: f64) -> Option<f64> {
    i.first_root(s(d), s(near), s(far)).map(f)
}

#[test]
fn excludes_what_lies_below_or_above() {
    let i = Interval::new(s(0.001), s(10.0));
    assert!(i.excludes(s(0.0)));
    assert!(i.excludes(s(10.5)));
    assert!(!i.excludes(s(0.001)));
    assert!(!i.excludes(s(10.0)));
    assert!(!i.excludes(s(5.0)));
    assert!(!i.excludes(s(f64::NAN)));
    let open = Interval::new(s(f64::NEG_INFINITY), s(f64::INFINITY));
    assert!(!open.excludes(s(-1e300)));
    assert!(!open.excludes(s(f64::INFINITY)));
}

#[test]
fn first_root_is_the_smaller_one_within_the_interval() {
    let i = Interval::new(s(0.001), s(10.0));
    assert_eq!(root(&i, 4.0, 0.5, 1.5), Some(0.5));
    // from inside the sphere: the smaller root lies behind the origin
    assert_eq!(root(&i, 4.0, -0.5, 1.5), Some(1.5));
    assert_eq!(root(&i, 4.0, -1.5, -0.5), None);
    assert_eq!(root(&i, 4.0, 11.0, 12.0), None);
    assert_eq!(root(&i, 4.0, -1.0, 12.0), None);
    // a ray that passes the sphere by
    assert_eq!(root(&i, -0.25, 0.5, 1.5), None);
    // a grazing ray
    assert_eq!(root(&i, 0.0, 2.0, 2.0), Some(2.0));
    assert_eq!(root(&i, -0.0, 2.0, 2.0), Some(2.0));
    // the limits belong to the interval
    assert_eq!(root(&i, 1.0, 0.001, 3.0), Some(0.001));
    assert_eq!(root(&i, 1.0, -3.0, 10.0), Some(10.0));
}

#[test]
fn inside_clips_the_crossing_of_a_volume() {
    let i = Interval::new(s(0.001), s(f64::INFINITY));
    let span = i.inside(s(2.0), s(5.0)).unwrap();
    assert_eq!((f(span.t_min), f(span.t_max)), (2.0, 5.0));
    // the origin lies inside the volume
    let span = i.inside(s(-3.0), s(5.0)).unwrap();
    assert_eq!((f(span.t_min), f(span.t_max)), (0.001, 5.0));
    // the volume lies behind the ray
    assert!(i.inside(s(-5.0), s(-3.0)).is_none());
    let short = Interval::new(s(-4.0), s(3.0));
    let span = short.inside(s(-6.0), s(5.0)).unwrap();
    assert_eq!((f(span.t_min), f(span.t_max)), (0.0, 3.0));
    assert!(short.inside(s(3.0), s(5.0)).is_none());
    assert!(short.inside(s(3.5), s(5.0)).is_none());
}

#[test]
fn texel_index_stays_within_the_image() {
    assert_eq!(texel_index(0, 640), 0);
    assert_eq!(texel_index(17, 640), 17);
    assert_eq!(texel_index(639, 640), 639);
    assert_eq!(texel_index(640, 640), 639);
    assert_eq!(texel_index(u32::MAX, 640), 639);
    assert_eq!(texel_index(5, 1), 0);
}
