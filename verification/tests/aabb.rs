use rayst::aabb::{Slab, AABB};
use rayst::scalar::Scalar;
use rayst::vec3::{Point, Vec3};

fn s(x: f64) -> Scalar {
    Scalar::from_bits(x.to_bits())
}

fn f(x: Scalar) -> f64 {
    f64::from_bits(x.to_bits())
}

fn p(x: f64, y: f64, z: f64) -> Point {
    Vec3::new(s(x), s(y), s(z))
}

fn minus(a: Point, b: Point) -> Point {
    p(f(a.x) - f(b.x), f(a.y) - f(b.y), f(a.z) - f(b.z))
}

fn slabs(b: &AABB, orig: [f64; 3], dir: [f64; 3]) -> [Slab; 3] {
    let mut out = [Slab::new(s(0.0), s(0.0), s(0.0)); 3];
    for a in 0..3 {
        let inv_d = dir[a].recip();
        let t0 = (f(b.min.axis(a)) - orig[a]) * inv_d;
        let t1 = (f(b.max.axis(a)) - orig[a]) * inv_d;
        out[a] = Slab::new(s(inv_d), s(t0), s(t1));
    }
    out
}

fn hit(b: &AABB, orig: [f64; 3], dir: [f64; 3], t_min: f64, t_max: f64) -> bool {
    AABB::hit(&slabs(b, orig, dir), s(t_min), s(t_max))
}

fn contains(b: &AABB, q: Point) -> bool {
    (0..3).all(|a| b.min.axis(a).le(q.axis(a)) && q.axis(a).le(b.max.axis(a)))
}

#[test]
fn union() {
    let a = AABB::new(p(-1.0, 0.0, 1.0), p(0.0, 5.0, 1.5));
    let b = AABB::new(p(-0.5, -2.0, 1.2), p(0.8, 10.0, 1.3));
    let c = AABB::union(&a, &b);

    assert!(minus(c.min, p(-1.0, -2.0, 1.0)).near_zero());
    assert!(minus(c.max, p(0.8, 10.0, 1.5)).near_zero())
}

#[test]
fn union_is_exact_and_holds_every_corner() {
    let a = AABB::new(p(-1.0, 0.0, 1.0), p(0.0, 5.0, 1.5));
    let b = AABB::new(p(-0.5, -2.0, 1.2), p(0.8, 10.0, 1.3));
    let c = a.union(&b);
    assert_eq!((f(c.min.x), f(c.min.y), f(c.min.z)), (-1.0, -2.0, 1.0));
    assert_eq!((f(c.max.x), f(c.max.y), f(c.max.z)), (0.8, 10.0, 1.5));
    for bx in [a, b] {
        for i in 0..8 {
            let q = p(
                f(if i & 1 == 0 { bx.min.x } else { bx.max.x }),
                f(if i & 2 == 0 { bx.min.y } else { bx.max.y }),
                f(if i & 4 == 0 { bx.min.z } else { bx.max.z }),
            );
            assert!(contains(&c, q));
        }
    }
    let d = b.union(&a);
    for k in 0..3 {
        assert_eq!(f(c.min.axis(k)), f(d.min.axis(k)));
        assert_eq!(f(c.max.axis(k)), f(d.max.axis(k)));
    }
}

#[test]
fn hit_with_zero_direction_components_inside_the_slabs() {
    let b = AABB::new(p(-1.0, -1.0, -5.0), p(1.0, 1.0, -3.0));
    // the ray runs along the third axis only; its origin lies within the box on the other two
    assert!(hit(&b, [0.0, 0.0, 0.0], [0.0, 0.0, -1.0], 0.001, f64::INFINITY));
    assert!(hit(&b, [0.5, -0.5, 0.0], [-0.0, 0.0, -1.0], 0.001, f64::INFINITY));
    // on a face: the crossing is undefined and bounds nothing
    assert!(hit(&b, [1.0, -1.0, 0.0], [0.0, -0.0, -1.0], 0.001, f64::INFINITY));
    // outside on an axis without direction: never
    assert!(!hit(&b, [1.5, 0.0, 0.0], [0.0, 0.0, -1.0], 0.001, f64::INFINITY));
    assert!(!hit(&b, [0.0, -2.0, 0.0], [0.0, 0.0, -1.0], 0.001, f64::INFINITY));
    // all three components zero, origin inside: every slab is unbounded
    assert!(hit(&b, [0.0, 0.0, -4.0], [0.0, 0.0, 0.0], 0.001, 10.0));
    assert!(!hit(&b, [0.0, 0.0, -4.0], [0.0, 0.0, 0.0], 10.0, 10.0));
}

#[test]
fn hit_cuts_the_interval_axis_by_axis() {
    let b = AABB::new(p(-1.0, -1.0, -5.0), p(1.0, 1.0, -3.0));
    assert!(hit(&b, [0.0, 0.0, 0.0], [0.1, 0.1, -1.0], 0.001, f64::INFINITY));
    assert!(!hit(&b, [0.0, 0.0, 0.0], [1.0, 0.0, -1.0], 0.001, f64::INFINITY));
    assert!(!hit(&b, [0.0, 0.0, 0.0], [0.0, 0.0, 1.0], 0.001, f64::INFINITY));
    // the box lies between t = 3 and t = 5
    assert!(!hit(&b, [0.0, 0.0, 0.0], [0.0, 0.0, -1.0], 0.001, 3.0));
    assert!(hit(&b, [0.0, 0.0, 0.0], [0.0, 0.0, -1.0], 0.001, 3.5));
    assert!(!hit(&b, [0.0, 0.0, 0.0], [0.0, 0.0, -1.0], 5.0, 9.0));
    assert!(hit(&b, [0.0, 0.0, 0.0], [0.0, 0.0, -1.0], 4.5, 9.0));
    // a negative reciprocal swaps the crossings
    let sl = Slab::new(s(-1.0), s(5.0), s(3.0));
    let (lo, hi) = sl.clip(s(0.0), s(100.0));
    assert_eq!((f(lo), f(hi)), (3.0, 5.0));
    let sl = Slab::new(s(1.0), s(3.0), s(5.0));
    let (lo, hi) = sl.clip(s(4.0), s(4.5));
    assert_eq!((f(lo), f(hi)), (4.0, 4.5));
}

#[test]
fn spanning_takes_the_extremes_of_the_turned_corners() {
    let corners = [(s(1.0), s(-2.0)), (s(-3.0), s(4.0)), (s(0.5), s(0.5)), (s(2.0), s(-1.0))];
    let b = AABB::spanning(s(-7.0), s(9.0), &corners);
    assert_eq!((f(b.min.x), f(b.min.y), f(b.min.z)), (-3.0, -7.0, -2.0));
    assert_eq!((f(b.max.x), f(b.max.y), f(b.max.z)), (2.0, 9.0, 4.0));
}
