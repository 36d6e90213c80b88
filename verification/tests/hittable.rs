use rayst::aabb::AABB;
use rayst::hittable::{HitRecord, Hittable, Nearest};
use rayst::hittable_list::{grow, HittableList};
use rayst::ray::Ray;
use rayst::scalar::Scalar;
use rayst::vec3::Vec3;

fn s(x: f64) -> Scalar {
    Scalar::from_bits(x.to_bits())
}

fn f(x: Scalar) -> f64 {
    f64::from_bits(x.to_bits())
}

fn v(x: f64, y: f64, z: f64) -> Vec3 {
    Vec3::new(s(x), s(y), s(z))
}

fn rec(t: f64, id: u32) -> HitRecord<u32> {
    HitRecord::new(s(t), v(0.0, 0.0, -t), s(-1.0), s(0.25), s(0.75), id, v(0.0, 0.0, 1.0))
}

/// A plane across the third axis at distance `t`, boxed or not.
struct Wall {
    t: f64,
    id: u32,
    boxed: bool,
}

impl Hittable for Wall {
    type Mat = u32;

    fn hit(&self, _r: &Ray, t_min: Scalar, t_max: Scalar) -> Option<HitRecord<u32>> {
        if self.t < f(t_min) || f(t_max) < self.t {
            None
        } else {
            Some(rec(self.t, self.id))
        }
    }

    fn bounding_box(&self, _time0: Scalar, _time1: Scalar) -> Option<AABB> {
        if self.boxed {
            Some(AABB::new(v(-1.0, -1.0, -self.t - 0.5), v(1.0, 1.0, -self.t + 0.5)))
        } else {
            None
        }
    }
}

fn wall(t: f64, id: u32) -> Wall {
    Wall { t, id, boxed: true }
}

fn ray() -> Ray {
    Ray::new(v(0.0, 0.0, 0.0), v(0.0, 0.0, -1.0), s(0.0))
}

#[test]
fn record_turns_the_normal_against_the_ray() {
    let n = v(0.0, 0.6, 0.8);
    let front = HitRecord::new(s(2.0), v(1.0, 2.0, 3.0), s(-0.5), s(0.1), s(0.2), 7u32, n);
    assert!(front.front_face);
    assert_eq!((f(front.normal.x), f(front.normal.y), f(front.normal.z)), (0.0, 0.6, 0.8));
    assert_eq!((f(front.t), f(front.u), f(front.v), front.material), (2.0, 0.1, 0.2, 7));
    assert_eq!(f(front.p.y), 2.0);
    for facing in [0.5, 0.0, -0.0, f64::NAN] {
        let back = HitRecord::new(s(2.0), v(1.0, 2.0, 3.0), s(facing), s(0.1), s(0.2), 7u32, n);
        assert!(!back.front_face);
        assert_eq!(f(back.normal.y), -0.6);
        assert_eq!(f(back.normal.z), -0.8);
        assert_eq!(back.normal.x.to_bits(), (-0.0f64).to_bits());
    }
}

#[test]
fn set_face_normal_changes_the_face_only() {
    let mut r = rec(3.0, 9);
    r.set_face_normal(s(0.25), v(1.0, 0.0, 0.0));
    assert!(!r.front_face);
    assert_eq!(f(r.normal.x), -1.0);
    assert_eq!((f(r.t), f(r.u), f(r.v), r.material), (3.0, 0.25, 0.75, 9));
    r.set_face_normal(s(-0.25), v(1.0, 0.0, 0.0));
    assert!(r.front_face);
    assert_eq!(f(r.normal.x), 1.0);
}

#[test]
fn in_medium_makes_a_scatter_point() {
    let r = rec(3.0, 9).in_medium(s(4.5), v(0.0, 0.0, -4.5), 11);
    assert!(r.front_face);
    assert_eq!((f(r.normal.x), f(r.normal.y), f(r.normal.z)), (1.0, 0.0, 0.0));
    assert_eq!((f(r.t), f(r.p.z), r.material), (4.5, -4.5, 11));
    assert_eq!((f(r.u), f(r.v)), (0.25, 0.75));
}

#[test]
fn a_free_path_longer_than_the_medium_passes_through() {
    let through = rec(3.0, 9).scattered_in_medium(s(2.5), s(2.0), s(4.5), v(0.0, 0.0, -4.5), 11);
    assert!(through.is_none());
    for (free_path, inside) in [(2.0, 2.0), (0.5, 2.0), (f64::NAN, 2.0)] {
        let r = rec(3.0, 9)
            .scattered_in_medium(s(free_path), s(inside), s(4.5), v(0.0, 0.0, -4.5), 11)
            .unwrap();
        assert!(r.front_face);
        assert_eq!((f(r.normal.x), f(r.normal.y), f(r.normal.z)), (1.0, 0.0, 0.0));
        assert_eq!((f(r.t), f(r.p.z), r.material), (4.5, -4.5, 11));
        assert_eq!((f(r.u), f(r.v)), (0.25, 0.75));
    }
}

#[test]
fn nearest_keeps_the_last_hit_offered() {
    let search: Nearest<u32> = Nearest::start(s(100.0));
    assert_eq!(f(search.limit), 100.0);
    assert!(search.best.is_none());
    let search = search.offer(None);
    assert_eq!(f(search.limit), 100.0);
    let search = search.offer(Some(rec(7.0, 1)));
    assert_eq!(f(search.limit), 7.0);
    let search = search.offer(None);
    assert_eq!(f(search.limit), 7.0);
    assert_eq!(search.best.as_ref().unwrap().material, 1);
    let search = search.offer(Some(rec(2.0, 5)));
    assert_eq!(f(search.limit), 2.0);
    assert_eq!(search.best.unwrap().material, 5);
}

#[test]
fn list_returns_the_closest_hit() {
    let mut list = HittableList::default();
    assert!(list.hit(&ray(), s(0.001), s(f64::INFINITY)).is_none());
    list.add(wall(5.0, 0));
    list.add(wall(2.0, 1));
    list.add(wall(9.0, 2));
    list.add(wall(3.0, 3));
    assert_eq!(list.len(), 4);
    assert_eq!(list.get(1).id, 1);
    let hit = list.hit(&ray(), s(0.001), s(f64::INFINITY)).unwrap();
    assert_eq!((hit.material, f(hit.t)), (1, 2.0));
    let hit = list.hit(&ray(), s(2.5), s(f64::INFINITY)).unwrap();
    assert_eq!((hit.material, f(hit.t)), (3, 3.0));
    let hit = list.hit(&ray(), s(6.0), s(f64::INFINITY)).unwrap();
    assert_eq!((hit.material, f(hit.t)), (2, 9.0));
    assert!(list.hit(&ray(), s(0.001), s(1.5)).is_none());
    // of two members at the same distance the later one is kept
    list.add(wall(2.0, 4));
    let hit = list.hit(&ray(), s(0.001), s(f64::INFINITY)).unwrap();
    assert_eq!(hit.material, 4);
    list.clear();
    assert_eq!(list.len(), 0);
    assert!(list.hit(&ray(), s(0.001), s(f64::INFINITY)).is_none());
}

#[test]
fn list_box_is_the_union_of_its_members() {
    let mut list = HittableList::new();
    assert!(list.bounding_box(s(0.0), s(1.0)).is_none());
    list.add(wall(5.0, 0));
    let b = list.bounding_box(s(0.0), s(1.0)).unwrap();
    assert_eq!((f(b.min.z), f(b.max.z)), (-5.5, -4.5));
    list.add(wall(2.0, 1));
    list.add(wall(9.0, 2));
    let b = list.bounding_box(s(0.0), s(1.0)).unwrap();
    assert_eq!((f(b.min.x), f(b.min.y), f(b.min.z)), (-1.0, -1.0, -9.5));
    assert_eq!((f(b.max.x), f(b.max.y), f(b.max.z)), (1.0, 1.0, -1.5));
    list.add(Wall { t: 1.0, id: 3, boxed: false });
    assert!(list.bounding_box(s(0.0), s(1.0)).is_none());
}

#[test]
fn grow_starts_with_the_first_box() {
    let a = AABB::new(v(0.0, 0.0, 0.0), v(1.0, 1.0, 1.0));
    let b = AABB::new(v(-1.0, 0.5, 0.5), v(0.5, 2.0, 0.75));
    let first = grow(None, a);
    assert_eq!((f(first.min.x), f(first.max.x)), (0.0, 1.0));
    let both = grow(Some(a), b);
    assert_eq!((f(both.min.x), f(both.min.y), f(both.min.z)), (-1.0, 0.0, 0.0));
    assert_eq!((f(both.max.x), f(both.max.y), f(both.max.z)), (1.0, 2.0, 1.0));
}

#[test]
fn list_can_be_rearranged_through_its_slice() {
    let mut list = HittableList::new();
    list.add(wall(5.0, 0));
    list.add(wall(2.0, 1));
    list.add(wall(9.0, 2));
    list.as_slice_mut().swap(0, 2);
    assert_eq!((list.get(0).id, list.get(1).id, list.get(2).id), (2, 1, 0));
    assert_eq!(list.as_slice_mut().len(), 3);
    let ids: Vec<u32> = list.into_vec().iter().map(|w| w.id).collect();
    assert_eq!(ids, vec![2, 1, 0]);
}
