//! The linear composite: a list of objects searched one after the other.

use vstd::prelude::*;
use crate::aabb::AABB;
use crate::hittable::{HitRecord, Hittable, Nearest};
use crate::ray::Ray;
use crate::scalar::Scalar;

verus! {

/// A list of objects, in the order in which they were added.
pub struct HittableList<H> {
    objects: Vec<H>,
}

/// Whether a search through `objs` can end in the state `end`: it starts at
/// `t_max` with no hit, and each object is asked for a hit below the limit
/// that the ones before it left.
pub open spec fn scanned<H: Hittable>(
    objs: Seq<H>,
    r: Ray,
    t_min: Scalar,
    t_max: Scalar,
    end: Nearest<H::Mat>,
) -> bool
    decreases objs.len(),
{
    if objs.len() == 0 {
        end == Nearest::<H::Mat>::spec_start(t_max)
    } else {
        exists|before: Nearest<H::Mat>, found: Option<HitRecord<H::Mat>>|
            {
                &&& scanned(objs.drop_last(), r, t_min, t_max, before)
                &&& objs.last().admits_hit(r, t_min, before.limit, found)
                &&& end == #[trigger] before.spec_offer(found)
            }
    }
}

/// Whether the boxes of `objs` can unite to `acc`, taken in order: nothing
/// for no object, and no outcome at all once an object has no box.
pub open spec fn united<H: Hittable>(
    objs: Seq<H>,
    time0: Scalar,
    time1: Scalar,
    acc: Option<AABB>,
) -> bool
    decreases objs.len(),
{
    if objs.len() == 0 {
        acc is None
    } else {
        exists|before: Option<AABB>, b: AABB|
            {
                &&& united(objs.drop_last(), time0, time1, before)
                &&& objs.last().admits_box(time0, time1, Some(b))
                &&& acc == Some(#[trigger] spec_grow(before, b))
            }
    }
}

/// The union so far, grown by one more box.
pub open spec fn spec_grow(acc: Option<AABB>, b: AABB) -> AABB {
    match acc {
        None => b,
        Some(a) => a.spec_union(b),
    }
}

/// The union so far, grown by one more box.
pub fn grow(acc: Option<AABB>, b: AABB) -> (u: AABB)
    ensures
        u == spec_grow(acc, b),
{
    match acc {
        None => b,
        Some(a) => a.union(&b),
    }
}

impl<H> HittableList<H> {
    /// The objects, in the order in which they were added.
    pub closed spec fn view(&self) -> Seq<H> {
        self.objects@
    }

    /// The empty list.
    pub fn new() -> (list: Self)
        ensures
            list@ == Seq::<H>::empty(),
    {
        HittableList { objects: Vec::new() }
    }

    pub fn add(&mut self, obj: H)
        ensures
            final(self)@ == old(self)@.push(obj),
    {
        self.objects.push(obj)
    }

    pub fn clear(&mut self)
        ensures
            final(self)@ == Seq::<H>::empty(),
    {
        self.objects.clear()
    }

    /// The objects as a slice that can be rearranged in place.
    pub fn as_slice_mut(&mut self) -> (objs: &mut [H])
        ensures
            objs@ == old(self)@,
            final(self)@ == final(objs)@,
    {
        self.objects.as_mut_slice()
    }

    /// The objects, taken out of the list.
    pub fn into_vec(self) -> (objs: Vec<H>)
        ensures
            objs@ == self@,
    {
        self.objects
    }

    pub fn len(&self) -> (n: usize)
        ensures
            n == self@.len(),
    {
        self.objects.len()
    }

    /// The object at position `i`.
    pub fn get(&self, i: usize) -> (obj: &H)
        requires
            i < self@.len(),
        ensures
            *obj == self@[i as int],
    {
        &self.objects[i]
    }
}

impl<H> Default for HittableList<H> {
    fn default() -> (list: Self)
        ensures
            list@ == Seq::<H>::empty(),
    {
        HittableList { objects: Vec::new() }
    }
}

impl<H: Hittable> Hittable for HittableList<H> {
    type Mat = H::Mat;

    /// The outcome of a search through all members.
    open spec fn admits_hit(
        &self,
        r: Ray,
        t_min: Scalar,
        t_max: Scalar,
        rec: Option<HitRecord<H::Mat>>,
    ) -> bool {
        exists|end: Nearest<H::Mat>| #[trigger] scanned(self@, r, t_min, t_max, end) && rec == end.best
    }

    /// Nothing for the empty list and for a list with a member that has no
    /// box; otherwise the union of the members' boxes, taken in order.
    open spec fn admits_box(&self, time0: Scalar, time1: Scalar, b: Option<AABB>) -> bool {
        if self@.len() == 0 {
            b is None
        } else if b is Some {
            united(self@, time0, time1, b)
        } else {
            exists|i: int, before: Option<AABB>|
                0 <= i < self@.len() && #[trigger] united(self@.take(i), time0, time1, before)
                    && self@[i].admits_box(time0, time1, None)
        }
    }

    /// Asks every member in order, each below the parameter of the hit found
    /// so far, and returns the last hit found, which is the closest.
    fn hit(&self, r: &Ray, t_min: Scalar, t_max: Scalar) -> (rec: Option<HitRecord<H::Mat>>) {
        let mut search = Nearest::start(t_max);
        let mut i: usize = 0;
        proof {
            assert(self@.take(0).len() == 0);
        }
        while i < self.objects.len()
            invariant
                i <= self@.len(),
                self@ == self.objects@,
                scanned(self@.take(i as int), *r, t_min, t_max, search),
            decreases self@.len() - i,
        {
            let found = self.objects[i].hit(r, t_min, search.limit);
            let ghost before = search;
            search = search.offer(found);
            proof {
                let done = self@.take(i + 1);
                assert(done.drop_last() =~= self@.take(i as int));
                assert(done.last() == self@[i as int]);
                assert(search == before.spec_offer(found));
            }
            i = i + 1;
        }
        proof {
            assert(self@.take(self@.len() as int) =~= self@);
        }
        search.best
    }

    fn bounding_box(&self, time0: Scalar, time1: Scalar) -> (b: Option<AABB>) {
        if self.objects.len() == 0 {
            return None;
        }
        let mut out_box: Option<AABB> = None;
        let mut i: usize = 0;
        proof {
            assert(self@.take(0).len() == 0);
        }
        while i < self.objects.len()
            invariant
                i <= self@.len(),
                self@ == self.objects@,
                self@.len() > 0,
                united(self@.take(i as int), time0, time1, out_box),
                i > 0 ==> out_box is Some,
            decreases self@.len() - i,
        {
            match self.objects[i].bounding_box(time0, time1) {
                Some(temp_box) => {
                    let ghost before = out_box;
                    out_box = Some(grow(out_box, temp_box));
                    proof {
                        let done = self@.take(i + 1);
                        assert(done.drop_last() =~= self@.take(i as int));
                        assert(done.last() == self@[i as int]);
                        assert(out_box == Some(spec_grow(before, temp_box)));
                    }
                },
                None => {
                    return None;
                },
            }
            i = i + 1;
        }
        proof {
            assert(self@.take(self@.len() as int) =~= self@);
        }
        out_box
    }
}

} // verus!
