//! An unordered aggregate of hittable objects scanned linearly.
use vstd::prelude::*;
use crate::ray::{Ray, wf_ray};
use crate::aabb::{AABB, wf_aabb};
use crate::hit_record::{HitRecord, wf_rec};
use crate::hittable::{Hittable, wf_h, mats_below, bb_spec};
use crate::aabb::sbox;
use crate::bvh_node::{model_hit, model_scan};
use crate::SCALE;

verus! {

/// Stores a list of Hittable objects
#[derive(Debug)]
pub struct HittableList {
    pub objects: Vec<Hittable>,
}

/// Every object in the list is sound.
pub open spec fn wf_list(l: HittableList) -> bool {
    forall|i: int| 0 <= i < l.objects@.len() ==> wf_h(#[trigger] l.objects@[i])
}

/// Every material index any object in the list can hand out lies below `m`.
pub open spec fn list_mats_below(l: HittableList, m: int) -> bool {
    forall|i: int| 0 <= i < l.objects@.len() ==> mats_below(#[trigger] l.objects@[i], m)
}

/// Every object in the list is one the functional scan model describes
/// exactly.
pub open spec fn all_modelled(l: HittableList) -> bool {
    forall|i: int| 0 <= i < l.objects@.len()
        ==> crate::hittable::modelled(#[trigger] l.objects@[i])
}

/// The fold of a run of members' boxes onto an accumulated box, front to
/// back: nothing as soon as any member has no box.
pub open spec fn list_bb_from(acc: Option<AABB>, s: Seq<Hittable>, t0: int, t1: int)
    -> Option<AABB>
    decreases s.len(),
{
    if s.len() == 0 {
        acc
    } else {
        match bb_spec(s[0], t0, t1) {
            None => None,
            Some(b) => list_bb_from(
                Some(match acc { None => b, Some(a) => sbox(a, b) }),
                s.drop_first(), t0, t1),
        }
    }
}

/// What the list's bounding box is: nothing for an empty list or one with
/// an unboxable member, else the surrounding-box fold of every member's box.
pub open spec fn list_bb(l: HittableList, t0: int, t1: int) -> Option<AABB> {
    if l.objects@.len() == 0 {
        None
    } else {
        list_bb_from(None, l.objects@, t0, t1)
    }
}

/// A one-object scan is that object's own hit.
proof fn lemma_model_scan_single(h: Hittable, ray: Ray, a: int, b: int)
    ensures
        model_scan(seq![h], ray, a, b) == model_hit(h, ray, a, b),
{
    let s = seq![h];
    assert(s[0] == h);
    assert(s.drop_first() =~= Seq::<Hittable>::empty());
    let h0 = model_hit(h, ray, a, b);
    if h0 is Some {
        assert(model_scan(Seq::<Hittable>::empty(), ray, a, h0->Some_0) is None);
    } else {
        assert(model_scan(Seq::<Hittable>::empty(), ray, a, b) is None);
    }
}

impl HittableList {
    /// Generates a new empty list of objects
    pub fn new() -> (r: Self)
        ensures
            r.objects@.len() == 0,
            wf_list(r),
    {
        HittableList { objects: Vec::new() }
    }

    /// Generates a list from a list of objects
    pub fn from_objects(objects: Vec<Hittable>) -> (r: Self)
        ensures
            r.objects@ == objects@,
    {
        HittableList { objects }
    }

    /// Adds a hittable object to the internal list
    pub fn add(&mut self, object: Hittable)
        requires
            old(self).objects@.len() < usize::MAX,
        ensures
            final(self).objects@ == old(self).objects@.push(object),
    {
        self.objects.push(object);
    }

    /// Checks each object in the list in turn, keeping the nearest hit
    /// within the given parameter interval.
    pub fn hit(&self, ray: &Ray, t_min: i128, t_max: i128) -> (r: Option<HitRecord>)
        requires
            wf_list(*self),
            wf_ray(*ray),
            crate::bounded(t_min as int),
            crate::bounded(t_max as int),
        ensures
            r matches Some(rec) ==> {
                &&& t_min <= rec.t <= t_max
                &&& wf_rec(rec)
                &&& 0 <= rec.u <= SCALE && 0 <= rec.v <= SCALE
                &&& forall|m: int| #[trigger] list_mats_below(*self, m) ==> rec.material < m
            },
            all_modelled(*self) ==> match r {
                Some(rec) => model_scan(self.objects@, *ray, t_min as int, t_max as int)
                    == Some(rec.t as int),
                None => model_scan(self.objects@, *ray, t_min as int, t_max as int) is None,
            },
            self.objects@.len() == 0 ==> r is None,
    {
        let mut hit_record: Option<HitRecord> = None;
        let mut closest_so_far = t_max;
        let mut i: usize = 0;
        while i < self.objects.len()
            invariant
                i <= self.objects@.len(),
                wf_list(*self),
                wf_ray(*ray),
                crate::bounded(t_min as int),
                crate::bounded(t_max as int),
                crate::bounded(closest_so_far as int),
                hit_record is None ==> closest_so_far == t_max,
                hit_record matches Some(rec) ==> {
                    &&& rec.t == closest_so_far
                    &&& t_min <= rec.t <= t_max
                    &&& wf_rec(rec)
                    &&& 0 <= rec.u <= SCALE && 0 <= rec.v <= SCALE
                    &&& forall|m: int| #[trigger] list_mats_below(*self, m)
                        ==> rec.material < m
                },
                all_modelled(*self) ==> match hit_record {
                    Some(rec) => model_scan(self.objects@.take(i as int), *ray, t_min as int,
                        t_max as int) == Some(rec.t as int),
                    None => model_scan(self.objects@.take(i as int), *ray, t_min as int,
                        t_max as int) is None,
                },
            decreases self.objects@.len() - i,
        {
            let step = self.objects[i].hit(ray, t_min, closest_so_far);
            proof {
                if all_modelled(*self) {
                    let obj = self.objects@[i as int];
                    crate::bvh_node::lemma_model_scan_concat(self.objects@.take(i as int),
                        seq![obj], *ray, t_min as int, t_max as int);
                    lemma_model_scan_single(obj, *ray, t_min as int, closest_so_far as int);
                    assert(self.objects@.take(i as int + 1)
                        =~= self.objects@.take(i as int) + seq![obj]);
                }
            }
            match step {
                Some(rec) => {
                    proof {
                        assert forall|m: int| #[trigger] list_mats_below(*self, m)
                            implies rec.material < m by {
                            assert(mats_below(self.objects@[i as int], m));
                        }
                    }
                    closest_so_far = rec.t;
                    hit_record = Some(rec);
                },
                None => {},
            }
            i = i + 1;
        }
        proof {
            assert(self.objects@.take(self.objects@.len() as int) =~= self.objects@);
        }
        hit_record
    }

    /// Gets the combined bounding box of all objects in the list: the
    /// surrounding-box fold of every member's box, or nothing for an empty
    /// list or one holding an unboxable object.
    pub fn bounding_box(&self, time0: i128, time1: i128) -> (r: Option<AABB>)
        requires
            wf_list(*self),
            crate::bounded(time0 as int),
            crate::bounded(time1 as int),
        ensures
            r == list_bb(*self, time0 as int, time1 as int),
            r matches Some(b) ==> wf_aabb(b),
    {
        if self.objects.len() == 0 {
            return None;
        }

        proof {
            assert(self.objects@.skip(0) =~= self.objects@);
        }
        let mut output_box: Option<AABB> = None;
        let mut i: usize = 0;
        while i < self.objects.len()
            invariant
                i <= self.objects@.len(),
                0 < self.objects@.len(),
                wf_list(*self),
                crate::bounded(time0 as int),
                crate::bounded(time1 as int),
                output_box matches Some(b) ==> wf_aabb(b),
                list_bb_from(output_box, self.objects@.skip(i as int), time0 as int,
                    time1 as int)
                    == list_bb_from(None, self.objects@, time0 as int, time1 as int),
            decreases self.objects@.len() - i,
        {
            proof {
                assert(self.objects@.skip(i as int)[0] == self.objects@[i as int]);
                assert(self.objects@.skip(i as int).drop_first()
                    =~= self.objects@.skip(i as int + 1));
            }
            match self.objects[i].bounding_box(time0, time1) {
                None => {
                    return None;
                },
                Some(returned_box) => {
                    match output_box {
                        None => {
                            output_box = Some(returned_box);
                        },
                        Some(curr_box) => {
                            output_box = Some(AABB::surrounding_box(&curr_box, &returned_box));
                        },
                    }
                },
            }
            i = i + 1;
        }

        proof {
            assert(self.objects@.skip(self.objects@.len() as int)
                =~= Seq::<Hittable>::empty());
        }
        output_box
    }
}

} // verus!
