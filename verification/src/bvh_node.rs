//! A bounding volume hierarchy: a binary tree of boxes over the scene.
use vstd::prelude::*;
use crate::vec3::{comp};
use crate::aabb::{AABB};
use crate::hittable::{Hittable, wf_h, leaves, bb_spec};
use crate::hittable_list::{HittableList, wf_list};
use crate::random_int;

verus! {

/// Object to represent a node in a Bounding Volume Hierarchy
#[derive(Debug)]
pub struct BVHNode {
    pub left: Box<Hittable>,
    pub right: Box<Hittable>,
    pub bounds: AABB,
}

/// One box holds another componentwise.
pub open spec fn box_holds(outer: AABB, inner: AABB) -> bool {
    &&& outer.minimum.x <= inner.minimum.x && inner.maximum.x <= outer.maximum.x
    &&& outer.minimum.y <= inner.minimum.y && inner.maximum.y <= outer.maximum.y
    &&& outer.minimum.z <= inner.minimum.z && inner.maximum.z <= outer.maximum.z
}

/// Every tree node's stored box is exactly the surrounding box of its two
/// children's boxes over the given shutter window, down the whole tree.
pub open spec fn bvh_boxes_ok(h: Hittable, t0: int, t1: int) -> bool
    decreases h,
{
    match h {
        Hittable::BVHNode(n) => {
            &&& bb_spec(*n.left, t0, t1) is Some
            &&& bb_spec(*n.right, t0, t1) is Some
            &&& n.bounds == crate::aabb::sbox(bb_spec(*n.left, t0, t1)->Some_0,
                bb_spec(*n.right, t0, t1)->Some_0)
            &&& bvh_boxes_ok(*n.left, t0, t1)
            &&& bvh_boxes_ok(*n.right, t0, t1)
        },
        _ => true,
    }
}

/// A node's box holds each of its children's boxes.
proof fn lemma_node_holds_children(bounds: AABB, lb: AABB, rb: AABB)
    requires
        bounds == crate::aabb::sbox(lb, rb),
    ensures
        box_holds(bounds, lb),
        box_holds(bounds, rb),
{
}

/// Every leaf's box lies inside every stored box above it, down a tree
/// whose boxes are sound.
pub proof fn lemma_bvh_bounds_contain(h: Hittable, x: Hittable, t0: int, t1: int)
    requires
        h is BVHNode,
        bvh_boxes_ok(h, t0, t1),
        leaves(h).contains(x),
        bb_spec(x, t0, t1) is Some,
    ensures
        box_holds(h->BVHNode_0.bounds, bb_spec(x, t0, t1)->Some_0),
    decreases h,
{
    let n = h->BVHNode_0;
    let lb = bb_spec(*n.left, t0, t1)->Some_0;
    let rb = bb_spec(*n.right, t0, t1)->Some_0;
    lemma_node_holds_children(n.bounds, lb, rb);
    lemma_add_contains(leaves(*n.left), leaves(*n.right), x);
    if leaves(*n.left).contains(x) {
        if *n.left is BVHNode {
            lemma_bvh_bounds_contain(*n.left, x, t0, t1);
            assert(bb_spec(*n.left, t0, t1) == Some(n.left->BVHNode_0.bounds));
        } else {
            assert(leaves(*n.left) =~= seq![*n.left]);
            assert(x == *n.left);
        }
    } else {
        if *n.right is BVHNode {
            lemma_bvh_bounds_contain(*n.right, x, t0, t1);
            assert(bb_spec(*n.right, t0, t1) == Some(n.right->BVHNode_0.bounds));
        } else {
            assert(leaves(*n.right) =~= seq![*n.right]);
            assert(x == *n.right);
        }
    }
}

/// Containment distributes over joined leaf sequences.
proof fn lemma_add_contains(a: Seq<Hittable>, b: Seq<Hittable>, x: Hittable)
    ensures
        (a + b).contains(x) <==> a.contains(x) || b.contains(x),
{
    if a.contains(x) {
        let i = choose|i: int| 0 <= i < a.len() && a[i] == x;
        assert((a + b)[i] == x);
    }
    if b.contains(x) {
        let i = choose|i: int| 0 <= i < b.len() && b[i] == x;
        assert((a + b)[a.len() + i] == x);
    }
    if (a + b).contains(x) {
        let i = choose|i: int| 0 <= i < (a + b).len() && (a + b)[i] == x;
        if i < a.len() {
            assert(a[i] == x);
        } else {
            assert(b[i - a.len()] == x);
        }
    }
}

/// A deep copy of a vector of objects, equal element by element.
fn duplicate_vec(src: &Vec<Hittable>) -> (r: Vec<Hittable>)
    ensures
        r@ == src@,
{
    let mut out: Vec<Hittable> = Vec::new();
    let mut i: usize = 0;
    while i < src.len()
        invariant
            i <= src@.len(),
            out@ =~= src@.subrange(0, i as int),
        decreases src@.len() - i,
    {
        out.push(src[i].duplicate());
        i = i + 1;
    }
    proof {
        assert(out@ =~= src@);
    }
    out
}

/// Orders two objects by the minimum corner of their boxes along an axis.
fn box_compare(a: &Hittable, b: &Hittable, axis: usize) -> (r: bool)
    requires
        wf_h(*a),
        wf_h(*b),
        bb_spec(*a, 0, 0) is Some,
        bb_spec(*b, 0, 0) is Some,
        axis < 3,
    ensures
        r == (comp(bb_spec(*a, 0, 0)->Some_0.minimum, axis as int)
            < comp(bb_spec(*b, 0, 0)->Some_0.minimum, axis as int)),
{
    let box_a = match a.bounding_box(0, 0) {
        Some(bx) => bx,
        None => vstd::pervasive::unreached(),
    };
    let box_b = match b.bounding_box(0, 0) {
        Some(bx) => bx,
        None => vstd::pervasive::unreached(),
    };
    box_a.minimum.get(axis) < box_b.minimum.get(axis)
}

/// Swaps two elements of an object vector.
fn swap_objs(objects: &mut Vec<Hittable>, i: usize, j: usize)
    requires
        i < old(objects)@.len(),
        j < old(objects)@.len(),
        i != j,
    ensures
        final(objects)@ =~= old(objects)@.update(i as int, old(objects)@[j as int])
            .update(j as int, old(objects)@[i as int]),
{
    let mut tmp = objects[i].duplicate();
    vstd::pervasive::VecAdditionalExecFns::set_and_swap(objects, j, &mut tmp);
    vstd::pervasive::VecAdditionalExecFns::set(objects, i, tmp);
}

/// Sorts the objects in `[start, end)` by the minimum corner of their boxes
/// along an axis, by repeatedly selecting the least remaining object.  The
/// range afterwards holds the same objects: each new entry was there before
/// and each old entry is still there; entries outside the range are
/// untouched.
fn sort_range(objects: &mut Vec<Hittable>, start: usize, end: usize, axis: usize)
    requires
        start <= end <= old(objects)@.len(),
        axis < 3,
        forall|k: int| start <= k < end ==> wf_h(#[trigger] old(objects)@[k]),
        forall|k: int| start <= k < end ==> (#[trigger] bb_spec(old(objects)@[k], 0, 0)) is Some,
    ensures
        final(objects)@.len() == old(objects)@.len(),
        forall|k: int| (0 <= k < start || end <= k < old(objects)@.len())
            ==> final(objects)@[k] == #[trigger] old(objects)@[k],
        forall|k: int| start <= k < end
            ==> old(objects)@.subrange(start as int, end as int)
                .contains(#[trigger] final(objects)@[k]),
        forall|k: int| start <= k < end
            ==> final(objects)@.subrange(start as int, end as int)
                .contains(#[trigger] old(objects)@[k]),
{
    let ghost orig = objects@;
    proof {
        assert forall|k: int| start <= k < end
            implies orig.subrange(start as int, end as int).contains(#[trigger] objects@[k]) by {
            assert(orig.subrange(start as int, end as int)[k - start] == objects@[k]);
        }
        assert forall|k: int| start <= k < end
            implies objects@.subrange(start as int, end as int).contains(#[trigger] orig[k]) by {
            assert(objects@.subrange(start as int, end as int)[k - start] == orig[k]);
        }
    }
    let mut i = start;
    while i < end
        invariant
            start <= i <= end <= objects@.len(),
            objects@.len() == orig.len(),
            axis < 3,
            forall|k: int| (0 <= k < start || end <= k < orig.len())
                ==> objects@[k] == #[trigger] orig[k],
            forall|k: int| start <= k < end
                ==> orig.subrange(start as int, end as int).contains(#[trigger] objects@[k]),
            forall|k: int| start <= k < end
                ==> objects@.subrange(start as int, end as int).contains(#[trigger] orig[k]),
            forall|k: int| start <= k < end ==> wf_h(#[trigger] objects@[k]),
            forall|k: int| start <= k < end ==> (#[trigger] bb_spec(objects@[k], 0, 0)) is Some,
        decreases end - i,
    {
        let mut best = i;
        let mut j = i + 1;
        while j < end
            invariant
                start <= i <= best < j <= end <= objects@.len(),
                axis < 3,
                forall|k: int| start <= k < end ==> wf_h(#[trigger] objects@[k]),
                forall|k: int| start <= k < end
                    ==> (#[trigger] bb_spec(objects@[k], 0, 0)) is Some,
            decreases end - j,
        {
            if box_compare(&objects[j], &objects[best], axis) {
                best = j;
            }
            j = j + 1;
        }
        if best != i {
            let ghost before = objects@;
            swap_objs(objects, i, best);
            proof {
                lemma_swap_keeps_contains(before, objects@, orig, start as int, end as int,
                    i as int, best as int);
                assert forall|k: int| start <= k < end
                    implies wf_h(#[trigger] objects@[k])
                        && (bb_spec(objects@[k], 0, 0)) is Some by {
                    if k == i as int {
                        assert(objects@[k] == before[best as int]);
                    } else if k == best as int {
                        assert(objects@[k] == before[i as int]);
                    } else {
                        assert(objects@[k] == before[k]);
                    }
                }
            }
        }
        i = i + 1;
    }
}

/// Swapping two entries inside a range keeps both directions of containment
/// with the original range.
proof fn lemma_swap_keeps_contains(before: Seq<Hittable>, after: Seq<Hittable>,
    orig: Seq<Hittable>, start: int, end: int, i: int, j: int)
    requires
        before.len() == after.len() == orig.len(),
        0 <= start <= i < end <= before.len(),
        start <= j < end,
        i != j,
        after =~= before.update(i, before[j]).update(j, before[i]),
        forall|k: int| (0 <= k < start || end <= k < orig.len())
            ==> before[k] == #[trigger] orig[k],
        forall|k: int| start <= k < end
            ==> orig.subrange(start, end).contains(#[trigger] before[k]),
        forall|k: int| start <= k < end
            ==> before.subrange(start, end).contains(#[trigger] orig[k]),
    ensures
        forall|k: int| (0 <= k < start || end <= k < orig.len())
            ==> after[k] == #[trigger] orig[k],
        forall|k: int| start <= k < end
            ==> orig.subrange(start, end).contains(#[trigger] after[k]),
        forall|k: int| start <= k < end
            ==> after.subrange(start, end).contains(#[trigger] orig[k]),
{
    assert forall|k: int| start <= k < end
        implies orig.subrange(start, end).contains(#[trigger] after[k]) by {
        if k == i {
            assert(after[k] == before[j]);
        } else if k == j {
            assert(after[k] == before[i]);
        } else {
            assert(after[k] == before[k]);
        }
    }
    assert forall|k: int| start <= k < end
        implies after.subrange(start, end).contains(#[trigger] orig[k]) by {
        let w = choose|w: int| 0 <= w < end - start
            && before.subrange(start, end)[w] == orig[k];
        let p = w + start;
        if p == i {
            assert(after.subrange(start, end)[j - start] == before[i]);
        } else if p == j {
            assert(after.subrange(start, end)[i - start] == before[j]);
        } else {
            assert(after.subrange(start, end)[w] == before[p]);
        }
    }
}

impl BVHNode {
    /// Constructs a BVH Tree from a Hittable List
    pub fn from_hittable_list(list: &HittableList, time0: i128, time1: i128) -> (r: Hittable)
        requires
            0 < list.objects@.len(),
            wf_list(*list),
            forall|i: int| 0 <= i < list.objects@.len()
                ==> (#[trigger] bb_spec(list.objects@[i], 0, 0)) is Some,
            forall|i: int| 0 <= i < list.objects@.len()
                ==> (#[trigger] bb_spec(list.objects@[i], time0 as int, time1 as int)) is Some,
            forall|i: int| 0 <= i < list.objects@.len()
                ==> bvh_boxes_ok(#[trigger] list.objects@[i], time0 as int, time1 as int),
            crate::bounded(time0 as int),
            crate::bounded(time1 as int),
        ensures
            wf_h(r),
            r is BVHNode,
            bvh_boxes_ok(r, time0 as int, time1 as int),
    {
        BVHNode::new(&list.objects, 0, list.objects.len(), time0, time1)
    }

    /// Constructs a new BVH subtree over `[start, end)` of a list of
    /// objects: the range is ordered along a randomly chosen axis and split
    /// at its midpoint, and each node's box surrounds its children's.  Every
    /// leaf under any object of the range stays a leaf of the tree, and
    /// every leaf of the tree came from the range.
    pub fn new(src_objects: &Vec<Hittable>, start: usize, end: usize, time0: i128,
        time1: i128) -> (r: Hittable)
        requires
            start < end <= src_objects@.len(),
            forall|i: int| start <= i < end ==> wf_h(#[trigger] src_objects@[i]),
            forall|i: int| start <= i < end
                ==> (#[trigger] bb_spec(src_objects@[i], 0, 0)) is Some,
            forall|i: int| start <= i < end
                ==> (#[trigger] bb_spec(src_objects@[i], time0 as int, time1 as int)) is Some,
            forall|i: int| start <= i < end
                ==> bvh_boxes_ok(#[trigger] src_objects@[i], time0 as int, time1 as int),
            crate::bounded(time0 as int),
            crate::bounded(time1 as int),
        ensures
            wf_h(r),
            r is BVHNode,
            bvh_boxes_ok(r, time0 as int, time1 as int),
            forall|k: int, j: int| start <= k < end
                && 0 <= j < leaves(src_objects@[k]).len()
                ==> leaves(r).contains(#[trigger] leaves(src_objects@[k])[j]),
            forall|x: Hittable| #[trigger] leaves(r).contains(x)
                ==> exists|k: int| start <= k < end && leaves(src_objects@[k]).contains(x),
        decreases end - start,
    {
        let mut objects = duplicate_vec(src_objects);

        let axis = random_int(0, 2) as usize;

        let object_span = end - start;

        let left: Hittable;
        let right: Hittable;

        if object_span == 1 {
            left = objects[start].duplicate();
            right = objects[start].duplicate();
        } else if object_span == 2 {
            if box_compare(&objects[start], &objects[start + 1], axis) {
                left = objects[start].duplicate();
                right = objects[start + 1].duplicate();
            } else {
                left = objects[start + 1].duplicate();
                right = objects[start].duplicate();
            }
        } else {
            sort_range(&mut objects, start, end, axis);
            proof {
                assert forall|k: int| start <= k < end
                    implies wf_h(#[trigger] objects@[k])
                        && (bb_spec(objects@[k], 0, 0)) is Some
                        && (bb_spec(objects@[k], time0 as int, time1 as int)) is Some
                        && bvh_boxes_ok(objects@[k], time0 as int, time1 as int) by {
                    assert(src_objects@.subrange(start as int, end as int)
                        .contains(objects@[k]));
                    let w = choose|w: int| 0 <= w < end - start
                        && src_objects@.subrange(start as int, end as int)[w] == objects@[k];
                    assert(src_objects@[w + start] == objects@[k]);
                }
            }
            let mid = start + object_span / 2;
            left = BVHNode::new(&objects, start, mid, time0, time1);
            right = BVHNode::new(&objects, mid, end, time0, time1);
        }

        let box_left = match left.bounding_box(time0, time1) {
            Some(b) => b,
            None => vstd::pervasive::unreached(),
        };
        let box_right = match right.bounding_box(time0, time1) {
            Some(b) => b,
            None => vstd::pervasive::unreached(),
        };

        let bounds = AABB::surrounding_box(&box_left, &box_right);

        proof {
            lemma_bvh_leaves(src_objects@, objects@, left, right, start as int, end as int,
                object_span as int);
        }

        let node = Hittable::BVHNode(BVHNode {
            left: Box::new(left), right: Box::new(right), bounds,
        });
        proof {
            assert(leaves(node) == leaves(left) + leaves(right));
            assert forall|x: Hittable| #[trigger] leaves(node).contains(x)
                implies exists|k: int| start <= k < end
                    && leaves(src_objects@[k]).contains(x) by {
                assert((leaves(left) + leaves(right)).contains(x));
            }
        }
        node
    }
}

/// The leaves of the two sides of a freshly built node cover exactly the
/// leaves of the objects of the range they were built from.
proof fn lemma_bvh_leaves(src: Seq<Hittable>, objs: Seq<Hittable>, left: Hittable,
    right: Hittable, start: int, end: int, span: int)
    requires
        span == end - start,
        0 <= start < end <= src.len(),
        objs.len() == src.len(),
        span == 1 || span == 2 ==> objs =~= src,
        span == 1 ==> leaves(left) == leaves(src[start])
            && leaves(right) == leaves(src[start]),
        span == 2 ==> (leaves(left) == leaves(src[start])
                && leaves(right) == leaves(src[start + 1]))
            || (leaves(left) == leaves(src[start + 1])
                && leaves(right) == leaves(src[start])),
        span >= 3 ==> {
            let mid = start + span / 2;
            &&& (forall|k: int| start <= k < end
                ==> src.subrange(start, end).contains(#[trigger] objs[k]))
            &&& (forall|k: int| start <= k < end
                ==> objs.subrange(start, end).contains(#[trigger] src[k]))
            &&& (forall|k: int, j: int| start <= k < mid
                && 0 <= j < leaves(objs[k]).len()
                ==> leaves(left).contains(#[trigger] leaves(objs[k])[j]))
            &&& (forall|x: Hittable| #[trigger] leaves(left).contains(x)
                ==> exists|k: int| start <= k < mid && leaves(objs[k]).contains(x))
            &&& (forall|k: int, j: int| mid <= k < end
                && 0 <= j < leaves(objs[k]).len()
                ==> leaves(right).contains(#[trigger] leaves(objs[k])[j]))
            &&& (forall|x: Hittable| #[trigger] leaves(right).contains(x)
                ==> exists|k: int| mid <= k < end && leaves(objs[k]).contains(x))
        },
        span >= 1,
    ensures
        forall|k: int, j: int| start <= k < end && 0 <= j < leaves(src[k]).len()
            ==> (leaves(left) + leaves(right)).contains(#[trigger] leaves(src[k])[j]),
        forall|x: Hittable| #[trigger] (leaves(left) + leaves(right)).contains(x)
            ==> exists|k: int| start <= k < end && leaves(src[k]).contains(x),
{
    assert forall|k: int, j: int| start <= k < end && 0 <= j < leaves(src[k]).len()
        implies (leaves(left) + leaves(right)).contains(#[trigger] leaves(src[k])[j]) by {
        let x = leaves(src[k])[j];
        assert(leaves(src[k]).contains(x));
        if span == 1 || span == 2 {
            lemma_add_contains(leaves(left), leaves(right), x);
        } else {
            let mid = start + span / 2;
            // The object at k still sits somewhere in the sorted range.
            assert(objs.subrange(start, end).contains(src[k]));
            let w = choose|w: int| 0 <= w < end - start
                && objs.subrange(start, end)[w] == src[k];
            let p = w + start;
            assert(objs[p] == src[k]);
            if p < mid {
                assert(leaves(left).contains(leaves(objs[p])[j]));
            } else {
                assert(leaves(right).contains(leaves(objs[p])[j]));
            }
            lemma_add_contains(leaves(left), leaves(right), x);
        }
    }
    assert forall|x: Hittable| #[trigger] (leaves(left) + leaves(right)).contains(x)
        implies exists|k: int| start <= k < end && leaves(src[k]).contains(x) by {
        lemma_add_contains(leaves(left), leaves(right), x);
        if span == 1 {
            assert(leaves(src[start]).contains(x));
        } else if span == 2 {
            assert(leaves(src[start]).contains(x) || leaves(src[start + 1]).contains(x));
        } else {
            let mid = start + span / 2;
            if leaves(left).contains(x) {
                let k = choose|k: int| start <= k < mid && leaves(objs[k]).contains(x);
                assert(src.subrange(start, end).contains(objs[k]));
                let w = choose|w: int| 0 <= w < end - start
                    && src.subrange(start, end)[w] == objs[k];
                assert(leaves(src[w + start]).contains(x));
            } else {
                let k = choose|k: int| mid <= k < end && leaves(objs[k]).contains(x);
                assert(src.subrange(start, end).contains(objs[k]));
                let w = choose|w: int| 0 <= w < end - start
                    && src.subrange(start, end)[w] == objs[k];
                assert(leaves(src[w + start]).contains(x));
            }
        }
    }
}

/// The cheap rejection at a tree node is sound for its children's boxes:
/// a ray the node's box misses also misses both children's boxes, over the
/// same parameter interval.
pub proof fn lemma_bvh_box_reject(h: Hittable, ray: crate::ray::Ray, tmin: int, tmax: int,
    t0: int, t1: int)
    requires
        h is BVHNode,
        bvh_boxes_ok(h, t0, t1),
        !crate::aabb::slab_hit(h->BVHNode_0.bounds, ray, tmin, tmax),
    ensures
        bb_spec(*h->BVHNode_0.left, t0, t1) matches Some(lb)
            && !crate::aabb::slab_hit(lb, ray, tmin, tmax),
        bb_spec(*h->BVHNode_0.right, t0, t1) matches Some(rb)
            && !crate::aabb::slab_hit(rb, ray, tmin, tmax),
{
    let n = h->BVHNode_0;
    let lb = bb_spec(*n.left, t0, t1)->Some_0;
    let rb = bb_spec(*n.right, t0, t1)->Some_0;
    lemma_node_holds_children(n.bounds, lb, rb);
    if crate::aabb::slab_hit(lb, ray, tmin, tmax) {
        crate::aabb::lemma_slab_hit_widens(lb, n.bounds, ray, tmin, tmax);
    }
    if crate::aabb::slab_hit(rb, ray, tmin, tmax) {
        crate::aabb::lemma_slab_hit_widens(rb, n.bounds, ray, tmin, tmax);
    }
}


/// The parameter at which an object is struck within an interval, in the
/// functional model of the traversal argument below: plane rectangles,
/// spheres, moving spheres and boxes follow their exact hit descriptions,
/// tree nodes follow the traversal with its tightening upper bound, and the
/// randomised media and the transform wrappers are transparent.
pub open spec fn model_hit(h: Hittable, ray: crate::ray::Ray, a: int, b: int) -> Option<int>
    decreases h,
{
    match h {
        Hittable::Sphere(s) => {
            let sel = crate::sphere::sphere_root(ray.origin.x - s.centre.x,
                ray.origin.y - s.centre.y, ray.origin.z - s.centre.z, ray.direction,
                s.radius as int, a, b);
            if sel is Some && crate::sphere::quad_rep(s.centre.x as int, s.centre.y as int,
                s.centre.z as int, s.radius as int, ray, sel->Some_0) {
                sel
            } else {
                None
            }
        },
        Hittable::MovingSphere(ms) => {
            let frac = crate::moving_sphere::msphere_frac(ms, ray.time as int);
            let cx = crate::moving_sphere::msphere_centre(ms.centre0.x as int,
                ms.centre1.x as int, frac);
            let cy = crate::moving_sphere::msphere_centre(ms.centre0.y as int,
                ms.centre1.y as int, frac);
            let cz = crate::moving_sphere::msphere_centre(ms.centre0.z as int,
                ms.centre1.z as int, frac);
            if crate::fx::absi(cx) <= crate::INFINITY as int
                && crate::fx::absi(cy) <= crate::INFINITY as int
                && crate::fx::absi(cz) <= crate::INFINITY as int {
                let sel = crate::sphere::sphere_root(ray.origin.x - cx, ray.origin.y - cy,
                    ray.origin.z - cz, ray.direction, ms.radius as int, a, b);
                if sel is Some && crate::sphere::quad_rep(cx, cy, cz, ms.radius as int, ray,
                    sel->Some_0) {
                    sel
                } else {
                    None
                }
            } else {
                None
            }
        },
        Hittable::AABox(bx) => crate::aa_box::box_model(bx, ray, a, b),
        Hittable::Translate(tr) => {
            let mox = ray.origin.x - tr.offset.x;
            let moy = ray.origin.y - tr.offset.y;
            let moz = ray.origin.z - tr.offset.z;
            if crate::fx::absi(mox) <= crate::INFINITY as int
                && crate::fx::absi(moy) <= crate::INFINITY as int
                && crate::fx::absi(moz) <= crate::INFINITY as int {
                let moved = crate::ray::Ray {
                    origin: crate::vec3::Vec3 {
                        x: mox as i128, y: moy as i128, z: moz as i128,
                    },
                    direction: ray.direction,
                    time: ray.time,
                };
                match model_hit(*tr.object, moved, a, b) {
                    None => None,
                    Some(t) => {
                        let px = crate::ray::at_comp(ray.origin.x as int,
                            ray.direction.x as int, t);
                        let py = crate::ray::at_comp(ray.origin.y as int,
                            ray.direction.y as int, t);
                        let pz = crate::ray::at_comp(ray.origin.z as int,
                            ray.direction.z as int, t);
                        if crate::fx::absi(px) <= crate::INFINITY as int
                            && crate::fx::absi(py) <= crate::INFINITY as int
                            && crate::fx::absi(pz) <= crate::INFINITY as int {
                            Some(t)
                        } else {
                            None
                        }
                    },
                }
            } else {
                None
            }
        },
        Hittable::XYRect(rc) => {
            let rv = crate::aa_rect::rect_vals(rc.k as int, ray.origin.z as int,
                ray.direction.z as int, ray.origin.x as int, ray.direction.x as int,
                rc.x0 as int, rc.x1 as int, ray.origin.y as int, ray.direction.y as int,
                rc.y0 as int, rc.y1 as int, a, b);
            if rv.0 { Some(rv.1) } else { None }
        },
        Hittable::XZRect(rc) => {
            let rv = crate::aa_rect::rect_vals(rc.k as int, ray.origin.y as int,
                ray.direction.y as int, ray.origin.x as int, ray.direction.x as int,
                rc.x0 as int, rc.x1 as int, ray.origin.z as int, ray.direction.z as int,
                rc.z0 as int, rc.z1 as int, a, b);
            if rv.0 { Some(rv.1) } else { None }
        },
        Hittable::YZRect(rc) => {
            let rv = crate::aa_rect::rect_vals(rc.k as int, ray.origin.x as int,
                ray.direction.x as int, ray.origin.y as int, ray.direction.y as int,
                rc.y0 as int, rc.y1 as int, ray.origin.z as int, ray.direction.z as int,
                rc.z0 as int, rc.z1 as int, a, b);
            if rv.0 { Some(rv.1) } else { None }
        },
        Hittable::BVHNode(n) => {
            if !crate::aabb::slab_hit(n.bounds, ray, a, b) {
                None
            } else {
                let lh = model_hit(*n.left, ray, a, b);
                let nb = if lh is Some { lh->Some_0 } else { b };
                let rh = model_hit(*n.right, ray, a, nb);
                if rh is Some { rh } else { lh }
            }
        },
        _ => None,
    }
}

/// The hit a left-to-right linear scan finds, tightening its upper bound to
/// each hit it keeps, exactly as the aggregate's exec scan does.
pub open spec fn model_scan(s: Seq<Hittable>, ray: crate::ray::Ray, a: int, b: int)
    -> Option<int>
    decreases s.len(),
{
    if s.len() == 0 {
        None
    } else {
        let h0 = model_hit(s[0], ray, a, b);
        if h0 is Some {
            let r = model_scan(s.drop_first(), ray, a, h0->Some_0);
            if r is Some { r } else { h0 }
        } else {
            model_scan(s.drop_first(), ray, a, b)
        }
    }
}

/// Every box test down the tree is conservative for the ray: a subtree
/// whose box the ray misses over some interval holds no hit there.
pub open spec fn model_covered(h: Hittable, ray: crate::ray::Ray) -> bool
    decreases h,
{
    match h {
        Hittable::BVHNode(n) => {
            &&& (forall|a: int, b: int| !#[trigger] crate::aabb::slab_hit(n.bounds, ray, a, b)
                ==> model_scan(leaves(*n.left) + leaves(*n.right), ray, a, b) is None)
            &&& model_covered(*n.left, ray)
            &&& model_covered(*n.right, ray)
        },
        _ => true,
    }
}

/// Scanning a joined sequence is scanning the first part, then the second
/// under the bound the first part tightened to.
pub proof fn lemma_model_scan_concat(s1: Seq<Hittable>, s2: Seq<Hittable>,
    ray: crate::ray::Ray, a: int, b: int)
    ensures
        ({
            let lh = model_scan(s1, ray, a, b);
            let nb = if lh is Some { lh->Some_0 } else { b };
            let rh = model_scan(s2, ray, a, nb);
            model_scan(s1 + s2, ray, a, b) == if rh is Some { rh } else { lh }
        }),
    decreases s1.len(),
{
    if s1.len() == 0 {
        assert(s1 + s2 =~= s2);
    } else {
        assert((s1 + s2)[0] == s1[0]);
        assert((s1 + s2).drop_first() =~= s1.drop_first() + s2);
        let h0 = model_hit(s1[0], ray, a, b);
        if h0 is Some {
            lemma_model_scan_concat(s1.drop_first(), s2, ray, a, h0->Some_0);
        } else {
            lemma_model_scan_concat(s1.drop_first(), s2, ray, a, b);
        }
    }
}

/// Traversing a tree with the tightened upper bound finds exactly the hit
/// the linear scan of its leaves finds, over any parameter interval, as
/// long as each node's box test is conservative for the ray.  The tree
/// exists purely as an optimisation over the scan.
pub proof fn lemma_bvh_matches_scan(h: Hittable, ray: crate::ray::Ray, a: int, b: int)
    requires
        model_covered(h, ray),
    ensures
        model_hit(h, ray, a, b) == model_scan(leaves(h), ray, a, b),
    decreases h,
{
    match h {
        Hittable::BVHNode(n) => {
            assert(leaves(h) == leaves(*n.left) + leaves(*n.right));
            if !crate::aabb::slab_hit(n.bounds, ray, a, b) {
                assert(model_scan(leaves(*n.left) + leaves(*n.right), ray, a, b) is None);
                assert(model_hit(h, ray, a, b) is None);
            } else {
                lemma_bvh_matches_scan(*n.left, ray, a, b);
                let lh = model_hit(*n.left, ray, a, b);
                let nb = if lh is Some { lh->Some_0 } else { b };
                lemma_bvh_matches_scan(*n.right, ray, a, nb);
                lemma_model_scan_concat(leaves(*n.left), leaves(*n.right), ray, a, b);
                let rh = model_hit(*n.right, ray, a, nb);
                assert(model_hit(h, ray, a, b) == if rh is Some { rh } else { lh });
                assert(model_scan(leaves(*n.left), ray, a, b) == lh);
                assert(model_scan(leaves(*n.right), ray, a, nb) == rh);
            }
        },
        _ => {
            let s = leaves(h);
            assert(s =~= seq![h]);
            assert(s[0] == h);
            assert(s.drop_first() =~= Seq::<Hittable>::empty());
            let h0 = model_hit(h, ray, a, b);
            if h0 is Some {
                assert(model_scan(Seq::<Hittable>::empty(), ray, a, h0->Some_0) is None);
                assert(model_scan(s, ray, a, b) == h0);
            } else {
                assert(model_scan(Seq::<Hittable>::empty(), ray, a, b) is None);
                assert(model_scan(s, ray, a, b) is None);
            }
        },
    }
}


} // verus!
