//! Axis-aligned bounding boxes and the slab intersection test.
use vstd::prelude::*;

use crate::fx::{absi, fxm, fxd, tdiv, mini, maxi, fx_mul, fx_div, min_i, max_i, lemma_fxm_bound, lemma_fxm_neg, lemma_tdiv_neg, lemma_tdiv_abs, lemma_tdiv_mono, MUL_LIM};
use crate::vec3::{Vec3, in_range};
use crate::ray::{Ray, wf_ray};
use crate::{SCALE, INFINITY};

verus! {

/// Largest component magnitude a box corner may take.
pub const BOX_LIM: i128 = 1099511627776;

/// Largest magnitude a running ray-parameter bound may take during the
/// slab test.
pub const SLAB_LIM: i128 = 288230376151711744;

/// Object representing an Axis-Aligned Bounding Box for grouping Hittable objects
#[derive(Clone, Copy, PartialEq, Eq, Structural, Debug)]
pub struct AABB {
    pub minimum: Vec3,
    pub maximum: Vec3,
}

/// The box's corners lie within the representable coordinate envelope.
pub open spec fn wf_aabb(b: AABB) -> bool {
    in_range(b.minimum, BOX_LIM as int) && in_range(b.maximum, BOX_LIM as int)
}

/// One axis of the slab test: whether the axis keeps the overlap alive, and
/// the tightened running parameter interval.  A zero direction component
/// leaves the interval untouched and fails only when the origin lies outside
/// the slab.
pub open spec fn axis_step(bmin: int, bmax: int, o: int, d: int, tmin: int, tmax: int)
    -> (bool, int, int) {
    if d == 0 {
        (bmin <= o && o <= bmax && tmin < tmax, tmin, tmax)
    } else {
        let inv = fxd(SCALE as int, d);
        let t0 = fxm(bmin - o, inv);
        let t1 = fxm(bmax - o, inv);
        let lo = if inv < 0 { t1 } else { t0 };
        let hi = if inv < 0 { t0 } else { t1 };
        let ntmin = maxi(tmin, lo);
        let ntmax = mini(tmax, hi);
        (ntmax > ntmin, ntmin, ntmax)
    }
}

/// The smallest box holding two boxes: component-wise least minima and
/// greatest maxima.
pub open spec fn sbox(b0: AABB, b1: AABB) -> AABB {
    AABB {
        minimum: Vec3 {
            x: mini(b0.minimum.x as int, b1.minimum.x as int) as i128,
            y: mini(b0.minimum.y as int, b1.minimum.y as int) as i128,
            z: mini(b0.minimum.z as int, b1.minimum.z as int) as i128,
        },
        maximum: Vec3 {
            x: maxi(b0.maximum.x as int, b1.maximum.x as int) as i128,
            y: maxi(b0.maximum.y as int, b1.maximum.y as int) as i128,
            z: maxi(b0.maximum.z as int, b1.maximum.z as int) as i128,
        },
    }
}

/// Whether the slab test reports the ray passing through the box within the
/// given parameter interval.
pub open spec fn slab_hit(b: AABB, ray: Ray, tmin: int, tmax: int) -> bool {
    let sx = axis_step(b.minimum.x as int, b.maximum.x as int, ray.origin.x as int,
        ray.direction.x as int, tmin, tmax);
    let sy = axis_step(b.minimum.y as int, b.maximum.y as int, ray.origin.y as int,
        ray.direction.y as int, sx.1, sx.2);
    let sz = axis_step(b.minimum.z as int, b.maximum.z as int, ray.origin.z as int,
        ray.direction.z as int, sy.1, sy.2);
    sx.0 && sy.0 && sz.0
}

/// One exec axis of the slab test.
fn axis_step_e(bmin: i128, bmax: i128, o: i128, d: i128, tmin: i128, tmax: i128)
    -> (r: (bool, i128, i128))
    requires
        absi(bmin as int) <= BOX_LIM as int,
        absi(bmax as int) <= BOX_LIM as int,
        absi(o as int) <= INFINITY as int,
        absi(d as int) <= INFINITY as int,
        absi(tmin as int) <= SLAB_LIM as int,
        absi(tmax as int) <= SLAB_LIM as int,
    ensures
        (r.0, r.1 as int, r.2 as int)
            == axis_step(bmin as int, bmax as int, o as int, d as int, tmin as int, tmax as int),
        absi(r.1 as int) <= SLAB_LIM as int,
        absi(r.2 as int) <= SLAB_LIM as int,
{
    if d == 0 {
        (bmin <= o && o <= bmax && tmin < tmax, tmin, tmax)
    } else {
        proof {
            lemma_tdiv_abs(SCALE as int * SCALE as int, absi(d as int));
            assert(absi(fxd(SCALE as int, d as int)) <= SCALE as int * SCALE as int) by {
                assert(absi(tdiv(SCALE as int * SCALE as int, d as int))
                    == (SCALE as int * SCALE as int) / absi(d as int));
                vstd::arithmetic::div_mod::lemma_div_nonincreasing(
                    SCALE as int * SCALE as int, absi(d as int));
            }
        }
        let inv = fx_div(SCALE, d);
        proof {
            crate::fx::lemma_fxm_within((bmin - o) as int, inv as int, 1168231104512,
                4294967296, 76561193665298432);
            crate::fx::lemma_fxm_within((bmax - o) as int, inv as int, 1168231104512,
                4294967296, 76561193665298432);
        }
        let t0 = fx_mul(bmin - o, inv);
        let t1 = fx_mul(bmax - o, inv);
        let lo = if inv < 0 { t1 } else { t0 };
        let hi = if inv < 0 { t0 } else { t1 };
        let ntmin = max_i(tmin, lo);
        let ntmax = min_i(tmax, hi);
        (ntmax > ntmin, ntmin, ntmax)
    }
}

impl AABB {
    /// Constructs a new AABB
    pub fn new(minimum: Vec3, maximum: Vec3) -> (r: AABB)
        ensures
            r.minimum == minimum && r.maximum == maximum,
    {
        AABB { minimum, maximum }
    }

    /// The smallest axis-aligned box holding both given boxes: the
    /// component-wise least of the minima and greatest of the maxima.
    pub fn surrounding_box(box0: &AABB, box1: &AABB) -> (r: AABB)
        ensures
            r.minimum.x as int == mini(box0.minimum.x as int, box1.minimum.x as int),
            r.minimum.y as int == mini(box0.minimum.y as int, box1.minimum.y as int),
            r.minimum.z as int == mini(box0.minimum.z as int, box1.minimum.z as int),
            r.maximum.x as int == maxi(box0.maximum.x as int, box1.maximum.x as int),
            r.maximum.y as int == maxi(box0.maximum.y as int, box1.maximum.y as int),
            r.maximum.z as int == maxi(box0.maximum.z as int, box1.maximum.z as int),
            r == sbox(*box0, *box1),
            wf_aabb(*box0) && wf_aabb(*box1) ==> wf_aabb(r),
    {
        let minimum = Vec3::new(
            min_i(box0.minimum.x, box1.minimum.x),
            min_i(box0.minimum.y, box1.minimum.y),
            min_i(box0.minimum.z, box1.minimum.z),
        );
        let maximum = Vec3::new(
            max_i(box0.maximum.x, box1.maximum.x),
            max_i(box0.maximum.y, box1.maximum.y),
            max_i(box0.maximum.z, box1.maximum.z),
        );
        AABB::new(minimum, maximum)
    }

    /// Returns if a ray passed through the bounding box
    pub fn hit(&self, ray: &Ray, t_min: i128, t_max: i128) -> (r: bool)
        requires
            wf_aabb(*self),
            wf_ray(*ray),
            crate::bounded(t_min as int),
            crate::bounded(t_max as int),
        ensures
            r == slab_hit(*self, *ray, t_min as int, t_max as int),
    {
        let sx = axis_step_e(self.minimum.x, self.maximum.x, ray.origin.x, ray.direction.x,
            t_min, t_max);
        if !sx.0 {
            return false;
        }
        let sy = axis_step_e(self.minimum.y, self.maximum.y, ray.origin.y, ray.direction.y,
            sx.1, sx.2);
        if !sy.0 {
            return false;
        }
        let sz = axis_step_e(self.minimum.z, self.maximum.z, ray.origin.z, ray.direction.z,
            sy.1, sy.2);
        sz.0
    }
}

/// Mirroring one axis through the origin leaves that axis of the slab test
/// unchanged.
proof fn lemma_axis_mirror(bmin: int, bmax: int, o: int, d: int, tmin: int, tmax: int)
    ensures
        axis_step(-bmax, -bmin, -o, -d, tmin, tmax) == axis_step(bmin, bmax, o, d, tmin, tmax),
{
    if d != 0 {
        lemma_tdiv_neg(SCALE as int * SCALE as int, d);
        assert(fxd(SCALE as int, -d) == -fxd(SCALE as int, d));
        let inv = fxd(SCALE as int, d);
        lemma_fxm_neg(bmax - o, inv);
        lemma_fxm_neg(-(bmax - o), inv);
        lemma_fxm_neg(bmin - o, inv);
        lemma_fxm_neg(-(bmin - o), inv);
        assert(fxm(-bmax - -o, -inv) == fxm(bmax - o, inv));
        assert(fxm(-bmin - -o, -inv) == fxm(bmin - o, inv));
        if inv == 0 {
            assert(fxm(bmin - o, 0) == 0);
            assert(fxm(bmax - o, 0) == 0);
        }
    }
}

/// The slab test answers the same for a ray and box mirrored through the
/// origin: negating every direction, origin and corner component, with the
/// corners swapped, cannot change whether the box is hit.
pub proof fn lemma_slab_hit_mirror(b: AABB, ray: Ray, mb: AABB, mray: Ray, tmin: int, tmax: int)
    requires
        mb.minimum.x as int == -(b.maximum.x as int),
        mb.minimum.y as int == -(b.maximum.y as int),
        mb.minimum.z as int == -(b.maximum.z as int),
        mb.maximum.x as int == -(b.minimum.x as int),
        mb.maximum.y as int == -(b.minimum.y as int),
        mb.maximum.z as int == -(b.minimum.z as int),
        mray.origin.x as int == -(ray.origin.x as int),
        mray.origin.y as int == -(ray.origin.y as int),
        mray.origin.z as int == -(ray.origin.z as int),
        mray.direction.x as int == -(ray.direction.x as int),
        mray.direction.y as int == -(ray.direction.y as int),
        mray.direction.z as int == -(ray.direction.z as int),
    ensures
        slab_hit(mb, mray, tmin, tmax) == slab_hit(b, ray, tmin, tmax),
{
    let sx = axis_step(b.minimum.x as int, b.maximum.x as int, ray.origin.x as int,
        ray.direction.x as int, tmin, tmax);
    let sy = axis_step(b.minimum.y as int, b.maximum.y as int, ray.origin.y as int,
        ray.direction.y as int, sx.1, sx.2);
    lemma_axis_mirror(b.minimum.x as int, b.maximum.x as int, ray.origin.x as int,
        ray.direction.x as int, tmin, tmax);
    lemma_axis_mirror(b.minimum.y as int, b.maximum.y as int, ray.origin.y as int,
        ray.direction.y as int, sx.1, sx.2);
    lemma_axis_mirror(b.minimum.z as int, b.maximum.z as int, ray.origin.z as int,
        ray.direction.z as int, sy.1, sy.2);
}

/// Widening one axis slab and the running interval can only keep an axis
/// passing, and keeps the widened interval around the narrow one.
proof fn lemma_axis_widens(
    bmin_i: int, bmax_i: int, bmin_o: int, bmax_o: int, o: int, d: int,
    tmin_i: int, tmax_i: int, tmin_o: int, tmax_o: int,
)
    requires
        bmin_o <= bmin_i,
        bmax_i <= bmax_o,
        tmin_o <= tmin_i,
        tmax_i <= tmax_o,
    ensures
        ({
            let si = axis_step(bmin_i, bmax_i, o, d, tmin_i, tmax_i);
            let so = axis_step(bmin_o, bmax_o, o, d, tmin_o, tmax_o);
            (si.0 ==> so.0) && so.1 <= si.1 && si.2 <= so.2
        }),
{
    if d != 0 {
        let inv = fxd(SCALE as int, d);
        let t0i = fxm(bmin_i - o, inv);
        let t1i = fxm(bmax_i - o, inv);
        let t0o = fxm(bmin_o - o, inv);
        let t1o = fxm(bmax_o - o, inv);
        if inv >= 0 {
            assert((bmin_o - o) * inv <= (bmin_i - o) * inv) by (nonlinear_arith)
                requires bmin_o <= bmin_i, inv >= 0;
            assert((bmax_i - o) * inv <= (bmax_o - o) * inv) by (nonlinear_arith)
                requires bmax_i <= bmax_o, inv >= 0;
            lemma_tdiv_mono((bmin_o - o) * inv, (bmin_i - o) * inv, SCALE as int);
            lemma_tdiv_mono((bmax_i - o) * inv, (bmax_o - o) * inv, SCALE as int);
        } else {
            assert((bmin_i - o) * inv <= (bmin_o - o) * inv) by (nonlinear_arith)
                requires bmin_o <= bmin_i, inv < 0;
            assert((bmax_o - o) * inv <= (bmax_i - o) * inv) by (nonlinear_arith)
                requires bmax_i <= bmax_o, inv < 0;
            lemma_tdiv_mono((bmin_i - o) * inv, (bmin_o - o) * inv, SCALE as int);
            lemma_tdiv_mono((bmax_o - o) * inv, (bmax_i - o) * inv, SCALE as int);
        }
    }
}

/// A box surrounding two boxes holds both: its minima are at most, and its
/// maxima at least, either box's.
pub proof fn lemma_surrounding_box_contains(b0: AABB, b1: AABB, sb: AABB)
    requires
        sb.minimum.x as int == mini(b0.minimum.x as int, b1.minimum.x as int),
        sb.minimum.y as int == mini(b0.minimum.y as int, b1.minimum.y as int),
        sb.minimum.z as int == mini(b0.minimum.z as int, b1.minimum.z as int),
        sb.maximum.x as int == maxi(b0.maximum.x as int, b1.maximum.x as int),
        sb.maximum.y as int == maxi(b0.maximum.y as int, b1.maximum.y as int),
        sb.maximum.z as int == maxi(b0.maximum.z as int, b1.maximum.z as int),
    ensures
        sb.minimum.x <= b0.minimum.x && sb.minimum.x <= b1.minimum.x,
        sb.minimum.y <= b0.minimum.y && sb.minimum.y <= b1.minimum.y,
        sb.minimum.z <= b0.minimum.z && sb.minimum.z <= b1.minimum.z,
        sb.maximum.x >= b0.maximum.x && sb.maximum.x >= b1.maximum.x,
        sb.maximum.y >= b0.maximum.y && sb.maximum.y >= b1.maximum.y,
        sb.maximum.z >= b0.maximum.z && sb.maximum.z >= b1.maximum.z,
{
}

/// Any ray the slab test passes through a box, it also passes through every
/// box holding that box over the same parameter interval.
pub proof fn lemma_slab_hit_widens(inner: AABB, outer: AABB, ray: Ray, tmin: int, tmax: int)
    requires
        outer.minimum.x <= inner.minimum.x,
        outer.minimum.y <= inner.minimum.y,
        outer.minimum.z <= inner.minimum.z,
        inner.maximum.x <= outer.maximum.x,
        inner.maximum.y <= outer.maximum.y,
        inner.maximum.z <= outer.maximum.z,
        slab_hit(inner, ray, tmin, tmax),
    ensures
        slab_hit(outer, ray, tmin, tmax),
{
    let sxi = axis_step(inner.minimum.x as int, inner.maximum.x as int, ray.origin.x as int,
        ray.direction.x as int, tmin, tmax);
    let syi = axis_step(inner.minimum.y as int, inner.maximum.y as int, ray.origin.y as int,
        ray.direction.y as int, sxi.1, sxi.2);
    let sxo = axis_step(outer.minimum.x as int, outer.maximum.x as int, ray.origin.x as int,
        ray.direction.x as int, tmin, tmax);
    lemma_axis_widens(inner.minimum.x as int, inner.maximum.x as int,
        outer.minimum.x as int, outer.maximum.x as int, ray.origin.x as int,
        ray.direction.x as int, tmin, tmax, tmin, tmax);
    let syo = axis_step(outer.minimum.y as int, outer.maximum.y as int, ray.origin.y as int,
        ray.direction.y as int, sxo.1, sxo.2);
    lemma_axis_widens(inner.minimum.y as int, inner.maximum.y as int,
        outer.minimum.y as int, outer.maximum.y as int, ray.origin.y as int,
        ray.direction.y as int, sxi.1, sxi.2, sxo.1, sxo.2);
    lemma_axis_widens(inner.minimum.z as int, inner.maximum.z as int,
        outer.minimum.z as int, outer.maximum.z as int, ray.origin.z as int,
        ray.direction.z as int, syi.1, syi.2, syo.1, syo.2);
}

} // verus!
