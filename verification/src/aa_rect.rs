//! Axis-aligned rectangles in the three coordinate planes.
use vstd::prelude::*;
use crate::fx::{absi, fxm, fxd, fx_mul, fx_div, lemma_fxm_within, lemma_frac_unit, lemma_tdiv_nonneg};
use crate::vec3::{Vec3};
use crate::ray::{Ray, wf_ray};
use crate::hit_record::{HitRecord, wf_rec};
use crate::hittable::Hittable;
use crate::{SCALE, INFINITY};

verus! {

/// What a rectangle's hit test computes, with the fixed axis first: whether
/// the plane crossing lies in the parameter interval and inside the bounds,
/// then the parameter, the two free coordinates and the surface coordinates.
pub open spec fn rect_vals(k: int, ofix: int, dfix: int, oa: int, da: int, a0: int, a1: int,
    ob: int, db: int, b0: int, b1: int, tmin: int, tmax: int) -> (bool, int, int, int, int, int) {
    if dfix == 0 {
        (false, 0, 0, 0, 0, 0)
    } else {
        let t = fxd(k - ofix, dfix);
        let av = oa + fxm(t, da);
        let bv = ob + fxm(t, db);
        let u = fxd(av - a0, a1 - a0);
        let v = fxd(bv - b0, b1 - b0);
        let pfix = ofix + fxm(t, dfix);
        let hitc = tmin <= t && t <= tmax && a0 <= av && av <= a1 && b0 <= bv && bv <= b1
            && absi(pfix) <= INFINITY as int;
        (hitc, t, av, bv, u, v)
    }
}

/// The shared exec body of the three rectangle tests, with the fixed axis
/// first; hands back the parameter and plane values exactly as `rect_vals`
/// names them, or nothing.
fn rect_hit_vals(k: i128, ofix: i128, dfix: i128, oa: i128, da: i128, a0: i128, a1: i128,
    ob: i128, db: i128, b0: i128, b1: i128, tmin: i128, tmax: i128)
    -> (r: Option<(i128, i128, i128, i128, i128, i128)>)
    requires
        absi(k as int) <= INFINITY as int,
        absi(ofix as int) <= INFINITY as int,
        absi(dfix as int) <= INFINITY as int,
        absi(oa as int) <= INFINITY as int,
        absi(da as int) <= INFINITY as int,
        absi(ob as int) <= INFINITY as int,
        absi(db as int) <= INFINITY as int,
        -(INFINITY as int) <= a0 < a1 <= INFINITY as int,
        -(INFINITY as int) <= b0 < b1 <= INFINITY as int,
        crate::bounded(tmin as int),
        crate::bounded(tmax as int),
    ensures
        ({
            let rv = rect_vals(k as int, ofix as int, dfix as int, oa as int, da as int,
                a0 as int, a1 as int, ob as int, db as int, b0 as int, b1 as int,
                tmin as int, tmax as int);
            &&& (r is Some <==> rv.0)
            &&& (r matches Some(vals) ==> {
                &&& vals.0 == rv.1 && vals.1 == rv.2 && vals.2 == rv.3
                &&& vals.3 as int == ofix + fxm(rv.1, dfix as int)
                &&& vals.4 == rv.4 && vals.5 == rv.5
                &&& tmin <= vals.0 <= tmax
                &&& a0 <= vals.1 <= a1 && b0 <= vals.2 <= b1
                &&& absi(vals.3 as int) <= INFINITY as int
                &&& 0 <= vals.4 <= SCALE && 0 <= vals.5 <= SCALE
            })
        }),
{
    if dfix == 0 {
        return None;
    }
    let t = fx_div(k - ofix, dfix);
    if t < tmin || t > tmax {
        return None;
    }
    proof {
        lemma_fxm_within(t as int, da as int, 68719476736, 68719476736, 72057594037927936);
        lemma_fxm_within(t as int, db as int, 68719476736, 68719476736, 72057594037927936);
        lemma_fxm_within(t as int, dfix as int, 68719476736, 68719476736, 72057594037927936);
    }
    let av = oa + fx_mul(t, da);
    let bv = ob + fx_mul(t, db);
    if av < a0 || av > a1 || bv < b0 || bv > b1 {
        return None;
    }
    let pfix = ofix + fx_mul(t, dfix);
    if pfix < -INFINITY || pfix > INFINITY {
        return None;
    }
    proof {
        lemma_frac_unit(av as int, a0 as int, a1 as int);
        lemma_frac_unit(bv as int, b0 as int, b1 as int);
    }
    let u = fx_div(av - a0, a1 - a0);
    let v = fx_div(bv - b0, b1 - b0);
    Some((t, av, bv, pfix, u, v))
}

/// A rectangle in the plane of constant z
#[derive(Clone, Copy, PartialEq, Eq, Structural, Debug)]
pub struct XYRect {
    pub x0: i128,
    pub x1: i128,
    pub y0: i128,
    pub y1: i128,
    pub k: i128,
    pub material: usize,
}

/// The rectangle has proper extents within the envelope.
pub open spec fn wf_xy(rc: XYRect) -> bool {
    -(INFINITY as int) <= rc.x0 < rc.x1 <= INFINITY as int
        && -(INFINITY as int) <= rc.y0 < rc.y1 <= INFINITY as int
        && absi(rc.k as int) <= INFINITY as int
}

/// What the z-plane rectangle's hit test returns: a record exactly when the
/// plane crossing lies in the interval, inside the extents and within the
/// envelope, with exact parameter, point, surface coordinates and a unit
/// normal along z flipped against the ray.
pub open spec fn xy_hit_post(rc: XYRect, ray: Ray, tmin: int, tmax: int,
    r: Option<HitRecord>) -> bool {
    let rv = rect_vals(rc.k as int, ray.origin.z as int, ray.direction.z as int,
        ray.origin.x as int, ray.direction.x as int, rc.x0 as int, rc.x1 as int,
        ray.origin.y as int, ray.direction.y as int, rc.y0 as int, rc.y1 as int, tmin, tmax);
    &&& (r is Some <==> rv.0)
    &&& (r matches Some(rec) ==> {
        let against = fxm(ray.direction.z as int, SCALE as int) < 0;
        &&& rec.t == rv.1
        &&& rec.point.x == rv.2 && rec.point.y == rv.3
        &&& rec.point.z as int == ray.origin.z + fxm(rv.1, ray.direction.z as int)
        &&& rec.u == rv.4 && rec.v == rv.5
        &&& rec.material == rc.material
        &&& rec.front_face == against
        &&& rec.normal.x == 0 && rec.normal.y == 0
        &&& rec.normal.z as int == if against { SCALE as int } else { -(SCALE as int) }
        &&& tmin <= rec.t <= tmax
        &&& 0 <= rec.u <= SCALE && 0 <= rec.v <= SCALE
        &&& wf_rec(rec)
    })
}

impl XYRect {
    /// Constructs a new rectangle in a z-plane, wrapped in the Hittable enum
    pub fn new(x0: i128, x1: i128, y0: i128, y1: i128, k: i128, material: usize)
        -> (r: Hittable)
        requires
            wf_xy(XYRect { x0, x1, y0, y1, k, material }),
        ensures
            r == Hittable::XYRect(XYRect { x0, x1, y0, y1, k, material }),
    {
        Hittable::XYRect(XYRect { x0, x1, y0, y1, k, material })
    }

    /// Intersects a ray with the rectangle over the given parameter interval.
    pub fn hit(&self, ray: &Ray, t_min: i128, t_max: i128) -> (r: Option<HitRecord>)
        requires
            wf_xy(*self),
            wf_ray(*ray),
            crate::bounded(t_min as int),
            crate::bounded(t_max as int),
        ensures
            xy_hit_post(*self, *ray, t_min as int, t_max as int, r),
    {
        match rect_hit_vals(self.k, ray.origin.z, ray.direction.z, ray.origin.x,
            ray.direction.x, self.x0, self.x1, ray.origin.y, ray.direction.y,
            self.y0, self.y1, t_min, t_max) {
            None => None,
            Some(vals) => {
                let outward_normal = Vec3::new(0, 0, SCALE);
                let mut hit_record = HitRecord::new(Vec3::new(vals.1, vals.2, vals.3),
                    self.material, vals.4, vals.5, vals.0);
                hit_record.calculate_face_normal(ray, outward_normal);
                proof {
                    lemma_dot_axis(ray.direction.x as int, ray.direction.y as int,
                        ray.direction.z as int);
                }
                Some(hit_record)
            },
        }
    }
}

/// A rectangle in the plane of constant y
#[derive(Clone, Copy, PartialEq, Eq, Structural, Debug)]
pub struct XZRect {
    pub x0: i128,
    pub x1: i128,
    pub z0: i128,
    pub z1: i128,
    pub k: i128,
    pub material: usize,
}

/// The rectangle has proper extents within the envelope.
pub open spec fn wf_xz(rc: XZRect) -> bool {
    -(INFINITY as int) <= rc.x0 < rc.x1 <= INFINITY as int
        && -(INFINITY as int) <= rc.z0 < rc.z1 <= INFINITY as int
        && absi(rc.k as int) <= INFINITY as int
}

/// What the y-plane rectangle's hit test returns.
pub open spec fn xz_hit_post(rc: XZRect, ray: Ray, tmin: int, tmax: int,
    r: Option<HitRecord>) -> bool {
    let rv = rect_vals(rc.k as int, ray.origin.y as int, ray.direction.y as int,
        ray.origin.x as int, ray.direction.x as int, rc.x0 as int, rc.x1 as int,
        ray.origin.z as int, ray.direction.z as int, rc.z0 as int, rc.z1 as int, tmin, tmax);
    &&& (r is Some <==> rv.0)
    &&& (r matches Some(rec) ==> {
        let against = fxm(ray.direction.y as int, SCALE as int) < 0;
        &&& rec.t == rv.1
        &&& rec.point.x == rv.2 && rec.point.z == rv.3
        &&& rec.point.y as int == ray.origin.y + fxm(rv.1, ray.direction.y as int)
        &&& rec.u == rv.4 && rec.v == rv.5
        &&& rec.material == rc.material
        &&& rec.front_face == against
        &&& rec.normal.x == 0 && rec.normal.z == 0
        &&& rec.normal.y as int == if against { SCALE as int } else { -(SCALE as int) }
        &&& tmin <= rec.t <= tmax
        &&& 0 <= rec.u <= SCALE && 0 <= rec.v <= SCALE
        &&& wf_rec(rec)
    })
}

impl XZRect {
    /// Constructs a new rectangle in a y-plane, wrapped in the Hittable enum
    pub fn new(x0: i128, x1: i128, z0: i128, z1: i128, k: i128, material: usize)
        -> (r: Hittable)
        requires
            wf_xz(XZRect { x0, x1, z0, z1, k, material }),
        ensures
            r == Hittable::XZRect(XZRect { x0, x1, z0, z1, k, material }),
    {
        Hittable::XZRect(XZRect { x0, x1, z0, z1, k, material })
    }

    /// Intersects a ray with the rectangle over the given parameter interval.
    pub fn hit(&self, ray: &Ray, t_min: i128, t_max: i128) -> (r: Option<HitRecord>)
        requires
            wf_xz(*self),
            wf_ray(*ray),
            crate::bounded(t_min as int),
            crate::bounded(t_max as int),
        ensures
            xz_hit_post(*self, *ray, t_min as int, t_max as int, r),
    {
        match rect_hit_vals(self.k, ray.origin.y, ray.direction.y, ray.origin.x,
            ray.direction.x, self.x0, self.x1, ray.origin.z, ray.direction.z,
            self.z0, self.z1, t_min, t_max) {
            None => None,
            Some(vals) => {
                let outward_normal = Vec3::new(0, SCALE, 0);
                let mut hit_record = HitRecord::new(Vec3::new(vals.1, vals.3, vals.2),
                    self.material, vals.4, vals.5, vals.0);
                hit_record.calculate_face_normal(ray, outward_normal);
                proof {
                    lemma_dot_axis(ray.direction.y as int, ray.direction.x as int,
                        ray.direction.z as int);
                }
                Some(hit_record)
            },
        }
    }
}

/// A rectangle in the plane of constant x
#[derive(Clone, Copy, PartialEq, Eq, Structural, Debug)]
pub struct YZRect {
    pub y0: i128,
    pub y1: i128,
    pub z0: i128,
    pub z1: i128,
    pub k: i128,
    pub material: usize,
}

/// The rectangle has proper extents within the envelope.
pub open spec fn wf_yz(rc: YZRect) -> bool {
    -(INFINITY as int) <= rc.y0 < rc.y1 <= INFINITY as int
        && -(INFINITY as int) <= rc.z0 < rc.z1 <= INFINITY as int
        && absi(rc.k as int) <= INFINITY as int
}

/// What the x-plane rectangle's hit test returns.
pub open spec fn yz_hit_post(rc: YZRect, ray: Ray, tmin: int, tmax: int,
    r: Option<HitRecord>) -> bool {
    let rv = rect_vals(rc.k as int, ray.origin.x as int, ray.direction.x as int,
        ray.origin.y as int, ray.direction.y as int, rc.y0 as int, rc.y1 as int,
        ray.origin.z as int, ray.direction.z as int, rc.z0 as int, rc.z1 as int, tmin, tmax);
    &&& (r is Some <==> rv.0)
    &&& (r matches Some(rec) ==> {
        let against = fxm(ray.direction.x as int, SCALE as int) < 0;
        &&& rec.t == rv.1
        &&& rec.point.y == rv.2 && rec.point.z == rv.3
        &&& rec.point.x as int == ray.origin.x + fxm(rv.1, ray.direction.x as int)
        &&& rec.u == rv.4 && rec.v == rv.5
        &&& rec.material == rc.material
        &&& rec.front_face == against
        &&& rec.normal.y == 0 && rec.normal.z == 0
        &&& rec.normal.x as int == if against { SCALE as int } else { -(SCALE as int) }
        &&& tmin <= rec.t <= tmax
        &&& 0 <= rec.u <= SCALE && 0 <= rec.v <= SCALE
        &&& wf_rec(rec)
    })
}

impl YZRect {
    /// Constructs a new rectangle in an x-plane, wrapped in the Hittable enum
    pub fn new(y0: i128, y1: i128, z0: i128, z1: i128, k: i128, material: usize)
        -> (r: Hittable)
        requires
            wf_yz(YZRect { y0, y1, z0, z1, k, material }),
        ensures
            r == Hittable::YZRect(YZRect { y0, y1, z0, z1, k, material }),
    {
        Hittable::YZRect(YZRect { y0, y1, z0, z1, k, material })
    }

    /// Intersects a ray with the rectangle over the given parameter interval.
    pub fn hit(&self, ray: &Ray, t_min: i128, t_max: i128) -> (r: Option<HitRecord>)
        requires
            wf_yz(*self),
            wf_ray(*ray),
            crate::bounded(t_min as int),
            crate::bounded(t_max as int),
        ensures
            yz_hit_post(*self, *ray, t_min as int, t_max as int, r),
    {
        match rect_hit_vals(self.k, ray.origin.x, ray.direction.x, ray.origin.y,
            ray.direction.y, self.y0, self.y1, ray.origin.z, ray.direction.z,
            self.z0, self.z1, t_min, t_max) {
            None => None,
            Some(vals) => {
                let outward_normal = Vec3::new(SCALE, 0, 0);
                let mut hit_record = HitRecord::new(Vec3::new(vals.3, vals.1, vals.2),
                    self.material, vals.4, vals.5, vals.0);
                hit_record.calculate_face_normal(ray, outward_normal);
                proof {
                    lemma_dot_axis(ray.direction.z as int, ray.direction.x as int,
                        ray.direction.y as int);
                }
                Some(hit_record)
            },
        }
    }
}

/// The dot product with a unit axis vector is the scaled component along
/// that axis alone: the other two terms vanish.
proof fn lemma_dot_axis(dfix: int, da: int, db: int)
    ensures
        fxm(da, 0) == 0,
        fxm(db, 0) == 0,
{
    crate::fx::lemma_tdiv_nonneg(0, SCALE as int);
    assert(da * 0 == 0);
    assert(db * 0 == 0);
}

} // verus!
