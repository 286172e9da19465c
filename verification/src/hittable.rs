//! The closed set of objects a ray can strike, and their shared behaviour.
use vstd::prelude::*;
use crate::fx::{absi, fxm, fxd, mini, maxi, fx_mul, fx_div, lemma_fxm_within,
    lemma_tdiv_nonneg, lemma_tdiv_abs};
use vstd::arithmetic::mul::lemma_mul_nonnegative;
use crate::vec3::{Vec3, in_range, dot_spec, vlen};
use crate::ray::{Ray, wf_ray};
use crate::aabb::{AABB, wf_aabb, slab_hit, BOX_LIM};
use crate::hit_record::{HitRecord, wf_rec};
use crate::sphere::{Sphere, wf_sphere, sphere_hit_post};
use crate::moving_sphere::{MovingSphere, wf_msphere, msphere_frac, msphere_centre};
use crate::aa_rect::{XYRect, XZRect, YZRect, wf_xy, wf_xz, wf_yz, xy_hit_post, xz_hit_post, yz_hit_post};
use crate::aa_box::{AABox, wf_aabox};
use crate::translate::Translate;
use crate::rotate_y::RotateY;
use crate::constant_medium::ConstantMedium;
use crate::bvh_node::{BVHNode, model_hit};
use crate::{SCALE, INFINITY, random_neg_ln};

verus! {

/// Enum storing each hittable object variation
#[derive(Debug)]
pub enum Hittable {
    BVHNode(BVHNode),
    Sphere(Sphere),
    MovingSphere(MovingSphere),
    XYRect(XYRect),
    XZRect(XZRect),
    YZRect(YZRect),
    AABox(AABox),
    Translate(Translate),
    RotateY(RotateY),
    ConstantMedium(ConstantMedium),
}

/// Every object's data is sound: extents proper, angles and densities in
/// range, and each wrapped child sound in turn.
pub open spec fn wf_h(h: Hittable) -> bool
    decreases h,
{
    match h {
        Hittable::BVHNode(n) => wf_h(*n.left) && wf_h(*n.right) && wf_aabb(n.bounds),
        Hittable::Sphere(s) => wf_sphere(s),
        Hittable::MovingSphere(ms) => wf_msphere(ms),
        Hittable::XYRect(rc) => wf_xy(rc),
        Hittable::XZRect(rc) => wf_xz(rc),
        Hittable::YZRect(rc) => wf_yz(rc),
        Hittable::AABox(bx) => wf_aabox(bx),
        Hittable::Translate(tr) => wf_h(*tr.object) && in_range(tr.offset, INFINITY as int),
        Hittable::RotateY(rt) => wf_h(*rt.object)
            && absi(rt.sin_theta as int) <= SCALE as int
            && absi(rt.cos_theta as int) <= SCALE as int
            && (rt.bbox matches Some(b) ==> wf_aabb(b)),
        Hittable::ConstantMedium(cm) => wf_h(*cm.boundary)
            && 0 <= cm.inv_density <= 4294967296,
    }
}

/// Every material index an object can hand out lies below `m`.
pub open spec fn mats_below(h: Hittable, m: int) -> bool
    decreases h,
{
    match h {
        Hittable::BVHNode(n) => mats_below(*n.left, m) && mats_below(*n.right, m),
        Hittable::Sphere(s) => s.material < m,
        Hittable::MovingSphere(ms) => ms.material < m,
        Hittable::XYRect(rc) => rc.material < m,
        Hittable::XZRect(rc) => rc.material < m,
        Hittable::YZRect(rc) => rc.material < m,
        Hittable::AABox(bx) => bx.material < m,
        Hittable::Translate(tr) => mats_below(*tr.object, m),
        Hittable::RotateY(rt) => mats_below(*rt.object, m),
        Hittable::ConstantMedium(cm) => mats_below(*cm.boundary, m)
            && cm.phase_function < m,
    }
}

/// The primitives at the leaves of an object, a tree node contributing both
/// its sides.
pub open spec fn leaves(h: Hittable) -> Seq<Hittable>
    decreases h,
{
    match h {
        Hittable::BVHNode(n) => leaves(*n.left) + leaves(*n.right),
        _ => seq![h],
    }
}

/// What `bounding_box` returns: every primitive yields a box; a rotation
/// yields its precomputed box; wrappers pass their child's box along, a
/// translation shifting it when the shift stays representable.
pub open spec fn bb_spec(h: Hittable, time0: int, time1: int) -> Option<AABB>
    decreases h,
{
    match h {
        Hittable::BVHNode(n) => Some(n.bounds),
        Hittable::Sphere(s) => Some(AABB {
            minimum: Vec3 {
                x: (s.centre.x - s.radius) as i128,
                y: (s.centre.y - s.radius) as i128,
                z: (s.centre.z - s.radius) as i128,
            },
            maximum: Vec3 {
                x: (s.centre.x + s.radius) as i128,
                y: (s.centre.y + s.radius) as i128,
                z: (s.centre.z + s.radius) as i128,
            },
        }),
        Hittable::MovingSphere(ms) => {
            let f0 = msphere_frac(ms, time0);
            let f1 = msphere_frac(ms, time1);
            let c0x = msphere_centre(ms.centre0.x as int, ms.centre1.x as int, f0);
            let c0y = msphere_centre(ms.centre0.y as int, ms.centre1.y as int, f0);
            let c0z = msphere_centre(ms.centre0.z as int, ms.centre1.z as int, f0);
            let c1x = msphere_centre(ms.centre0.x as int, ms.centre1.x as int, f1);
            let c1y = msphere_centre(ms.centre0.y as int, ms.centre1.y as int, f1);
            let c1z = msphere_centre(ms.centre0.z as int, ms.centre1.z as int, f1);
            let rr = ms.radius as int;
            if absi(c0x) <= INFINITY as int && absi(c0y) <= INFINITY as int
                && absi(c0z) <= INFINITY as int && absi(c1x) <= INFINITY as int
                && absi(c1y) <= INFINITY as int && absi(c1z) <= INFINITY as int {
                Some(AABB {
                    minimum: Vec3 {
                        x: (crate::fx::mini(c0x, c1x) - rr) as i128,
                        y: (crate::fx::mini(c0y, c1y) - rr) as i128,
                        z: (crate::fx::mini(c0z, c1z) - rr) as i128,
                    },
                    maximum: Vec3 {
                        x: (crate::fx::maxi(c0x, c1x) + rr) as i128,
                        y: (crate::fx::maxi(c0y, c1y) + rr) as i128,
                        z: (crate::fx::maxi(c0z, c1z) + rr) as i128,
                    },
                })
            } else {
                None
            }
        },
        Hittable::XYRect(rc) => Some(AABB {
            minimum: Vec3 { x: rc.x0, y: rc.y0, z: (rc.k - 7) as i128 },
            maximum: Vec3 { x: rc.x1, y: rc.y1, z: (rc.k + 7) as i128 },
        }),
        Hittable::XZRect(rc) => Some(AABB {
            minimum: Vec3 { x: rc.x0, y: (rc.k - 7) as i128, z: rc.z0 },
            maximum: Vec3 { x: rc.x1, y: (rc.k + 7) as i128, z: rc.z1 },
        }),
        Hittable::YZRect(rc) => Some(AABB {
            minimum: Vec3 { x: (rc.k - 7) as i128, y: rc.y0, z: rc.z0 },
            maximum: Vec3 { x: (rc.k + 7) as i128, y: rc.y1, z: rc.z1 },
        }),
        Hittable::AABox(bx) => Some(AABB { minimum: bx.box_min, maximum: bx.box_max }),
        Hittable::Translate(tr) => match bb_spec(*tr.object, time0, time1) {
            None => None,
            Some(b) => {
                let shifted = AABB {
                    minimum: Vec3 {
                        x: (b.minimum.x + tr.offset.x) as i128,
                        y: (b.minimum.y + tr.offset.y) as i128,
                        z: (b.minimum.z + tr.offset.z) as i128,
                    },
                    maximum: Vec3 {
                        x: (b.maximum.x + tr.offset.x) as i128,
                        y: (b.maximum.y + tr.offset.y) as i128,
                        z: (b.maximum.z + tr.offset.z) as i128,
                    },
                };
                if wf_aabb(shifted) {
                    Some(shifted)
                } else {
                    None
                }
            },
        },
        Hittable::RotateY(rt) => rt.bbox,
        Hittable::ConstantMedium(cm) => bb_spec(*cm.boundary, time0, time1),
    }
}

/// The object is a tree over the deterministic primitives: the class the
/// functional traversal model describes exactly.  Randomised media and the
/// transform wrappers stay outside the model.
pub open spec fn modelled(h: Hittable) -> bool
    decreases h,
{
    match h {
        Hittable::BVHNode(n) => modelled(*n.left) && modelled(*n.right),
        Hittable::Sphere(_) => true,
        Hittable::MovingSphere(_) => true,
        Hittable::XYRect(_) => true,
        Hittable::XZRect(_) => true,
        Hittable::YZRect(_) => true,
        Hittable::AABox(_) => true,
        Hittable::Translate(tr) => modelled(*tr.object),
        _ => false,
    }
}

/// The record a translation hands out is a record its child's contract
/// admits for the ray moved back by the offset, with the hit point carried
/// forward by the offset and the sidedness recomputed against the ray.
pub open spec fn translate_rel(child: Hittable, offset: Vec3, ray: Ray, tmin: int, tmax: int,
    inner: HitRecord, rec: HitRecord) -> bool {
    let moved = Ray {
        origin: Vec3 {
            x: (ray.origin.x - offset.x) as i128,
            y: (ray.origin.y - offset.y) as i128,
            z: (ray.origin.z - offset.z) as i128,
        },
        direction: ray.direction,
        time: ray.time,
    };
    &&& hit_post(child, moved, tmin, tmax, Some(inner))
    &&& rec.t == inner.t
    &&& rec.u == inner.u && rec.v == inner.v
    &&& rec.material == inner.material
    &&& rec.point.x as int == inner.point.x + offset.x
    &&& rec.point.y as int == inner.point.y + offset.y
    &&& rec.point.z as int == inner.point.z + offset.z
    &&& rec.front_face == (dot_spec(ray.direction, inner.normal) < 0)
    &&& rec.normal.x as int == if rec.front_face { inner.normal.x as int }
        else { -(inner.normal.x as int) }
    &&& rec.normal.y as int == if rec.front_face { inner.normal.y as int }
        else { -(inner.normal.y as int) }
    &&& rec.normal.z as int == if rec.front_face { inner.normal.z as int }
        else { -(inner.normal.z as int) }
}

/// The record a rotation hands out is a record its child's contract admits
/// for the ray rotated into the child's frame, with the hit point and
/// normal rotated back and the sidedness recomputed against the rotated ray.
pub open spec fn rotate_rel(child: Hittable, st: int, ct: int, ray: Ray, tmin: int, tmax: int,
    inner: HitRecord, rec: HitRecord) -> bool {
    let rotated = Ray {
        origin: Vec3 {
            x: (fxm(ct, ray.origin.x as int) - fxm(st, ray.origin.z as int)) as i128,
            y: ray.origin.y,
            z: (fxm(st, ray.origin.x as int) + fxm(ct, ray.origin.z as int)) as i128,
        },
        direction: Vec3 {
            x: (fxm(ct, ray.direction.x as int) - fxm(st, ray.direction.z as int)) as i128,
            y: ray.direction.y,
            z: (fxm(st, ray.direction.x as int) + fxm(ct, ray.direction.z as int)) as i128,
        },
        time: ray.time,
    };
    let nwx = fxm(ct, inner.normal.x as int) + fxm(st, inner.normal.z as int);
    let nwy = inner.normal.y as int;
    let nwz = -fxm(st, inner.normal.x as int) + fxm(ct, inner.normal.z as int);
    &&& hit_post(child, rotated, tmin, tmax, Some(inner))
    &&& rec.t == inner.t
    &&& rec.u == inner.u && rec.v == inner.v
    &&& rec.material == inner.material
    &&& rec.point.x as int == fxm(ct, inner.point.x as int) + fxm(st, inner.point.z as int)
    &&& rec.point.y == inner.point.y
    &&& rec.point.z as int == -fxm(st, inner.point.x as int) + fxm(ct, inner.point.z as int)
    &&& rec.front_face == (fxm(rotated.direction.x as int, nwx)
        + fxm(rotated.direction.y as int, nwy)
        + fxm(rotated.direction.z as int, nwz) < 0)
    &&& rec.normal.x as int == if rec.front_face { nwx } else { -nwx }
    &&& rec.normal.y as int == if rec.front_face { nwy } else { -nwy }
    &&& rec.normal.z as int == if rec.front_face { nwz } else { -nwz }
}

/// The record a medium hands out comes from an interaction between two
/// crossings of its boundary that the boundary's own contract admits — the
/// second sought just past the first — clamped to the query interval, at a
/// free flight the drawn sample and the medium's density give.
pub open spec fn medium_rel(boundary: Hittable, inv_density: int, ray: Ray, tmin: int,
    tmax: int, r1: HitRecord, r2: HitRecord, rec: HitRecord) -> bool {
    let past = if r1.t > INFINITY - 7 { INFINITY as int } else { r1.t + 7 };
    let t1c = maxi(0, maxi(r1.t as int, tmin));
    let t2c = mini(r2.t as int, tmax);
    &&& hit_post(boundary, ray, -(INFINITY as int), INFINITY as int, Some(r1))
    &&& hit_post(boundary, ray, past, INFINITY as int, Some(r2))
    &&& t1c <= rec.t <= t2c
    &&& exists|drawn: int| {
        &&& 0 <= drawn <= 786432
        &&& #[trigger] fxm(inv_density, drawn) <= fxm(t2c - t1c, vlen(ray.direction))
        &&& rec.t as int == t1c + fxd(fxm(inv_density, drawn), vlen(ray.direction))
    }
}

/// What every hit guarantees, and exactly what each primitive returns; a
/// transform wrapper's record is its child's record carried into the world
/// frame, for some child record the child's own contract admits.
pub open spec fn hit_post(h: Hittable, ray: Ray, tmin: int, tmax: int,
    r: Option<HitRecord>) -> bool {
    &&& (r matches Some(rec) ==> {
        &&& tmin <= rec.t <= tmax
        &&& wf_rec(rec)
        &&& 0 <= rec.u <= SCALE && 0 <= rec.v <= SCALE
        &&& forall|m: int| #[trigger] mats_below(h, m) ==> rec.material < m
    })
    &&& (h matches Hittable::Sphere(s) ==> sphere_hit_post(s, ray, tmin, tmax, r))
    &&& (h matches Hittable::MovingSphere(ms) ==> {
        let frac = msphere_frac(ms, ray.time as int);
        let cx = msphere_centre(ms.centre0.x as int, ms.centre1.x as int, frac);
        let cy = msphere_centre(ms.centre0.y as int, ms.centre1.y as int, frac);
        let cz = msphere_centre(ms.centre0.z as int, ms.centre1.z as int, frac);
        if absi(cx) <= INFINITY as int && absi(cy) <= INFINITY as int
            && absi(cz) <= INFINITY as int {
            crate::sphere::quad_hit_post(cx, cy, cz, ms.radius as int, ms.material, ray,
                tmin, tmax, r)
        } else {
            r is None
        }
    })
    &&& (h matches Hittable::XYRect(rc) ==> xy_hit_post(rc, ray, tmin, tmax, r))
    &&& (h matches Hittable::XZRect(rc) ==> xz_hit_post(rc, ray, tmin, tmax, r))
    &&& (h matches Hittable::YZRect(rc) ==> yz_hit_post(rc, ray, tmin, tmax, r))
    &&& (h matches Hittable::BVHNode(n)
        ==> (!slab_hit(n.bounds, ray, tmin, tmax) ==> r is None))
    &&& (modelled(h) ==> match r {
        Some(rec) => {
            &&& model_hit(h, ray, tmin, tmax) == Some(rec.t as int)
            &&& rec.point.x as int == crate::ray::at_comp(ray.origin.x as int,
                ray.direction.x as int, rec.t as int)
            &&& rec.point.y as int == crate::ray::at_comp(ray.origin.y as int,
                ray.direction.y as int, rec.t as int)
            &&& rec.point.z as int == crate::ray::at_comp(ray.origin.z as int,
                ray.direction.z as int, rec.t as int)
        },
        None => model_hit(h, ray, tmin, tmax) is None,
    })
    &&& (h matches Hittable::ConstantMedium(cm) ==> (r matches Some(rec) ==> {
        &&& rec.t >= 0
        &&& rec.material == cm.phase_function
        &&& rec.normal.x == SCALE && rec.normal.y == 0 && rec.normal.z == 0
        &&& rec.front_face
        &&& rec.u == 0 && rec.v == 0
        &&& rec.point.x as int
            == crate::ray::at_comp(ray.origin.x as int, ray.direction.x as int, rec.t as int)
        &&& rec.point.y as int
            == crate::ray::at_comp(ray.origin.y as int, ray.direction.y as int, rec.t as int)
        &&& rec.point.z as int
            == crate::ray::at_comp(ray.origin.z as int, ray.direction.z as int, rec.t as int)
    }))
}

impl Hittable {
    /// A deep copy equal to the original, letting one object stand at both
    /// sides of a degenerate tree node.
    pub fn duplicate(&self) -> (r: Hittable)
        ensures
            r == *self,
        decreases *self,
    {
        match self {
            Hittable::BVHNode(n) => Hittable::BVHNode(BVHNode {
                left: Box::new(n.left.duplicate()),
                right: Box::new(n.right.duplicate()),
                bounds: n.bounds,
            }),
            Hittable::Sphere(s) => Hittable::Sphere(*s),
            Hittable::MovingSphere(ms) => Hittable::MovingSphere(*ms),
            Hittable::XYRect(rc) => Hittable::XYRect(*rc),
            Hittable::XZRect(rc) => Hittable::XZRect(*rc),
            Hittable::YZRect(rc) => Hittable::YZRect(*rc),
            Hittable::AABox(bx) => Hittable::AABox(*bx),
            Hittable::Translate(tr) => Hittable::Translate(Translate {
                object: Box::new(tr.object.duplicate()),
                offset: tr.offset,
            }),
            Hittable::RotateY(rt) => Hittable::RotateY(RotateY {
                object: Box::new(rt.object.duplicate()),
                sin_theta: rt.sin_theta,
                cos_theta: rt.cos_theta,
                bbox: rt.bbox,
            }),
            Hittable::ConstantMedium(cm) => Hittable::ConstantMedium(ConstantMedium {
                boundary: Box::new(cm.boundary.duplicate()),
                phase_function: cm.phase_function,
                inv_density: cm.inv_density,
            }),
        }
    }

    /// Checks if the object is hit by a ray within the given parameter
    /// interval and if so returns the hit record
    #[verifier::rlimit(100)]
    pub fn hit(&self, ray: &Ray, t_min: i128, t_max: i128) -> (r: Option<HitRecord>)
        requires
            wf_h(*self),
            wf_ray(*ray),
            crate::bounded(t_min as int),
            crate::bounded(t_max as int),
        ensures
            hit_post(*self, *ray, t_min as int, t_max as int, r),
            self matches Hittable::Translate(tr) ==> (r matches Some(rec) ==>
                exists|inner: HitRecord| #[trigger] translate_rel(*tr.object, tr.offset,
                    *ray, t_min as int, t_max as int, inner, rec)),
            self matches Hittable::RotateY(rt) ==> (r matches Some(rec) ==>
                exists|inner: HitRecord| #[trigger] rotate_rel(*rt.object,
                    rt.sin_theta as int, rt.cos_theta as int, *ray, t_min as int,
                    t_max as int, inner, rec)),
            self matches Hittable::ConstantMedium(cm) ==> (r matches Some(rec) ==>
                exists|r1: HitRecord, r2: HitRecord| #[trigger] medium_rel(*cm.boundary,
                    cm.inv_density as int, *ray, t_min as int, t_max as int, r1, r2, rec)),
        decreases *self,
    {
        match self {
            Hittable::Sphere(s) => {
                let r = s.hit(ray, t_min, t_max);
                proof { lift_mats(*self, r); }
                r
            },
            Hittable::MovingSphere(ms) => {
                let r = ms.hit(ray, t_min, t_max);
                proof { lift_mats(*self, r); }
                r
            },
            Hittable::XYRect(rc) => {
                let r = rc.hit(ray, t_min, t_max);
                proof { lift_mats(*self, r); }
                r
            },
            Hittable::XZRect(rc) => {
                let r = rc.hit(ray, t_min, t_max);
                proof { lift_mats(*self, r); }
                r
            },
            Hittable::YZRect(rc) => {
                let r = rc.hit(ray, t_min, t_max);
                proof { lift_mats(*self, r); }
                r
            },
            Hittable::AABox(bx) => {
                let r = bx.hit(ray, t_min, t_max);
                proof { lift_mats(*self, r); }
                r
            },
            Hittable::Translate(tr) => {
                let moved_origin = ray.origin.sub(tr.offset);
                if !moved_origin.in_envelope(INFINITY) {
                    return None;
                }
                let moved_ray = Ray::new(moved_origin, ray.direction, ray.time);
                match tr.object.hit(&moved_ray, t_min, t_max) {
                    None => None,
                    Some(rec) => {
                        let new_point = rec.point.add(tr.offset);
                        if !new_point.in_envelope(INFINITY) {
                            return None;
                        }
                        let mut hit_record = HitRecord::new(new_point, rec.material, rec.u,
                            rec.v, rec.t);
                        hit_record.calculate_face_normal(&moved_ray, rec.normal);
                        proof {
                            assert forall|m: int| #[trigger] mats_below(*self, m)
                                implies hit_record.material < m by {
                                assert(mats_below(*tr.object, m));
                            }
                            let moved_spec = Ray {
                                origin: Vec3 {
                                    x: (ray.origin.x - tr.offset.x) as i128,
                                    y: (ray.origin.y - tr.offset.y) as i128,
                                    z: (ray.origin.z - tr.offset.z) as i128,
                                },
                                direction: ray.direction,
                                time: ray.time,
                            };
                            assert(moved_ray == moved_spec);
                            assert(translate_rel(*tr.object, tr.offset, *ray, t_min as int,
                                t_max as int, rec, hit_record));
                            assert(exists|inner: HitRecord| #[trigger] translate_rel(
                                *tr.object, tr.offset, *ray, t_min as int, t_max as int,
                                inner, hit_record));
                        }
                        Some(hit_record)
                    },
                }
            },
            Hittable::RotateY(rt) => {
                let o = rt.rotate_ray_vec(&ray.origin);
                let d = rt.rotate_ray_vec(&ray.direction);
                if !o.in_envelope(INFINITY) || !d.in_envelope(INFINITY) {
                    return None;
                }
                let rotated_ray = Ray::new(o, d, ray.time);
                match rt.object.hit(&rotated_ray, t_min, t_max) {
                    None => None,
                    Some(rec) => {
                        let p = rt.rotate_record_vec(&rec.point);
                        let n = rt.rotate_record_vec(&rec.normal);
                        if !p.in_envelope(INFINITY) || !n.in_envelope(2 * SCALE) {
                            return None;
                        }
                        let mut hit_record = HitRecord::new(p, rec.material, rec.u, rec.v,
                            rec.t);
                        hit_record.calculate_face_normal(&rotated_ray, n);
                        proof {
                            assert forall|m: int| #[trigger] mats_below(*self, m)
                                implies hit_record.material < m by {
                                assert(mats_below(*rt.object, m));
                            }
                            let st = rt.sin_theta as int;
                            let ct = rt.cos_theta as int;
                            let rotated_spec = Ray {
                                origin: Vec3 {
                                    x: (fxm(ct, ray.origin.x as int)
                                        - fxm(st, ray.origin.z as int)) as i128,
                                    y: ray.origin.y,
                                    z: (fxm(st, ray.origin.x as int)
                                        + fxm(ct, ray.origin.z as int)) as i128,
                                },
                                direction: Vec3 {
                                    x: (fxm(ct, ray.direction.x as int)
                                        - fxm(st, ray.direction.z as int)) as i128,
                                    y: ray.direction.y,
                                    z: (fxm(st, ray.direction.x as int)
                                        + fxm(ct, ray.direction.z as int)) as i128,
                                },
                                time: ray.time,
                            };
                            assert(rotated_ray == rotated_spec);
                            assert(rotate_rel(*rt.object, st, ct, *ray, t_min as int,
                                t_max as int, rec, hit_record));
                            assert(exists|inner: HitRecord| #[trigger] rotate_rel(
                                *rt.object, st, ct, *ray, t_min as int, t_max as int,
                                inner, hit_record));
                        }
                        Some(hit_record)
                    },
                }
            },
            Hittable::ConstantMedium(cm) => {
                let rec1 = cm.boundary.hit(ray, -INFINITY, INFINITY);
                match rec1 {
                    None => None,
                    Some(rec1) => {
                        let past = if rec1.t > INFINITY - 7 { INFINITY } else { rec1.t + 7 };
                        let rec2 = cm.boundary.hit(ray, past, INFINITY);
                        match rec2 {
                            None => None,
                            Some(rec2) => {
                                let r = cm_sample(cm.inv_density, cm.phase_function,
                                    rec1.t, rec2.t, ray, t_min, t_max);
                                proof {
                                    if r is Some {
                                        assert forall|m: int| #[trigger] mats_below(*self, m)
                                            implies r->Some_0.material < m by {}
                                        assert(medium_rel(*cm.boundary, cm.inv_density as int,
                                            *ray, t_min as int, t_max as int, rec1, rec2,
                                            r->Some_0));
                                    }
                                }
                                r
                            },
                        }
                    },
                }
            },
            Hittable::BVHNode(n) => {
                if !n.bounds.hit(ray, t_min, t_max) {
                    return None;
                }
                let left_hit = n.left.hit(ray, t_min, t_max);
                let new_t_max = match &left_hit {
                    Some(h) => h.t,
                    None => t_max,
                };
                let right_hit = n.right.hit(ray, t_min, new_t_max);
                let r = match right_hit {
                    Some(h) => Some(h),
                    None => left_hit,
                };
                proof {
                    if r is Some {
                        assert forall|m: int| #[trigger] mats_below(*self, m)
                            implies r->Some_0.material < m by {
                            assert(mats_below(*n.left, m));
                            assert(mats_below(*n.right, m));
                        }
                    }
                    if modelled(*self) {
                        let lh = model_hit(*n.left, *ray, t_min as int, t_max as int);
                        let nb = if lh is Some { lh->Some_0 } else { t_max as int };
                        assert(nb == new_t_max as int);
                        let rh = model_hit(*n.right, *ray, t_min as int, nb);
                        assert(model_hit(*self, *ray, t_min as int, t_max as int)
                            == if rh is Some { rh } else { lh });
                    }
                }
                r
            },
        }
    }

    /// Gets the bounding box of the object over a shutter window
    pub fn bounding_box(&self, time0: i128, time1: i128) -> (r: Option<AABB>)
        requires
            wf_h(*self),
            crate::bounded(time0 as int),
            crate::bounded(time1 as int),
        ensures
            r == bb_spec(*self, time0 as int, time1 as int),
            r matches Some(b) ==> wf_aabb(b),
        decreases *self,
    {
        match self {
            Hittable::BVHNode(n) => Some(n.bounds),
            Hittable::Sphere(s) => Some(AABB::new(
                Vec3::new(s.centre.x - s.radius, s.centre.y - s.radius, s.centre.z - s.radius),
                Vec3::new(s.centre.x + s.radius, s.centre.y + s.radius, s.centre.z + s.radius),
            )),
            Hittable::MovingSphere(ms) => {
                let c0 = ms.centre(time0);
                let c1 = ms.centre(time1);
                if !c0.in_envelope(INFINITY) || !c1.in_envelope(INFINITY) {
                    // An extrapolated endpoint centre beyond the envelope
                    // leaves the sphere unboxable over this window.
                    return None;
                }
                let b0 = AABB::new(
                    Vec3::new(c0.x - ms.radius, c0.y - ms.radius, c0.z - ms.radius),
                    Vec3::new(c0.x + ms.radius, c0.y + ms.radius, c0.z + ms.radius),
                );
                let b1 = AABB::new(
                    Vec3::new(c1.x - ms.radius, c1.y - ms.radius, c1.z - ms.radius),
                    Vec3::new(c1.x + ms.radius, c1.y + ms.radius, c1.z + ms.radius),
                );
                Some(AABB::surrounding_box(&b0, &b1))
            },
            Hittable::XYRect(rc) => Some(AABB::new(
                Vec3::new(rc.x0, rc.y0, rc.k - 7),
                Vec3::new(rc.x1, rc.y1, rc.k + 7),
            )),
            Hittable::XZRect(rc) => Some(AABB::new(
                Vec3::new(rc.x0, rc.k - 7, rc.z0),
                Vec3::new(rc.x1, rc.k + 7, rc.z1),
            )),
            Hittable::YZRect(rc) => Some(AABB::new(
                Vec3::new(rc.k - 7, rc.y0, rc.z0),
                Vec3::new(rc.k + 7, rc.y1, rc.z1),
            )),
            Hittable::AABox(bx) => Some(AABB::new(bx.box_min, bx.box_max)),
            Hittable::Translate(tr) => {
                match tr.object.bounding_box(time0, time1) {
                    None => None,
                    Some(b) => {
                        let shifted = AABB::new(
                            Vec3::new(b.minimum.x + tr.offset.x, b.minimum.y + tr.offset.y,
                                b.minimum.z + tr.offset.z),
                            Vec3::new(b.maximum.x + tr.offset.x, b.maximum.y + tr.offset.y,
                                b.maximum.z + tr.offset.z),
                        );
                        if shifted.minimum.in_envelope(BOX_LIM)
                            && shifted.maximum.in_envelope(BOX_LIM) {
                            Some(shifted)
                        } else {
                            None
                        }
                    },
                }
            },
            Hittable::RotateY(rt) => rt.bbox,
            Hittable::ConstantMedium(cm) => cm.boundary.bounding_box(time0, time1),
        }
    }
}

/// Samples a free-flight distance through a medium between the two boundary
/// crossings, already clamped to the query interval, and builds the record
/// for an interaction inside the medium, if one happens.
fn cm_sample(inv_density: i128, phase_function: usize, t1_in: i128, t2_in: i128, ray: &Ray,
    t_min: i128, t_max: i128) -> (r: Option<HitRecord>)
    requires
        0 <= inv_density <= 4294967296,
        wf_ray(*ray),
        crate::bounded(t_min as int),
        crate::bounded(t_max as int),
        crate::bounded(t1_in as int),
        crate::bounded(t2_in as int),
    ensures
        r matches Some(rec) ==> {
            let t1c = maxi(0, maxi(t1_in as int, t_min as int));
            let t2c = mini(t2_in as int, t_max as int);
            &&& t_min <= rec.t <= t_max
            &&& t1c <= rec.t <= t2c
            &&& rec.t >= 0
            &&& wf_rec(rec)
            &&& 0 <= rec.u <= SCALE && 0 <= rec.v <= SCALE
            &&& rec.material == phase_function
            &&& rec.normal.x == SCALE && rec.normal.y == 0 && rec.normal.z == 0
            &&& rec.front_face
            &&& rec.u == 0 && rec.v == 0
            &&& rec.point.x as int == crate::ray::at_comp(ray.origin.x as int,
                ray.direction.x as int, rec.t as int)
            &&& rec.point.y as int == crate::ray::at_comp(ray.origin.y as int,
                ray.direction.y as int, rec.t as int)
            &&& rec.point.z as int == crate::ray::at_comp(ray.origin.z as int,
                ray.direction.z as int, rec.t as int)
            &&& exists|drawn: int| {
                &&& 0 <= drawn <= 786432
                &&& #[trigger] fxm(inv_density as int, drawn)
                    <= fxm(t2c - t1c, vlen(ray.direction))
                &&& rec.t as int == t1c + fxd(fxm(inv_density as int, drawn),
                    vlen(ray.direction))
            }
        },
{
    let mut t1 = t1_in;
    let mut t2 = t2_in;
    if t1 < t_min {
        t1 = t_min;
    }
    if t2 > t_max {
        t2 = t_max;
    }
    if t1 >= t2 {
        return None;
    }
    if t1 < 0 {
        t1 = 0;
    }
    // The clamp to a non-negative entry can itself empty the interval.
    if t1 >= t2 {
        return None;
    }
    let ray_length = ray.direction.length();
    if ray_length < 1 {
        return None;
    }
    proof {
        lemma_fxm_within((t2 - t1) as int, ray_length as int, 137438953472,
            4611686018427387904, 9671406556917033397649408);
    }
    let distance_inside_boundary = fx_mul(t2 - t1, ray_length);
    proof {
        lemma_fxm_within(inv_density as int, 786432, 4294967296, 786432, 51539607552);
    }
    let sample = random_neg_ln();
    let hit_distance = fx_mul(inv_density, sample);
    proof {
        lemma_mul_nonnegative(inv_density as int, 0);
    }
    if hit_distance < 0 || hit_distance > distance_inside_boundary {
        return None;
    }
    proof {
        crate::fx::lemma_tdiv_abs(hit_distance as int * crate::SCALE as int,
            ray_length as int);
        lemma_mul_nonnegative(hit_distance as int, crate::SCALE as int);
        lemma_tdiv_nonneg(hit_distance as int * crate::SCALE as int, ray_length as int);
        lemma_cm_step(hit_distance as int, distance_inside_boundary as int,
            (t2 - t1) as int, ray_length as int);
    }
    let t = t1 + fx_div(hit_distance, ray_length);
    let point = ray.at(t);
    if !point.in_envelope(INFINITY) {
        return None;
    }
    let mut hit_record = HitRecord::new(point, phase_function, 0, 0, t);
    hit_record.normal = Vec3::new(SCALE, 0, 0);
    hit_record.front_face = true;
    proof {
        let t1c = maxi(0, maxi(t1_in as int, t_min as int));
        let t2c = mini(t2_in as int, t_max as int);
        assert(t1 as int == t1c && t2 as int == t2c);
        assert(0 <= sample <= 786432
            && fxm(inv_density as int, sample as int) <= fxm(t2c - t1c, vlen(ray.direction))
            && hit_record.t as int == t1c + fxd(fxm(inv_density as int, sample as int),
                vlen(ray.direction)));
    }
    Some(hit_record)
}

/// A sampled distance no longer than the distance inside the boundary maps
/// back to a parameter advance no longer than the boundary interval.
proof fn lemma_cm_step(hd: int, dist: int, dt: int, len: int)
    requires
        0 <= hd <= dist,
        dist == fxm(dt, len),
        0 <= dt,
        1 <= len,
    ensures
        0 <= fxd(hd, len) <= dt,
{
    let s = SCALE as int;
    lemma_mul_nonnegative(hd, s);
    lemma_tdiv_nonneg(hd * s, len);
    lemma_mul_nonnegative(dt, len);
    lemma_tdiv_abs(dt * len, s);
    // dist * s <= dt * len, so dividing the sampled distance by the length
    // cannot pass dt.
    vstd::arithmetic::div_mod::lemma_fundamental_div_mod(dt * len, s);
    vstd::arithmetic::div_mod::lemma_mod_division_less_than_divisor(dt * len, s);
    vstd::arithmetic::mul::lemma_mul_inequality(hd, dist, s);
    assert(hd * s <= dist * s);
    assert(dist * s <= dt * len) by (nonlinear_arith)
        requires
            dist == (dt * len) / s,
            dt * len == ((dt * len) / s) * s + (dt * len) % s,
            0 <= (dt * len) % s;
    crate::fx::lemma_tdiv_mono(hd * s, dt * len, len);
    lemma_tdiv_abs(dt * len, len);
    vstd::arithmetic::mul::lemma_mul_is_commutative(dt, len);
    vstd::arithmetic::div_mod::lemma_div_multiples_vanish(dt, len);
}

/// Lifts a primitive's material equality into the bound on indices.
proof fn lift_mats(h: Hittable, r: Option<HitRecord>)
    requires
        r matches Some(rec) ==> match h {
            Hittable::Sphere(s) => rec.material == s.material,
            Hittable::MovingSphere(ms) => rec.material == ms.material,
            Hittable::XYRect(rc) => rec.material == rc.material,
            Hittable::XZRect(rc) => rec.material == rc.material,
            Hittable::YZRect(rc) => rec.material == rc.material,
            Hittable::AABox(bx) => rec.material == bx.material,
            _ => false,
        },
    ensures
        r matches Some(rec)
            ==> forall|m: int| #[trigger] mats_below(h, m) ==> rec.material < m,
{
}

} // verus!
