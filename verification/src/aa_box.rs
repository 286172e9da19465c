//! An axis-aligned box of six rectangle faces.
use vstd::prelude::*;
use crate::vec3::{Vec3, in_range};
use crate::ray::{Ray, wf_ray};
use crate::hit_record::{HitRecord, wf_rec};
use crate::aa_rect::{XYRect, XZRect, YZRect, rect_vals};
use crate::hittable::Hittable;
use crate::{SCALE, INFINITY};

verus! {

/// A cuboid spanned by two opposite corners, met through its six faces
#[derive(Clone, Copy, PartialEq, Eq, Structural, Debug)]
pub struct AABox {
    pub box_min: Vec3,
    pub box_max: Vec3,
    /// Index of the material of all six faces
    pub material: usize,
}

/// The corners are proper and lie within the envelope.
pub open spec fn wf_aabox(bx: AABox) -> bool {
    &&& in_range(bx.box_min, INFINITY as int)
    &&& in_range(bx.box_max, INFINITY as int)
    &&& bx.box_min.x < bx.box_max.x
    &&& bx.box_min.y < bx.box_max.y
    &&& bx.box_min.z < bx.box_max.z
}

/// The parameter at which the nearest of the box's six faces is struck
/// within an interval: the faces are tried in a fixed order, each against
/// the bound the previous hits tightened to, exactly as the box's own scan
/// proceeds.
pub open spec fn box_model(bx: AABox, ray: Ray, a: int, b: int) -> Option<int> {
    let ox = ray.origin.x as int;
    let oy = ray.origin.y as int;
    let oz = ray.origin.z as int;
    let dx = ray.direction.x as int;
    let dy = ray.direction.y as int;
    let dz = ray.direction.z as int;
    let x0 = bx.box_min.x as int;
    let x1 = bx.box_max.x as int;
    let y0 = bx.box_min.y as int;
    let y1 = bx.box_max.y as int;
    let z0 = bx.box_min.z as int;
    let z1 = bx.box_max.z as int;
    let r1 = rect_vals(z0, oz, dz, ox, dx, x0, x1, oy, dy, y0, y1, a, b);
    let v1 = if r1.0 { Some(r1.1) } else { None::<int> };
    let c1 = if r1.0 { r1.1 } else { b };
    let r2 = rect_vals(z1, oz, dz, ox, dx, x0, x1, oy, dy, y0, y1, a, c1);
    let v2 = if r2.0 { Some(r2.1) } else { v1 };
    let c2 = if r2.0 { r2.1 } else { c1 };
    let r3 = rect_vals(y0, oy, dy, ox, dx, x0, x1, oz, dz, z0, z1, a, c2);
    let v3 = if r3.0 { Some(r3.1) } else { v2 };
    let c3 = if r3.0 { r3.1 } else { c2 };
    let r4 = rect_vals(y1, oy, dy, ox, dx, x0, x1, oz, dz, z0, z1, a, c3);
    let v4 = if r4.0 { Some(r4.1) } else { v3 };
    let c4 = if r4.0 { r4.1 } else { c3 };
    let r5 = rect_vals(x0, ox, dx, oy, dy, y0, y1, oz, dz, z0, z1, a, c4);
    let v5 = if r5.0 { Some(r5.1) } else { v4 };
    let c5 = if r5.0 { r5.1 } else { c4 };
    let r6 = rect_vals(x1, ox, dx, oy, dy, y0, y1, oz, dz, z0, z1, a, c5);
    if r6.0 { Some(r6.1) } else { v5 }
}

impl AABox {
    /// Constructs a new box from two opposite corners, wrapped in the
    /// Hittable enum
    pub fn new(box_min: Vec3, box_max: Vec3, material: usize) -> (r: Hittable)
        requires
            wf_aabox(AABox { box_min, box_max, material }),
        ensures
            r == Hittable::AABox(AABox { box_min, box_max, material }),
    {
        Hittable::AABox(AABox { box_min, box_max, material })
    }

    /// Intersects a ray with the nearest of the box's six faces within the
    /// given parameter interval.
    pub fn hit(&self, ray: &Ray, t_min: i128, t_max: i128) -> (r: Option<HitRecord>)
        requires
            wf_aabox(*self),
            wf_ray(*ray),
            crate::bounded(t_min as int),
            crate::bounded(t_max as int),
        ensures
            match r {
                Some(rec) => box_model(*self, *ray, t_min as int, t_max as int)
                    == Some(rec.t as int),
                None => box_model(*self, *ray, t_min as int, t_max as int) is None,
            },
            r matches Some(rec) ==> {
                &&& t_min <= rec.t <= t_max
                &&& wf_rec(rec)
                &&& rec.material == self.material
                &&& 0 <= rec.u <= SCALE && 0 <= rec.v <= SCALE
                &&& rec.point.x as int == crate::ray::at_comp(ray.origin.x as int,
                    ray.direction.x as int, rec.t as int)
                &&& rec.point.y as int == crate::ray::at_comp(ray.origin.y as int,
                    ray.direction.y as int, rec.t as int)
                &&& rec.point.z as int == crate::ray::at_comp(ray.origin.z as int,
                    ray.direction.z as int, rec.t as int)
            },
    {
        let mut closest = t_max;
        let mut result: Option<HitRecord> = None;

        let s1 = XYRect {
            x0: self.box_min.x, x1: self.box_max.x, y0: self.box_min.y, y1: self.box_max.y,
            k: self.box_min.z, material: self.material,
        };
        match s1.hit(ray, t_min, closest) {
            Some(h) => { closest = h.t; result = Some(h); },
            None => {},
        }
        let s2 = XYRect {
            x0: self.box_min.x, x1: self.box_max.x, y0: self.box_min.y, y1: self.box_max.y,
            k: self.box_max.z, material: self.material,
        };
        match s2.hit(ray, t_min, closest) {
            Some(h) => { closest = h.t; result = Some(h); },
            None => {},
        }
        let s3 = XZRect {
            x0: self.box_min.x, x1: self.box_max.x, z0: self.box_min.z, z1: self.box_max.z,
            k: self.box_min.y, material: self.material,
        };
        match s3.hit(ray, t_min, closest) {
            Some(h) => { closest = h.t; result = Some(h); },
            None => {},
        }
        let s4 = XZRect {
            x0: self.box_min.x, x1: self.box_max.x, z0: self.box_min.z, z1: self.box_max.z,
            k: self.box_max.y, material: self.material,
        };
        match s4.hit(ray, t_min, closest) {
            Some(h) => { closest = h.t; result = Some(h); },
            None => {},
        }
        let s5 = YZRect {
            y0: self.box_min.y, y1: self.box_max.y, z0: self.box_min.z, z1: self.box_max.z,
            k: self.box_min.x, material: self.material,
        };
        match s5.hit(ray, t_min, closest) {
            Some(h) => { closest = h.t; result = Some(h); },
            None => {},
        }
        let s6 = YZRect {
            y0: self.box_min.y, y1: self.box_max.y, z0: self.box_min.z, z1: self.box_max.z,
            k: self.box_max.x, material: self.material,
        };
        match s6.hit(ray, t_min, closest) {
            Some(h) => { closest = h.t; result = Some(h); },
            None => {},
        }

        result
    }
}

} // verus!
