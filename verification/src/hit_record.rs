//! The transient record produced by a successful ray intersection.
use vstd::prelude::*;
use crate::vec3::{Vec3, in_range, dot_spec};
use crate::ray::Ray;
use crate::{SCALE, INFINITY};

verus! {

/// Object to store a record of a ray hit.  The material is an index into
/// the scene's material arena.
#[derive(Clone, Copy, PartialEq, Eq, Structural, Debug)]
pub struct HitRecord {
    /// Point of the hit
    pub point: Vec3,
    /// Normal of the face of the object hit
    pub normal: Vec3,
    /// Index of the material of the object hit
    pub material: usize,
    /// Ray parameter at which the hit occurred
    pub t: i128,
    /// U coordinate of hit
    pub u: i128,
    /// V coordinate of hit
    pub v: i128,
    /// Stores if the hit was on an outward face of the object hit
    pub front_face: bool,
}

/// The record's data lies within the representable envelope and its normal
/// is no longer than two whole units.
pub open spec fn wf_rec(rec: HitRecord) -> bool {
    in_range(rec.point, INFINITY as int)
    && in_range(rec.normal, 2 * SCALE as int)
    && crate::bounded(rec.t as int)
    && crate::bounded(rec.u as int)
    && crate::bounded(rec.v as int)
}

impl HitRecord {
    /// Constructs a new Hit Record
    pub fn new(point: Vec3, material: usize, u: i128, v: i128, t: i128) -> (r: Self)
        ensures
            r.point == point && r.material == material && r.u == u && r.v == v && r.t == t,
            r.normal.x == 0 && r.normal.y == 0 && r.normal.z == 0,
            !r.front_face,
    {
        HitRecord {
            point, t, material,
            normal: Vec3::zero(), u, v, front_face: false,
        }
    }

    /// Calculates the normal of the hit record, flipped to point against the
    /// incident ray.
    pub fn calculate_face_normal(&mut self, ray: &Ray, outward_normal: Vec3)
        requires
            in_range(old(self).point, crate::fx::FXD_LIM as int),
            in_range(ray.direction, crate::fx::MUL_LIM as int),
            in_range(outward_normal, crate::fx::MUL_LIM as int),
        ensures
            final(self).front_face == (dot_spec(ray.direction, outward_normal) < 0),
            final(self).front_face ==> final(self).normal == outward_normal,
            !final(self).front_face ==> {
                &&& final(self).normal.x as int == -(outward_normal.x as int)
                &&& final(self).normal.y as int == -(outward_normal.y as int)
                &&& final(self).normal.z as int == -(outward_normal.z as int)
            },
            final(self).point == old(self).point,
            final(self).material == old(self).material,
            final(self).t == old(self).t,
            final(self).u == old(self).u,
            final(self).v == old(self).v,
    {
        self.front_face = Vec3::dot(&ray.direction, &outward_normal) < 0;
        self.normal = if self.front_face { outward_normal } else { outward_normal.neg() };
    }
}

} // verus!
