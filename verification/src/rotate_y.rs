//! A wrapper rotating a child object about the vertical axis.
use vstd::prelude::*;
use crate::fx::{absi, fxm, tdiv, mini, maxi, fx_mul, fx_sin, fx_cos, min_i, max_i,
    sin_series, cos_series, trig_reduce, lemma_fxm_within};
use crate::vec3::{Vec3, in_range};
use crate::aabb::{AABB, wf_aabb, BOX_LIM};
use crate::hittable::{Hittable, wf_h, bb_spec};
use crate::{SCALE, PI, degrees_to_radians, clamp_spec};

verus! {

/// A hittable object rotated about the y axis
#[derive(Debug)]
pub struct RotateY {
    /// The wrapped object
    pub object: Box<Hittable>,
    /// Sine of the rotation angle
    pub sin_theta: i128,
    /// Cosine of the rotation angle
    pub cos_theta: i128,
    /// A conservative box around the rotated object, when one fits
    pub bbox: Option<AABB>,
}

/// The angle in radians a rotation of the given degrees turns by.
pub open spec fn rot_radians(angle: int) -> int {
    tdiv(angle * PI as int, 180 * SCALE as int)
}

/// The extremes of a box's corners rotated about the y axis, or nothing
/// when they leave the representable envelope.
pub open spec fn rotate_box_spec(sin_theta: int, cos_theta: int, b: AABB) -> Option<AABB> {
    let cx0 = fxm(cos_theta, b.minimum.x as int);
    let cx1 = fxm(cos_theta, b.maximum.x as int);
    let sx0 = fxm(sin_theta, b.minimum.x as int);
    let sx1 = fxm(sin_theta, b.maximum.x as int);
    let cz0 = fxm(cos_theta, b.minimum.z as int);
    let cz1 = fxm(cos_theta, b.maximum.z as int);
    let sz0 = fxm(sin_theta, b.minimum.z as int);
    let sz1 = fxm(sin_theta, b.maximum.z as int);
    let minx = mini(mini(cx0 + sz0, cx0 + sz1), mini(cx1 + sz0, cx1 + sz1));
    let maxx = maxi(maxi(cx0 + sz0, cx0 + sz1), maxi(cx1 + sz0, cx1 + sz1));
    let minz = mini(mini(-sx0 + cz0, -sx0 + cz1), mini(-sx1 + cz0, -sx1 + cz1));
    let maxz = maxi(maxi(-sx0 + cz0, -sx0 + cz1), maxi(-sx1 + cz0, -sx1 + cz1));
    if minx < -(BOX_LIM as int) || maxx > BOX_LIM as int || minz < -(BOX_LIM as int)
        || maxz > BOX_LIM as int {
        None
    } else {
        Some(AABB {
            minimum: Vec3 { x: minx as i128, y: b.minimum.y, z: minz as i128 },
            maximum: Vec3 { x: maxx as i128, y: b.maximum.y, z: maxz as i128 },
        })
    }
}

impl RotateY {
    /// Wraps an object with a rotation by an angle in degrees, wrapped in
    /// the Hittable enum
    pub fn new(object: Hittable, angle: i128) -> (r: Hittable)
        requires
            wf_h(object),
            crate::bounded(angle as int),
        ensures
            r matches Hittable::RotateY(rt) && {
                &&& *rt.object == object
                &&& rt.sin_theta as int == clamp_spec(
                    sin_series(trig_reduce(rot_radians(angle as int))),
                    -(SCALE as int), SCALE as int)
                &&& rt.cos_theta as int == clamp_spec(
                    cos_series(trig_reduce(rot_radians(angle as int))),
                    -(SCALE as int), SCALE as int)
                &&& rt.bbox == match bb_spec(object, 0, SCALE as int) {
                    None => None,
                    Some(b) => rotate_box_spec(rt.sin_theta as int, rt.cos_theta as int, b),
                }
                &&& absi(rt.sin_theta as int) <= SCALE as int
                &&& absi(rt.cos_theta as int) <= SCALE as int
                &&& (angle == 0 ==> rt.sin_theta == 0 && rt.cos_theta == SCALE)
            },
            wf_h(r),
    {
        let radians = degrees_to_radians(angle);
        proof {
            if angle == 0 {
                crate::fx::lemma_tdiv_nonneg(0, 180 * SCALE as int);
            }
        }
        let sin_theta = fx_sin(radians);
        let cos_theta = fx_cos(radians);
        let bbox = match object.bounding_box(0, SCALE) {
            None => None,
            Some(b) => rotate_box(sin_theta, cos_theta, &b),
        };
        Hittable::RotateY(RotateY { object: Box::new(object), cos_theta, sin_theta, bbox })
    }

    /// Rotates a vector into the child's frame (the inverse rotation).
    pub fn rotate_ray_vec(&self, v: &Vec3) -> (r: Vec3)
        requires
            absi(self.sin_theta as int) <= SCALE as int,
            absi(self.cos_theta as int) <= SCALE as int,
            in_range(*v, crate::INFINITY as int),
        ensures
            r.x as int == fxm(self.cos_theta as int, v.x as int)
                - fxm(self.sin_theta as int, v.z as int),
            r.y == v.y,
            r.z as int == fxm(self.sin_theta as int, v.x as int)
                + fxm(self.cos_theta as int, v.z as int),
    {
        proof {
            lemma_fxm_within(self.cos_theta as int, v.x as int, 65536, 68719476736, 68719476736);
            lemma_fxm_within(self.sin_theta as int, v.z as int, 65536, 68719476736, 68719476736);
            lemma_fxm_within(self.sin_theta as int, v.x as int, 65536, 68719476736, 68719476736);
            lemma_fxm_within(self.cos_theta as int, v.z as int, 65536, 68719476736, 68719476736);
        }
        Vec3::new(
            fx_mul(self.cos_theta, v.x) - fx_mul(self.sin_theta, v.z),
            v.y,
            fx_mul(self.sin_theta, v.x) + fx_mul(self.cos_theta, v.z),
        )
    }

    /// Rotates a vector back into the world frame (the forward rotation).
    pub fn rotate_record_vec(&self, v: &Vec3) -> (r: Vec3)
        requires
            absi(self.sin_theta as int) <= SCALE as int,
            absi(self.cos_theta as int) <= SCALE as int,
            in_range(*v, crate::INFINITY as int),
        ensures
            r.x as int == fxm(self.cos_theta as int, v.x as int)
                + fxm(self.sin_theta as int, v.z as int),
            r.y == v.y,
            r.z as int == -fxm(self.sin_theta as int, v.x as int)
                + fxm(self.cos_theta as int, v.z as int),
    {
        proof {
            lemma_fxm_within(self.cos_theta as int, v.x as int, 65536, 68719476736, 68719476736);
            lemma_fxm_within(self.sin_theta as int, v.z as int, 65536, 68719476736, 68719476736);
            lemma_fxm_within(self.sin_theta as int, v.x as int, 65536, 68719476736, 68719476736);
            lemma_fxm_within(self.cos_theta as int, v.z as int, 65536, 68719476736, 68719476736);
        }
        Vec3::new(
            fx_mul(self.cos_theta, v.x) + fx_mul(self.sin_theta, v.z),
            v.y,
            -fx_mul(self.sin_theta, v.x) + fx_mul(self.cos_theta, v.z),
        )
    }
}

/// A conservative box around a rotated box: the extremes of the rotated
/// corners, or nothing if they leave the representable envelope.
fn rotate_box(sin_theta: i128, cos_theta: i128, b: &AABB) -> (r: Option<AABB>)
    requires
        absi(sin_theta as int) <= SCALE as int,
        absi(cos_theta as int) <= SCALE as int,
        wf_aabb(*b),
    ensures
        r == rotate_box_spec(sin_theta as int, cos_theta as int, *b),
        r matches Some(nb) ==> wf_aabb(nb),
{
    proof {
        lemma_fxm_within(cos_theta as int, b.minimum.x as int, 65536, 1099511627776,
            1099511627776);
        lemma_fxm_within(cos_theta as int, b.maximum.x as int, 65536, 1099511627776,
            1099511627776);
        lemma_fxm_within(sin_theta as int, b.minimum.x as int, 65536, 1099511627776,
            1099511627776);
        lemma_fxm_within(sin_theta as int, b.maximum.x as int, 65536, 1099511627776,
            1099511627776);
        lemma_fxm_within(cos_theta as int, b.minimum.z as int, 65536, 1099511627776,
            1099511627776);
        lemma_fxm_within(cos_theta as int, b.maximum.z as int, 65536, 1099511627776,
            1099511627776);
        lemma_fxm_within(sin_theta as int, b.minimum.z as int, 65536, 1099511627776,
            1099511627776);
        lemma_fxm_within(sin_theta as int, b.maximum.z as int, 65536, 1099511627776,
            1099511627776);
    }
    let cx0 = fx_mul(cos_theta, b.minimum.x);
    let cx1 = fx_mul(cos_theta, b.maximum.x);
    let sx0 = fx_mul(sin_theta, b.minimum.x);
    let sx1 = fx_mul(sin_theta, b.maximum.x);
    let cz0 = fx_mul(cos_theta, b.minimum.z);
    let cz1 = fx_mul(cos_theta, b.maximum.z);
    let sz0 = fx_mul(sin_theta, b.minimum.z);
    let sz1 = fx_mul(sin_theta, b.maximum.z);
    let x00 = cx0 + sz0;
    let x01 = cx0 + sz1;
    let x10 = cx1 + sz0;
    let x11 = cx1 + sz1;
    let z00 = -sx0 + cz0;
    let z01 = -sx0 + cz1;
    let z10 = -sx1 + cz0;
    let z11 = -sx1 + cz1;
    let minx = min_i(min_i(x00, x01), min_i(x10, x11));
    let maxx = max_i(max_i(x00, x01), max_i(x10, x11));
    let minz = min_i(min_i(z00, z01), min_i(z10, z11));
    let maxz = max_i(max_i(z00, z01), max_i(z10, z11));
    if minx < -BOX_LIM || maxx > BOX_LIM || minz < -BOX_LIM || maxz > BOX_LIM {
        return None;
    }
    Some(AABB::new(
        Vec3::new(minx, b.minimum.y, minz),
        Vec3::new(maxx, b.maximum.y, maxz),
    ))
}

} // verus!
