//! A sphere whose centre moves linearly over a time window.
use vstd::prelude::*;
use crate::fx::{absi, fxm, fxd, fx_mul, fx_div, lemma_fxm_within, lemma_frac_unit,
    lemma_tdiv_abs};
use crate::vec3::{Vec3, in_range};
use crate::ray::{Ray, wf_ray};
use crate::hit_record::HitRecord;
use crate::sphere::{quad_hit, quad_hit_post};
use crate::hittable::Hittable;
use crate::{SCALE, INFINITY};

verus! {

/// Object to store a Moving Sphere object
#[derive(Clone, Copy, PartialEq, Eq, Structural, Debug)]
pub struct MovingSphere {
    /// Position of the centre of the sphere at time0
    pub centre0: Vec3,
    /// Position of the centre of the sphere at time1
    pub centre1: Vec3,
    /// Time of first position
    pub time0: i128,
    /// Time of second position
    pub time1: i128,
    /// Radius of the sphere
    pub radius: i128,
    /// Index of the material of the sphere
    pub material: usize,
}

/// The centres lie well within the envelope, the time window is proper and
/// the radius positive.
pub open spec fn wf_msphere(ms: MovingSphere) -> bool {
    &&& in_range(ms.centre0, 17179869184)
    &&& in_range(ms.centre1, 17179869184)
    &&& crate::bounded(ms.time0 as int) && crate::bounded(ms.time1 as int)
    &&& ms.time0 < ms.time1
    &&& 1 <= ms.radius <= 17179869184
}

/// How far through the time window a moment lies; past the window the
/// fraction extrapolates beyond zero or one.
pub open spec fn msphere_frac(ms: MovingSphere, time: int) -> int {
    fxd(time - ms.time0, ms.time1 - ms.time0)
}

/// One component of the interpolated centre at a moment.
pub open spec fn msphere_centre(c0: int, c1: int, frac: int) -> int {
    c0 + fxm(frac, c1 - c0)
}

impl MovingSphere {
    /// Constructs a new Moving Sphere object, wrapped in the Hittable enum
    pub fn new(centre0: Vec3, centre1: Vec3, time0: i128, time1: i128, radius: i128,
        material: usize) -> (r: Hittable)
        requires
            in_range(centre0, 17179869184),
            in_range(centre1, 17179869184),
            crate::bounded(time0 as int) && crate::bounded(time1 as int),
            time0 < time1,
            1 <= radius <= 17179869184,
        ensures
            r == Hittable::MovingSphere(MovingSphere {
                centre0, centre1, time0, time1, radius, material,
            }),
    {
        Hittable::MovingSphere(MovingSphere { centre0, centre1, time0, time1, radius, material })
    }

    /// Gets the centre position of the sphere at a certain time, by linear
    /// interpolation between the endpoints; the centre extrapolates past the
    /// window, exactly at the endpoints for the window's own times.
    pub fn centre(&self, time: i128) -> (r: Vec3)
        requires
            wf_msphere(*self),
            crate::bounded(time as int),
        ensures
            r.x as int == msphere_centre(self.centre0.x as int, self.centre1.x as int,
                msphere_frac(*self, time as int)),
            r.y as int == msphere_centre(self.centre0.y as int, self.centre1.y as int,
                msphere_frac(*self, time as int)),
            r.z as int == msphere_centre(self.centre0.z as int, self.centre1.z as int,
                msphere_frac(*self, time as int)),
            self.time0 <= time <= self.time1 ==> in_range(r, INFINITY as int),
    {
        proof {
            lemma_tdiv_abs((time - self.time0) as int * SCALE as int,
                (self.time1 - self.time0) as int);
            crate::fx::lemma_abs_mul((time - self.time0) as int, SCALE as int);
            vstd::arithmetic::mul::lemma_mul_inequality(absi((time - self.time0) as int),
                137438953472, SCALE as int);
            vstd::arithmetic::div_mod::lemma_div_is_ordered(
                absi((time - self.time0) as int) * SCALE as int,
                137438953472 * SCALE as int, (self.time1 - self.time0) as int);
            vstd::arithmetic::div_mod::lemma_div_is_ordered_by_denominator(
                137438953472 * SCALE as int, 1, (self.time1 - self.time0) as int);
            if self.time0 <= time <= self.time1 {
                lemma_frac_unit(time as int, self.time0 as int, self.time1 as int);
            }
        }
        let frac = fx_div(time - self.time0, self.time1 - self.time0);
        proof {
            lemma_fxm_within(frac as int, (self.centre1.x - self.centre0.x) as int,
                9007199254740992, 34359738368, 4722366482869645213696);
            lemma_fxm_within(frac as int, (self.centre1.y - self.centre0.y) as int,
                9007199254740992, 34359738368, 4722366482869645213696);
            lemma_fxm_within(frac as int, (self.centre1.z - self.centre0.z) as int,
                9007199254740992, 34359738368, 4722366482869645213696);
            if self.time0 <= time <= self.time1 {
                lemma_fxm_within(frac as int, (self.centre1.x - self.centre0.x) as int,
                    65536, 34359738368, 34359738368);
                lemma_fxm_within(frac as int, (self.centre1.y - self.centre0.y) as int,
                    65536, 34359738368, 34359738368);
                lemma_fxm_within(frac as int, (self.centre1.z - self.centre0.z) as int,
                    65536, 34359738368, 34359738368);
            }
        }
        Vec3::new(
            self.centre0.x + fx_mul(frac, self.centre1.x - self.centre0.x),
            self.centre0.y + fx_mul(frac, self.centre1.y - self.centre0.y),
            self.centre0.z + fx_mul(frac, self.centre1.z - self.centre0.z),
        )
    }

    /// Intersects a ray with the sphere at the position its centre holds at
    /// the ray's own time.
    pub fn hit(&self, ray: &Ray, t_min: i128, t_max: i128) -> (r: Option<HitRecord>)
        requires
            wf_msphere(*self),
            wf_ray(*ray),
            crate::bounded(t_min as int),
            crate::bounded(t_max as int),
        ensures
            ({
                let frac = msphere_frac(*self, ray.time as int);
                let cx = msphere_centre(self.centre0.x as int, self.centre1.x as int, frac);
                let cy = msphere_centre(self.centre0.y as int, self.centre1.y as int, frac);
                let cz = msphere_centre(self.centre0.z as int, self.centre1.z as int, frac);
                if absi(cx) <= INFINITY as int && absi(cy) <= INFINITY as int
                    && absi(cz) <= INFINITY as int {
                    quad_hit_post(cx, cy, cz, self.radius as int, self.material, *ray,
                        t_min as int, t_max as int, r)
                } else {
                    r is None
                }
            }),
    {
        let c = self.centre(ray.time);
        if !c.in_envelope(INFINITY) {
            // An extrapolated centre beyond the representable envelope
            // cannot be intersected.
            return None;
        }
        quad_hit(c, self.radius, self.material, ray, t_min, t_max)
    }
}

} // verus!
