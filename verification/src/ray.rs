//! A parametric line with an origin, a direction and a time of existence.
use vstd::prelude::*;
use crate::fx::{absi, fxm, sqrti, fx_sqrt, abs_i, min_i, mini, lemma_fxm_bound};
use crate::vec3::{Vec3, in_range, dot_spec};
use crate::{SCALE, INFINITY};

verus! {

/// Largest component magnitude `reflect` and `refract` accept.
pub const UNIT_LIM: i128 = 262144;

/// Object to store information about a 3D line ray
#[derive(Clone, Copy, PartialEq, Eq, Structural, Debug)]
pub struct Ray {
    /// Origin of the ray
    pub origin: Vec3,
    /// Direction of the ray
    pub direction: Vec3,
    /// Time the ray exists at
    pub time: i128,
}

/// The ray's data lies within the representable coordinate envelope.
pub open spec fn wf_ray(r: Ray) -> bool {
    in_range(r.origin, INFINITY as int)
    && in_range(r.direction, INFINITY as int)
    && crate::bounded(r.time as int)
}

/// Where `at` lands along one coordinate.
pub open spec fn at_comp(o: int, d: int, t: int) -> int {
    o + fxm(t, d)
}

/// The cosine `refract` works with.
pub open spec fn refract_cos(uv: Vec3, n: Vec3) -> int {
    mini(-dot_spec(uv, n), SCALE as int)
}

/// One component of the perpendicular part of a refracted direction.
pub open spec fn refract_perp(u: int, nc: int, uv: Vec3, n: Vec3, ratio: int) -> int {
    fxm(u + fxm(nc, refract_cos(uv, n)), ratio)
}

/// The scaled square root `refract` takes of one minus the squared length of
/// the perpendicular part.
pub open spec fn refract_root(uv: Vec3, n: Vec3, ratio: int) -> int {
    let px = refract_perp(uv.x as int, n.x as int, uv, n, ratio);
    let py = refract_perp(uv.y as int, n.y as int, uv, n, ratio);
    let pz = refract_perp(uv.z as int, n.z as int, uv, n, ratio);
    let pls = fxm(px, px) + fxm(py, py) + fxm(pz, pz);
    sqrti(absi(SCALE as int - pls) * SCALE as int)
}

impl Ray {
    /// Constructs a new ray with a given origin, direction and time
    pub fn new(origin: Vec3, direction: Vec3, time: i128) -> (r: Self)
        ensures
            r.origin == origin && r.direction == direction && r.time == time,
    {
        Ray { origin, direction, time }
    }

    /// Gets the point on the ray at a given time 't'
    pub fn at(&self, t: i128) -> (r: Vec3)
        requires
            wf_ray(*self),
            crate::bounded(t as int),
        ensures
            r.x as int == at_comp(self.origin.x as int, self.direction.x as int, t as int),
            r.y as int == at_comp(self.origin.y as int, self.direction.y as int, t as int),
            r.z as int == at_comp(self.origin.z as int, self.direction.z as int, t as int),
    {
        proof {
            lemma_fxm_bound(t as int, self.direction.x as int, INFINITY as int, INFINITY as int);
            lemma_fxm_bound(t as int, self.direction.y as int, INFINITY as int, INFINITY as int);
            lemma_fxm_bound(t as int, self.direction.z as int, INFINITY as int, INFINITY as int);
        }
        self.origin.add(self.direction.mul_s(t))
    }

    /// Returns the direction of a reflected ray through a normal vector
    pub fn reflect(v: Vec3, n: Vec3) -> (r: Vec3)
        requires
            in_range(v, UNIT_LIM as int),
            in_range(n, UNIT_LIM as int),
        ensures
            r.x as int == v.x - fxm(n.x as int, 2 * dot_spec(v, n)),
            r.y as int == v.y - fxm(n.y as int, 2 * dot_spec(v, n)),
            r.z as int == v.z - fxm(n.z as int, 2 * dot_spec(v, n)),
            in_range(r, 67108864),
    {
        proof {
            lemma_fxm_bound(v.x as int, n.x as int, UNIT_LIM as int, UNIT_LIM as int);
            lemma_fxm_bound(v.y as int, n.y as int, UNIT_LIM as int, UNIT_LIM as int);
            lemma_fxm_bound(v.z as int, n.z as int, UNIT_LIM as int, UNIT_LIM as int);
        }
        let d = Vec3::dot(&v, &n);
        let two_d = 2 * d;
        proof {
            lemma_fxm_bound(n.x as int, two_d as int, UNIT_LIM as int, 6291456);
            lemma_fxm_bound(n.y as int, two_d as int, UNIT_LIM as int, 6291456);
            lemma_fxm_bound(n.z as int, two_d as int, UNIT_LIM as int, 6291456);
        }
        v.sub(n.mul_s(two_d))
    }

    /// Returns the direction of a refracted ray
    pub fn refract(uv: Vec3, n: Vec3, refractive_index_ratio: i128) -> (r: Vec3)
        requires
            in_range(uv, UNIT_LIM as int),
            in_range(n, UNIT_LIM as int),
            0 <= refractive_index_ratio <= 8 * SCALE as int,
        ensures
            r.x as int == refract_perp(uv.x as int, n.x as int, uv, n, refractive_index_ratio as int)
                + fxm(n.x as int, -refract_root(uv, n, refractive_index_ratio as int)),
            r.y as int == refract_perp(uv.y as int, n.y as int, uv, n, refractive_index_ratio as int)
                + fxm(n.y as int, -refract_root(uv, n, refractive_index_ratio as int)),
            r.z as int == refract_perp(uv.z as int, n.z as int, uv, n, refractive_index_ratio as int)
                + fxm(n.z as int, -refract_root(uv, n, refractive_index_ratio as int)),
            0 <= refract_root(uv, n, refractive_index_ratio as int),
            in_range(r, 8589934592),
    {
        let ghost ratio = refractive_index_ratio as int;
        proof {
            lemma_fxm_bound(uv.x as int, n.x as int, UNIT_LIM as int, UNIT_LIM as int);
            lemma_fxm_bound(uv.y as int, n.y as int, UNIT_LIM as int, UNIT_LIM as int);
            lemma_fxm_bound(uv.z as int, n.z as int, UNIT_LIM as int, UNIT_LIM as int);
        }
        let nuv = uv.neg();
        let cos_theta = min_i(Vec3::dot(&nuv, &n), SCALE);
        proof {
            assert(dot_spec(nuv, n) == -dot_spec(uv, n)) by {
                crate::fx::lemma_fxm_neg(uv.x as int, n.x as int);
                crate::fx::lemma_fxm_neg(uv.y as int, n.y as int);
                crate::fx::lemma_fxm_neg(uv.z as int, n.z as int);
            }
            assert(cos_theta as int == refract_cos(uv, n));
            lemma_fxm_bound(n.x as int, cos_theta as int, UNIT_LIM as int, 12582912);
            lemma_fxm_bound(n.y as int, cos_theta as int, UNIT_LIM as int, 12582912);
            lemma_fxm_bound(n.z as int, cos_theta as int, UNIT_LIM as int, 12582912);
        }
        let mid = uv.add(n.mul_s(cos_theta));
        proof {
            lemma_fxm_bound(mid.x as int, ratio, 50593792, 8 * SCALE as int);
            lemma_fxm_bound(mid.y as int, ratio, 50593792, 8 * SCALE as int);
            lemma_fxm_bound(mid.z as int, ratio, 50593792, 8 * SCALE as int);
        }
        let perp = mid.mul_s(refractive_index_ratio);
        proof {
            lemma_fxm_bound(perp.x as int, perp.x as int, 404750336, 404750336);
            lemma_fxm_bound(perp.y as int, perp.y as int, 404750336, 404750336);
            lemma_fxm_bound(perp.z as int, perp.z as int, 404750336, 404750336);
        }
        let pls = perp.length_squared();
        proof {
            assert(absi(SCALE as int - pls as int) < 8796093022208);
        }
        let sq = fx_sqrt(abs_i(SCALE - pls));
        proof {
            assert(sq as int == refract_root(uv, n, ratio));
            let sqi = sq as int;
            let ai = absi(SCALE as int - pls as int);
            assert(sqi * sqi <= ai * 65536);
            assert(sqi < 1073741824) by (nonlinear_arith)
                requires
                    0 <= sqi,
                    sqi * sqi <= ai * 65536,
                    ai < 8796093022208;
            lemma_fxm_bound(n.x as int, -(sq as int), UNIT_LIM as int, 1073741824);
            lemma_fxm_bound(n.y as int, -(sq as int), UNIT_LIM as int, 1073741824);
            lemma_fxm_bound(n.z as int, -(sq as int), UNIT_LIM as int, 1073741824);
        }
        perp.add(n.mul_s(-sq))
    }
}

} // verus!
