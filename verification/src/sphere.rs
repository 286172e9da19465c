//! Spheres and their closed-form ray intersection.
use vstd::prelude::*;
use crate::fx::{absi, fxm, fxd, sqrti, is_sqrt, fx_mul, fx_div, fx_sqrt, fx_acos, fx_atan2,
    atan2_spec, acos_spec, lemma_fxm_within, lemma_tdiv_abs, lemma_tdiv_nonneg};

use crate::vec3::{Vec3, in_range, ls_spec, lemma_fxm_sq_nonneg};
use crate::ray::{Ray, wf_ray, at_comp};
use crate::hit_record::{HitRecord, wf_rec};
use crate::hittable::Hittable;
use crate::{SCALE, INFINITY, PI, clamp};

verus! {

/// Object to store a Sphere object
#[derive(Clone, Copy, PartialEq, Eq, Structural, Debug)]
pub struct Sphere {
    /// Position of the centre of the sphere
    pub centre: Vec3,
    /// Radius of the sphere
    pub radius: i128,
    /// Index of the material of the sphere
    pub material: usize,
}

/// The sphere has a positive radius and lies in the coordinate envelope.
pub open spec fn wf_sphere(s: Sphere) -> bool {
    in_range(s.centre, INFINITY as int) && 1 <= s.radius <= INFINITY as int
}

/// The linear coefficient of the sphere quadratic, halved, from the origin
/// offset `oc = O - C` and the ray direction.
pub open spec fn quad_half_b(ocx: int, ocy: int, ocz: int, d: Vec3) -> int {
    fxm(ocx, d.x as int) + fxm(ocy, d.y as int) + fxm(ocz, d.z as int)
}

/// The constant coefficient of the sphere quadratic.
pub open spec fn quad_c(ocx: int, ocy: int, ocz: int, radius: int) -> int {
    fxm(ocx, ocx) + fxm(ocy, ocy) + fxm(ocz, ocz) - fxm(radius, radius)
}

/// Which root, if any, of the sphere quadratic `|O + t D - C|^2 = r^2` the
/// hit test selects: the smaller root when it lies within the parameter
/// interval, else the larger, else none; no real root or a degenerate
/// direction select none.
pub open spec fn sphere_root(ocx: int, ocy: int, ocz: int, d: Vec3, radius: int,
    tmin: int, tmax: int) -> Option<int> {
    let a = ls_spec(d);
    let hb = quad_half_b(ocx, ocy, ocz, d);
    let c = quad_c(ocx, ocy, ocz, radius);
    let disc = fxm(hb, hb) - fxm(a, c);
    if a == 0 || disc < 0 {
        None
    } else {
        let sq = sqrti(disc * SCALE as int);
        let r1 = fxd(-hb - sq, a);
        if tmin <= r1 && r1 <= tmax {
            Some(r1)
        } else {
            let r2 = fxd(-hb + sq, a);
            if tmin <= r2 && r2 <= tmax {
                Some(r2)
            } else {
                None
            }
        }
    }
}

/// Whether the hit at the selected root stays representable: the hit point
/// within the coordinate envelope and the outward normal within two units.
pub open spec fn quad_rep(cx: int, cy: int, cz: int, radius: int, ray: Ray, root: int) -> bool {
    let px = at_comp(ray.origin.x as int, ray.direction.x as int, root);
    let py = at_comp(ray.origin.y as int, ray.direction.y as int, root);
    let pz = at_comp(ray.origin.z as int, ray.direction.z as int, root);
    let nx = fxd(px - cx, radius);
    let ny = fxd(py - cy, radius);
    let nz = fxd(pz - cz, radius);
    absi(px) <= INFINITY as int && absi(py) <= INFINITY as int && absi(pz) <= INFINITY as int
        && absi(nx) <= 2 * SCALE as int && absi(ny) <= 2 * SCALE as int
        && absi(nz) <= 2 * SCALE as int
}

/// The equirectangular surface coordinates of a point on the unit sphere.
pub open spec fn sphere_u(px: int, pz: int) -> int {
    crate::clamp_spec(fxd(atan2_spec(-pz, px) + PI, 2 * PI as int), 0, SCALE as int)
}

/// The pole-to-pole surface coordinate of a point on the unit sphere.
pub open spec fn sphere_v(py: int) -> int {
    crate::clamp_spec(fxd(acos_spec(-py), PI as int), 0, SCALE as int)
}

/// What a sphere's hit test returns: no record exactly when no root is
/// selected or the hit is not representable; otherwise the record at the
/// selected root, with its point on the ray, its normal the outward normal
/// flipped against the ray, its surface coordinates from that normal, and
/// the sphere's material.
pub open spec fn quad_hit_post(cx: int, cy: int, cz: int, radius: int, material: usize,
    ray: Ray, tmin: int, tmax: int, r: Option<HitRecord>) -> bool {
    let sel = sphere_root(ray.origin.x - cx, ray.origin.y - cy, ray.origin.z - cz,
        ray.direction, radius, tmin, tmax);
    match r {
        None => sel is None || !quad_rep(cx, cy, cz, radius, ray, sel->Some_0),
        Some(rec) => {
            let root = sel->Some_0;
            let px = at_comp(ray.origin.x as int, ray.direction.x as int, root);
            let py = at_comp(ray.origin.y as int, ray.direction.y as int, root);
            let pz = at_comp(ray.origin.z as int, ray.direction.z as int, root);
            let nx = fxd(px - cx, radius);
            let ny = fxd(py - cy, radius);
            let nz = fxd(pz - cz, radius);
            let against = fxm(ray.direction.x as int, nx) + fxm(ray.direction.y as int, ny)
                + fxm(ray.direction.z as int, nz) < 0;
            &&& sel is Some
            &&& quad_rep(cx, cy, cz, radius, ray, root)
            &&& rec.t == root
            &&& tmin <= rec.t <= tmax
            &&& rec.point.x as int == px && rec.point.y as int == py && rec.point.z as int == pz
            &&& rec.material == material
            &&& rec.front_face == against
            &&& rec.normal.x as int == if against { nx } else { -nx }
            &&& rec.normal.y as int == if against { ny } else { -ny }
            &&& rec.normal.z as int == if against { nz } else { -nz }
            &&& rec.u as int == sphere_u(nx, nz)
            &&& rec.v as int == sphere_v(ny)
            &&& 0 <= rec.u <= SCALE && 0 <= rec.v <= SCALE
            &&& wf_rec(rec)
        },
    }
}

/// What a sphere's hit test returns, at the sphere's own centre.
pub open spec fn sphere_hit_post(s: Sphere, ray: Ray, tmin: int, tmax: int,
    r: Option<HitRecord>) -> bool {
    quad_hit_post(s.centre.x as int, s.centre.y as int, s.centre.z as int, s.radius as int,
        s.material, ray, tmin, tmax, r)
}

impl Sphere {
    /// Constructs a new Sphere object, wrapped in the Hittable enum
    pub fn new(centre: Vec3, radius: i128, material: usize) -> (r: Hittable)
        requires
            in_range(centre, INFINITY as int),
            1 <= radius <= INFINITY,
        ensures
            r == Hittable::Sphere(Sphere { centre, radius, material }),
    {
        Hittable::Sphere(Sphere { centre, radius, material })
    }

    /// The equirectangular surface coordinates of a point on the unit
    /// sphere, each within `[0, 1]`.
    pub fn get_sphere_uv(p: Vec3) -> (r: (i128, i128))
        requires
            in_range(p, 2 * SCALE as int),
        ensures
            r.0 as int == sphere_u(p.x as int, p.z as int),
            r.1 as int == sphere_v(p.y as int),
            0 <= r.0 <= SCALE,
            0 <= r.1 <= SCALE,
    {
        let theta = fx_acos(-p.y);
        let phi = fx_atan2(-p.z, p.x) + PI;
        proof {
            lemma_tdiv_abs(phi as int * SCALE as int, 2 * PI as int);
            lemma_tdiv_abs(theta as int * SCALE as int, PI as int);
        }
        let u = clamp(fx_div(phi, 2 * PI), 0, SCALE);
        let v = clamp(fx_div(theta, PI), 0, SCALE);
        (u, v)
    }

    /// Intersects a ray with the sphere over the given parameter interval.
    pub fn hit(&self, ray: &Ray, t_min: i128, t_max: i128) -> (r: Option<HitRecord>)
        requires
            wf_sphere(*self),
            wf_ray(*ray),
            crate::bounded(t_min as int),
            crate::bounded(t_max as int),
        ensures
            sphere_hit_post(*self, *ray, t_min as int, t_max as int, r),
    {
        quad_hit(self.centre, self.radius, self.material, ray, t_min, t_max)
    }
}

/// Intersects a ray with the sphere of the given centre, radius and
/// material over the given parameter interval.
pub fn quad_hit(centre: Vec3, radius: i128, material: usize, ray: &Ray, t_min: i128,
    t_max: i128) -> (r: Option<HitRecord>)
    requires
        in_range(centre, INFINITY as int),
        1 <= radius <= INFINITY,
        wf_ray(*ray),
        crate::bounded(t_min as int),
        crate::bounded(t_max as int),
    ensures
        quad_hit_post(centre.x as int, centre.y as int, centre.z as int, radius as int,
            material, *ray, t_min as int, t_max as int, r),
{
    // Calculates vector of the ray's origin to the centre of the sphere
    let oc = ray.origin.sub(centre);

    proof {
        lemma_fxm_within(ray.direction.x as int, ray.direction.x as int,
            68719476736, 68719476736, 72057594037927936);
        lemma_fxm_within(ray.direction.y as int, ray.direction.y as int,
            68719476736, 68719476736, 72057594037927936);
        lemma_fxm_within(ray.direction.z as int, ray.direction.z as int,
            68719476736, 68719476736, 72057594037927936);
        lemma_fxm_within(oc.x as int, ray.direction.x as int,
            137438953472, 68719476736, 144115188075855872);
        lemma_fxm_within(oc.y as int, ray.direction.y as int,
            137438953472, 68719476736, 144115188075855872);
        lemma_fxm_within(oc.z as int, ray.direction.z as int,
            137438953472, 68719476736, 144115188075855872);
        lemma_fxm_within(oc.x as int, oc.x as int,
            137438953472, 137438953472, 288230376151711744);
        lemma_fxm_within(oc.y as int, oc.y as int,
            137438953472, 137438953472, 288230376151711744);
        lemma_fxm_within(oc.z as int, oc.z as int,
            137438953472, 137438953472, 288230376151711744);
        lemma_fxm_within(radius as int, radius as int,
            68719476736, 68719476736, 72057594037927936);
    }

    // Calculates elements of quadratic equation to solve for the points of intersection
    let a = ray.direction.length_squared();
    let half_b = Vec3::dot(&oc, &ray.direction);
    let c = oc.length_squared() - fx_mul(radius, radius);

    // A direction below the scale's granularity meets nothing
    if a == 0 {
        return None;
    }

    proof {
        lemma_fxm_sq_nonneg(ray.direction.x as int);
        lemma_fxm_sq_nonneg(ray.direction.y as int);
        lemma_fxm_sq_nonneg(ray.direction.z as int);
        lemma_fxm_within(half_b as int, half_b as int,
            432345564227567616, 432345564227567616, 2852213850513516153367582212096);
        lemma_fxm_within(a as int, c as int,
            216172782113783808, 936748722493063168, 3089898338056309166148214063104);
    }

    // Calculates the discriminant of the equation and uses it to detect no intersections
    let discriminant = fx_mul(half_b, half_b) - fx_mul(a, c);
    if discriminant < 0 {
        return None;
    }

    let sqrt_d = fx_sqrt(discriminant);
    proof {
        let sq = sqrt_d as int;
        assert(sq * sq <= discriminant as int * 65536);
        assert(sq <= 1152921504606846976) by (nonlinear_arith)
            requires
                0 <= sq,
                sq * sq <= discriminant as int * 65536,
                discriminant <= 5942112188569825319515796275200i128;
    }

    // Finds the smallest root within the range [t_min,t_max] or returns None if none exist
    let mut root = fx_div(-half_b - sqrt_d, a);
    if root < t_min || t_max < root {
        root = fx_div(-half_b + sqrt_d, a);
        if root < t_min || t_max < root {
            return None;
        }
    }

    proof {
        lemma_fxm_within(root as int, ray.direction.x as int,
            68719476736, 68719476736, 72057594037927936);
        lemma_fxm_within(root as int, ray.direction.y as int,
            68719476736, 68719476736, 72057594037927936);
        lemma_fxm_within(root as int, ray.direction.z as int,
            68719476736, 68719476736, 72057594037927936);
    }

    // Creates a new hit record for the interaction and returns it
    let record_point = ray.at(root);
    let outward_normal = record_point.sub(centre).div(radius);
    if !record_point.in_envelope(INFINITY) || !outward_normal.in_envelope(2 * SCALE) {
        // Beyond the representable envelope the hit is dropped
        return None;
    }
    let uv = Sphere::get_sphere_uv(outward_normal);
    let mut hit_record = HitRecord::new(record_point, material, uv.0, uv.1, root);
    hit_record.calculate_face_normal(ray, outward_normal);

    Some(hit_record)
}


/// A ray fired along the x axis from a whole-unit distance `l` at a sphere
/// of whole-unit radius `rho` centred on the ray's line meets it exactly at
/// parameter `(l - rho)`, the distance to the centre minus the radius, and
/// the hit point lies exactly one radius from the centre.
pub proof fn lemma_sphere_round_trip(o: Vec3, l: int, rho: int, tmax: int)
    requires
        0 < rho < l,
        (l - rho) * SCALE as int <= tmax,
    ensures
        ({
            let d = Vec3 { x: 65536, y: 0, z: 0 };
            let sel = sphere_root(-(l * SCALE as int), 0, 0, d, rho * SCALE as int, 0, tmax);
            &&& sel == Some((l - rho) * SCALE as int)
            &&& at_comp(o.x as int, d.x as int, (l - rho) * SCALE as int)
                == o.x + (l - rho) * SCALE as int
            &&& at_comp(o.y as int, d.y as int, (l - rho) * SCALE as int) == o.y
            &&& at_comp(o.z as int, d.z as int, (l - rho) * SCALE as int) == o.z
        }),
{
    let s = SCALE as int;
    let d = Vec3 { x: 65536, y: 0, z: 0 };
    crate::fx::lemma_tdiv_nonneg(0, s);
    assert(fxm(0, 0) == 0);
    crate::fx::lemma_tdiv_scale(65536);
    assert(ls_spec(d) == s);
    // The linear coefficient is exactly minus the distance to the centre.
    crate::fx::lemma_tdiv_scale(-(l * s));
    assert(quad_half_b(-(l * s), 0, 0, d) == -(l * s)) by {
        assert(fxm(-(l * s), 65536) == -(l * s));
        assert(fxm(0, 0) == 0);
    }
    // Whole-unit squares are exact.
    assert(fxm(l * s, l * s) == l * l * s) by {
        assert((l * s) * (l * s) == (l * l * s) * s) by (nonlinear_arith);
        crate::fx::lemma_tdiv_scale(l * l * s);
        assert(fxm(-(l * s), -(l * s)) == fxm(l * s, l * s)) by {
            assert((-(l * s)) * (-(l * s)) == (l * s) * (l * s)) by (nonlinear_arith);
        }
    }
    assert(fxm(-(l * s), -(l * s)) == l * l * s) by {
        assert((-(l * s)) * (-(l * s)) == (l * l * s) * s) by (nonlinear_arith);
        crate::fx::lemma_tdiv_scale(l * l * s);
    }
    assert(fxm(rho * s, rho * s) == rho * rho * s) by {
        assert((rho * s) * (rho * s) == (rho * rho * s) * s) by (nonlinear_arith);
        crate::fx::lemma_tdiv_scale(rho * rho * s);
    }
    let c = quad_c(-(l * s), 0, 0, rho * s);
    assert(c == l * l * s - rho * rho * s);
    // The discriminant collapses to the squared radius.
    assert(fxm(s, l * l * s - rho * rho * s) == l * l * s - rho * rho * s) by {
        assert(s * (l * l * s - rho * rho * s) == (l * l * s - rho * rho * s) * s)
            by (nonlinear_arith);
        crate::fx::lemma_tdiv_scale(l * l * s - rho * rho * s);
    }
    let disc = fxm(-(l * s), -(l * s)) - fxm(s, c);
    assert(disc == rho * rho * s);
    assert(rho * rho * s >= 0) by (nonlinear_arith)
        requires rho >= 1, s == 65536;
    // The square root of the discriminant is exactly the radius.
    assert(sqrti(disc * s) == rho * s) by {
        assert(is_sqrt(rho * s, (rho * rho * s) * s)) by (nonlinear_arith)
            requires rho >= 1, s == 65536;
        crate::vec3::lemma_sqrt_exists(disc * s);
        crate::fx::lemma_sqrt_unique(rho * s,
            choose|r: int| #[trigger] is_sqrt(r, disc * s), disc * s);
        assert(disc * s == (rho * rho * s) * s) by (nonlinear_arith)
            requires disc == rho * rho * s;
    }
    // The nearer root is exactly the whole-unit distance minus the radius.
    assert(fxd(l * s - rho * s, s) == (l - rho) * s) by {
        assert((l * s - rho * s) * s == ((l - rho) * s) * s) by (nonlinear_arith);
        crate::fx::lemma_tdiv_scale((l - rho) * s);
    }
    assert((l - rho) * s >= 0) by (nonlinear_arith)
        requires l > rho, s == 65536;
    assert(sphere_root(-(l * s), 0, 0, d, rho * s, 0, tmax) == Some((l - rho) * s));
    // Walking the ray to the root lands exactly one radius short of the
    // centre, on the sphere.
    crate::fx::lemma_tdiv_scale((l - rho) * s);
    assert(fxm((l - rho) * s, 65536) == (l - rho) * s);
    assert(fxm((l - rho) * s, 0) == 0) by {
        assert(((l - rho) * s) * 0 == 0) by (nonlinear_arith);
        crate::fx::lemma_tdiv_nonneg(0, s);
    }
}

} // verus!
