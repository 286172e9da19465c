//! Transparent refractive materials such as water and glass.
use vstd::prelude::*;
use vstd::arithmetic::div_mod::{lemma_div_is_ordered_by_denominator, lemma_div_multiples_vanish, lemma_div_is_ordered};
use crate::fx::{absi, fxm, fxd, sqrti, mini, fx_mul, fx_div, fx_sqrt, abs_i, min_i,
    lemma_fxm_within, lemma_tdiv_abs, lemma_tdiv_nonneg};
use crate::vec3::{Vec3, ls_spec, vlen, dot_spec};
use crate::ray::{Ray, wf_ray, refract_perp, refract_root};
use crate::hit_record::{HitRecord, wf_rec};
use crate::material::Material;
use crate::{SCALE, random_double};

verus! {

/// Object to represent Dielectric materials such as water and glass
#[derive(Clone, Copy, PartialEq, Eq, Structural, Debug)]
pub struct Dielectric {
    /// Albedo of the material: always pure white, a dielectric absorbs nothing
    pub albedo: Vec3,
    /// Refraction index of the material
    pub refraction_index: i128,
}

/// The Schlick polynomial `reflectance` evaluates.
pub open spec fn reflectance_spec(cosine: int, ref_idx: int) -> int {
    let r0 = fxd(SCALE as int - ref_idx, SCALE as int + ref_idx);
    let r02 = fxm(r0, r0);
    let p = SCALE as int - cosine;
    let p2 = fxm(p, p);
    let p4 = fxm(p2, p2);
    let p5 = fxm(p4, p);
    r02 + fxm(SCALE as int - r02, p5)
}

/// The unit incident direction the scatter works with: the normalised ray
/// direction, or the surface normal when the direction is below the scale's
/// granularity.
pub open spec fn diel_unit(d: Vec3, n: Vec3) -> Vec3 {
    if ls_spec(d) >= 1 {
        Vec3 {
            x: fxd(d.x as int, vlen(d)) as i128,
            y: fxd(d.y as int, vlen(d)) as i128,
            z: fxd(d.z as int, vlen(d)) as i128,
        }
    } else {
        n
    }
}

/// The cosine the dielectric works with, capped at one.
pub open spec fn diel_cos(ud: Vec3, n: Vec3) -> int {
    mini(-dot_spec(ud, n), SCALE as int)
}

/// The scaled sine the dielectric works with.
pub open spec fn diel_sin(ud: Vec3, n: Vec3) -> int {
    sqrti(absi(SCALE as int - fxm(diel_cos(ud, n), diel_cos(ud, n))) * SCALE as int)
}

/// One component of the mirror reflection of the unit direction.
pub open spec fn diel_refl(ud: Vec3, n: Vec3, axis: int) -> int {
    let dt = dot_spec(ud, n);
    crate::vec3::comp(ud, axis) - fxm(crate::vec3::comp(n, axis), 2 * dt)
}

/// One component of the refraction of the unit direction.
pub open spec fn diel_refr(ud: Vec3, n: Vec3, ratio: int, axis: int) -> int {
    refract_perp(crate::vec3::comp(ud, axis), crate::vec3::comp(n, axis), ud, n, ratio)
        + fxm(crate::vec3::comp(n, axis), -refract_root(ud, n, ratio))
}

impl Dielectric {
    /// Constructs a new Dielectric object, wrapped in the Material enum
    pub fn new(refraction_index: i128) -> (r: Material)
        requires
            8192 <= refraction_index <= 524288,
        ensures
            r matches Material::Dielectric(d) && d.refraction_index == refraction_index
                && d.albedo.x == SCALE && d.albedo.y == SCALE && d.albedo.z == SCALE,
            crate::material::wf_material(r),
    {
        Material::Dielectric(Dielectric { albedo: Vec3::one(), refraction_index })
    }

    /// Uses Schlick's approximation for calculating reflectance of a dielectric material
    fn reflectance(cosine: i128, ref_idx: i128) -> (r: i128)
        requires
            absi(cosine as int) <= 786432,
            0 <= ref_idx <= 524288,
        ensures
            r as int == reflectance_spec(cosine as int, ref_idx as int),
    {
        proof {
            lemma_tdiv_abs((SCALE as int - ref_idx) * SCALE as int, SCALE as int + ref_idx);
            crate::fx::lemma_abs_mul(SCALE as int - ref_idx, SCALE as int);
            vstd::arithmetic::mul::lemma_mul_inequality(absi(SCALE as int - ref_idx), 524288,
                SCALE as int);
            lemma_div_is_ordered_by_denominator(absi((SCALE as int - ref_idx) * SCALE as int),
                SCALE as int, SCALE as int + ref_idx);
            lemma_div_is_ordered(absi((SCALE as int - ref_idx) * SCALE as int),
                524288 * SCALE as int, SCALE as int);
            lemma_div_multiples_vanish(524288, SCALE as int);
        }
        let r0 = fx_div(SCALE - ref_idx, SCALE + ref_idx);
        proof {
            lemma_fxm_within(r0 as int, r0 as int, 524288, 524288, 4194304);
        }
        let r02 = fx_mul(r0, r0);
        let p = SCALE - cosine;
        proof {
            lemma_fxm_within(p as int, p as int, 851968, 851968, 11075584);
            let p2 = fxm(p as int, p as int);
            lemma_fxm_within(p2, p2, 11075584, 11075584, 1871773696);
            let p4 = fxm(p2, p2);
            lemma_fxm_within(p4, p as int, 1871773696, 851968, 24332863143936);
            let p5 = fxm(p4, p as int);
            lemma_fxm_within(SCALE as int - r02 as int, p5, 4259840, 24332863143936,
                1581521454158512128);
        }
        let p2 = fx_mul(p, p);
        let p4 = fx_mul(p2, p2);
        let p5 = fx_mul(p4, p);
        r02 + fx_mul(SCALE - r02, p5)
    }

    /// Either reflects or refracts the incident ray; the attenuation is
    /// always exactly pure white.
    pub fn scatter(&self, ray_in: &Ray, hit_record: &HitRecord) -> (r: Option<(Vec3, Ray)>)
        requires
            self.albedo.x == SCALE && self.albedo.y == SCALE && self.albedo.z == SCALE,
            8192 <= self.refraction_index <= 524288,
            wf_ray(*ray_in),
            wf_rec(*hit_record),
        ensures
            r matches Some(ar) && {
                let ud = diel_unit(ray_in.direction, hit_record.normal);
                let n = hit_record.normal;
                let ratio = if hit_record.front_face {
                    fxd(SCALE as int, self.refraction_index as int)
                } else {
                    self.refraction_index as int
                };
                let refl = ar.1.direction.x as int == diel_refl(ud, n, 0)
                    && ar.1.direction.y as int == diel_refl(ud, n, 1)
                    && ar.1.direction.z as int == diel_refl(ud, n, 2);
                let refr = ar.1.direction.x as int == diel_refr(ud, n, ratio, 0)
                    && ar.1.direction.y as int == diel_refr(ud, n, ratio, 1)
                    && ar.1.direction.z as int == diel_refr(ud, n, ratio, 2);
                &&& ar.0.x == SCALE && ar.0.y == SCALE && ar.0.z == SCALE
                &&& ar.1.origin == hit_record.point
                &&& ar.1.time == ray_in.time
                &&& wf_ray(ar.1)
                &&& refl || refr
                &&& fxm(ratio, diel_sin(ud, n)) > SCALE ==> refl
            },
    {
        // Calculates refraction ratio depending on if the front face of the object was hit
        let refraction_ratio = if hit_record.front_face {
            proof {
                lemma_tdiv_abs(SCALE as int * SCALE as int, self.refraction_index as int);
                lemma_div_is_ordered_by_denominator(SCALE as int * SCALE as int, 8192,
                    self.refraction_index as int);
                lemma_tdiv_nonneg(SCALE as int * SCALE as int, self.refraction_index as int);
                assert((SCALE as int * SCALE as int) / 8192 == 524288);
            }
            fx_div(SCALE, self.refraction_index)
        } else {
            self.refraction_index
        };

        // Calculates unit direction of the ray in and appropriate trig values;
        // a direction below the scale's granularity falls back to the normal
        let dls = ray_in.direction.length_squared();
        let unit_direction = if dls >= 1 {
            ray_in.direction.unit()
        } else {
            hit_record.normal
        };
        proof {
            assert(unit_direction == diel_unit(ray_in.direction, hit_record.normal));
        }
        let nud = unit_direction.neg();
        proof {
            lemma_fxm_within(nud.x as int, hit_record.normal.x as int, 131072, 131072, 262144);
            lemma_fxm_within(nud.y as int, hit_record.normal.y as int, 131072, 131072, 262144);
            lemma_fxm_within(nud.z as int, hit_record.normal.z as int, 131072, 131072, 262144);
        }
        let cos_theta = min_i(Vec3::dot(&nud, &hit_record.normal), SCALE);
        proof {
            assert(dot_spec(nud, hit_record.normal)
                == -dot_spec(unit_direction, hit_record.normal)) by {
                crate::fx::lemma_fxm_neg(unit_direction.x as int, hit_record.normal.x as int);
                crate::fx::lemma_fxm_neg(unit_direction.y as int, hit_record.normal.y as int);
                crate::fx::lemma_fxm_neg(unit_direction.z as int, hit_record.normal.z as int);
            }
            assert(cos_theta as int == diel_cos(unit_direction, hit_record.normal));
        }
        proof {
            lemma_fxm_within(cos_theta as int, cos_theta as int, 786432, 786432, 9437184);
        }
        let c2 = fx_mul(cos_theta, cos_theta);
        let sin_theta = fx_sqrt(abs_i(SCALE - c2));
        proof {
            let sq = sin_theta as int;
            let ai = absi(SCALE as int - c2 as int);
            assert(sq * sq <= ai * 65536);
            assert(sq <= 790000) by (nonlinear_arith)
                requires 0 <= sq, sq * sq <= ai * 65536, ai <= 9502720;
            lemma_fxm_within(refraction_ratio as int, sin_theta as int, 524288, 790000,
                6320000);
        }

        // Determines if a ray should be reflected or refracted, and gets the resulting direction
        let direction: Vec3;
        if fx_mul(refraction_ratio, sin_theta) > SCALE
            || Dielectric::reflectance(cos_theta, refraction_ratio) > random_double() {
            direction = Ray::reflect(unit_direction, hit_record.normal);
        } else {
            direction = Ray::refract(unit_direction, hit_record.normal, refraction_ratio);
        }

        // Constructs the scattered ray
        let scattered = Ray::new(hit_record.point, direction, ray_in.time);

        Some((self.albedo, scattered))
    }
}

} // verus!
