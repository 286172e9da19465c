//! Reflective metallic materials.
use vstd::prelude::*;
use crate::fx::{fxm, fxd, lemma_fxm_within};
use crate::vec3::{Vec3, dot_spec, ls_spec, vlen, in_range};
use crate::ray::{Ray, wf_ray};
use crate::hit_record::{HitRecord, wf_rec};
use crate::material::Material;
use crate::SCALE;

verus! {

/// Object to represent Metal materials
#[derive(Clone, Copy, PartialEq, Eq, Structural, Debug)]
pub struct Metal {
    /// Albedo of the material
    pub albedo: Vec3,
    /// Controls how fuzzy a reflection is
    pub fuzz: i128,
}

/// One component of the exact mirror direction: the unit incident
/// direction reflected about the normal.
pub open spec fn mirror_dir(d: Vec3, n: Vec3, axis: int) -> int {
    let ux = fxd(d.x as int, vlen(d));
    let uy = fxd(d.y as int, vlen(d));
    let uz = fxd(d.z as int, vlen(d));
    let dt = fxm(ux, n.x as int) + fxm(uy, n.y as int) + fxm(uz, n.z as int);
    if axis == 0 {
        ux - fxm(n.x as int, 2 * dt)
    } else if axis == 1 {
        uy - fxm(n.y as int, 2 * dt)
    } else {
        uz - fxm(n.z as int, 2 * dt)
    }
}

impl Metal {
    /// Constructs a new Metal object, wrapped in the Material enum
    pub fn new(albedo: Vec3, fuzz: i128) -> (r: Material)
        requires
            0 <= albedo.x <= SCALE && 0 <= albedo.y <= SCALE && 0 <= albedo.z <= SCALE,
            0 <= fuzz <= SCALE,
        ensures
            r == Material::Metal(Metal { albedo, fuzz }),
            crate::material::wf_material(r),
    {
        Material::Metal(Metal { albedo, fuzz })
    }

    /// Reflects the incident ray about the normal with some fuzz; rays that
    /// end up pointing into the surface are absorbed.
    pub fn scatter(&self, ray_in: &Ray, hit_record: &HitRecord) -> (r: Option<(Vec3, Ray)>)
        requires
            0 <= self.albedo.x <= SCALE && 0 <= self.albedo.y <= SCALE
                && 0 <= self.albedo.z <= SCALE,
            0 <= self.fuzz <= SCALE,
            wf_ray(*ray_in),
            wf_rec(*hit_record),
        ensures
            r matches Some(ar) ==> {
                &&& ar.0 == self.albedo
                &&& dot_spec(ar.1.direction, hit_record.normal) > 0
                &&& ar.1.origin == hit_record.point
                &&& ar.1.time == ray_in.time
                &&& wf_ray(ar.1)
            },
            self.fuzz == 0 && ls_spec(ray_in.direction) >= 1 ==> {
                let rx = mirror_dir(ray_in.direction, hit_record.normal, 0);
                let ry = mirror_dir(ray_in.direction, hit_record.normal, 1);
                let rz = mirror_dir(ray_in.direction, hit_record.normal, 2);
                let outward = fxm(rx, hit_record.normal.x as int)
                    + fxm(ry, hit_record.normal.y as int)
                    + fxm(rz, hit_record.normal.z as int) > 0;
                &&& (r is Some <==> outward)
                &&& (r matches Some(ar) ==> ar.1.direction.x as int == rx
                    && ar.1.direction.y as int == ry && ar.1.direction.z as int == rz)
            },
            r matches Some(ar) ==> ls_spec(ray_in.direction) >= 1 ==> exists|p: Vec3| {
                &&& 1 <= #[trigger] ls_spec(p) < SCALE
                &&& in_range(p, SCALE as int)
                &&& ar.1.direction.x as int
                    == mirror_dir(ray_in.direction, hit_record.normal, 0)
                        + fxm(p.x as int, self.fuzz as int)
                &&& ar.1.direction.y as int
                    == mirror_dir(ray_in.direction, hit_record.normal, 1)
                        + fxm(p.y as int, self.fuzz as int)
                &&& ar.1.direction.z as int
                    == mirror_dir(ray_in.direction, hit_record.normal, 2)
                        + fxm(p.z as int, self.fuzz as int)
            },
            r is None ==> ls_spec(ray_in.direction) < 1 || exists|p: Vec3| {
                &&& 1 <= #[trigger] ls_spec(p) < SCALE
                &&& in_range(p, SCALE as int)
                &&& ({
                    let n = hit_record.normal;
                    let dx = mirror_dir(ray_in.direction, n, 0)
                        + fxm(p.x as int, self.fuzz as int);
                    let dy = mirror_dir(ray_in.direction, n, 1)
                        + fxm(p.y as int, self.fuzz as int);
                    let dz = mirror_dir(ray_in.direction, n, 2)
                        + fxm(p.z as int, self.fuzz as int);
                    fxm(dx, n.x as int) + fxm(dy, n.y as int) + fxm(dz, n.z as int) <= 0
                })
            },
    {
        let dls = ray_in.direction.length_squared();
        if dls < 1 {
            // A direction below the scale's granularity cannot be normalised.
            return None;
        }
        // Gets the reflected direction and constructs the scattered ray with a certain fuzz
        let reflected = Ray::reflect(ray_in.direction.unit(), hit_record.normal);
        let fz = Vec3::random_in_unit_sphere();
        proof {
            lemma_fxm_within(fz.x as int, self.fuzz as int, 65536, 65536, 65536);
            lemma_fxm_within(fz.y as int, self.fuzz as int, 65536, 65536, 65536);
            lemma_fxm_within(fz.z as int, self.fuzz as int, 65536, 65536, 65536);
        }
        let scattered = Ray::new(
            hit_record.point, reflected.add(fz.mul_s(self.fuzz)), ray_in.time,
        );
        proof {
            assert(reflected.x as int == mirror_dir(ray_in.direction, hit_record.normal, 0));
            assert(reflected.y as int == mirror_dir(ray_in.direction, hit_record.normal, 1));
            assert(reflected.z as int == mirror_dir(ray_in.direction, hit_record.normal, 2));
            if self.fuzz == 0 {
                crate::fx::lemma_tdiv_nonneg(0, SCALE as int);
                assert(fz.x as int * 0 == 0);
                assert(fz.y as int * 0 == 0);
                assert(fz.z as int * 0 == 0);
                assert(fxm(fz.x as int, 0) == 0);
                assert(fxm(fz.y as int, 0) == 0);
                assert(fxm(fz.z as int, 0) == 0);
            }
        }

        // Excludes the ray if it's reflected towards the object
        if Vec3::dot(&scattered.direction, &hit_record.normal) > 0 {
            Some((self.albedo, scattered))
        } else {
            None
        }
    }
}

} // verus!
