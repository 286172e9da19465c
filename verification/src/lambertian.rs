//! Diffuse matte materials.
use vstd::prelude::*;
use crate::vec3::{Vec3, ls_spec, vlen, in_range};
use crate::fx::fxd;
use crate::ray::{Ray, wf_ray};
use crate::hit_record::{HitRecord, wf_rec};
use crate::texture::{Texture, tex_wf, tex_le_one};
use crate::checker_texture::checker_odd;
use crate::solid_colour::SolidColour;
use crate::material::Material;
use crate::SCALE;

verus! {

/// Object to represent Lambertian diffuse materials
#[derive(Clone, PartialEq, Eq, Debug)]
pub struct Lambertian {
    /// Albedo of the material
    pub albedo: Texture,
}

impl Lambertian {
    /// Constructs a new Lambertian object from a given colour, wrapped in the Material enum
    pub fn new(colour: Vec3) -> (r: Material)
        requires
            0 <= colour.x <= SCALE && 0 <= colour.y <= SCALE && 0 <= colour.z <= SCALE,
        ensures
            r matches Material::Lambertian(l) && l.albedo
                == Texture::SolidColour(SolidColour { colour_value: colour }),
            crate::material::wf_material(r),
    {
        Material::Lambertian(Lambertian { albedo: SolidColour::new(colour) })
    }

    /// Constructs a new Lambertian object from a given texture, wrapped in the Material enum
    pub fn from_texture(albedo: Texture) -> (r: Material)
        requires
            tex_wf(albedo),
            tex_le_one(albedo),
        ensures
            r matches Material::Lambertian(l) && l.albedo == albedo,
            crate::material::wf_material(r),
    {
        Material::Lambertian(Lambertian { albedo })
    }

    /// Scatters the incident ray diffusely: always some ray away from the
    /// hit point, attenuated by the albedo.
    pub fn scatter(&self, ray_in: &Ray, hit_record: &HitRecord) -> (r: Option<(Vec3, Ray)>)
        requires
            tex_wf(self.albedo),
            tex_le_one(self.albedo),
            wf_ray(*ray_in),
            wf_rec(*hit_record),
        ensures
            r matches Some(ar) && {
                &&& 0 <= ar.0.x <= SCALE && 0 <= ar.0.y <= SCALE && 0 <= ar.0.z <= SCALE
                &&& ar.1.origin == hit_record.point
                &&& ar.1.time == ray_in.time
                &&& wf_ray(ar.1)
                &&& self.albedo matches Texture::SolidColour(sc) ==> ar.0 == sc.colour_value
                &&& self.albedo matches Texture::CheckerTexture(ct)
                    ==> ar.0 == if checker_odd(hit_record.point) { ct.odd } else { ct.even }
                &&& exists|p: Vec3| {
                    &&& 1 <= #[trigger] ls_spec(p) < SCALE
                    &&& in_range(p, SCALE as int)
                    &&& ({
                        let sx = fxd(p.x as int, vlen(p));
                        let sy = fxd(p.y as int, vlen(p));
                        let sz = fxd(p.z as int, vlen(p));
                        if hit_record.normal.x + sx == 0 && hit_record.normal.y + sy == 0
                            && hit_record.normal.z + sz == 0 {
                            ar.1.direction == hit_record.normal
                        } else {
                            &&& ar.1.direction.x as int == hit_record.normal.x + sx
                            &&& ar.1.direction.y as int == hit_record.normal.y + sy
                            &&& ar.1.direction.z as int == hit_record.normal.z + sz
                        }
                    })
                }
            },
    {
        // Gets the direction of the scattered ray, which bounces randomly away from the object
        let rv = Vec3::random_unit_vector();
        let mut scatter_direction = hit_record.normal.add(rv);

        // Ignores scatter directions near zero to avoid impossible rays
        if scatter_direction.near_zero() {
            scatter_direction = hit_record.normal;
        }
        proof {
            let p = choose|p: Vec3| {
                &&& 1 <= #[trigger] ls_spec(p) < SCALE
                &&& in_range(p, SCALE as int)
                &&& rv.x as int == fxd(p.x as int, vlen(p))
                &&& rv.y as int == fxd(p.y as int, vlen(p))
                &&& rv.z as int == fxd(p.z as int, vlen(p))
            };
            assert(1 <= ls_spec(p) < SCALE && in_range(p, SCALE as int));
        }

        // Constructs scattered ray
        let scattered = Ray::new(hit_record.point, scatter_direction, ray_in.time);

        Some((self.albedo.value(hit_record.u, hit_record.v, &hit_record.point), scattered))
    }
}

} // verus!
