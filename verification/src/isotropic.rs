//! The phase function of a homogeneous participating medium.
use vstd::prelude::*;
use crate::vec3::Vec3;
use crate::ray::{Ray, wf_ray};
use crate::hit_record::{HitRecord, wf_rec};
use crate::texture::{Texture, tex_wf, tex_le_one};
use crate::checker_texture::checker_odd;
use crate::solid_colour::SolidColour;
use crate::material::Material;
use crate::SCALE;

verus! {

/// A material scattering uniformly in every direction
#[derive(Clone, PartialEq, Eq, Debug)]
pub struct Isotropic {
    /// Albedo of the material
    pub albedo: Texture,
}

impl Isotropic {
    /// Constructs a new Isotropic material from a texture, wrapped in the Material enum
    pub fn new(albedo: Texture) -> (r: Material)
        requires
            tex_wf(albedo),
            tex_le_one(albedo),
        ensures
            r matches Material::Isotropic(i) && i.albedo == albedo,
            crate::material::wf_material(r),
    {
        Material::Isotropic(Isotropic { albedo })
    }

    /// Constructs a new Isotropic material of a plain colour, wrapped in the Material enum
    pub fn from_colour(colour: Vec3) -> (r: Material)
        requires
            0 <= colour.x <= SCALE && 0 <= colour.y <= SCALE && 0 <= colour.z <= SCALE,
        ensures
            r matches Material::Isotropic(i) && i.albedo
                == Texture::SolidColour(SolidColour { colour_value: colour }),
            crate::material::wf_material(r),
    {
        Material::Isotropic(Isotropic { albedo: SolidColour::new(colour) })
    }

    /// Scatters uniformly into the unit sphere, attenuated by the albedo.
    pub fn scatter(&self, ray_in: &Ray, hit_record: &HitRecord) -> (r: Option<(Vec3, Ray)>)
        requires
            tex_wf(self.albedo),
            tex_le_one(self.albedo),
            wf_ray(*ray_in),
            wf_rec(*hit_record),
        ensures
            r matches Some(ar) && {
                &&& 0 <= ar.0.x <= SCALE && 0 <= ar.0.y <= SCALE && 0 <= ar.0.z <= SCALE
                &&& ar.1.origin == hit_record.point
                &&& ar.1.time == ray_in.time
                &&& wf_ray(ar.1)
                &&& self.albedo matches Texture::SolidColour(sc) ==> ar.0 == sc.colour_value
                &&& self.albedo matches Texture::CheckerTexture(ct)
                    ==> ar.0 == if checker_odd(hit_record.point) { ct.odd } else { ct.even }
                &&& 1 <= crate::vec3::ls_spec(ar.1.direction) < SCALE
            },
    {
        let attenuation = self.albedo.value(hit_record.u, hit_record.v, &hit_record.point);
        let scattered = Ray::new(hit_record.point, Vec3::random_in_unit_sphere(), ray_in.time);
        Some((attenuation, scattered))
    }
}

} // verus!
