//! The closed set of materials and their scatter/emit behaviour.
use vstd::prelude::*;
use crate::vec3::{Vec3, in_range, dot_spec};
use crate::ray::{Ray, wf_ray};
use crate::hit_record::{HitRecord, wf_rec};
use crate::texture::{Texture, tex_wf, tex_le_one};
use crate::lambertian::Lambertian;
use crate::metal::Metal;
use crate::dielectric::Dielectric;
use crate::diffuse_light::DiffuseLight;
use crate::isotropic::Isotropic;
use crate::{SCALE, INFINITY, COLOUR_LIM};

verus! {

/// Enum storing each material variation
#[derive(Clone, PartialEq, Eq, Debug)]
pub enum Material {
    Lambertian(Lambertian),
    Metal(Metal),
    Dielectric(Dielectric),
    DiffuseLight(DiffuseLight),
    Isotropic(Isotropic),
}

/// Each material's parameters are physically sound: attenuating textures
/// never brighten, a metal's fuzz stays within one unit, and a dielectric is
/// pure white with a refraction index between an eighth and eight.
pub open spec fn wf_material(m: Material) -> bool {
    match m {
        Material::Lambertian(l) => tex_wf(l.albedo) && tex_le_one(l.albedo),
        Material::Metal(mt) => {
            &&& 0 <= mt.albedo.x <= SCALE && 0 <= mt.albedo.y <= SCALE
                && 0 <= mt.albedo.z <= SCALE
            &&& 0 <= mt.fuzz <= SCALE
        },
        Material::Dielectric(d) => {
            &&& d.albedo.x == SCALE && d.albedo.y == SCALE && d.albedo.z == SCALE
            &&& 8192 <= d.refraction_index <= 524288
        },
        Material::DiffuseLight(dl) => tex_wf(dl.emit),
        Material::Isotropic(i) => tex_wf(i.albedo) && tex_le_one(i.albedo),
    }
}

/// What every scatter result guarantees: the scattered ray starts at the hit
/// point at the incident ray's time, stays representable, and the
/// attenuation is a colour that never brightens.
pub open spec fn scatter_post(m: Material, ray_in: Ray, rec: HitRecord,
    r: Option<(Vec3, Ray)>) -> bool {
    &&& (r matches Some(ar) ==> {
        &&& 0 <= ar.0.x <= SCALE && 0 <= ar.0.y <= SCALE && 0 <= ar.0.z <= SCALE
        &&& ar.1.origin == rec.point
        &&& ar.1.time == ray_in.time
        &&& wf_ray(ar.1)
    })
    &&& (m is Lambertian ==> r is Some)
    &&& (m is Isotropic ==> r is Some)
    &&& (m is DiffuseLight ==> r is None)
    &&& (m matches Material::Dielectric(d) ==> r matches Some(ar)
        && ar.0.x == SCALE && ar.0.y == SCALE && ar.0.z == SCALE)
    &&& (m matches Material::Metal(mt) ==> (r matches Some(ar)
        ==> ar.0 == mt.albedo && dot_spec(ar.1.direction, rec.normal) > 0))
    &&& (m matches Material::Lambertian(l) ==> (r matches Some(ar) ==> {
        &&& (l.albedo matches Texture::SolidColour(sc) ==> ar.0 == sc.colour_value)
        &&& (l.albedo matches Texture::CheckerTexture(ct)
            ==> ar.0 == if crate::checker_texture::checker_odd(rec.point) { ct.odd }
                else { ct.even })
    }))
    &&& (m matches Material::Isotropic(iso) ==> (r matches Some(ar) ==> {
        &&& (iso.albedo matches Texture::SolidColour(sc) ==> ar.0 == sc.colour_value)
        &&& (iso.albedo matches Texture::CheckerTexture(ct)
            ==> ar.0 == if crate::checker_texture::checker_odd(rec.point) { ct.odd }
                else { ct.even })
    }))
}

/// What `emitted` promises of its result: a bounded non-negative colour,
/// black for everything but a light, and the light's texture sampled
/// exactly for the plain texture kinds.
pub open spec fn emitted_post(m: Material, u: int, v: int, p: Vec3, e: Vec3) -> bool {
    &&& 0 <= e.x <= COLOUR_LIM && 0 <= e.y <= COLOUR_LIM && 0 <= e.z <= COLOUR_LIM
    &&& (!(m is DiffuseLight) ==> e.x == 0 && e.y == 0 && e.z == 0)
    &&& (m matches Material::DiffuseLight(dl) ==> {
        &&& (dl.emit matches Texture::SolidColour(sc) ==> e == sc.colour_value)
        &&& (dl.emit matches Texture::CheckerTexture(ct)
            ==> e == if crate::checker_texture::checker_odd(p) { ct.odd } else { ct.even })
        &&& (dl.emit matches Texture::ImageTexture(it) ==> {
            &&& it.data is Some ==> {
                &&& e.x as int == crate::image_texture::image_channel(it, u, v, 0)
                &&& e.y as int == crate::image_texture::image_channel(it, u, v, 1)
                &&& e.z as int == crate::image_texture::image_channel(it, u, v, 2)
            }
            &&& it.data is None ==> e.x == 0 && e.y == SCALE && e.z == SCALE
        })
    })
}

impl Material {
    /// Calculates scattered ray and colour for a given hit with a material
    pub fn scatter(&self, ray_in: &Ray, hit_record: &HitRecord) -> (r: Option<(Vec3, Ray)>)
        requires
            wf_material(*self),
            wf_ray(*ray_in),
            wf_rec(*hit_record),
        ensures
            scatter_post(*self, *ray_in, *hit_record, r),
    {
        match self {
            Material::Lambertian(obj) => obj.scatter(ray_in, hit_record),
            Material::Metal(obj) => obj.scatter(ray_in, hit_record),
            Material::Dielectric(obj) => obj.scatter(ray_in, hit_record),
            Material::DiffuseLight(_) => None,
            Material::Isotropic(obj) => obj.scatter(ray_in, hit_record),
        }
    }

    /// Returns the emitted colour of a material: black for everything but a
    /// light, the light's texture for a light.
    pub fn emitted(&self, u: i128, v: i128, p: &Vec3) -> (r: Vec3)
        requires
            wf_material(*self),
            crate::bounded(u as int),
            crate::bounded(v as int),
            in_range(*p, INFINITY as int),
        ensures
            emitted_post(*self, u as int, v as int, *p, r),
    {
        match self {
            Material::DiffuseLight(obj) => obj.emit.value(u, v, p),
            _ => Vec3::zero(),
        }
    }
}

} // verus!
