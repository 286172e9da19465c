//! A constant-density participating medium bounded by another object.
use vstd::prelude::*;
use vstd::arithmetic::div_mod::{lemma_div_nonincreasing, lemma_div_pos_is_pos};
use crate::fx::{fx_div, lemma_tdiv_abs};
use crate::vec3::Vec3;
use crate::texture::{Texture, tex_wf, tex_le_one};
use crate::material::Material;
use crate::isotropic::Isotropic;
use crate::hittable::{Hittable, wf_h};
use crate::SCALE;

verus! {

/// A homogeneous fog or smoke filling a boundary object
#[derive(Debug)]
pub struct ConstantMedium {
    /// The object bounding the medium
    pub boundary: Box<Hittable>,
    /// Index of the medium's isotropic phase material
    pub phase_function: usize,
    /// The reciprocal of the medium's density
    pub inv_density: i128,
}

impl ConstantMedium {
    /// Wraps a boundary with a medium of the given density and albedo
    /// texture; its phase material is appended to the material arena.
    pub fn new(boundary: Hittable, density: i128, albedo: Texture,
        materials: &mut Vec<Material>) -> (r: Hittable)
        requires
            wf_h(boundary),
            1 <= density,
            density <= crate::fx::FXD_LIM,
            tex_wf(albedo),
            tex_le_one(albedo),
            old(materials)@.len() < usize::MAX,
        ensures
            r matches Hittable::ConstantMedium(cm) && {
                &&& *cm.boundary == boundary
                &&& cm.phase_function == old(materials)@.len()
                &&& 0 <= cm.inv_density <= 4294967296
            },
            wf_h(r),
            final(materials)@.len() == old(materials)@.len() + 1,
            final(materials)@.subrange(0, old(materials)@.len() as int) == old(materials)@,
            crate::material::wf_material(final(materials)@.last()),
    {
        proof {
            lemma_inv_density(density as int);
        }
        let inv_density = fx_div(SCALE, density);
        let phase_function = materials.len();
        materials.push(Isotropic::new(albedo));
        proof {
            assert(final(materials)@.subrange(0, old(materials)@.len() as int)
                =~= old(materials)@);
        }
        Hittable::ConstantMedium(ConstantMedium {
            boundary: Box::new(boundary), phase_function, inv_density,
        })
    }

    /// Wraps a boundary with a medium of the given density and plain colour.
    pub fn from_colour(boundary: Hittable, density: i128, colour: Vec3,
        materials: &mut Vec<Material>) -> (r: Hittable)
        requires
            wf_h(boundary),
            1 <= density,
            density <= crate::fx::FXD_LIM,
            0 <= colour.x <= SCALE && 0 <= colour.y <= SCALE && 0 <= colour.z <= SCALE,
            old(materials)@.len() < usize::MAX,
        ensures
            r matches Hittable::ConstantMedium(cm) && {
                &&& *cm.boundary == boundary
                &&& cm.phase_function == old(materials)@.len()
                &&& 0 <= cm.inv_density <= 4294967296
            },
            wf_h(r),
            final(materials)@.len() == old(materials)@.len() + 1,
            final(materials)@.subrange(0, old(materials)@.len() as int) == old(materials)@,
            crate::material::wf_material(final(materials)@.last()),
    {
        proof {
            lemma_inv_density(density as int);
        }
        let inv_density = fx_div(SCALE, density);
        let phase_function = materials.len();
        materials.push(Isotropic::from_colour(colour));
        proof {
            assert(final(materials)@.subrange(0, old(materials)@.len() as int)
                =~= old(materials)@);
        }
        Hittable::ConstantMedium(ConstantMedium {
            boundary: Box::new(boundary), phase_function, inv_density,
        })
    }
}

/// The reciprocal of a density of at least the scale's granularity is at
/// most the square of the scale.
proof fn lemma_inv_density(density: int)
    requires
        1 <= density,
    ensures
        0 <= crate::fx::fxd(SCALE as int, density) <= 4294967296,
{
    lemma_tdiv_abs(SCALE as int * SCALE as int, density);
    lemma_div_pos_is_pos(SCALE as int * SCALE as int, density);
    lemma_div_nonincreasing(SCALE as int * SCALE as int, density);
}

} // verus!
