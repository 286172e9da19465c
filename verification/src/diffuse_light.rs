//! Emissive materials.
use vstd::prelude::*;
use crate::vec3::Vec3;
use crate::texture::{Texture, tex_wf};
use crate::solid_colour::SolidColour;
use crate::material::Material;
use crate::COLOUR_LIM;

verus! {

/// A material that only emits light and never scatters
#[derive(Clone, PartialEq, Eq, Debug)]
pub struct DiffuseLight {
    /// The emitted colour, as a texture
    pub emit: Texture,
}

impl DiffuseLight {
    /// Constructs a new light from a texture, wrapped in the Material enum
    pub fn new(emit: Texture) -> (r: Material)
        requires
            tex_wf(emit),
        ensures
            r matches Material::DiffuseLight(dl) && dl.emit == emit,
            crate::material::wf_material(r),
    {
        Material::DiffuseLight(DiffuseLight { emit })
    }

    /// Constructs a new light of a plain colour, wrapped in the Material enum
    pub fn from_colour(r: i128, g: i128, b: i128) -> (res: Material)
        requires
            0 <= r <= COLOUR_LIM,
            0 <= g <= COLOUR_LIM,
            0 <= b <= COLOUR_LIM,
        ensures
            res matches Material::DiffuseLight(dl) && dl.emit
                == Texture::SolidColour(SolidColour { colour_value: Vec3 { x: r, y: g, z: b } }),
            crate::material::wf_material(res),
    {
        Material::DiffuseLight(DiffuseLight { emit: SolidColour::new(Vec3::new(r, g, b)) })
    }
}

} // verus!
