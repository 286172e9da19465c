//! A texture with one colour everywhere.
use vstd::prelude::*;
use crate::vec3::Vec3;
use crate::texture::{Texture, tex_wf};
use crate::COLOUR_LIM;

verus! {

/// A texture holding a single colour
#[derive(Clone, Copy, PartialEq, Eq, Structural, Debug)]
pub struct SolidColour {
    pub colour_value: Vec3,
}

impl SolidColour {
    /// Constructs a solid-colour texture, wrapped in the Texture enum
    pub fn new(colour_value: Vec3) -> (r: Texture)
        requires
            0 <= colour_value.x <= COLOUR_LIM,
            0 <= colour_value.y <= COLOUR_LIM,
            0 <= colour_value.z <= COLOUR_LIM,
        ensures
            r == Texture::SolidColour(SolidColour { colour_value }),
            tex_wf(r),
    {
        Texture::SolidColour(SolidColour { colour_value })
    }
}

} // verus!
