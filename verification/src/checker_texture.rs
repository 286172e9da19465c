//! A three-dimensional checker pattern of two colours.
use vstd::prelude::*;
use crate::vec3::Vec3;
use crate::texture::{Texture, tex_wf};
use crate::{COLOUR_LIM, PI};

verus! {

/// A texture alternating between two colours with the sign of a product of
/// sines of the hit point's coordinates
#[derive(Clone, Copy, PartialEq, Eq, Structural, Debug)]
pub struct CheckerTexture {
    pub even: Vec3,
    pub odd: Vec3,
}

/// Whether the checker pattern shows its odd colour at a point: the product
/// of the sines of ten times each coordinate is negative exactly when an odd
/// number of the angles lie in the negative half-period.
pub open spec fn checker_odd(p: Vec3) -> bool {
    let cx = (10 * p.x) / (PI as int);
    let cy = (10 * p.y) / (PI as int);
    let cz = (10 * p.z) / (PI as int);
    (cx + cy + cz) % 2 == 1
}

impl CheckerTexture {
    /// Constructs a checker texture from its two colours, wrapped in the
    /// Texture enum
    pub fn new(even_colour: Vec3, odd_colour: Vec3) -> (r: Texture)
        requires
            0 <= even_colour.x <= COLOUR_LIM,
            0 <= even_colour.y <= COLOUR_LIM,
            0 <= even_colour.z <= COLOUR_LIM,
            0 <= odd_colour.x <= COLOUR_LIM,
            0 <= odd_colour.y <= COLOUR_LIM,
            0 <= odd_colour.z <= COLOUR_LIM,
        ensures
            r == Texture::CheckerTexture(CheckerTexture { even: even_colour, odd: odd_colour }),
            tex_wf(r),
    {
        Texture::CheckerTexture(CheckerTexture { even: even_colour, odd: odd_colour })
    }
}

} // verus!
