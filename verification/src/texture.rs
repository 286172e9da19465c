//! The closed set of surface-colour functions.
use vstd::prelude::*;
use crate::fx::{floor_div, floor_mod};
use crate::vec3::{Vec3, in_range};
use crate::solid_colour::SolidColour;
use crate::checker_texture::{CheckerTexture, checker_odd};
use crate::noise_texture::{NoiseTexture, noise_tex_wf};
use crate::image_texture::{ImageTexture, image_wf, image_channel};
use crate::{SCALE, INFINITY, COLOUR_LIM, PI};

verus! {

/// Enum storing each texture variation
#[derive(Clone, PartialEq, Eq, Debug)]
pub enum Texture {
    SolidColour(SolidColour),
    CheckerTexture(CheckerTexture),
    NoiseTexture(NoiseTexture),
    ImageTexture(ImageTexture),
}

/// Every colour a texture can produce is a non-negative channel triple of
/// bounded brightness, and its tables are sound.
pub open spec fn tex_wf(t: Texture) -> bool {
    match t {
        Texture::SolidColour(sc) => {
            &&& 0 <= sc.colour_value.x <= COLOUR_LIM
            &&& 0 <= sc.colour_value.y <= COLOUR_LIM
            &&& 0 <= sc.colour_value.z <= COLOUR_LIM
        },
        Texture::CheckerTexture(ct) => {
            &&& 0 <= ct.even.x <= COLOUR_LIM && 0 <= ct.even.y <= COLOUR_LIM
                && 0 <= ct.even.z <= COLOUR_LIM
            &&& 0 <= ct.odd.x <= COLOUR_LIM && 0 <= ct.odd.y <= COLOUR_LIM
                && 0 <= ct.odd.z <= COLOUR_LIM
        },
        Texture::NoiseTexture(nt) => noise_tex_wf(nt),
        Texture::ImageTexture(it) => image_wf(it),
    }
}

/// The texture never brightens: all its colours stay within one unit per
/// channel, so it can attenuate a ray.
pub open spec fn tex_le_one(t: Texture) -> bool {
    match t {
        Texture::SolidColour(sc) => sc.colour_value.x <= SCALE && sc.colour_value.y <= SCALE
            && sc.colour_value.z <= SCALE,
        Texture::CheckerTexture(ct) => ct.even.x <= SCALE && ct.even.y <= SCALE
            && ct.even.z <= SCALE && ct.odd.x <= SCALE && ct.odd.y <= SCALE
            && ct.odd.z <= SCALE,
        Texture::NoiseTexture(nt) => true,
        Texture::ImageTexture(it) => true,
    }
}

impl Texture {
    /// Calculates value of the texture for some surface coordinates
    pub fn value(&self, u: i128, v: i128, p: &Vec3) -> (r: Vec3)
        requires
            tex_wf(*self),
            crate::bounded(u as int),
            crate::bounded(v as int),
            in_range(*p, INFINITY as int),
        ensures
            0 <= r.x <= COLOUR_LIM && 0 <= r.y <= COLOUR_LIM && 0 <= r.z <= COLOUR_LIM,
            tex_le_one(*self) ==> r.x <= SCALE && r.y <= SCALE && r.z <= SCALE,
            self matches Texture::SolidColour(sc) ==> r == sc.colour_value,
            self matches Texture::CheckerTexture(ct)
                ==> r == if checker_odd(*p) { ct.odd } else { ct.even },
            self matches Texture::ImageTexture(it) ==> {
                &&& it.data is Some ==> {
                    &&& r.x as int == image_channel(*it, u as int, v as int, 0)
                    &&& r.y as int == image_channel(*it, u as int, v as int, 1)
                    &&& r.z as int == image_channel(*it, u as int, v as int, 2)
                }
                &&& it.data is None ==> r.x == 0 && r.y == SCALE && r.z == SCALE
            },
    {
        match self {
            Texture::SolidColour(sc) => sc.colour_value,
            Texture::CheckerTexture(ct) => {
                let cx = floor_div(10 * p.x, PI);
                let cy = floor_div(10 * p.y, PI);
                let cz = floor_div(10 * p.z, PI);
                let par = floor_mod(cx + cy + cz, 2);
                if par == 1 {
                    ct.odd
                } else {
                    ct.even
                }
            },
            Texture::NoiseTexture(nt) => nt.value(u, v, p),
            Texture::ImageTexture(it) => it.value(u, v, p),
        }
    }
}

} // verus!
