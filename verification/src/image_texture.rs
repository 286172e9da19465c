//! A texture sampling a decoded raster image by surface coordinates.
use vstd::prelude::*;
use vstd::arithmetic::div_mod::{lemma_div_multiples_vanish};
use crate::fx::{fxd, fx_div, raw_div, lemma_tdiv_mono, lemma_tdiv_nonneg};
use crate::vec3::Vec3;
use crate::texture::{Texture, tex_wf};
use crate::{SCALE, clamp, clamp_spec};

verus! {

/// A texture sampling a decoded image held as rows of 8-bit RGB samples;
/// an absent image samples as a fixed debug colour
#[derive(Clone, PartialEq, Eq, Debug)]
pub struct ImageTexture {
    pub data: Option<Vec<u8>>,
    pub width: u32,
    pub height: u32,
}

/// The image's samples, row-major, three channels per pixel.
pub open spec fn image_data(it: ImageTexture) -> Seq<u8> {
    match it.data {
        Some(d) => d@,
        None => Seq::empty(),
    }
}

/// The image holds exactly its pixel grid and is of a modest size.
pub open spec fn image_wf(it: ImageTexture) -> bool {
    match it.data {
        Some(d) => d@.len() == it.width as int * it.height as int * 3
            && 1 <= it.width <= 16384 && 1 <= it.height <= 16384,
        None => true,
    }
}

/// The sampled column for a horizontal coordinate.
pub open spec fn image_i(it: ImageTexture, u: int) -> int {
    let i0 = (clamp_spec(u, 0, SCALE as int) * it.width as int) / (SCALE as int);
    if i0 >= it.width as int { it.width as int - 1 } else { i0 }
}

/// The sampled row for a vertical coordinate, with the image upside down.
pub open spec fn image_j(it: ImageTexture, v: int) -> int {
    let j0 = ((SCALE as int - clamp_spec(v, 0, SCALE as int)) * it.height as int)
        / (SCALE as int);
    if j0 >= it.height as int { it.height as int - 1 } else { j0 }
}

/// One sampled channel scaled into `[0, 1]`.
pub open spec fn image_channel(it: ImageTexture, u: int, v: int, c: int) -> int {
    let idx = (image_j(it, v) * it.width as int + image_i(it, u)) * 3 + c;
    fxd(image_data(it)[idx] as int, 255)
}

impl ImageTexture {
    /// Constructs an image texture from an already decoded image, wrapped in
    /// the Texture enum; absent data gives the debug texture
    pub fn new(data: Option<Vec<u8>>, width: u32, height: u32) -> (r: Texture)
        requires
            image_wf(ImageTexture { data, width, height }),
        ensures
            r == Texture::ImageTexture(ImageTexture { data, width, height }),
            tex_wf(r),
    {
        Texture::ImageTexture(ImageTexture { data, width, height })
    }

    /// Samples the image at the given surface coordinates.
    pub fn value(&self, u: i128, v: i128, _p: &Vec3) -> (r: Vec3)
        requires
            image_wf(*self),
            crate::bounded(u as int),
            crate::bounded(v as int),
        ensures
            self.data is Some ==> {
                &&& r.x as int == image_channel(*self, u as int, v as int, 0)
                &&& r.y as int == image_channel(*self, u as int, v as int, 1)
                &&& r.z as int == image_channel(*self, u as int, v as int, 2)
            },
            self.data is None ==> r.x == 0 && r.y == SCALE && r.z == SCALE,
            0 <= r.x <= SCALE && 0 <= r.y <= SCALE && 0 <= r.z <= SCALE,
    {
        match &self.data {
            None => Vec3::new(0, SCALE, SCALE),
            Some(d) => {
                let w = self.width as i128;
                let h = self.height as i128;
                let uc = clamp(u, 0, SCALE);
                let vc = SCALE - clamp(v, 0, SCALE);
                proof {
                    assert(0 <= uc * w <= 1073741824) by (nonlinear_arith)
                        requires 0 <= uc <= 65536, 0 < w <= 16384;
                    assert(0 <= vc * h <= 1073741824) by (nonlinear_arith)
                        requires 0 <= vc <= 65536, 0 < h <= 16384;
                }
                let mut i = raw_div(uc * w, SCALE);
                let mut j = raw_div(vc * h, SCALE);
                proof {
                    lemma_tdiv_nonneg(uc as int * w, SCALE as int);
                    lemma_tdiv_nonneg(vc as int * h, SCALE as int);
                }
                if i >= w {
                    i = w - 1;
                }
                if j >= h {
                    j = h - 1;
                }
                proof {
                    assert((j * w + i) * 3 + 2 < w * h * 3) by (nonlinear_arith)
                        requires 0 <= i < w, 0 <= j < h;
                    assert(0 <= (j * w + i) * 3 && (j * w + i) * 3 <= 805306368)
                        by (nonlinear_arith)
                        requires 0 <= i < w <= 16384, 0 <= j < h <= 16384;
                }
                let idx = ((j * w + i) * 3) as usize;
                let px = d[idx] as i128;
                let py = d[idx + 1] as i128;
                let pz = d[idx + 2] as i128;
                proof {
                    lemma_sample_le_one(px as int);
                    lemma_sample_le_one(py as int);
                    lemma_sample_le_one(pz as int);
                }
                Vec3::new(fx_div(px, 255), fx_div(py, 255), fx_div(pz, 255))
            }
        }
    }
}

/// An 8-bit sample scaled by 1/255 lies within `[0, 1]`.
proof fn lemma_sample_le_one(px: int)
    requires
        0 <= px <= 255,
    ensures
        0 <= fxd(px, 255) <= SCALE as int,
{
    lemma_tdiv_nonneg(px * SCALE as int, 255);
    lemma_tdiv_mono(px * SCALE as int, 255 * SCALE as int, 255);
    assert(255 * SCALE as int == SCALE as int * 255);
    lemma_div_multiples_vanish(SCALE as int, 255);
    assert(px * SCALE as int <= 255 * SCALE as int) by (nonlinear_arith)
        requires 0 <= px <= 255;
}

} // verus!
