//! Textures built on gradient noise.
use vstd::prelude::*;
use crate::fx::{fx_mul, fx_sin, raw_div, lemma_fxm_within, lemma_tdiv_abs};
use crate::vec3::{Vec3, in_range};
use crate::perlin::{Perlin, wf_perlin};
use crate::texture::{Texture, tex_wf};
use crate::{SCALE, INFINITY, clamp};

verus! {

/// The flavours of noise texture
#[derive(Clone, Copy, PartialEq, Eq, Structural, Debug)]
pub enum NoiseType {
    Random,
    Turbulence,
    Marbled,
}

/// A grey texture shaded by gradient noise
#[derive(Clone, PartialEq, Eq, Debug)]
pub struct NoiseTexture {
    pub noise: Perlin,
    pub noise_type: NoiseType,
    pub scale: i128,
}

/// The noise tables are sound and the frequency scale modest.
pub open spec fn noise_tex_wf(nt: NoiseTexture) -> bool {
    wf_perlin(nt.noise) && 0 <= nt.scale <= 16 * SCALE as int
}

impl NoiseTexture {
    /// Constructs a noise texture, wrapped in the Texture enum
    pub fn new(scale: i128, noise_type: NoiseType) -> (r: Texture)
        requires
            0 <= scale <= 16 * SCALE as int,
        ensures
            r matches Texture::NoiseTexture(nt) && nt.scale == scale
                && nt.noise_type == noise_type,
            tex_wf(r),
    {
        Texture::NoiseTexture(NoiseTexture { noise: Perlin::new(), noise_type, scale })
    }

    /// A grey level from the noise field, equal in every channel and clamped
    /// into `[0, 1]`.
    pub fn value(&self, _u: i128, _v: i128, p: &Vec3) -> (r: Vec3)
        requires
            noise_tex_wf(*self),
            in_range(*p, INFINITY as int),
        ensures
            0 <= r.x <= SCALE && 0 <= r.y <= SCALE && 0 <= r.z <= SCALE,
            r.x == r.y && r.y == r.z,
    {
        proof {
            lemma_fxm_within(p.x as int, self.scale as int, INFINITY as int,
                1048576, 1099511627776);
            lemma_fxm_within(p.y as int, self.scale as int, INFINITY as int,
                1048576, 1099511627776);
            lemma_fxm_within(p.z as int, self.scale as int, INFINITY as int,
                1048576, 1099511627776);
        }
        let val: i128 = match self.noise_type {
            NoiseType::Random => {
                let scaled = p.mul_s(self.scale);
                let n = self.noise.noise(&scaled);
                proof { lemma_tdiv_abs((SCALE + n) as int, 2); }
                clamp(raw_div(SCALE + n, 2), 0, SCALE)
            },
            NoiseType::Turbulence => {
                let scaled = p.mul_s(self.scale);
                let t = self.noise.turbulence(&scaled, 7);
                clamp(t, 0, SCALE)
            },
            NoiseType::Marbled => {
                let t = self.noise.turbulence(p, 7);
                let arg = fx_mul(self.scale, p.z) + 10 * t;
                let s = fx_sin(arg);
                proof { lemma_tdiv_abs((SCALE + s) as int, 2); }
                clamp(raw_div(SCALE + s, 2), 0, SCALE)
            },
        };
        Vec3::new(val, val, val)
    }
}

} // verus!
