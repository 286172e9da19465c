//! A path-tracing library whose geometry is carried out in fixed-point
//! arithmetic: every scalar is an `i128` holding a real value scaled by
//! `SCALE`.  All intersection, acceleration and light-transport logic is
//! verified; drawing random numbers is the one outside call.
use vstd::prelude::*;

pub mod fx;
pub mod vec3;
pub mod ray;
pub mod aabb;
pub mod hit_record;
pub mod texture;
pub mod solid_colour;
pub mod checker_texture;
pub mod noise_texture;
pub mod image_texture;
pub mod perlin;
pub mod material;
pub mod lambertian;
pub mod metal;
pub mod dielectric;
pub mod diffuse_light;
pub mod isotropic;
pub mod sphere;
pub mod moving_sphere;
pub mod aa_rect;
pub mod aa_box;
pub mod translate;
pub mod rotate_y;
pub mod constant_medium;
pub mod hittable;
pub mod hittable_list;
pub mod bvh_node;
pub mod camera;
pub mod colour;

verus! {

/// Number of raw units per whole unit: scalars are in units of `1/SCALE`.
pub const SCALE: i128 = 65536;

/// The largest magnitude a scene coordinate, ray parameter or colour may
/// take; it doubles as the stand-in for an unbounded ray parameter.
pub const INFINITY: i128 = 68719476736;

/// The circle constant, in raw fixed-point units.
pub const PI: i128 = 205887;

/// The brightest channel value a texture or an emitted colour may hold.
pub const COLOUR_LIM: i128 = 1073741824;

/// True when `x` lies within the representable coordinate envelope.
pub open spec fn bounded(x: int) -> bool {
    -(INFINITY as int) <= x <= INFINITY as int
}

/// Converts a given value in degrees to radians
pub fn degrees_to_radians(degrees: i128) -> (r: i128)
    requires
        bounded(degrees as int),
    ensures
        r as int == crate::fx::tdiv(degrees as int * PI as int, 180 * SCALE as int),
{
    crate::fx::raw_div(degrees * PI, 180 * SCALE)
}

/// Relies on rand::Rng::gen_range on the thread-local generator:
/// the sampled value lies in `[0, n)`.
#[verifier::external_body]
fn rand_below(n: u64) -> (r: u64)
    requires
        1 <= n,
    ensures
        r < n,
{
    rand::Rng::gen_range(&mut rand::thread_rng(), 0..n)
}

/// Generates a random scalar between 0 and 1
pub fn random_double() -> (r: i128)
    ensures
        0 <= r < SCALE,
{
    let u = rand_below(65536);
    u as i128
}

/// Generates a random scalar in a given range
pub fn random_range(min: i128, max: i128) -> (r: i128)
    requires
        min <= max,
        bounded(min as int),
        bounded(max as int),
    ensures
        min <= r <= max,
{
    let u = random_double();
    let span = max - min;
    let off = crate::fx::fx_mul(span, u);
    proof {
        crate::fx::lemma_fxm_le_factor(span as int, u as int);
    }
    min + off
}

/// Generates a random integer in a given range
pub fn random_int(min: i32, max: i32) -> (r: i32)
    requires
        min <= max,
    ensures
        min <= r <= max,
{
    let span = (max as i64 - min as i64 + 1) as u64;
    let u = rand_below(span);
    (min as i64 + u as i64) as i32
}

/// The value the logarithm sampler computes from a variate `u` of 65536
/// whose leading octave is `p`, two to the `k`: the octave count times the
/// logarithm of two, less a linear blend of it across the octave.
pub open spec fn neg_ln_form(u: int, k: int, p: int, r: int) -> bool {
    &&& 1 <= u <= 65536
    &&& 0 <= k <= 16
    &&& p == crate::perlin::pow2i(k)
    &&& p <= u < 2 * p
    &&& r == clamp_spec((16 - k) * 45426
        - crate::fx::fxm(crate::fx::tdiv((u - p) * SCALE as int, p), 45426), 0, 786432)
}

/// Draws a sample of the negated natural logarithm of a uniform variate in
/// `(0, 1]`, by its base-two exponent and a linear blend within the octave.
pub fn random_neg_ln() -> (r: i128)
    ensures
        0 <= r <= 786432,
        exists|u: int, k: int, p: int| #[trigger] neg_ln_form(u, k, p, r as int),
{
    let u = rand_below(65536) as i128 + 1;
    let mut k: i128 = 0;
    let mut p: i128 = 1;
    let mut it: u32 = 0;
    proof {
        assert(crate::perlin::pow2i(0) == 1);
    }
    while it < 16
        invariant
            1 <= p <= u <= 65536,
            0 <= k <= it <= 16,
            p as int == crate::perlin::pow2i(k as int),
            k == it || u < 2 * p,
        decreases 16 - it,
    {
        if p * 2 <= u {
            p = p * 2;
            k = k + 1;
            proof {
                assert(crate::perlin::pow2i(k as int)
                    == 2 * crate::perlin::pow2i(k as int - 1));
            }
        }
        it = it + 1;
    }
    proof {
        if k == 16 {
            assert(crate::perlin::pow2i(0) == 1);
            assert(crate::perlin::pow2i(1) == 2);
            assert(crate::perlin::pow2i(2) == 4);
            assert(crate::perlin::pow2i(3) == 8);
            assert(crate::perlin::pow2i(4) == 16);
            assert(crate::perlin::pow2i(5) == 32);
            assert(crate::perlin::pow2i(6) == 64);
            assert(crate::perlin::pow2i(7) == 128);
            assert(crate::perlin::pow2i(8) == 256);
            assert(crate::perlin::pow2i(9) == 512);
            assert(crate::perlin::pow2i(10) == 1024);
            assert(crate::perlin::pow2i(11) == 2048);
            assert(crate::perlin::pow2i(12) == 4096);
            assert(crate::perlin::pow2i(13) == 8192);
            assert(crate::perlin::pow2i(14) == 16384);
            assert(crate::perlin::pow2i(15) == 32768);
            assert(crate::perlin::pow2i(16) == 65536);
        }
    }
    // Now p = 2^k <= u < 2^(k+1); the fractional part blends linearly.
    let f = crate::fx::raw_div((u - p) * SCALE, p);
    proof {
        crate::fx::lemma_tdiv_abs((u - p) as int * SCALE as int, p as int);
        vstd::arithmetic::div_mod::lemma_div_pos_is_pos((u - p) as int * SCALE as int, p as int);
        assert((u - p) as int * SCALE as int >= 0) by (nonlinear_arith)
            requires u >= p, SCALE == 65536i128;
        assert((u - p) as int * SCALE as int <= 65536 * SCALE as int) by (nonlinear_arith)
            requires 0 <= (u - p) as int <= 65536, SCALE == 65536i128;
        vstd::arithmetic::div_mod::lemma_div_is_ordered((u - p) as int * SCALE as int,
            65536 * SCALE as int, p as int);
        vstd::arithmetic::div_mod::lemma_div_is_ordered_by_denominator(65536 * SCALE as int,
            1, p as int);
    }
    // -ln(u / 65536) is about (16 - k) ln 2 minus the blended fraction of ln 2.
    let ln2: i128 = 45426;
    proof {
        crate::fx::lemma_fxm_within(f as int, ln2 as int, 4294967296, 45426, 2977039360);
    }
    let out = (16 - k) * ln2 - crate::fx::fx_mul(f, ln2);
    let r = clamp(out, 0, 786432);
    proof {
        assert(neg_ln_form(u as int, k as int, p as int, r as int));
    }
    r
}

/// Clamps a given value between a minimum and maximum
pub fn clamp(x: i128, min: i128, max: i128) -> (r: i128)
    ensures
        r == clamp_spec(x as int, min as int, max as int),
{
    if x < min { min } else if x > max { max } else { x }
}

/// What `clamp` returns.
pub open spec fn clamp_spec(x: int, min: int, max: int) -> int {
    if x < min { min } else if x > max { max } else { x }
}

} // verus!
