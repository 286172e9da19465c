//! The light-transport recursion and the final colour conversion.
use vstd::prelude::*;
use crate::fx::{absi, fxm, tdiv, fx_mul, fx_sqrt, raw_div, lemma_fxm_le_factor, lemma_fxm_within, lemma_tdiv_abs, lemma_tdiv_nonneg, sqrti};
use crate::vec3::{Vec3, in_range};
use crate::ray::{Ray, wf_ray};
use crate::material::{Material, wf_material, scatter_post, emitted_post};
use crate::hit_record::{HitRecord, wf_rec};
use crate::hittable_list::{HittableList, wf_list, list_mats_below, all_modelled};
use crate::bvh_node::model_scan;
use crate::{SCALE, INFINITY, COLOUR_LIM, clamp, clamp_spec};

verus! {

/// The brightest any channel of the transported radiance can get after the
/// given number of bounces: one emission per bounce plus the background.
pub open spec fn radiance_bound(depth: int) -> int {
    if depth <= 0 { 0 } else { (depth + 1) * COLOUR_LIM as int }
}

/// How one bounce composes: the emission plus the per-channel attenuated
/// continuation, or the emission alone where the ray was absorbed.
pub open spec fn shade_eq(e: Vec3, sc: Option<(Vec3, Ray)>, rc: Vec3, r: Vec3) -> bool {
    match sc {
        Some(ar) => {
            &&& r.x as int == e.x + fxm(ar.0.x as int, rc.x as int)
            &&& r.y as int == e.y + fxm(ar.0.y as int, rc.y as int)
            &&& r.z as int == e.z + fxm(ar.0.z as int, rc.z as int)
        },
        None => r == e,
    }
}

/// What one bounce of the recursion produces: some emission the material's
/// contract admits, some scatter outcome its contract admits, and some
/// continuation colour within the recursion's bounds, composed exactly as
/// `shade` composes them.
pub open spec fn bounce_rel(m: Material, ray: Ray, rec: HitRecord, depth: int, r: Vec3)
    -> bool {
    exists|e: Vec3, sc: Option<(Vec3, Ray)>, rc: Vec3| {
        &&& #[trigger] shade_eq(e, sc, rc, r)
        &&& emitted_post(m, rec.u as int, rec.v as int, rec.point, e)
        &&& scatter_post(m, ray, rec, sc)
        &&& 0 <= rc.x <= radiance_bound(depth - 1)
        &&& 0 <= rc.y <= radiance_bound(depth - 1)
        &&& 0 <= rc.z <= radiance_bound(depth - 1)
    }
}

/// The composition of one bounce: what a hit contributes given the
/// material's emission, its scatter outcome and the colour carried back by
/// the scattered ray — the emission plus the attenuated continuation, or
/// the emission alone where the ray was absorbed.
pub fn shade(emitted: Vec3, scatter: &Option<(Vec3, Ray)>, rec_colour: Vec3) -> (r: Vec3)
    requires
        0 <= emitted.x && 0 <= emitted.y && 0 <= emitted.z,
        emitted.x <= crate::fx::FXD_LIM && emitted.y <= crate::fx::FXD_LIM
            && emitted.z <= crate::fx::FXD_LIM,
        scatter matches Some(ar) ==> 0 <= ar.0.x <= SCALE && 0 <= ar.0.y <= SCALE
            && 0 <= ar.0.z <= SCALE,
        0 <= rec_colour.x <= crate::fx::MUL_LIM,
        0 <= rec_colour.y <= crate::fx::MUL_LIM,
        0 <= rec_colour.z <= crate::fx::MUL_LIM,
    ensures
        shade_eq(emitted, *scatter, rec_colour, r),
        match scatter {
            Some(ar) => {
                &&& r.x as int == emitted.x + fxm(ar.0.x as int, rec_colour.x as int)
                &&& r.y as int == emitted.y + fxm(ar.0.y as int, rec_colour.y as int)
                &&& r.z as int == emitted.z + fxm(ar.0.z as int, rec_colour.z as int)
            },
            None => r == emitted,
        },
        scatter matches Some(ar) ==> {
            &&& emitted.x <= r.x as int <= emitted.x + rec_colour.x
            &&& emitted.y <= r.y as int <= emitted.y + rec_colour.y
            &&& emitted.z <= r.z as int <= emitted.z + rec_colour.z
        },
{
    match scatter {
        Some((attenuation, _)) => {
            proof {
                lemma_fxm_le_factor(rec_colour.x as int, attenuation.x as int);
                lemma_fxm_le_factor(rec_colour.y as int, attenuation.y as int);
                lemma_fxm_le_factor(rec_colour.z as int, attenuation.z as int);
                crate::fx::lemma_fxm_neg(attenuation.x as int, rec_colour.x as int);
                assert(fxm(attenuation.x as int, rec_colour.x as int)
                    == fxm(rec_colour.x as int, attenuation.x as int)) by {
                    assert(attenuation.x as int * rec_colour.x as int
                        == rec_colour.x as int * attenuation.x as int);
                }
                assert(fxm(attenuation.y as int, rec_colour.y as int)
                    == fxm(rec_colour.y as int, attenuation.y as int)) by {
                    assert(attenuation.y as int * rec_colour.y as int
                        == rec_colour.y as int * attenuation.y as int);
                }
                assert(fxm(attenuation.z as int, rec_colour.z as int)
                    == fxm(rec_colour.z as int, attenuation.z as int)) by {
                    assert(attenuation.z as int * rec_colour.z as int
                        == rec_colour.z as int * attenuation.z as int);
                }
            }
            emitted.add(attenuation.mul(rec_colour))
        },
        None => emitted,
    }
}

/// Gets the colour of a given ray in the world: black once the recursion
/// depth is spent; the background where nothing is hit — in particular for
/// an empty world, and for any world of modelled objects the functional
/// scan misses; else, through `shade`, the hit material's emission plus its
/// attenuated scattered continuation.  The result is non-negative and
/// bounded by one emission per bounce.
pub fn ray_colour(ray: &Ray, background: Vec3, world: &HittableList,
    materials: &Vec<Material>, depth: i32) -> (r: Vec3)
    requires
        wf_ray(*ray),
        wf_list(*world),
        list_mats_below(*world, materials@.len() as int),
        forall|i: int| 0 <= i < materials@.len() ==> wf_material(#[trigger] materials@[i]),
        0 <= background.x <= COLOUR_LIM,
        0 <= background.y <= COLOUR_LIM,
        0 <= background.z <= COLOUR_LIM,
        depth <= 64,
    ensures
        depth <= 0 ==> r.x == 0 && r.y == 0 && r.z == 0,
        depth > 0 && world.objects@.len() == 0 ==> r == background,
        depth > 0 && all_modelled(*world)
            && model_scan(world.objects@, *ray, 66, INFINITY as int) is None
            ==> r == background,
        depth > 0 ==> r == background || exists|rec: HitRecord| {
            &&& #[trigger] wf_rec(rec)
            &&& 66 <= rec.t <= INFINITY
            &&& rec.material < materials@.len()
            &&& bounce_rel(materials@[rec.material as int], *ray, rec, depth as int, r)
        },
        0 <= r.x <= radiance_bound(depth as int),
        0 <= r.y <= radiance_bound(depth as int),
        0 <= r.z <= radiance_bound(depth as int),
    decreases depth,
{
    // Stops recursion once past the max depth
    if depth <= 0 {
        return Vec3::zero();
    }

    // Checks if the ray hit anything in the world
    match world.hit(ray, 66, INFINITY) {
        None => background,
        Some(hit_record) => {
            proof {
                assert(hit_record.material < materials@.len());
            }
            let material = &materials[hit_record.material];
            let emitted = material.emitted(hit_record.u, hit_record.v, &hit_record.point);

            // If the ray hit anything, return the result of the scattered
            // ray against the hit's material
            let scatter = material.scatter(ray, &hit_record);
            let rec_col = if let Some((_, scattered)) = &scatter {
                ray_colour(scattered, background, world, materials, depth - 1)
            } else {
                Vec3::new(0, 0, 0)
            };
            let out = shade(emitted, &scatter, rec_col);
            proof {
                assert(bounce_rel(materials@[hit_record.material as int], *ray, hit_record,
                    depth as int, out)) by {
                    assert(shade_eq(emitted, scatter, rec_col, out));
                }
            }
            out
        },
    }
}

/// The gamma-corrected 8-bit value of one linear channel averaged over the
/// samples of a pixel.
pub open spec fn channel_spec(c: int, samples: int) -> int {
    let scale = tdiv(SCALE as int, samples);
    let lin = if fxm(scale, c) < 0 { 0 } else { fxm(scale, c) };
    tdiv(clamp_spec(sqrti(lin * SCALE as int), 0, 65470), 256)
}

/// Averages an accumulated colour over the pixel's samples, applies the
/// gamma-two correction and scales each channel to an 8-bit value.
pub fn get_colour(colour: &Vec3, samples_per_pixel: i32) -> (r: (u8, u8, u8))
    requires
        1 <= samples_per_pixel,
        in_range(*colour, 72057594037927936),
    ensures
        r.0 as int == channel_spec(colour.x as int, samples_per_pixel as int),
        r.1 as int == channel_spec(colour.y as int, samples_per_pixel as int),
        r.2 as int == channel_spec(colour.z as int, samples_per_pixel as int),
{
    proof {
        lemma_tdiv_abs(SCALE as int, samples_per_pixel as int);
        lemma_tdiv_nonneg(SCALE as int, samples_per_pixel as int);
    }
    let scale = raw_div(SCALE, samples_per_pixel as i128);
    (
        gamma_channel(scale, colour.x),
        gamma_channel(scale, colour.y),
        gamma_channel(scale, colour.z),
    )
}

/// One channel of `get_colour`.
fn gamma_channel(scale: i128, c: i128) -> (r: u8)
    requires
        0 <= scale <= SCALE,
        absi(c as int) <= 72057594037927936,
    ensures
        r as int == tdiv(clamp_spec(sqrti((if fxm(scale as int, c as int) < 0 { 0 }
            else { fxm(scale as int, c as int) }) * SCALE as int), 0, 65470), 256),
{
    proof {
        lemma_fxm_within(scale as int, c as int, 65536, 72057594037927936, 72057594037927936);
    }
    let lin0 = fx_mul(scale, c);
    let lin = if lin0 < 0 { 0 } else { lin0 };
    let root = fx_sqrt(lin);
    let cl = clamp(root, 0, 65470);
    proof {
        lemma_tdiv_abs(cl as int, 256);
        lemma_tdiv_nonneg(cl as int, 256);
    }
    let byte = raw_div(cl, 256);
    byte as u8
}

} // verus!
