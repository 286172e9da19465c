//! The camera: one ray per image-plane sample.
use vstd::prelude::*;
use crate::fx::{absi, fxm, fxd, tdiv, sqrti, fx_mul, fx_div, fx_sin, fx_cos, raw_div,
    sin_series, cos_series, trig_reduce, lemma_fxm_within, lemma_tdiv_abs, lemma_tdiv_nonneg};
use vstd::arithmetic::div_mod::{lemma_div_is_ordered_by_denominator, lemma_div_is_ordered};
use crate::vec3::{Vec3, in_range};
use crate::ray::{Ray, wf_ray};
use crate::{SCALE, degrees_to_radians, random_range};

verus! {

/// Object to represent the Camera in a scene
#[derive(Clone, Copy, PartialEq, Eq, Structural, Debug)]
pub struct Camera {
    /// Origin of the camera's rays
    pub origin: Vec3,
    /// Lower left corner of the camera's image
    pub lower_left_corner: Vec3,
    /// Horizontal span of the image plane
    pub horizontal: Vec3,
    /// Vertical span of the image plane
    pub vertical: Vec3,
    /// Direction of the relative x axis in the camera's plane
    pub u: Vec3,
    /// Direction of the relative y axis in the camera's plane
    pub v: Vec3,
    /// Radius of the camera's lens
    pub lens_radius: i128,
    /// Shutter open time
    pub min_time: i128,
    /// Shutter close time
    pub max_time: i128,
}

/// The tangent of half the field of view, its cosine clamped away from
/// zero so that near-grazing fields of view stay representable.
pub open spec fn cam_h(vfov: int) -> int {
    let half = tdiv(tdiv(vfov * crate::PI as int, 180 * SCALE as int), 2);
    let sh = crate::clamp_spec(sin_series(trig_reduce(half)), -(SCALE as int), SCALE as int);
    let ch0 = crate::clamp_spec(cos_series(trig_reduce(half)), -(SCALE as int), SCALE as int);
    let ch = if ch0 < 4096 { 4096 } else { ch0 };
    fxd(sh, ch)
}

/// One component of the unit axis from the target toward the eye, with a
/// z-axis fallback for a degenerate pair.
pub open spec fn cam_w(look_from: Vec3, look_at: Vec3, axis: int) -> int {
    let dx = look_from.x - look_at.x;
    let dy = look_from.y - look_at.y;
    let dz = look_from.z - look_at.z;
    let ls = fxm(dx, dx) + fxm(dy, dy) + fxm(dz, dz);
    if ls >= 1 {
        let len = sqrti(ls * SCALE as int);
        if axis == 0 { fxd(dx, len) } else if axis == 1 { fxd(dy, len) } else { fxd(dz, len) }
    } else {
        if axis == 2 { SCALE as int } else { 0 }
    }
}

/// One component of the camera's unit side axis: the normalised cross
/// product of the up vector with the view axis, with an x-axis fallback
/// when the two are parallel.
pub open spec fn cam_u(vertical_up: Vec3, look_from: Vec3, look_at: Vec3, axis: int) -> int {
    let wx = cam_w(look_from, look_at, 0);
    let wy = cam_w(look_from, look_at, 1);
    let wz = cam_w(look_from, look_at, 2);
    let cx = fxm(vertical_up.y as int, wz) - fxm(vertical_up.z as int, wy);
    let cy = fxm(vertical_up.z as int, wx) - fxm(vertical_up.x as int, wz);
    let cz = fxm(vertical_up.x as int, wy) - fxm(vertical_up.y as int, wx);
    let ls = fxm(cx, cx) + fxm(cy, cy) + fxm(cz, cz);
    if ls >= 1 {
        let len = sqrti(ls * SCALE as int);
        if axis == 0 { fxd(cx, len) } else if axis == 1 { fxd(cy, len) } else { fxd(cz, len) }
    } else {
        if axis == 0 { SCALE as int } else { 0 }
    }
}

/// One component of the camera's up axis in its own frame: the cross
/// product of the view axis with the side axis.
pub open spec fn cam_v(vertical_up: Vec3, look_from: Vec3, look_at: Vec3, axis: int) -> int {
    let wx = cam_w(look_from, look_at, 0);
    let wy = cam_w(look_from, look_at, 1);
    let wz = cam_w(look_from, look_at, 2);
    let ux = cam_u(vertical_up, look_from, look_at, 0);
    let uy = cam_u(vertical_up, look_from, look_at, 1);
    let uz = cam_u(vertical_up, look_from, look_at, 2);
    if axis == 0 {
        fxm(wy, uz) - fxm(wz, uy)
    } else if axis == 1 {
        fxm(wz, ux) - fxm(wx, uz)
    } else {
        fxm(wx, uy) - fxm(wy, ux)
    }
}

/// The camera's precomputed frame stays within the coordinate envelope.
pub open spec fn wf_camera(c: Camera) -> bool {
    &&& in_range(c.origin, 1073741824)
    &&& in_range(c.lower_left_corner, 17179869184)
    &&& in_range(c.horizontal, 17179869184)
    &&& in_range(c.vertical, 17179869184)
    &&& in_range(c.u, 2 * SCALE as int)
    &&& in_range(c.v, 524288)
    &&& 0 <= c.lens_radius <= 1048576
    &&& crate::bounded(c.min_time as int)
    &&& crate::bounded(c.max_time as int)
    &&& c.min_time <= c.max_time
}

impl Camera {
    /// Returns a new Camera object
    #[verifier::rlimit(80)]
    pub fn new(
        look_from: Vec3,
        look_at: Vec3,
        vertical_up: Vec3,
        vertical_fov: i128,
        aperture: i128,
        focus_dist: i128,
        aspect_ratio: i128,
        viewport_height: i128,
        min_time: i128,
        max_time: i128,
    ) -> (r: Camera)
        requires
            in_range(look_from, 1073741824),
            in_range(look_at, 1073741824),
            in_range(vertical_up, 131072),
            0 < vertical_fov <= 11796480,
            0 <= aperture <= 2097152,
            1 <= focus_dist <= 8388608,
            1 <= aspect_ratio <= 1048576,
            1 <= viewport_height <= 262144,
            crate::bounded(min_time as int),
            crate::bounded(max_time as int),
            min_time <= max_time,
        ensures
            wf_camera(r),
            r.origin == look_from,
            r.min_time == min_time && r.max_time == max_time,
            r.u.x as int == cam_u(vertical_up, look_from, look_at, 0),
            r.u.y as int == cam_u(vertical_up, look_from, look_at, 1),
            r.u.z as int == cam_u(vertical_up, look_from, look_at, 2),
            r.v.x as int == cam_v(vertical_up, look_from, look_at, 0),
            r.v.y as int == cam_v(vertical_up, look_from, look_at, 1),
            r.v.z as int == cam_v(vertical_up, look_from, look_at, 2),
            ({
                let vh = fxm(viewport_height as int, cam_h(vertical_fov as int));
                let fw = fxm(focus_dist as int, fxm(aspect_ratio as int, vh));
                let fh = fxm(focus_dist as int, vh);
                &&& r.horizontal.x as int == fxm(cam_u(vertical_up, look_from, look_at, 0), fw)
                &&& r.horizontal.y as int == fxm(cam_u(vertical_up, look_from, look_at, 1), fw)
                &&& r.horizontal.z as int == fxm(cam_u(vertical_up, look_from, look_at, 2), fw)
                &&& r.vertical.x as int == fxm(cam_v(vertical_up, look_from, look_at, 0), fh)
                &&& r.vertical.y as int == fxm(cam_v(vertical_up, look_from, look_at, 1), fh)
                &&& r.vertical.z as int == fxm(cam_v(vertical_up, look_from, look_at, 2), fh)
            }),
            r.lower_left_corner.x as int == look_from.x - tdiv(r.horizontal.x as int, 2)
                - tdiv(r.vertical.x as int, 2)
                - fxm(cam_w(look_from, look_at, 0), focus_dist as int),
            r.lower_left_corner.y as int == look_from.y - tdiv(r.horizontal.y as int, 2)
                - tdiv(r.vertical.y as int, 2)
                - fxm(cam_w(look_from, look_at, 1), focus_dist as int),
            r.lower_left_corner.z as int == look_from.z - tdiv(r.horizontal.z as int, 2)
                - tdiv(r.vertical.z as int, 2)
                - fxm(cam_w(look_from, look_at, 2), focus_dist as int),
            r.lens_radius as int == tdiv(aperture as int, 2),
    {
        // Calculates viewport width and height given a field of view angle in degrees
        let theta = degrees_to_radians(vertical_fov);
        proof {
            lemma_tdiv_abs(vertical_fov as int * crate::PI as int, 180 * SCALE as int);
            lemma_fxm_within(vertical_fov as int, crate::PI as int, 11796480, 205887, 37061712);
            lemma_tdiv_abs(theta as int, 2);
            vstd::arithmetic::div_mod::lemma_div_nonincreasing(absi(theta as int), 2);
            assert(absi(vertical_fov as int * crate::PI as int)
                <= 11796480 * 205887) by (nonlinear_arith)
                requires 0 < vertical_fov <= 11796480i128;
            vstd::arithmetic::div_mod::lemma_div_is_ordered(
                absi(vertical_fov as int * crate::PI as int), 2428920956160int,
                180 * SCALE as int);
        }
        let half = raw_div(theta, 2);
        let sin_h = fx_sin(half);
        let cos_h0 = fx_cos(half);
        // A cosine clamped away from zero keeps near-grazing fields of view
        // representable.
        let cos_h = if cos_h0 < 4096 { 4096 } else { cos_h0 };
        proof {
            lemma_tdiv_abs(sin_h as int * SCALE as int, cos_h as int);
            crate::fx::lemma_abs_mul(sin_h as int, SCALE as int);
            lemma_div_is_ordered_by_denominator(absi(sin_h as int) * SCALE as int, 4096,
                cos_h as int);
            lemma_div_is_ordered(absi(sin_h as int) * SCALE as int,
                65536 * SCALE as int, 4096);
            assert(absi(sin_h as int) * SCALE as int <= 65536 * SCALE as int)
                by (nonlinear_arith)
                requires absi(sin_h as int) <= 65536;
        }
        let h = fx_div(sin_h, cos_h);
        proof {
            assert(h as int == cam_h(vertical_fov as int));
            lemma_fxm_within(viewport_height as int, h as int, 262144, 1048576, 4194304);
        }
        let vh = fx_mul(viewport_height, h);
        proof {
            lemma_fxm_within(aspect_ratio as int, vh as int, 1048576, 4194304, 67108864);
        }
        let viewport_width = fx_mul(aspect_ratio, vh);

        // Calculates direction of relative x, y, and z axis in the camera's plane
        let diff = look_from.sub(look_at);
        let dls = diff.length_squared();
        let w = if dls >= 1 {
            diff.unit()
        } else {
            // A degenerate view direction falls back to the z axis.
            Vec3::new(0, 0, SCALE)
        };
        proof {
            assert(w.x as int == cam_w(look_from, look_at, 0));
            assert(w.y as int == cam_w(look_from, look_at, 1));
            assert(w.z as int == cam_w(look_from, look_at, 2));
        }
        let uc = Vec3::cross(&vertical_up, &w);
        proof {
            lemma_fxm_within(vertical_up.y as int, w.z as int, 131072, 131072, 262144);
            lemma_fxm_within(vertical_up.z as int, w.y as int, 131072, 131072, 262144);
            lemma_fxm_within(vertical_up.z as int, w.x as int, 131072, 131072, 262144);
            lemma_fxm_within(vertical_up.x as int, w.z as int, 131072, 131072, 262144);
            lemma_fxm_within(vertical_up.x as int, w.y as int, 131072, 131072, 262144);
            lemma_fxm_within(vertical_up.y as int, w.x as int, 131072, 131072, 262144);
        }
        let ucls = uc.length_squared();
        let u = if ucls >= 1 {
            uc.unit()
        } else {
            // An up vector parallel to the view direction falls back to the
            // x axis.
            Vec3::new(SCALE, 0, 0)
        };
        proof {
            assert(u.x as int == cam_u(vertical_up, look_from, look_at, 0));
            assert(u.y as int == cam_u(vertical_up, look_from, look_at, 1));
            assert(u.z as int == cam_u(vertical_up, look_from, look_at, 2));
        }
        let v = Vec3::cross(&w, &u);
        proof {
            lemma_fxm_within(w.y as int, u.z as int, 131072, 131072, 262144);
            lemma_fxm_within(w.z as int, u.y as int, 131072, 131072, 262144);
            lemma_fxm_within(w.z as int, u.x as int, 131072, 131072, 262144);
            lemma_fxm_within(w.x as int, u.z as int, 131072, 131072, 262144);
            lemma_fxm_within(w.x as int, u.y as int, 131072, 131072, 262144);
            lemma_fxm_within(w.y as int, u.x as int, 131072, 131072, 262144);
        }

        // Calculates lower left corner of image and the
        // horizontal and vertical component of each pixel
        proof {
            lemma_fxm_within(focus_dist as int, viewport_width as int, 8388608, 67108864,
                8589934592);
            lemma_fxm_within(focus_dist as int, vh as int, 8388608, 4194304, 536870912);
        }
        let fw = fx_mul(focus_dist, viewport_width);
        let fh = fx_mul(focus_dist, vh);
        proof {
            lemma_fxm_within(u.x as int, fw as int, 131072, 8589934592, 17179869184);
            lemma_fxm_within(u.y as int, fw as int, 131072, 8589934592, 17179869184);
            lemma_fxm_within(u.z as int, fw as int, 131072, 8589934592, 17179869184);
            lemma_fxm_within(v.x as int, fh as int, 524288, 536870912, 4294967296);
            lemma_fxm_within(v.y as int, fh as int, 524288, 536870912, 4294967296);
            lemma_fxm_within(v.z as int, fh as int, 524288, 536870912, 4294967296);
        }
        let horizontal = u.mul_s(fw);
        let vertical = v.mul_s(fh);
        proof {
            lemma_fxm_within(w.x as int, focus_dist as int, 131072, 8388608, 16777216);
            lemma_fxm_within(w.y as int, focus_dist as int, 131072, 8388608, 16777216);
            lemma_fxm_within(w.z as int, focus_dist as int, 131072, 8388608, 16777216);
            lemma_half_within(horizontal.x as int, 17179869184);
            lemma_half_within(horizontal.y as int, 17179869184);
            lemma_half_within(horizontal.z as int, 17179869184);
            lemma_half_within(vertical.x as int, 4294967296);
            lemma_half_within(vertical.y as int, 4294967296);
            lemma_half_within(vertical.z as int, 4294967296);
        }
        let half_h = Vec3::new(raw_div(horizontal.x, 2), raw_div(horizontal.y, 2),
            raw_div(horizontal.z, 2));
        let half_v = Vec3::new(raw_div(vertical.x, 2), raw_div(vertical.y, 2),
            raw_div(vertical.z, 2));
        let lower_left_corner = look_from.sub(half_h).sub(half_v).sub(w.mul_s(focus_dist));

        proof {
            lemma_tdiv_abs(aperture as int, 2);
            lemma_tdiv_nonneg(aperture as int, 2);
        }
        // Returns fully constructed Camera
        Camera {
            origin: look_from, lower_left_corner, horizontal,
            vertical, u, v, lens_radius: raw_div(aperture, 2), min_time, max_time,
        }
    }

    /// Creates a ray which goes from the camera to a pixel at the given
    /// (x, y) position on the image plane, both within `[0, 1]`.
    #[verifier::rlimit(80)]
    pub fn get_ray(&self, x: i128, y: i128) -> (r: Ray)
        requires
            wf_camera(*self),
            0 <= x <= SCALE,
            0 <= y <= SCALE,
        ensures
            wf_ray(r),
            self.min_time <= r.time <= self.max_time,
            r.origin.x as int + r.direction.x as int == self.lower_left_corner.x
                + fxm(self.horizontal.x as int, x as int)
                + fxm(self.vertical.x as int, y as int),
            r.origin.y as int + r.direction.y as int == self.lower_left_corner.y
                + fxm(self.horizontal.y as int, x as int)
                + fxm(self.vertical.y as int, y as int),
            r.origin.z as int + r.direction.z as int == self.lower_left_corner.z
                + fxm(self.horizontal.z as int, x as int)
                + fxm(self.vertical.z as int, y as int),
            exists|rd: Vec3| {
                &&& #[trigger] in_range(rd, self.lens_radius as int)
                &&& rd.z == 0
                &&& r.origin.x as int == self.origin.x + fxm(self.u.x as int, rd.x as int)
                    + fxm(self.v.x as int, rd.y as int)
                &&& r.origin.y as int == self.origin.y + fxm(self.u.y as int, rd.x as int)
                    + fxm(self.v.y as int, rd.y as int)
                &&& r.origin.z as int == self.origin.z + fxm(self.u.z as int, rd.x as int)
                    + fxm(self.v.z as int, rd.y as int)
            },
    {
        // Calculates a random offset in the camera's relative plane to cause
        // a depth of field effect
        let rd0 = Vec3::random_in_unit_disk();
        proof {
            lemma_fxm_within(rd0.x as int, self.lens_radius as int, 65536, 1048576, 1048576);
            lemma_fxm_within(rd0.y as int, self.lens_radius as int, 65536, 1048576, 1048576);
            lemma_fxm_within(rd0.z as int, self.lens_radius as int, 65536, 1048576, 1048576);
        }
        let rd = rd0.mul_s(self.lens_radius);
        proof {
            lemma_fxm_within(rd0.x as int, self.lens_radius as int, 65536,
                self.lens_radius as int, self.lens_radius as int);
            lemma_fxm_within(rd0.y as int, self.lens_radius as int, 65536,
                self.lens_radius as int, self.lens_radius as int);
            lemma_fxm_within(rd0.z as int, self.lens_radius as int, 65536,
                self.lens_radius as int, self.lens_radius as int);
            lemma_tdiv_nonneg(0, SCALE as int);
            assert(rd0.z as int * self.lens_radius as int == 0);
            assert(in_range(rd, self.lens_radius as int));
            assert(rd.z == 0);
        }
        proof {
            lemma_fxm_within(self.u.x as int, rd.x as int, 131072, 1048576, 2097152);
            lemma_fxm_within(self.u.y as int, rd.x as int, 131072, 1048576, 2097152);
            lemma_fxm_within(self.u.z as int, rd.x as int, 131072, 1048576, 2097152);
            lemma_fxm_within(self.v.x as int, rd.y as int, 524288, 1048576, 8388608);
            lemma_fxm_within(self.v.y as int, rd.y as int, 524288, 1048576, 8388608);
            lemma_fxm_within(self.v.z as int, rd.y as int, 524288, 1048576, 8388608);
        }
        let offset = self.u.mul_s(rd.x).add(self.v.mul_s(rd.y));

        proof {
            lemma_fxm_within(self.horizontal.x as int, x as int, 17179869184, 65536,
                17179869184);
            lemma_fxm_within(self.horizontal.y as int, x as int, 17179869184, 65536,
                17179869184);
            lemma_fxm_within(self.horizontal.z as int, x as int, 17179869184, 65536,
                17179869184);
            lemma_fxm_within(self.vertical.x as int, y as int, 17179869184, 65536,
                17179869184);
            lemma_fxm_within(self.vertical.y as int, y as int, 17179869184, 65536,
                17179869184);
            lemma_fxm_within(self.vertical.z as int, y as int, 17179869184, 65536,
                17179869184);
        }
        // Returns fully constructed Ray
        Ray::new(
            self.origin.add(offset),
            self.lower_left_corner.add(self.horizontal.mul_s(x)).add(self.vertical.mul_s(y))
                .sub(self.origin).sub(offset),
            random_range(self.min_time, self.max_time),
        )
    }
}

/// Halving keeps a magnitude bound.
proof fn lemma_half_within(a: int, m: int)
    requires
        absi(a) <= m,
        0 <= m,
    ensures
        absi(crate::fx::tdiv(a, 2)) <= m,
{
    lemma_tdiv_abs(a, 2);
    vstd::arithmetic::div_mod::lemma_div_nonincreasing(absi(a), 2);
}

} // verus!
