//! Checks of the fixed-point geometry against hand-computed values.
use ray_tracing::vec3::Vec3;
use ray_tracing::ray::Ray;
use ray_tracing::aabb::AABB;
use ray_tracing::sphere::Sphere;
use ray_tracing::moving_sphere::MovingSphere;
use ray_tracing::aa_rect::XYRect;
use ray_tracing::hittable::Hittable;
use ray_tracing::translate::Translate;
use ray_tracing::rotate_y::RotateY;
use ray_tracing::{INFINITY, clamp, degrees_to_radians, random_int, random_double};

const S: i128 = 65536;

#[test]
fn slab_test_hits_centred_box() {
    let b = AABB::new(Vec3::new(-S, -S, -S), Vec3::new(S, S, S));
    let r = Ray::new(Vec3::new(-4 * S, 0, 0), Vec3::new(S, 0, 0), 0);
    assert!(b.hit(&r, 0, INFINITY));
    let miss = Ray::new(Vec3::new(-4 * S, 3 * S, 0), Vec3::new(S, 0, 0), 0);
    assert!(!b.hit(&miss, 0, INFINITY));
}

#[test]
fn slab_test_symmetric_under_mirroring() {
    // The same configuration mirrored through the origin must answer alike,
    // whatever the sign pattern of the direction.
    let cases = [
        (Vec3::new(-4 * S, 123, -77), Vec3::new(S, 65, 13)),
        (Vec3::new(3 * S, -2 * S, S), Vec3::new(-S, S / 2, -S / 3)),
        (Vec3::new(0, 0, 4 * S), Vec3::new(0, 0, -S)),
        (Vec3::new(5 * S, 5 * S, 5 * S), Vec3::new(-S, -S, -S)),
    ];
    let b = AABB::new(Vec3::new(-S, -2 * S, -3 * S), Vec3::new(2 * S, S, S));
    let mb = AABB::new(Vec3::new(-2 * S, -S, -S), Vec3::new(S, 2 * S, 3 * S));
    for (o, d) in cases {
        let r = Ray::new(o, d, 0);
        let mr = Ray::new(Vec3::new(-o.x, -o.y, -o.z), Vec3::new(-d.x, -d.y, -d.z), 0);
        assert_eq!(b.hit(&r, 0, INFINITY), mb.hit(&mr, 0, INFINITY));
        assert_eq!(b.hit(&r, -S, 44 * S), mb.hit(&mr, -S, 44 * S));
    }
}

#[test]
fn surrounding_box_contains_both() {
    let a = AABB::new(Vec3::new(-S, 0, 0), Vec3::new(S, S, S));
    let b = AABB::new(Vec3::new(0, -2 * S, S), Vec3::new(3 * S, S, 4 * S));
    let sb = AABB::surrounding_box(&a, &b);
    assert_eq!(sb.minimum.x, -S);
    assert_eq!(sb.minimum.y, -2 * S);
    assert_eq!(sb.minimum.z, 0);
    assert_eq!(sb.maximum.x, 3 * S);
    assert_eq!(sb.maximum.y, S);
    assert_eq!(sb.maximum.z, 4 * S);
    // A ray that strikes either input box also strikes the surrounding box.
    let r = Ray::new(Vec3::new(-4 * S, S / 2, S / 2), Vec3::new(S, 0, 0), 0);
    assert!(a.hit(&r, 0, INFINITY));
    assert!(sb.hit(&r, 0, INFINITY));
}

#[test]
fn sphere_round_trip_along_axis() {
    // From five whole units away at a unit sphere: entry at t = 4 exactly,
    // and the hit point exactly one radius from the centre.
    let sphere = Sphere::new(Vec3::new(5 * S, 0, 0), S, 0);
    let ray = Ray::new(Vec3::new(0, 0, 0), Vec3::new(S, 0, 0), 0);
    let rec = sphere.hit(&ray, 0, INFINITY).expect("the sphere lies on the ray");
    assert_eq!(rec.t, 4 * S);
    assert_eq!(rec.point.x, 4 * S);
    assert_eq!(rec.point.y, 0);
    assert_eq!(rec.point.z, 0);
    assert!(rec.front_face);
    assert_eq!(rec.normal.x, -S);
    // The far root is selected when the near one is excluded.
    let rec2 = sphere.hit(&ray, 5 * S, INFINITY).expect("the far side is still in range");
    assert_eq!(rec2.t, 6 * S);
    // No hit behind the interval.
    assert!(sphere.hit(&ray, 0, 3 * S).is_none());
    // A ray pointing away misses.
    let away = Ray::new(Vec3::new(0, 0, 0), Vec3::new(-S, 0, 0), 0);
    assert!(sphere.hit(&away, 0, INFINITY).is_none());
}

#[test]
fn moving_sphere_interpolates_centre_exactly() {
    let h = MovingSphere::new(Vec3::new(0, 0, 0), Vec3::new(4 * S, 0, 0), 0, S, S, 0);
    if let Hittable::MovingSphere(ms) = &h {
        let c0 = ms.centre(0);
        assert_eq!((c0.x, c0.y, c0.z), (0, 0, 0));
        let c1 = ms.centre(S);
        assert_eq!((c1.x, c1.y, c1.z), (4 * S, 0, 0));
        let cm = ms.centre(S / 2);
        assert_eq!(cm.x, 2 * S);
        // Beyond the window the centre keeps extrapolating along the line.
        let cb = ms.centre(3 * S);
        assert_eq!(cb.x, 12 * S);
        let ca = ms.centre(-S);
        assert_eq!(ca.x, -4 * S);
    } else {
        panic!("constructor must wrap a moving sphere");
    }
}

#[test]
fn rectangle_uv_at_centre_and_corner() {
    // An XY rectangle over x in [0,2], y in [0,4]: a hit at (1,2) reports
    // (0.5, 0.5); a hit at the corner (0,0) reports (0,0).
    let rect = XYRect::new(0, 2 * S, 0, 4 * S, 0, 0);
    if let Hittable::XYRect(rc) = &rect {
        let centre_ray = Ray::new(Vec3::new(S, 2 * S, -S), Vec3::new(0, 0, S), 0);
        let rec = rc.hit(&centre_ray, 0, INFINITY).expect("crosses the plane inside");
        assert_eq!(rec.u, S / 2);
        assert_eq!(rec.v, S / 2);
        assert_eq!(rec.t, S);
        let corner_ray = Ray::new(Vec3::new(0, 0, -S), Vec3::new(0, 0, S), 0);
        let rec2 = rc.hit(&corner_ray, 0, INFINITY).expect("crosses at the corner");
        assert_eq!(rec2.u, 0);
        assert_eq!(rec2.v, 0);
        // Just outside the extent there is no hit.
        let out_ray = Ray::new(Vec3::new(3 * S, 2 * S, -S), Vec3::new(0, 0, S), 0);
        assert!(rc.hit(&out_ray, 0, INFINITY).is_none());
        // Parallel to the plane there is no hit.
        let par_ray = Ray::new(Vec3::new(S, 2 * S, -S), Vec3::new(S, 0, 0), 0);
        assert!(rc.hit(&par_ray, 0, INFINITY).is_none());
    } else {
        panic!("constructor must wrap a rectangle");
    }
}

#[test]
fn translate_shifts_hit_point_by_offset() {
    // The hit on a sphere translated by an offset lands exactly offset away
    // from the hit on the bare sphere.
    let bare = Sphere::new(Vec3::new(5 * S, 0, 0), S, 0);
    let off = Vec3::new(0, 3 * S, -2 * S);
    let moved = Translate::new(Sphere::new(Vec3::new(5 * S, 0, 0), S, 0), off);
    let ray = Ray::new(Vec3::new(0, 0, 0), Vec3::new(S, 0, 0), 0);
    let shifted_ray = Ray::new(Vec3::new(0, 3 * S, -2 * S), Vec3::new(S, 0, 0), 0);
    let r1 = bare.hit(&ray, 0, INFINITY).expect("bare sphere is hit");
    let r2 = moved.hit(&shifted_ray, 0, INFINITY).expect("translated sphere is hit");
    assert_eq!(r2.t, r1.t);
    assert_eq!(r2.point.x, r1.point.x + off.x);
    assert_eq!(r2.point.y, r1.point.y + off.y);
    assert_eq!(r2.point.z, r1.point.z + off.z);
}

#[test]
fn rotate_round_trip_restores_box_within_tolerance() {
    // Each rotation takes the extremes of the rotated corners, so the box
    // can only grow: rotating by an angle and back must hand back a box
    // still holding the original, and the height axis is untouched exactly.
    let bx = ray_tracing::aa_box::AABox::new(Vec3::new(-S, -S, -S), Vec3::new(2 * S, S, 3 * S), 0);
    let once = RotateY::new(bx, 15 * S);
    let back = RotateY::new(once, -15 * S);
    let original = ray_tracing::aa_box::AABox::new(Vec3::new(-S, -S, -S),
        Vec3::new(2 * S, S, 3 * S), 0);
    let b0 = original.bounding_box(0, S).expect("a box has a box");
    let b1 = back.bounding_box(0, S).expect("a rotated box has a box");
    let tol = S / 512;
    assert!(b1.minimum.x <= b0.minimum.x + tol);
    assert!(b1.minimum.z <= b0.minimum.z + tol);
    assert!(b1.maximum.x >= b0.maximum.x - tol);
    assert!(b1.maximum.z >= b0.maximum.z - tol);
    assert_eq!(b1.minimum.y, b0.minimum.y);
    assert_eq!(b1.maximum.y, b0.maximum.y);
    // A zero rotation is the identity on the trigonometric state.
    let zero = RotateY::new(ray_tracing::aa_box::AABox::new(Vec3::new(-S, -S, -S),
        Vec3::new(2 * S, S, 3 * S), 0), 0);
    if let Hittable::RotateY(rt) = &zero {
        assert_eq!(rt.sin_theta, 0);
        assert_eq!(rt.cos_theta, S);
    } else {
        panic!("constructor must wrap a rotation");
    }
}

#[test]
fn reflect_and_refract_exactly_on_axis() {
    let v = Vec3::new(0, -S, 0);
    let n = Vec3::new(0, S, 0);
    let r = Ray::reflect(v, n);
    assert_eq!((r.x, r.y, r.z), (0, S, 0));
    let straight = Ray::refract(v, n, S);
    assert_eq!((straight.x, straight.y, straight.z), (0, -S, 0));
}

#[test]
fn utility_scalars_behave() {
    assert_eq!(clamp(5, 0, 3), 3);
    assert_eq!(clamp(-5, 0, 3), 0);
    assert_eq!(clamp(2, 0, 3), 2);
    assert_eq!(degrees_to_radians(180 * S), ray_tracing::PI);
    assert_eq!(ray_tracing::fx::fx_sin(0), 0);
    assert_eq!(ray_tracing::fx::fx_cos(0), S);
    for _ in 0..32 {
        let d = random_double();
        assert!((0..S).contains(&d));
        let i = random_int(3, 7);
        assert!((3..=7).contains(&i));
    }
    assert_eq!(random_int(4, 4), 4);
    let ln = ray_tracing::random_neg_ln();
    assert!((0..=786432).contains(&ln));
}

#[test]
fn vector_algebra_is_exact() {
    let a = Vec3::new(S, 2 * S, 3 * S);
    let b = Vec3::new(-S, S, S);
    let sum = a.add(b);
    assert_eq!((sum.x, sum.y, sum.z), (0, 3 * S, 4 * S));
    assert_eq!(Vec3::dot(&a, &b), -S + 2 * S + 3 * S);
    let c = Vec3::cross(&Vec3::new(S, 0, 0), &Vec3::new(0, S, 0));
    assert_eq!((c.x, c.y, c.z), (0, 0, S));
    let u = Vec3::new(3 * S, 0, 0).unit();
    assert_eq!((u.x, u.y, u.z), (S, 0, 0));
    let ls = Vec3::new(2 * S, 0, 0).length_squared();
    assert_eq!(ls, 4 * S);
    assert_eq!(Vec3::new(0, 0, 0).near_zero(), true);
    assert_eq!(Vec3::new(1, 0, 0).near_zero(), false);
    for _ in 0..8 {
        let p = Vec3::random_in_unit_sphere();
        let l = p.length_squared();
        assert!(1 <= l && l < S);
        let q = Vec3::random_in_unit_disk();
        assert_eq!(q.z, 0);
        assert!(1 <= q.length_squared() && q.length_squared() < S);
    }
}
