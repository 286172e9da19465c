//! Checks of materials, textures, the accelerator and the transport
//! recursion.
use ray_tracing::vec3::Vec3;
use ray_tracing::ray::Ray;
use ray_tracing::sphere::Sphere;
use ray_tracing::aa_rect::{XYRect, XZRect, YZRect};
use ray_tracing::aa_box::AABox;
use ray_tracing::hittable::Hittable;
use ray_tracing::hittable_list::HittableList;
use ray_tracing::bvh_node::BVHNode;
use ray_tracing::material::Material;
use ray_tracing::lambertian::Lambertian;
use ray_tracing::metal::Metal;
use ray_tracing::dielectric::Dielectric;
use ray_tracing::diffuse_light::DiffuseLight;
use ray_tracing::solid_colour::SolidColour;
use ray_tracing::checker_texture::CheckerTexture;
use ray_tracing::image_texture::ImageTexture;
use ray_tracing::noise_texture::{NoiseTexture, NoiseType};
use ray_tracing::texture::Texture;
use ray_tracing::hit_record::HitRecord;
use ray_tracing::camera::Camera;
use ray_tracing::colour::{ray_colour, get_colour};
use ray_tracing::constant_medium::ConstantMedium;
use ray_tracing::INFINITY;

const S: i128 = 65536;

fn sample_record() -> HitRecord {
    let mut rec = HitRecord::new(Vec3::new(0, 0, 0), 0, 0, 0, S);
    rec.calculate_face_normal(
        &Ray::new(Vec3::new(0, 2 * S, 0), Vec3::new(0, -S, 0), 0),
        Vec3::new(0, S, 0),
    );
    rec
}

#[test]
fn dielectric_attenuation_is_always_white() {
    // Across a sweep of incidence angles the dielectric never dims a channel.
    let glass = Dielectric::new(98304);
    let rec = sample_record();
    for i in 0..32 {
        let dir = Vec3::new(i * S / 8, -S, 0);
        let ray = Ray::new(Vec3::new(0, 2 * S, 0), dir, 0);
        if let Material::Dielectric(d) = &glass {
            let (attenuation, scattered) = d.scatter(&ray, &rec).expect("glass always scatters");
            assert_eq!((attenuation.x, attenuation.y, attenuation.z), (S, S, S));
            assert_eq!(scattered.origin.x, rec.point.x);
        } else {
            panic!("constructor must wrap a dielectric");
        }
    }
}

#[test]
fn diffuse_light_only_emits() {
    let light = DiffuseLight::from_colour(7 * S, 6 * S, 5 * S);
    let rec = sample_record();
    let ray = Ray::new(Vec3::new(0, 2 * S, 0), Vec3::new(0, -S, 0), 0);
    assert!(light.scatter(&ray, &rec).is_none());
    let e = light.emitted(0, 0, &Vec3::new(0, 0, 0));
    assert_eq!((e.x, e.y, e.z), (7 * S, 6 * S, 5 * S));
    // Everything else is dark.
    let grey = Lambertian::new(Vec3::new(S / 2, S / 2, S / 2));
    let z = grey.emitted(0, 0, &Vec3::new(0, 0, 0));
    assert_eq!((z.x, z.y, z.z), (0, 0, 0));
}

#[test]
fn metal_reflects_away_from_surface() {
    let shiny = Metal::new(Vec3::new(S / 2, S / 2, S / 2), 0);
    let rec = sample_record();
    let ray = Ray::new(Vec3::new(0, 2 * S, 0), Vec3::new(0, -S, 0), 0);
    if let Material::Metal(m) = &shiny {
        let (attenuation, scattered) = m.scatter(&ray, &rec).expect("head-on reflection");
        assert_eq!(attenuation.x, S / 2);
        assert!(Vec3::dot(&scattered.direction, &rec.normal) > 0);
        // Without fuzz the scattered direction is the exact mirror image.
        let d = scattered.direction;
        assert_eq!((d.x, d.y, d.z), (0, S, 0));
    } else {
        panic!("constructor must wrap a metal");
    }
}

#[test]
fn lambertian_always_scatters_with_its_albedo() {
    let matte = Lambertian::new(Vec3::new(S / 4, S / 2, S / 8));
    let rec = sample_record();
    let ray = Ray::new(Vec3::new(0, 2 * S, 0), Vec3::new(0, -S, 0), 0);
    for _ in 0..8 {
        let (attenuation, scattered) = matte.scatter(&ray, &rec).expect("matte never absorbs");
        assert_eq!((attenuation.x, attenuation.y, attenuation.z), (S / 4, S / 2, S / 8));
        assert_eq!(scattered.time, ray.time);
    }
}

#[test]
fn textures_sample_exactly() {
    let solid = SolidColour::new(Vec3::new(S, S / 2, 0));
    let v = solid.value(0, 0, &Vec3::new(0, 0, 0));
    assert_eq!((v.x, v.y, v.z), (S, S / 2, 0));

    let checker = CheckerTexture::new(Vec3::new(S, S, S), Vec3::new(0, 0, 0));
    // Near the origin all three angles are in their first half-period: even.
    let even = checker.value(0, 0, &Vec3::new(6554, 6554, 6554));
    assert_eq!(even.x, S);
    // One coordinate past a half-period flips to the odd colour.
    let odd = checker.value(0, 0, &Vec3::new(26214, 6554, 6554));
    assert_eq!(odd.x, 0);

    // A two-by-one image: left pixel red, right pixel blue.
    let data = vec![255, 0, 0, 0, 0, 255];
    let img = ImageTexture::new(Some(data), 2, 1);
    let left = img.value(0, S / 2, &Vec3::new(0, 0, 0));
    assert_eq!(left.x, S);
    assert_eq!(left.y, 0);
    let right = img.value(S, S / 2, &Vec3::new(0, 0, 0));
    assert_eq!(right.z, S);
    let absent = ImageTexture::new(None, 0, 0);
    let debug = absent.value(0, 0, &Vec3::new(0, 0, 0));
    assert_eq!((debug.x, debug.y, debug.z), (0, S, S));

    let marble = NoiseTexture::new(4 * S, NoiseType::Marbled);
    for k in 0..8 {
        let g = marble.value(0, 0, &Vec3::new(k * S, 2 * k * S, 100 * k));
        assert!(0 <= g.x && g.x <= S);
        assert_eq!(g.x, g.y);
        assert_eq!(g.y, g.z);
    }
}

#[test]
fn radiance_terminates_at_depth_zero() {
    let mut materials: Vec<Material> = Vec::new();
    materials.push(Lambertian::new(Vec3::new(S / 2, S / 2, S / 2)));
    let mut world = HittableList::new();
    world.add(Sphere::new(Vec3::new(0, 0, -5 * S), S, 0));
    let ray = Ray::new(Vec3::new(0, 0, 0), Vec3::new(0, 0, -S), 0);
    let background = Vec3::new(S, S, S);
    let black = ray_colour(&ray, background, &world, &materials, 0);
    assert_eq!((black.x, black.y, black.z), (0, 0, 0));
    let deeper = ray_colour(&ray, background, &world, &materials, -3);
    assert_eq!((deeper.x, deeper.y, deeper.z), (0, 0, 0));
}

#[test]
fn radiance_returns_background_on_miss_and_light_on_hit() {
    let mut materials: Vec<Material> = Vec::new();
    materials.push(DiffuseLight::from_colour(3 * S, 2 * S, S));
    let mut world = HittableList::new();
    world.add(XZRect::new(-S, S, -S, S, 5 * S, 0));
    let background = Vec3::new(S / 4, S / 8, S / 16);
    let miss = Ray::new(Vec3::new(0, 0, 0), Vec3::new(0, -S, 0), 0);
    let sky = ray_colour(&miss, background, &world, &materials, 8);
    assert_eq!((sky.x, sky.y, sky.z), (S / 4, S / 8, S / 16));
    let up = Ray::new(Vec3::new(0, 0, 0), Vec3::new(0, S, 0), 0);
    let lit = ray_colour(&up, background, &world, &materials, 8);
    assert_eq!((lit.x, lit.y, lit.z), (3 * S, 2 * S, S));
}

#[test]
fn bvh_agrees_with_linear_scan() {
    // The hierarchy exists purely as an optimisation: over a grid of rays it
    // must report exactly the hits the linear scan reports.
    let mut world = HittableList::new();
    let mut k: i128 = 0;
    for ix in -2..3i128 {
        for iz in -2..3i128 {
            k += 1;
            world.add(Sphere::new(
                Vec3::new(3 * ix * S, ((ix + iz) % 3) * S, 3 * iz * S),
                S / 2 + (k % 3) * S / 4, 0,
            ));
        }
    }
    world.add(XYRect::new(-8 * S, 8 * S, -8 * S, 8 * S, -9 * S, 0));
    world.add(AABox::new(Vec3::new(4 * S, 4 * S, 4 * S), Vec3::new(6 * S, 6 * S, 6 * S), 0));
    world.add(ray_tracing::translate::Translate::new(
        Sphere::new(Vec3::new(0, 0, 0), S, 0), Vec3::new(-5 * S, 2 * S, 5 * S)));
    let tree = BVHNode::from_hittable_list(&world, 0, S);
    let mut cases = 0;
    for ox in -3..4i128 {
        for oy in -3..4i128 {
            for (dx, dy, dz) in [(0, 0, -S), (S / 3, -S / 5, -S), (-S, S / 2, S / 4)] {
                let ray = Ray::new(Vec3::new(2 * ox * S, 2 * oy * S, 12 * S),
                    Vec3::new(dx, dy, dz), 0);
                let flat = world.hit(&ray, 66, INFINITY);
                let fast = tree.hit(&ray, 66, INFINITY);
                match (flat, fast) {
                    (None, None) => {},
                    (Some(a), Some(b)) => {
                        assert_eq!(a.t, b.t);
                        assert_eq!(a.point.x, b.point.x);
                        cases += 1;
                    },
                    (a, b) => panic!("scan {:?} but tree {:?}", a.map(|r| r.t), b.map(|r| r.t)),
                }
            }
        }
    }
    assert!(cases > 10, "the grid must actually strike the scene");
}

#[test]
fn constant_medium_hits_stay_inside_the_interval() {
    let mut materials: Vec<Material> = Vec::new();
    let boundary = Sphere::new(Vec3::new(0, 0, 0), 4 * S, 0);
    let fog = ConstantMedium::from_colour(boundary, S, Vec3::new(S / 2, S / 2, S / 2),
        &mut materials);
    assert_eq!(materials.len(), 1);
    let ray = Ray::new(Vec3::new(-10 * S, 0, 0), Vec3::new(S, 0, 0), 0);
    let mut interactions = 0;
    for _ in 0..64 {
        if let Some(rec) = fog.hit(&ray, 0, INFINITY) {
            assert!(0 <= rec.t && rec.t <= INFINITY);
            assert!(rec.t >= 6 * S - 7 && rec.t <= 14 * S + 7);
            assert_eq!(rec.material, 0);
            interactions += 1;
        }
    }
    assert!(interactions > 0, "a thick fog scatters some of many rays");
}

#[test]
fn camera_rays_carry_shutter_times() {
    let camera = Camera::new(
        Vec3::new(13 * S, 2 * S, 3 * S),
        Vec3::new(0, 0, 0),
        Vec3::new(0, S, 0),
        40 * S,
        S / 10,
        10 * S,
        S,
        2 * S,
        0,
        S,
    );
    for _ in 0..16 {
        let r = camera.get_ray(S / 2, S / 2);
        assert!(0 <= r.time && r.time <= S);
    }
    let corner = camera.get_ray(0, 0);
    assert!(corner.direction.x.abs() <= INFINITY);
}

#[test]
fn colour_conversion_is_gamma_two() {
    // A full white pixel with one sample saturates at 255; black stays 0;
    // a quarter-intensity channel maps to half intensity after gamma.
    let white = get_colour(&Vec3::new(S, S, S), 1);
    assert_eq!(white, (255, 255, 255));
    let black = get_colour(&Vec3::new(0, 0, 0), 1);
    assert_eq!(black, (0, 0, 0));
    let quarter = get_colour(&Vec3::new(S / 4, 0, 0), 1);
    assert_eq!(quarter.0, 128);
    // Averaging over four samples of the same colour matches one sample of a
    // quarter of the accumulated value.
    let averaged = get_colour(&Vec3::new(S, 0, 0), 4);
    assert_eq!(averaged.0, 128);
}

#[test]
fn sphere_uv_spans_the_unit_square() {
    for p in [
        Vec3::new(S, 0, 0), Vec3::new(-S, 0, 0), Vec3::new(0, S, 0),
        Vec3::new(0, -S, 0), Vec3::new(0, 0, S), Vec3::new(0, 0, -S),
    ] {
        let (u, v) = Sphere::get_sphere_uv(p);
        assert!(0 <= u && u <= S);
        assert!(0 <= v && v <= S);
    }
    // The bottom pole maps to v = 0 and the top pole to v = 1, exactly.
    let (_, vb) = Sphere::get_sphere_uv(Vec3::new(0, -S, 0));
    assert_eq!(vb, 0);
    let (_, vt) = Sphere::get_sphere_uv(Vec3::new(0, S, 0));
    assert_eq!(vt, S);
    // The equator maps to the middle within the series' rounding.
    let (_, ve) = Sphere::get_sphere_uv(Vec3::new(S, 0, 0));
    assert!((ve - S / 2).abs() <= S / 64);
}

#[test]
fn scene_with_mixed_materials_renders_bounded_radiance() {
    let mut materials: Vec<Material> = Vec::new();
    materials.push(Lambertian::from_texture(Texture::CheckerTexture(
        ray_tracing::checker_texture::CheckerTexture {
            even: Vec3::new(S, S, S), odd: Vec3::new(0, 0, 0),
        })));
    materials.push(Metal::new(Vec3::new(S, S / 2, S / 2), S / 10));
    materials.push(Dielectric::new(98304));
    materials.push(DiffuseLight::from_colour(4 * S, 4 * S, 4 * S));
    let mut world = HittableList::new();
    world.add(Sphere::new(Vec3::new(0, -1000 * S, 0), 999 * S, 0));
    world.add(Sphere::new(Vec3::new(0, 2 * S, 0), S, 1));
    world.add(Sphere::new(Vec3::new(3 * S, 2 * S, 0), S, 2));
    world.add(YZRect::new(0, 4 * S, -2 * S, 2 * S, -5 * S, 3));
    let background = Vec3::new(S / 2, S / 2, S / 2);
    for i in 0..24i128 {
        let dir = Vec3::new((i - 12) * S / 12, -S / 2 + (i % 5) * S / 5, -S);
        let ray = Ray::new(Vec3::new(0, 4 * S, 8 * S), dir, 0);
        let c = ray_colour(&ray, background, &world, &materials, 16);
        for ch in [c.x, c.y, c.z] {
            assert!(0 <= ch && ch <= 17 * ray_tracing::COLOUR_LIM);
        }
    }
}

#[test]
fn bvh_agrees_with_linear_scan_on_rectangles() {
    // The class the traversal equivalence argument describes exactly: a
    // tree over plane rectangles alone.
    let mut world = HittableList::new();
    for i in 0..6i128 {
        world.add(XYRect::new(-S * (i + 1), S * (i + 1), -S * (i + 1), S * (i + 1),
            -2 * S * (i + 1), 0));
        world.add(XZRect::new(-3 * S, 3 * S, -3 * S, 3 * S, -S * (i + 1), 0));
        world.add(YZRect::new(-2 * S, 2 * S, -14 * S, 0, -S * i - S / 2, 0));
    }
    let tree = BVHNode::from_hittable_list(&world, 0, S);
    for ox in -4..5i128 {
        for (dx, dy, dz) in [(0, 0, -S), (S / 4, S / 7, -S), (-S / 2, -S / 3, -S), (S, 0, 0)] {
            let ray = Ray::new(Vec3::new(ox * S, ox * S / 2, 3 * S), Vec3::new(dx, dy, dz), 0);
            let flat = world.hit(&ray, 66, INFINITY);
            let fast = tree.hit(&ray, 66, INFINITY);
            assert_eq!(flat.map(|r| r.t), fast.map(|r| r.t));
        }
    }
}
