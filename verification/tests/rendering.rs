//! The color integrator and the sampling driver, end to end.

use rand::rngs::SmallRng;
use rand::SeedableRng;
use raytracer::fixed::FX_ONE;
use raytracer::materials::Material;
use raytracer::objects::{Object, ObjectList};
use raytracer::ray::{Camera, Ray};
use raytracer::render::{color, finalize_pixel, raytrace, sky};
use raytracer::vec3::Vec3;

fn up_ray() -> Ray {
    Ray { origin: Vec3::new(0, 0, 0), direction: Vec3::new(0, FX_ONE, 0) }
}

fn demo_scene() -> ObjectList {
    ObjectList {
        objects: vec![
            Object::Sphere {
                center: Vec3::new(0, 0, -FX_ONE),
                radius: 32768,
                material: Material::Diffuse { albedo: Vec3::new(32768, 32768, 32768) },
            },
            Object::Sphere {
                center: Vec3::new(0, -6586368, -FX_ONE),
                radius: 100 * FX_ONE,
                material: Material::Diffuse { albedo: Vec3::new(FX_ONE, 32768, FX_ONE) },
            },
        ],
    }
}

fn demo_camera() -> Camera {
    Camera {
        origin: Vec3::new(0, 0, 0),
        lower_left_corner: Vec3::new(-116509, -98304, -FX_ONE),
        horizontal: Vec3::new(233017, 0, 0),
        vertical: Vec3::new(0, 32768, 0),
    }
}

#[test]
fn sky_straight_up_is_pure_blue() {
    assert_eq!(sky(&up_ray()), Vec3::new(32768, 45875, FX_ONE));
}

#[test]
fn sky_components_stay_in_unit_range() {
    let ray = Ray { origin: Vec3::new(0, 0, 0), direction: Vec3::new(12345, -23456, 34567) };
    let c = sky(&ray);
    assert!(0 <= c.x && c.x <= FX_ONE);
    assert!(0 <= c.y && c.y <= FX_ONE);
    assert!(0 <= c.z && c.z <= FX_ONE);
}

#[test]
fn sky_straight_down_is_pure_white() {
    let ray = Ray { origin: Vec3::new(0, 0, 0), direction: Vec3::new(0, -FX_ONE, 0) };
    assert_eq!(sky(&ray), Vec3::new(FX_ONE, FX_ONE, FX_ONE));
}

#[test]
fn color_of_a_miss_is_the_sky_gradient() {
    let scene = ObjectList { objects: vec![] };
    let mut rng = SmallRng::seed_from_u64(0);
    let c = color(&up_ray(), &scene, 0, 50, &mut rng);
    assert_eq!(c, Vec3::new(32768, 45875, FX_ONE));
}

#[test]
fn depth_exhausted_rays_are_black() {
    let scene = demo_scene();
    let ray = Ray { origin: Vec3::new(0, 0, 0), direction: Vec3::new(0, 0, -FX_ONE) };
    let mut rng = SmallRng::seed_from_u64(0);
    assert_eq!(color(&ray, &scene, 50, 50, &mut rng), Vec3::new(0, 0, 0));
    // The bounce budget also runs out when starting beyond it.
    let mut rng = SmallRng::seed_from_u64(1);
    assert_eq!(color(&ray, &scene, 51, 50, &mut rng), Vec3::new(0, 0, 0));
    // The cutoff comes before the scene is even consulted: a spent budget
    // yields black even where nothing is hit.
    let empty = ObjectList { objects: vec![] };
    let mut rng = SmallRng::seed_from_u64(2);
    assert_eq!(color(&up_ray(), &empty, 50, 50, &mut rng), Vec3::new(0, 0, 0));
}

#[test]
fn hit_exactly_on_the_far_bound_is_a_miss() {
    // The accepted interval is strictly open: a root landing exactly on
    // t_max is rejected, and the ray then reports the sphere behind it.
    let sphere = Object::Sphere {
        center: Vec3::new(0, 0, -3 * FX_ONE),
        radius: FX_ONE,
        material: Material::Diffuse { albedo: Vec3::new(32768, 32768, 32768) },
    };
    let ray = Ray { origin: Vec3::new(0, 0, 0), direction: Vec3::new(0, 0, -FX_ONE) };
    assert!(sphere.hit(&ray, 0, 2 * FX_ONE).is_none());
    assert!(sphere.hit(&ray, 2 * FX_ONE, 4 * FX_ONE).is_none());
    assert!(sphere.hit(&ray, 0, 2 * FX_ONE + 1).is_some());
}

#[test]
fn finalize_pixel_gamma_clamp_and_scale() {
    assert_eq!(finalize_pixel(Vec3::new(FX_ONE, 16384, 0), 1), (255, 128, 0));
    // Averaging two samples halves the accumulated channel.
    assert_eq!(finalize_pixel(Vec3::new(2 * FX_ONE, 0, 0), 2), (255, 0, 0));
}

#[test]
fn background_only_render_is_the_gradient_color() {
    let camera = Camera {
        origin: Vec3::new(0, 0, 0),
        lower_left_corner: Vec3::new(0, FX_ONE, 0),
        horizontal: Vec3::new(0, 0, 0),
        vertical: Vec3::new(0, 0, 0),
    };
    let scene = ObjectList { objects: vec![] };
    let img = raytrace(&camera, &scene, 4, 2, 1, 50, 3);
    assert_eq!(img.len(), 24);
    for pixel in img.chunks(3) {
        assert_eq!(pixel, [181, 214, 255]);
    }
}

#[test]
fn render_is_deterministic_per_seed() {
    let camera = demo_camera();
    let scene = demo_scene();
    let first = raytrace(&camera, &scene, 4, 2, 8, 10, 42);
    let again = raytrace(&camera, &scene, 4, 2, 8, 10, 42);
    assert_eq!(first, again);
    // The fixed seed pins the whole image down to the byte (the expected
    // bytes hold wherever the generator behind the sampling is the one rand
    // selects for 64-bit platforms).
    assert_eq!(
        first,
        vec![
            193, 156, 255, 140, 125, 181, 203, 189, 255, 209, 192, 255, 189, 154, 255, 177, 145,
            226, 181, 137, 226, 185, 150, 247
        ]
    );
    let other_seed = raytrace(&camera, &scene, 4, 2, 8, 10, 43);
    assert_ne!(first, other_seed);
}
