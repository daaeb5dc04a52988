//! The material scattering model.

use rand::rngs::SmallRng;
use rand::SeedableRng;
use raytracer::fixed::FX_ONE;
use raytracer::materials::{
    random_in_unit_sphere, reflect, reflectance, refract, Material, RayScatterResult,
};
use raytracer::objects::HitData;
use raytracer::ray::Ray;
use raytracer::vec3::Vec3;

fn hit_at(point: Vec3, normal: Vec3, front_face: bool, material: Material) -> HitData {
    HitData { t: FX_ONE, point, normal, front_face, material }
}

#[test]
fn reflect_about_vertical_normal() {
    let v = Vec3::new(FX_ONE, -FX_ONE, 0);
    let n = Vec3::new(0, FX_ONE, 0);
    assert_eq!(reflect(&v, &n), Vec3::new(FX_ONE, FX_ONE, 0));
}

#[test]
fn refract_straight_through_at_ratio_one() {
    let uv = Vec3::new(0, 0, -FX_ONE);
    let n = Vec3::new(0, 0, FX_ONE);
    assert_eq!(refract(&uv, &n, FX_ONE), uv);
}

#[test]
fn refract_bends_toward_the_normal_entering_denser_glass() {
    // 45 degrees in, ratio one half: the refracted direction steepens.
    let uv = Vec3::new(FX_ONE, 0, -FX_ONE).normalized();
    assert_eq!(uv, Vec3::new(46341, 0, -46341));
    let n = Vec3::new(0, 0, FX_ONE);
    assert_eq!(refract(&uv, &n, 32768), Vec3::new(23170, 0, -61303));
}

#[test]
fn diffuse_attenuation_is_albedo_and_origin_is_hit_point() {
    let albedo = Vec3::new(32768, 32768, 32768);
    let material = Material::Diffuse { albedo };
    let point = Vec3::new(123, -456, 789);
    let hit = hit_at(point, Vec3::new(0, FX_ONE, 0), true, material);
    let ray = Ray { origin: Vec3::new(0, 0, 0), direction: Vec3::new(0, -FX_ONE, 0) };
    for seed in 0..16u64 {
        let mut rng = SmallRng::seed_from_u64(seed);
        match material.scatter_ray(&ray, &hit, &mut rng) {
            RayScatterResult::Scattered { scattered_ray, attenuation } => {
                assert_eq!(attenuation, albedo);
                assert_eq!(scattered_ray.origin, point);
            }
            RayScatterResult::Unscattered => panic!("a diffuse surface always scatters"),
        }
    }
}

#[test]
fn metal_without_fuzz_mirrors_exactly() {
    let albedo = Vec3::new(52429, 39322, 13107);
    let material = Material::Metal { albedo, fuzziness: 0 };
    let normal = Vec3::new(0, FX_ONE, 0);
    let point = Vec3::new(0, 0, -FX_ONE);
    let hit = hit_at(point, normal, true, material);
    let ray = Ray { origin: Vec3::new(0, 0, 0), direction: Vec3::new(FX_ONE, -FX_ONE, 0) };
    let expected = reflect(&ray.direction.normalized(), &normal);
    let mut rng = SmallRng::seed_from_u64(9);
    match material.scatter_ray(&ray, &hit, &mut rng) {
        RayScatterResult::Scattered { scattered_ray, attenuation } => {
            assert_eq!(scattered_ray.direction, expected);
            assert_eq!(scattered_ray.origin, point);
            assert_eq!(attenuation, albedo);
        }
        RayScatterResult::Unscattered => panic!("this reflection leaves the surface"),
    }
}

#[test]
fn metal_absorbs_rays_bent_into_the_surface() {
    let material = Material::Metal { albedo: Vec3::new(FX_ONE, FX_ONE, FX_ONE), fuzziness: 0 };
    let normal = Vec3::new(0, FX_ONE, 0);
    let hit = hit_at(Vec3::new(0, 0, 0), normal, true, material);
    // A ray leaving along the normal reflects straight back into the surface.
    let ray = Ray { origin: Vec3::new(0, 0, 0), direction: Vec3::new(0, FX_ONE, 0) };
    let mut rng = SmallRng::seed_from_u64(4);
    assert!(matches!(
        material.scatter_ray(&ray, &hit, &mut rng),
        RayScatterResult::Unscattered
    ));
}

#[test]
fn dielectric_normal_incidence_goes_straight_through() {
    let material = Material::Dielectric { index_of_refraction: FX_ONE };
    let normal = Vec3::new(0, 0, FX_ONE);
    let point = Vec3::new(0, 0, -FX_ONE);
    let hit = hit_at(point, normal, true, material);
    let ray = Ray { origin: Vec3::new(0, 0, 0), direction: Vec3::new(0, 0, -FX_ONE) };
    for seed in 0..16u64 {
        let mut rng = SmallRng::seed_from_u64(seed);
        match material.scatter_ray(&ray, &hit, &mut rng) {
            RayScatterResult::Scattered { scattered_ray, attenuation } => {
                assert_eq!(scattered_ray.direction, Vec3::new(0, 0, -FX_ONE));
                assert_eq!(scattered_ray.origin, point);
                assert_eq!(attenuation, Vec3::new(FX_ONE, FX_ONE, FX_ONE));
            }
            RayScatterResult::Unscattered => panic!("a dielectric always scatters"),
        }
    }
}

#[test]
fn reflectance_at_normal_and_grazing_incidence() {
    assert_eq!(reflectance(FX_ONE, FX_ONE), 0);
    assert_eq!(reflectance(0, FX_ONE), FX_ONE);
}

#[test]
fn unit_sphere_samples_lie_inside() {
    let mut rng = SmallRng::seed_from_u64(11);
    for _ in 0..100 {
        let p = random_in_unit_sphere(&mut rng);
        let m = p.mag_sq();
        assert!(0 < m && m < FX_ONE);
    }
}
