//! Fixed-point arithmetic, rays, and sphere/scene intersection.

use raytracer::fixed::{fadd, fdiv, fmul, fsqrt, FX_LIMIT, FX_ONE};
use raytracer::materials::Material;
use raytracer::objects::{Object, ObjectList};
use raytracer::ray::{Camera, Ray};
use raytracer::vec3::Vec3;

fn gray() -> Material {
    Material::Diffuse { albedo: Vec3::new(32768, 32768, 32768) }
}

#[test]
fn fixed_ops_exact_values() {
    assert_eq!(fadd(FX_LIMIT, FX_LIMIT), FX_LIMIT);
    assert_eq!(fadd(-FX_LIMIT, -7), -FX_LIMIT);
    assert_eq!(fmul(3 * FX_ONE, -2 * FX_ONE), -6 * FX_ONE);
    assert_eq!(fdiv(FX_ONE, 0), FX_LIMIT);
    assert_eq!(fdiv(-FX_ONE, 0), -FX_LIMIT);
    assert_eq!(fdiv(FX_ONE, 3 * FX_ONE), 21845);
    assert_eq!(fsqrt(4 * FX_ONE), 2 * FX_ONE);
    assert_eq!(fsqrt(-5), 0);
}

#[test]
fn at_distance_walks_the_ray() {
    let ray = Ray { origin: Vec3::new(FX_ONE, 0, 0), direction: Vec3::new(0, FX_ONE, 0) };
    assert_eq!(ray.at_distance(2 * FX_ONE), Vec3::new(FX_ONE, 2 * FX_ONE, 0));
}

#[test]
fn raycast_center_of_screen() {
    let camera = Camera {
        origin: Vec3::new(0, 0, 0),
        lower_left_corner: Vec3::new(-FX_ONE, -FX_ONE, -FX_ONE),
        horizontal: Vec3::new(2 * FX_ONE, 0, 0),
        vertical: Vec3::new(0, 2 * FX_ONE, 0),
    };
    let ray = camera.raycast(32768, 32768);
    assert_eq!(ray.origin, Vec3::new(0, 0, 0));
    assert_eq!(ray.direction, Vec3::new(0, 0, -FX_ONE));
}

#[test]
fn sphere_hit_through_center() {
    let sphere = Object::Sphere {
        center: Vec3::new(0, 0, -3 * FX_ONE),
        radius: FX_ONE,
        material: gray(),
    };
    let ray = Ray { origin: Vec3::new(0, 0, 0), direction: Vec3::new(0, 0, -FX_ONE) };
    let hit = sphere.hit(&ray, 0, FX_LIMIT).expect("the ray aims at the center");
    assert_eq!(hit.t, 2 * FX_ONE);
    assert_eq!(hit.point, Vec3::new(0, 0, -2 * FX_ONE));
    assert_eq!(hit.normal, Vec3::new(0, 0, FX_ONE));
    assert!(hit.front_face);
    let away = hit.point.minus(&Vec3::new(0, 0, -3 * FX_ONE));
    assert_eq!(away.mag_sq(), fmul(FX_ONE, FX_ONE));
}

#[test]
fn sphere_behind_ray_misses() {
    let sphere = Object::Sphere {
        center: Vec3::new(0, 0, -3 * FX_ONE),
        radius: FX_ONE,
        material: gray(),
    };
    let ray = Ray { origin: Vec3::new(0, 0, 0), direction: Vec3::new(0, 0, FX_ONE) };
    assert!(sphere.hit(&ray, 0, FX_LIMIT).is_none());
}

#[test]
fn sphere_far_root_hits_back_face() {
    let sphere = Object::Sphere {
        center: Vec3::new(0, 0, -3 * FX_ONE),
        radius: FX_ONE,
        material: gray(),
    };
    let ray = Ray { origin: Vec3::new(0, 0, 0), direction: Vec3::new(0, 0, -FX_ONE) };
    let hit = sphere.hit(&ray, 140000, FX_LIMIT).expect("the far root is in range");
    assert_eq!(hit.t, 4 * FX_ONE);
    assert!(!hit.front_face);
    assert_eq!(hit.normal, Vec3::new(0, 0, FX_ONE));
}

#[test]
fn off_axis_hit_normal_is_nearly_unit() {
    let sphere = Object::Sphere {
        center: Vec3::new(0, 0, -3 * FX_ONE),
        radius: FX_ONE,
        material: gray(),
    };
    let ray = Ray { origin: Vec3::new(0, 0, 0), direction: Vec3::new(16384, 0, -FX_ONE) };
    let hit = sphere.hit(&ray, 0, FX_LIMIT).expect("the ray grazes into the sphere");
    assert!(hit.front_face);
    let msq = hit.normal.mag_sq();
    assert!((msq - FX_ONE).abs() < 2000, "normal squared magnitude {msq}");
}

#[test]
fn scene_returns_nearest_hit() {
    let near = Object::Sphere {
        center: Vec3::new(0, 0, -3 * FX_ONE),
        radius: FX_ONE,
        material: gray(),
    };
    let far = Object::Sphere {
        center: Vec3::new(0, 0, -6 * FX_ONE),
        radius: FX_ONE,
        material: Material::Dielectric { index_of_refraction: 98304 },
    };
    let ray = Ray { origin: Vec3::new(0, 0, 0), direction: Vec3::new(0, 0, -FX_ONE) };

    let scene = ObjectList { objects: vec![far, near] };
    let hit = scene.hit(&ray, 0, FX_LIMIT).expect("both spheres are ahead");
    assert_eq!(hit.t, 2 * FX_ONE);
    assert!(matches!(hit.material, Material::Diffuse { .. }));

    let scene_flipped = ObjectList { objects: vec![near, far] };
    let hit_flipped = scene_flipped.hit(&ray, 0, FX_LIMIT).expect("order is irrelevant");
    assert_eq!(hit_flipped.t, hit.t);
    assert_eq!(hit_flipped.point, hit.point);
}

#[test]
fn tie_at_equal_t_keeps_the_first_object() {
    let center = Vec3::new(0, 0, -3 * FX_ONE);
    let diffuse = Object::Sphere { center, radius: FX_ONE, material: gray() };
    let metal = Object::Sphere {
        center,
        radius: FX_ONE,
        material: Material::Metal { albedo: Vec3::new(FX_ONE, FX_ONE, FX_ONE), fuzziness: 0 },
    };
    let ray = Ray { origin: Vec3::new(0, 0, 0), direction: Vec3::new(0, 0, -FX_ONE) };

    let hit = ObjectList { objects: vec![diffuse, metal] }
        .hit(&ray, 0, FX_LIMIT)
        .expect("both coincident spheres are ahead");
    assert!(matches!(hit.material, Material::Diffuse { .. }));

    let hit_flipped = ObjectList { objects: vec![metal, diffuse] }
        .hit(&ray, 0, FX_LIMIT)
        .expect("both coincident spheres are ahead");
    assert!(matches!(hit_flipped.material, Material::Metal { .. }));
    assert_eq!(hit.t, hit_flipped.t);
}

#[test]
fn empty_scene_misses() {
    let scene = ObjectList { objects: vec![] };
    let ray = Ray { origin: Vec3::new(0, 0, 0), direction: Vec3::new(0, 0, -FX_ONE) };
    assert!(scene.hit(&ray, 0, FX_LIMIT).is_none());
}
