//! Surface materials and the scattering model.

use vstd::prelude::*;

use crate::fixed::{
    fadd, fdiv, fmin, fmul, fsub, fx_add, fx_div, fx_min, fx_mul, fx_sub, fx_wf,
    lemma_fx_div_one, lemma_fx_mul_one, FX_ONE,
};
use crate::ray::{ray_wf, Ray};
use crate::rng::{rand_symmetric, rand_unit};
use crate::vec3::{v3_add, v3_dot, v3_mag_sq, v3_neg, v3_normalized, v3_scale, v3_sub, v3_wf, Vec3};

verus! {

/// How a surface answers an incoming ray.
#[derive(Clone, Copy, PartialEq, Eq, Structural, Debug)]
pub enum Material {
    Diffuse { albedo: Vec3 },
    Metal { albedo: Vec3, fuzziness: i64 },
    Dielectric { index_of_refraction: i64 },
}

/// Every parameter of the material is a well-formed scalar.
pub open spec fn material_wf(m: Material) -> bool {
    match m {
        Material::Diffuse { albedo } => v3_wf(albedo),
        Material::Metal { albedo, fuzziness } => v3_wf(albedo) && fx_wf(fuzziness as int),
        Material::Dielectric { index_of_refraction } => fx_wf(index_of_refraction as int),
    }
}

/// The mirror image of `v` about the surface normal `n`.
pub open spec fn reflect_spec(v: Vec3, n: Vec3) -> Vec3 {
    let d = v3_dot(v, n);
    v3_sub(v, v3_scale(n, fx_add(d, d)))
}

/// Bounce a direction off a surface: `v - 2 (v . n) n`.
pub fn reflect(v: &Vec3, normal: &Vec3) -> (r: Vec3)
    requires
        v3_wf(*v),
        v3_wf(*normal),
    ensures
        r == reflect_spec(*v, *normal),
        v3_wf(r),
{
    let d = v.dot(normal);
    v.minus(&normal.scaled(fadd(d, d)))
}

/// Snell refraction of the unit direction `uv` at a surface with normal `n`,
/// split into components perpendicular and parallel to the normal.
pub open spec fn refract_spec(uv: Vec3, n: Vec3, etai_over_etat: int) -> Vec3 {
    let cos_theta = fx_min(v3_dot(n, v3_neg(uv)), FX_ONE as int);
    let r_out_perp = v3_scale(v3_add(uv, v3_scale(n, cos_theta)), etai_over_etat);
    let s = fx_sub(FX_ONE as int, v3_mag_sq(r_out_perp));
    let s_abs = if s >= 0 { s } else { -s };
    let r_out_parallel = v3_scale(v3_neg(n), crate::fixed::fx_sqrt(s_abs));
    v3_add(r_out_perp, r_out_parallel)
}

/// Bend a direction through a surface (with distortion).
pub fn refract(uv: &Vec3, normal: &Vec3, etai_over_etat: i64) -> (r: Vec3)
    requires
        v3_wf(*uv),
        v3_wf(*normal),
        fx_wf(etai_over_etat as int),
    ensures
        r == refract_spec(*uv, *normal, etai_over_etat as int),
        v3_wf(r),
{
    let cos_theta = fmin(normal.dot(&uv.negated()), FX_ONE);
    let r_out_perp = uv.plus(&normal.scaled(cos_theta)).scaled(etai_over_etat);
    let s = fsub(FX_ONE, r_out_perp.mag_sq());
    let s_abs = if s >= 0 {
        s
    } else {
        -s
    };
    let r_out_parallel = normal.negated().scaled(crate::fixed::fsqrt(s_abs));
    r_out_perp.plus(&r_out_parallel)
}

/// Schlick's approximation of the Fresnel reflectance coefficient.
pub open spec fn reflectance_spec(cos_theta: int, refraction_ratio: int) -> int {
    let r0 = fx_div(
        fx_sub(FX_ONE as int, refraction_ratio),
        fx_add(FX_ONE as int, refraction_ratio),
    );
    let r0s = fx_mul(r0, r0);
    let p = fx_sub(FX_ONE as int, cos_theta);
    let p5 = fx_mul(fx_mul(fx_mul(fx_mul(p, p), p), p), p);
    fx_add(r0s, fx_mul(fx_sub(FX_ONE as int, r0s), p5))
}

/// Schlick reflectance: `r0 + (1 - r0) * (1 - cos_theta)^5`.
pub fn reflectance(cos_theta: i64, refraction_ratio: i64) -> (r: i64)
    requires
        fx_wf(cos_theta as int),
        fx_wf(refraction_ratio as int),
    ensures
        r == reflectance_spec(cos_theta as int, refraction_ratio as int),
        fx_wf(r as int),
{
    let r0 = fdiv(fsub(FX_ONE, refraction_ratio), fadd(FX_ONE, refraction_ratio));
    let r0s = fmul(r0, r0);
    let p = fsub(FX_ONE, cos_theta);
    let p5 = fmul(fmul(fmul(fmul(p, p), p), p), p);
    fadd(r0s, fmul(fsub(FX_ONE, r0s), p5))
}

/// The outcome of one scatter decision.
#[derive(Clone, Copy, PartialEq, Eq, Structural, Debug)]
pub enum RayScatterResult {
    Unscattered,
    Scattered { scattered_ray: Ray, attenuation: Vec3 },
}

/// A point drawn from inside the unit ball (never the zero vector, which has
/// no direction). Rejection sampling keeps the distribution uniform; after
/// persistently unlucky draws a fixed interior point keeps the function
/// total.
pub fn random_in_unit_sphere(rng: &mut rand::rngs::SmallRng) -> (v: Vec3)
    ensures
        v3_wf(v),
        0 < v3_mag_sq(v) < FX_ONE,
{
    let mut tries: u32 = 0;
    while tries < 64
        decreases 64 - tries,
    {
        let p = Vec3::new(rand_symmetric(rng), rand_symmetric(rng), rand_symmetric(rng));
        let m = p.mag_sq();
        if 0 < m && m < FX_ONE {
            return p;
        }
        tries = tries + 1;
    }
    Vec3::new(32768, 0, 0)
}

/// Where a diffuse surface sends a ray: the normal plus a unit sample, or the
/// normal alone when that sum is degenerate (all components zero).
pub open spec fn diffuse_direction(normal: Vec3, sample: Vec3) -> Vec3 {
    let d = v3_add(normal, v3_normalized(sample));
    if d.x == 0 && d.y == 0 && d.z == 0 {
        normal
    } else {
        d
    }
}

/// How a metal surface answers a ray, given the fuzz sample that was drawn:
/// the fuzzed mirror direction, kept only when it leaves the surface.
pub open spec fn metal_outcome(
    albedo: Vec3,
    fuzziness: int,
    ray: Ray,
    hit: crate::objects::HitData,
    sample: Vec3,
) -> RayScatterResult {
    let direction = v3_add(
        reflect_spec(v3_normalized(ray.direction), hit.normal),
        v3_scale(sample, fuzziness),
    );
    if v3_dot(direction, hit.normal) > 0 {
        RayScatterResult::Scattered {
            scattered_ray: Ray { origin: hit.point, direction },
            attenuation: albedo,
        }
    } else {
        RayScatterResult::Unscattered
    }
}

/// Where a dielectric surface sends a ray, given the reflectance toss that
/// was drawn: mirror reflection on total internal reflection or a winning
/// Schlick toss, Snell refraction otherwise.
pub open spec fn dielectric_direction(
    ior: int,
    front_face: bool,
    unit_direction: Vec3,
    normal: Vec3,
    toss: int,
) -> Vec3 {
    let refraction_ratio = if front_face {
        fx_div(FX_ONE as int, ior)
    } else {
        ior
    };
    let cos_theta = fx_min(v3_dot(normal, v3_neg(unit_direction)), FX_ONE as int);
    let sin_theta = crate::fixed::fx_sqrt(fx_sub(FX_ONE as int, fx_mul(cos_theta, cos_theta)));
    if fx_mul(refraction_ratio, sin_theta) > FX_ONE || reflectance_spec(cos_theta, refraction_ratio)
        > toss {
        reflect_spec(unit_direction, normal)
    } else {
        refract_spec(unit_direction, normal, refraction_ratio)
    }
}

/// Everything one scatter decision promises, for each material.
///
/// A diffuse surface always scatters from the hit point, attenuated by its
/// albedo, toward the normal plus a drawn unit sample. A metal surface
/// answers with `metal_outcome` for some drawn fuzz sample; with zero
/// fuzziness that is exactly the mirror reflection, kept only when it leaves
/// the surface. A dielectric always scatters untinted from the hit point,
/// with the direction `dielectric_direction` settles on for some drawn
/// reflectance toss.
pub open spec fn scatter_outcome_ok(
    m: Material,
    ray: Ray,
    hit: crate::objects::HitData,
    r: RayScatterResult,
) -> bool {
    match m {
        Material::Diffuse { albedo } => r matches RayScatterResult::Scattered {
            scattered_ray,
            attenuation,
        } && attenuation == albedo && scattered_ray.origin == hit.point && exists|s: Vec3|
            v3_wf(s) && 0 < v3_mag_sq(s) < FX_ONE && scattered_ray.direction == diffuse_direction(
                hit.normal,
                s,
            ),
        Material::Metal { albedo, fuzziness } => {
            &&& exists|s: Vec3|
                v3_wf(s) && 0 < v3_mag_sq(s) < FX_ONE && r == metal_outcome(
                    albedo,
                    fuzziness as int,
                    ray,
                    hit,
                    s,
                )
            &&& (fuzziness == 0i64 ==> {
                let refl = reflect_spec(v3_normalized(ray.direction), hit.normal);
                if v3_dot(refl, hit.normal) > 0 {
                    r == (RayScatterResult::Scattered {
                        scattered_ray: Ray { origin: hit.point, direction: refl },
                        attenuation: albedo,
                    })
                } else {
                    r == RayScatterResult::Unscattered
                }
            })
        },
        Material::Dielectric { index_of_refraction } => r matches RayScatterResult::Scattered {
            scattered_ray,
            attenuation,
        } && attenuation == (Vec3 { x: FX_ONE, y: FX_ONE, z: FX_ONE }) && scattered_ray.origin
            == hit.point && exists|toss: int|
            0 <= toss < FX_ONE && scattered_ray.direction == dielectric_direction(
                index_of_refraction as int,
                hit.front_face,
                v3_normalized(ray.direction),
                hit.normal,
                toss,
            ),
    }
}

/// At exact normal incidence on a surface whose medium has an index of
/// refraction of one, a dielectric neither bends nor reflects the ray: for
/// every reflectance toss, the outgoing direction is exactly the incoming
/// one (`-n`), and the Schlick reflectance itself is exactly zero.
pub proof fn lemma_dielectric_normal_incidence(n: Vec3, toss: int)
    requires
        v3_wf(n),
        v3_mag_sq(n) == FX_ONE as int,
        0 <= toss < FX_ONE,
    ensures
        dielectric_direction(FX_ONE as int, true, v3_neg(n), n, toss) == v3_neg(n),
        reflectance_spec(FX_ONE as int, FX_ONE as int) == 0,
{
    let one = FX_ONE as int;
    let u = v3_neg(n);
    lemma_fx_div_one(one);
    lemma_fx_mul_one(one);
    lemma_fx_mul_one(0);
    lemma_fx_mul_one(n.x as int);
    lemma_fx_mul_one(n.y as int);
    lemma_fx_mul_one(n.z as int);
    lemma_fx_mul_one(-(n.x as int));
    lemma_fx_mul_one(-(n.y as int));
    lemma_fx_mul_one(-(n.z as int));

    assert(v3_neg(u) == n);
    let ratio = fx_div(one, one);
    assert(ratio == one);
    assert(v3_dot(n, v3_neg(u)) == one);
    let cos_theta = fx_min(v3_dot(n, v3_neg(u)), one);
    assert(cos_theta == one);
    assert(fx_mul(one, one) == one);
    assert(fx_sub(one, one) == 0);
    assert(crate::fixed::fx_sqrt(0) == 0);
    assert(fx_mul(one, 0) == 0);

    // The Schlick reflectance vanishes: its base term and its cosine term
    // are both exactly zero.
    assert(fx_div(0, fx_add(one, one)) == 0);
    assert(fx_mul(0, 0) == 0);
    assert(reflectance_spec(one, one) == 0);

    // Refraction at ratio one sends the ray straight through.
    assert(v3_scale(n, one) == n);
    assert(v3_add(u, n) == (Vec3 { x: 0i64, y: 0i64, z: 0i64 }));
    let zero_v = Vec3 { x: 0i64, y: 0i64, z: 0i64 };
    assert(v3_scale(zero_v, one) == zero_v);
    assert(v3_mag_sq(zero_v) == 0);
    assert(fx_sub(one, 0) == one);
    crate::fixed::lemma_fx_sqrt_square_scaled(1);
    assert(crate::fixed::fx_sqrt(one) == one);
    assert(v3_scale(v3_neg(n), one) == u);
    assert(v3_add(zero_v, u) == u);
    assert(refract_spec(u, n, one) == u);
}

impl Material {
    /// Decide how the surface answers `ray` at the recorded hit.
    ///
    /// A diffuse surface always scatters from the hit point with its albedo
    /// as attenuation; a metal surface scatters the fuzzed mirror direction
    /// or absorbs a ray bent into the surface; a dielectric surface always
    /// scatters untinted, reflecting or refracting by Snell's law and a
    /// Schlick-reflectance toss.
    pub fn scatter_ray(
        &self,
        ray: &Ray,
        hit_data: &crate::objects::HitData,
        rng: &mut rand::rngs::SmallRng,
    ) -> (r: RayScatterResult)
        requires
            material_wf(*self),
            ray_wf(*ray),
            crate::objects::hit_wf(*hit_data),
        ensures
            scatter_outcome_ok(*self, *ray, *hit_data, r),
    {
        match self {
            Material::Diffuse { albedo } => {
                let s = random_in_unit_sphere(rng);
                let unit_sample = s.normalized();
                let mut direction = hit_data.normal.plus(&unit_sample);
                if direction.x == 0 && direction.y == 0 && direction.z == 0 {
                    direction = hit_data.normal;
                }
                proof {
                    assert(direction == diffuse_direction(hit_data.normal, s));
                }
                RayScatterResult::Scattered {
                    scattered_ray: Ray { origin: hit_data.point, direction },
                    attenuation: *albedo,
                }
            },
            Material::Metal { albedo, fuzziness } => {
                let unit_dir = ray.direction.normalized();
                let reflection_direction = reflect(&unit_dir, &hit_data.normal);
                let s = random_in_unit_sphere(rng);
                let scattered_ray = Ray {
                    origin: hit_data.point,
                    direction: reflection_direction.plus(&s.scaled(*fuzziness)),
                };
                proof {
                    if *fuzziness == 0i64 {
                        assert(v3_scale(s, 0) == (Vec3 { x: 0i64, y: 0i64, z: 0i64 }));
                        assert(scattered_ray.direction == reflection_direction);
                    }
                }
                if scattered_ray.direction.dot(&hit_data.normal) > 0 {
                    RayScatterResult::Scattered { scattered_ray, attenuation: *albedo }
                } else {
                    RayScatterResult::Unscattered
                }
            },
            Material::Dielectric { index_of_refraction } => {
                let refraction_ratio = if hit_data.front_face {
                    fdiv(FX_ONE, *index_of_refraction)
                } else {
                    *index_of_refraction
                };

                let unit_direction = ray.direction.normalized();
                let cos_theta = fmin(hit_data.normal.dot(&unit_direction.negated()), FX_ONE);
                let sin_theta = crate::fixed::fsqrt(fsub(FX_ONE, fmul(cos_theta, cos_theta)));

                let cannot_refract = fmul(refraction_ratio, sin_theta) > FX_ONE;
                let ghost mut toss_drawn: int = 0;
                let direction = if cannot_refract {
                    reflect(&unit_direction, &hit_data.normal)
                } else {
                    let toss = rand_unit(rng);
                    proof {
                        toss_drawn = toss as int;
                    }
                    if reflectance(cos_theta, refraction_ratio) > toss {
                        reflect(&unit_direction, &hit_data.normal)
                    } else {
                        refract(&unit_direction, &hit_data.normal, refraction_ratio)
                    }
                };
                proof {
                    assert(direction == dielectric_direction(
                        *index_of_refraction as int,
                        hit_data.front_face,
                        v3_normalized(ray.direction),
                        hit_data.normal,
                        toss_drawn,
                    ));
                }
                RayScatterResult::Scattered {
                    scattered_ray: Ray { origin: hit_data.point, direction },
                    attenuation: Vec3::new(FX_ONE, FX_ONE, FX_ONE),
                }
            },
        }
    }
}

} // verus!
