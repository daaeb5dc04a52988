//! The recursive color integrator and the per-pixel sampling driver.

use vstd::prelude::*;

use rayon::iter::{IntoParallelIterator, ParallelExtend, ParallelIterator};

use crate::fixed::{fadd, fclamp, fdiv, fsqrt, fx_add, fx_clamp, fx_div, fx_mul, fx_sqrt, fx_wf,
    FX_LIMIT, FX_ONE};
use crate::materials::{scatter_outcome_ok, RayScatterResult};
use crate::objects::{scene_best_hit, scene_misses, scene_wf, HitData, ObjectList};
use crate::ray::{camera_ray, camera_wf, ray_wf, Camera, Ray};
use crate::rng::{rand_unit, rng_from_seed};
use crate::vec3::{v3_hadamard, v3_lerp, v3_normalized, v3_sum, v3_wf, Vec3};

verus! {

/// The lower bound of every scene query: bounces ignore surfaces closer than
/// this to dodge self-intersection at the bounce origin ("shadow acne").
/// It is the nearest representable scalar above one thousandth.
pub const T_MIN_BOUNCE: i64 = 66;

/// The background: white blended toward sky blue by the height of the ray.
pub open spec fn sky_color(ray: Ray) -> Vec3 {
    let t = fx_mul(32768, fx_add(v3_normalized(ray.direction).y as int, FX_ONE as int));
    v3_lerp(
        Vec3 { x: FX_ONE, y: FX_ONE, z: FX_ONE },
        Vec3 { x: 32768, y: 45875, z: FX_ONE },
        t,
    )
}

/// The sky gradient a missing ray contributes:
/// `lerp(white, blue, (unit(direction).y + 1) / 2)`.
pub fn sky(ray: &Ray) -> (c: Vec3)
    requires
        ray_wf(*ray),
    ensures
        c == sky_color(*ray),
        v3_wf(c),
{
    let unit = ray.direction.normalized();
    let t = crate::fixed::fmul(32768, fadd(unit.y, FX_ONE));
    Vec3::new(FX_ONE, FX_ONE, FX_ONE).lerp_to(&Vec3::new(32768, 45875, FX_ONE), t)
}

/// The provable fragment of the radiance range claim: whenever the
/// normalized direction reads as an honest unit vector (its height within
/// [-1, 1]), every sky-gradient component lies in [0, 1]. With
/// `lemma_hadamard_unit_range`, every bounce whose albedo components lie in
/// [0, 1] then keeps an in-range radiance in range. (A degenerate bounce
/// direction saturates normalization and escapes the premise, so the claim
/// is not stated of `color` itself.)
pub proof fn lemma_sky_color_in_range(ray: Ray)
    requires
        -(FX_ONE as int) <= v3_normalized(ray.direction).y as int <= FX_ONE as int,
    ensures
        ({
            let c = sky_color(ray);
            &&& 0 <= c.x <= FX_ONE
            &&& 0 <= c.y <= FX_ONE
            &&& 0 <= c.z <= FX_ONE
        }),
{
    let uy = v3_normalized(ray.direction).y as int;
    let tsum = fx_add(uy, FX_ONE as int);
    assert(0 <= tsum <= 131072);
    assert(32768 * tsum <= 65536 * 65536) by (nonlinear_arith)
        requires
            0 <= tsum <= 131072,
    ;
    crate::fixed::lemma_fx_mul_nonneg_bounded(32768, tsum, 65536);
    let t = fx_mul(32768, tsum);
    assert(0 <= t <= 65536);
    assert(32768 * t <= 65536 * 65536 && 19661 * t <= 65536 * 65536) by (nonlinear_arith)
        requires
            0 <= t <= 65536,
    ;
    crate::fixed::lemma_fx_mul_nonpos_bounded(-32768, t, 65536);
    crate::fixed::lemma_fx_mul_nonpos_bounded(-19661, t, 65536);
    assert(fx_mul(0, t) == 0);
}

/// One radiance estimate for `ray`. A spent bounce budget contributes
/// exactly black, before the scene is even queried; otherwise a ray that
/// misses every object yields exactly the sky gradient, and a ray that hits
/// one is answered by the nearest surface's scatter decision: black on
/// absorption, else the attenuated radiance of the bounced ray.
pub fn color(
    ray: &Ray,
    objects: &ObjectList,
    depth: u32,
    max_depth: u32,
    rng: &mut rand::rngs::SmallRng,
) -> (c: Vec3)
    requires
        ray_wf(*ray),
        scene_wf(*objects),
    ensures
        v3_wf(c),
        depth >= max_depth ==> c == (Vec3 { x: 0i64, y: 0i64, z: 0i64 }),
        depth < max_depth && scene_misses(*objects, *ray, T_MIN_BOUNCE as int, FX_LIMIT as int)
            ==> c == sky_color(*ray),
        depth < max_depth && !scene_misses(*objects, *ray, T_MIN_BOUNCE as int, FX_LIMIT as int)
            ==> exists|h: HitData, outcome: RayScatterResult, rec: Vec3|
            {
                &&& scene_best_hit(*objects, *ray, T_MIN_BOUNCE as int, FX_LIMIT as int, h)
                &&& #[trigger] scatter_outcome_ok(h.material, *ray, h, outcome)
                &&& match outcome {
                    RayScatterResult::Unscattered => c == (Vec3 { x: 0i64, y: 0i64, z: 0i64 }),
                    RayScatterResult::Scattered { scattered_ray, attenuation } => {
                        &&& #[trigger] v3_wf(rec)
                        &&& (depth + 1 >= max_depth ==> rec == (Vec3 { x: 0i64, y: 0i64, z: 0i64 }))
                        &&& (depth + 1 < max_depth && scene_misses(
                            *objects,
                            scattered_ray,
                            T_MIN_BOUNCE as int,
                            FX_LIMIT as int,
                        ) ==> rec == sky_color(scattered_ray))
                        &&& c == v3_hadamard(attenuation, rec)
                    },
                }
            },
    decreases max_depth - depth,
{
    if depth >= max_depth {
        return Vec3::zero();
    }
    match objects.hit(ray, T_MIN_BOUNCE, FX_LIMIT) {
        Option::Some(hit_data) => {
            let outcome = hit_data.material.scatter_ray(ray, &hit_data, rng);
            match outcome {
                RayScatterResult::Unscattered => {
                    let black = Vec3::zero();
                    proof {
                        assert(v3_wf(black));
                        assert(scatter_outcome_ok(hit_data.material, *ray, hit_data, outcome));
                    }
                    black
                },
                RayScatterResult::Scattered { scattered_ray, attenuation } => {
                    let rec = color(&scattered_ray, objects, depth + 1, max_depth, rng);
                    let shaded = attenuation.hadamard(&rec);
                    proof {
                        assert(v3_wf(rec));
                        assert(scatter_outcome_ok(hit_data.material, *ray, hit_data, outcome));
                    }
                    shaded
                },
            }
        },
        Option::None => sky(ray),
    }
}

/// One display channel of an accumulated pixel: the average of `spp` samples,
/// gamma-2 corrected, clamped to just below one, and scaled to a byte.
pub open spec fn channel_byte(acc: int, spp: int) -> int {
    let avg = fx_div(acc, spp * 65536);
    let cl = fx_clamp(fx_sqrt(avg), 0, 65470);
    cl / 256
}

/// Turn one accumulated channel into its display byte.
fn finalize_channel(acc: i64, spp_fx: i64, spp: u32) -> (b: u8)
    requires
        fx_wf(acc as int),
        spp >= 1,
        spp_fx == (spp as int) * 65536,
        fx_wf(spp_fx as int),
    ensures
        b as int == channel_byte(acc as int, spp as int),
{
    let avg = fdiv(acc, spp_fx);
    let cl = fclamp(fsqrt(avg), 0, 65470);
    ((cl as u64) / 256) as u8
}

/// Average, gamma-correct, clamp and scale an accumulated pixel into bytes.
pub fn finalize_pixel(acc: Vec3, spp: u32) -> (rgb: (u8, u8, u8))
    requires
        v3_wf(acc),
        1 <= spp <= 32768,
    ensures
        rgb.0 as int == channel_byte(acc.x as int, spp as int),
        rgb.1 as int == channel_byte(acc.y as int, spp as int),
        rgb.2 as int == channel_byte(acc.z as int, spp as int),
{
    let spp_fx: i64 = (spp as i64) * 65536;
    (
        finalize_channel(acc.x, spp_fx, spp),
        finalize_channel(acc.y, spp_fx, spp),
        finalize_channel(acc.z, spp_fx, spp),
    )
}

/// What one sample of pixel `i` satisfies, for the jitter pair that was
/// drawn: it is the integrator's answer for the camera ray through the
/// pixel's cell jittered by `(ju, jv)` — exactly black when the bounce
/// budget is zero, exactly the sky gradient when that ray misses every
/// object.
pub open spec fn pixel_sample_ok(
    camera: Camera,
    objects: ObjectList,
    width: int,
    height: int,
    max_depth: int,
    i: int,
    sample: Vec3,
    ju: int,
    jv: int,
) -> bool {
    let x = i % width;
    let y = height - i / width;
    let u = fx_div(fx_add(x * 65536, ju), (width - 1) * 65536);
    let v = fx_div(fx_add(y * 65536, jv), (height - 1) * 65536);
    let ray = camera_ray(camera, u, v);
    &&& 0 <= ju < FX_ONE
    &&& 0 <= jv < FX_ONE
    &&& v3_wf(sample)
    &&& (max_depth <= 0 ==> sample == (Vec3 { x: 0i64, y: 0i64, z: 0i64 }))
    &&& (max_depth > 0 && scene_misses(objects, ray, T_MIN_BOUNCE as int, FX_LIMIT as int)
        ==> sample == sky_color(ray))
}

/// What the three bytes of pixel `i` satisfy: they are the averaged,
/// gamma-corrected, clamped and scaled accumulation of `spp` samples, each
/// the integrator's answer for one jittered camera ray of that pixel.
pub open spec fn pixel_bytes_ok(
    camera: Camera,
    objects: ObjectList,
    width: int,
    height: int,
    spp: int,
    max_depth: int,
    i: int,
    red: int,
    green: int,
    blue: int,
) -> bool {
    exists|samples: Seq<Vec3>, jus: Seq<int>, jvs: Seq<int>|
        {
            &&& samples.len() == spp
            &&& jus.len() == spp
            &&& jvs.len() == spp
            &&& (forall|k: int|
                0 <= k < spp ==> pixel_sample_ok(
                    camera,
                    objects,
                    width,
                    height,
                    max_depth,
                    i,
                    #[trigger] samples[k],
                    jus[k],
                    jvs[k],
                ))
            &&& red == channel_byte(v3_sum(samples).x as int, spp)
            &&& green == channel_byte(v3_sum(samples).y as int, spp)
            &&& blue == channel_byte(v3_sum(samples).z as int, spp)
        }
}

/// Estimate one pixel: average `spp` independently jittered camera rays,
/// then turn the average into display bytes. The pixel's generator is seeded
/// from the render seed and the pixel's linear index alone, so pixels are
/// mutually independent and reproducible.
pub(crate) fn render_pixel(
    camera: &Camera,
    objects: &ObjectList,
    width: u32,
    height: u32,
    spp: u32,
    max_depth: u32,
    seed: u64,
    i: u32,
) -> (rgb: (u8, u8, u8))
    requires
        camera_wf(*camera),
        scene_wf(*objects),
        1 <= width <= 32768,
        1 <= height <= 32768,
        1 <= spp <= 32768,
        i < width * height,
    ensures
        pixel_bytes_ok(
            *camera,
            *objects,
            width as int,
            height as int,
            spp as int,
            max_depth as int,
            i as int,
            rgb.0 as int,
            rgb.1 as int,
            rgb.2 as int,
        ),
{
    let x: u32 = i % width;
    proof {
        vstd::arithmetic::div_mod::lemma_multiply_divide_lt(
            i as int,
            width as int,
            height as int,
        );
    }
    let y: u32 = height - i / width;
    let mut rng = rng_from_seed(seed ^ (i as u64));
    let mut pixel = Vec3::zero();
    let ghost mut samples: Seq<Vec3> = Seq::empty();
    let ghost mut jus: Seq<int> = Seq::empty();
    let ghost mut jvs: Seq<int> = Seq::empty();
    let mut s: u32 = 0;
    while s < spp
        invariant
            camera_wf(*camera),
            scene_wf(*objects),
            1 <= width <= 32768,
            1 <= height <= 32768,
            1 <= spp <= 32768,
            x as int == (i as int) % (width as int),
            y as int == (height as int) - (i as int) / (width as int),
            x < width,
            y <= height,
            s <= spp,
            samples.len() == s as nat,
            jus.len() == s as nat,
            jvs.len() == s as nat,
            pixel == v3_sum(samples),
            v3_wf(pixel),
            forall|k: int|
                0 <= k < s ==> pixel_sample_ok(
                    *camera,
                    *objects,
                    width as int,
                    height as int,
                    max_depth as int,
                    i as int,
                    #[trigger] samples[k],
                    jus[k],
                    jvs[k],
                ),
        decreases spp - s,
    {
        let ju = rand_unit(&mut rng);
        let u = fdiv(fadd((x as i64) * 65536, ju), ((width as i64) - 1) * 65536);
        let jv = rand_unit(&mut rng);
        let v = fdiv(fadd((y as i64) * 65536, jv), ((height as i64) - 1) * 65536);
        let ray = camera.raycast(u, v);
        let c = color(&ray, objects, 0, max_depth, &mut rng);
        pixel = pixel.plus(&c);
        proof {
            let ghost prev = samples;
            samples = samples.push(c);
            jus = jus.push(ju as int);
            jvs = jvs.push(jv as int);
            assert(samples.drop_last() =~= prev);
            assert(pixel == v3_sum(samples));
            assert(pixel_sample_ok(
                *camera,
                *objects,
                width as int,
                height as int,
                max_depth as int,
                i as int,
                c,
                ju as int,
                jv as int,
            ));
            assert forall|k: int|
                0 <= k < s + 1 implies pixel_sample_ok(
                *camera,
                *objects,
                width as int,
                height as int,
                max_depth as int,
                i as int,
                #[trigger] samples[k],
                jus[k],
                jvs[k],
            ) by {
                if k < s {
                    assert(samples[k] == prev[k]);
                }
            }
        }
        s = s + 1;
    }
    let rgb = finalize_pixel(pixel, spp);
    proof {
        assert(pixel_bytes_ok(
            *camera,
            *objects,
            width as int,
            height as int,
            spp as int,
            max_depth as int,
            i as int,
            rgb.0 as int,
            rgb.1 as int,
            rgb.2 as int,
        ));
    }
    rgb
}

/// Relies on rayon's parallel iterators: `par_extend` on a `Vec` collects
/// the items of an indexed parallel iterator in index order, so the image
/// holds the byte triples of pixels `0, 1, ..., width * height - 1` in
/// row-major order, three bytes per pixel — and each triple is the value a
/// call of the verified `render_pixel` returned for that pixel index, so it
/// satisfies that function's contract.
#[verifier::external_body]
fn par_render(
    camera: &Camera,
    objects: &ObjectList,
    width: u32,
    height: u32,
    spp: u32,
    max_depth: u32,
    seed: u64,
) -> (img: Vec<u8>)
    requires
        camera_wf(*camera),
        scene_wf(*objects),
        1 <= width <= 32768,
        1 <= height <= 32768,
        1 <= spp <= 32768,
    ensures
        img@.len() == 3 * (width as int) * (height as int),
        forall|p: int|
            0 <= p < (width as int) * (height as int) ==> #[trigger] pixel_bytes_ok(
                *camera,
                *objects,
                width as int,
                height as int,
                spp as int,
                max_depth as int,
                p,
                img@[3 * p] as int,
                img@[3 * p + 1] as int,
                img@[3 * p + 2] as int,
            ),
{
    let mut image: Vec<u8> = Vec::with_capacity(width as usize * height as usize * 3);
    image.par_extend((0..width * height).into_par_iter().flat_map_iter(|i| {
        let (r, g, b) = render_pixel(camera, objects, width, height, spp, max_depth, seed, i);
        [r, g, b]
    }));
    image
}

/// Render the scene: one byte triple per pixel, rows bottom-to-top, pixels
/// in row-major order, each triple satisfying `pixel_bytes_ok` — the
/// averaged, gamma-corrected, clamped bytes of that pixel's jittered
/// samples. Pixels are computed in parallel; each draws its samples from its
/// own generator seeded by `seed` and its linear index, so the image is a
/// function of the inputs alone (within one build of the library) and
/// workers share no mutable state.
pub fn raytrace(
    camera: &Camera,
    objects: &ObjectList,
    width: u32,
    height: u32,
    samples_per_pixel: u32,
    max_depth: u32,
    seed: u64,
) -> (img: Vec<u8>)
    requires
        camera_wf(*camera),
        scene_wf(*objects),
        1 <= width <= 32768,
        1 <= height <= 32768,
        1 <= samples_per_pixel <= 32768,
    ensures
        img@.len() == 3 * (width as int) * (height as int),
        forall|p: int|
            0 <= p < (width as int) * (height as int) ==> #[trigger] pixel_bytes_ok(
                *camera,
                *objects,
                width as int,
                height as int,
                samples_per_pixel as int,
                max_depth as int,
                p,
                img@[3 * p] as int,
                img@[3 * p + 1] as int,
                img@[3 * p + 2] as int,
            ),
{
    par_render(camera, objects, width, height, samples_per_pixel, max_depth, seed)
}

} // verus!
