//! Geometric primitives and the nearest-hit scene query.

use vstd::prelude::*;

use crate::fixed::{fadd, fdiv, fmul, fneg, fsqrt, fsub, fx_add, fx_div, fx_mul, fx_sqrt, fx_sub,
    fx_wf, lemma_fx_div_one, lemma_fx_div_scaled_self, lemma_fx_mul_one, lemma_fx_sqrt_square_scaled,
    lemma_fx_square_scaled, FX_LIMIT, FX_ONE};
use crate::materials::{material_wf, Material};
use crate::ray::{ray_at, ray_wf, Ray};
use crate::vec3::{v3_div_scalar, v3_dot, v3_mag_sq, v3_neg, v3_sub, v3_wf, Vec3};

verus! {

/// What one accepted ray-surface intersection records.
#[derive(Clone, Copy, PartialEq, Eq, Structural, Debug)]
pub struct HitData {
    pub t: i64,
    pub point: Vec3,
    pub normal: Vec3,
    pub front_face: bool,
    pub material: Material,
}

/// All scalars of a hit record are well-formed.
pub open spec fn hit_wf(h: HitData) -> bool {
    &&& fx_wf(h.t as int)
    &&& v3_wf(h.point)
    &&& v3_wf(h.normal)
    &&& material_wf(h.material)
}

/// A primitive shape.
#[derive(Clone, Copy, PartialEq, Eq, Structural, Debug)]
pub enum Object {
    Sphere { center: Vec3, radius: i64, material: Material },
}

/// Every scalar of the object is well-formed.
pub open spec fn object_wf(o: Object) -> bool {
    match o {
        Object::Sphere { center, radius, material } => {
            &&& v3_wf(center)
            &&& fx_wf(radius as int)
            &&& material_wf(material)
        },
    }
}

/// The record built for a sphere intersection accepted at parameter `root`.
pub open spec fn sphere_hit_record(
    center: Vec3,
    radius: int,
    material: Material,
    ray: Ray,
    root: int,
) -> HitData {
    let point = ray_at(ray, root);
    let outward_normal = v3_div_scalar(v3_sub(point, center), radius);
    let front_face = v3_dot(ray.direction, outward_normal) < 0;
    let normal = if front_face {
        outward_normal
    } else {
        v3_neg(outward_normal)
    };
    HitData { t: root as i64, point, normal, front_face, material }
}

/// What `Object::hit` returns: the nearer quadratic root that lies strictly
/// inside `(t_min, t_max)`, else the farther one, else no hit.
pub open spec fn object_hit(o: Object, ray: Ray, t_min: int, t_max: int) -> Option<HitData> {
    match o {
        Object::Sphere { center, radius, material } => {
            let oc = v3_sub(ray.origin, center);
            let a = v3_mag_sq(ray.direction);
            let half_b = v3_dot(oc, ray.direction);
            let c = fx_sub(v3_mag_sq(oc), fx_mul(radius as int, radius as int));
            let discriminant = fx_sub(fx_mul(half_b, half_b), fx_mul(a, c));
            if discriminant < 0 {
                None
            } else {
                let sqrtd = fx_sqrt(discriminant);
                let root1 = fx_div(fx_sub(-half_b, sqrtd), a);
                let root2 = fx_div(fx_add(-half_b, sqrtd), a);
                if !(root1 <= t_min || t_max <= root1) {
                    Some(sphere_hit_record(center, radius as int, material, ray, root1))
                } else if !(root2 <= t_min || t_max <= root2) {
                    Some(sphere_hit_record(center, radius as int, material, ray, root2))
                } else {
                    None
                }
            }
        },
    }
}

/// For every accepted hit, `front_face` records whether the ray arrived
/// against the outward normal (`direction . outward < 0`), the stored normal
/// is the outward normal oriented against the ray, and the hit point is the
/// ray evaluated at the accepted parameter.
pub proof fn lemma_hit_normal_orientation(o: Object, ray: Ray, t_min: int, t_max: int)
    ensures
        o matches Object::Sphere { center, radius, .. } ==> (object_hit(o, ray, t_min, t_max)
            matches Some(h) ==> {
            let outward = v3_div_scalar(v3_sub(h.point, center), radius as int);
            &&& h.front_face == (v3_dot(ray.direction, outward) < 0)
            &&& h.normal == (if h.front_face {
                outward
            } else {
                v3_neg(outward)
            })
            &&& h.point == ray_at(ray, h.t as int)
        }),
{
}

/// A ray aimed straight at a sphere's center hits it at the analytic root.
///
/// With a unit axis direction, the center `m` whole units ahead of the origin
/// and a whole-unit radius of `k`, every arithmetic step is exact: the hit
/// lands at `t = (m - k)` units, the hit point lies at squared distance
/// `radius^2` from the center, the ray arrives on the front face, and the
/// stored normal has exactly unit squared magnitude.
pub proof fn lemma_ray_through_center(o: Vec3, k: int, m: int, t_min: int, material: Material)
    requires
        v3_wf(o),
        fx_wf(o.x + m * 65536),
        1 <= k < m <= 1000,
        0 <= t_min < (m - k) * 65536,
    ensures
        ({
            let ray = Ray { origin: o, direction: Vec3 { x: FX_ONE, y: 0i64, z: 0i64 } };
            let center = Vec3 { x: (o.x + m * 65536) as i64, y: o.y, z: o.z };
            let sphere = Object::Sphere { center, radius: (k * 65536) as i64, material };
            object_hit(sphere, ray, t_min, FX_LIMIT as int) matches Some(h) && h.t == (m - k)
                * 65536 && v3_mag_sq(v3_sub(h.point, center)) == fx_mul(k * 65536, k * 65536)
                && v3_mag_sq(h.normal) == FX_ONE && h.front_face
        }),
{
    let one = FX_ONE as int;
    let d = Vec3 { x: FX_ONE, y: 0i64, z: 0i64 };
    let ray = Ray { origin: o, direction: d };
    let cx = o.x + m * 65536;
    let center = Vec3 { x: cx as i64, y: o.y, z: o.z };
    let radius = k * 65536;
    let sphere = Object::Sphere { center, radius: radius as i64, material };

    lemma_fx_mul_one(one);
    lemma_fx_mul_one(-(m * 65536));
    assert((-m) * (-m) == m * m && (-k) * (-k) == k * k) by (nonlinear_arith);
    lemma_fx_square_scaled(-m);
    lemma_fx_square_scaled(k);
    lemma_fx_square_scaled(-k);
    lemma_fx_sqrt_square_scaled(k);
    lemma_fx_div_scaled_self(k);

    let oc = v3_sub(ray.origin, center);
    assert(oc.x == -(m * 65536) && oc.y == 0 && oc.z == 0);
    assert(fx_mul(0int, 0int) == 0);

    let a = v3_mag_sq(ray.direction);
    assert(a == one);
    let half_b = v3_dot(oc, ray.direction);
    assert(half_b == -(m * 65536));
    assert(v3_mag_sq(oc) == m * m * 65536);
    let cterm = fx_sub(v3_mag_sq(oc), fx_mul(radius, radius));
    assert(cterm == m * m * 65536 - k * k * 65536);
    lemma_fx_mul_one(cterm);
    let discriminant = fx_sub(fx_mul(half_b, half_b), fx_mul(a, cterm));
    assert(discriminant == k * k * 65536);

    let sqrtd = fx_sqrt(discriminant);
    assert(sqrtd == k * 65536);
    let num1 = fx_sub(-half_b, sqrtd);
    assert(num1 == (m - k) * 65536);
    lemma_fx_div_one(num1);
    let root1 = fx_div(num1, a);
    assert(root1 == (m - k) * 65536);
    assert(!(root1 <= t_min || FX_LIMIT <= root1));

    let h = sphere_hit_record(center, radius, material, ray, root1);
    assert(object_hit(sphere, ray, t_min, FX_LIMIT as int) == Some(h));

    lemma_fx_mul_one(root1);
    assert(fx_mul(0int, root1) == 0);
    assert(h.point.x == o.x + (m - k) * 65536 && h.point.y == o.y && h.point.z == o.z);
    let away = v3_sub(h.point, center);
    assert(away.x == -radius && away.y == 0 && away.z == 0);
    assert(v3_mag_sq(away) == k * k * 65536);

    let outward = v3_div_scalar(away, radius);
    assert(outward.x == -one && outward.y == 0 && outward.z == 0);
    lemma_fx_mul_one(-one);
    assert(v3_dot(ray.direction, outward) == -one);
    assert(h.front_face);
    assert(h.normal == outward);
    lemma_fx_square_scaled(-1);
    assert(v3_mag_sq(h.normal) == one);
    assert(h.t == (m - k) * 65536);
}

/// Shrinking the far bound of the query interval keeps the result
/// consistent: a hit found under the smaller bound is exactly the hit under
/// the larger one, and a miss under the smaller bound means any hit under the
/// larger one lies at or beyond the smaller bound.
pub proof fn lemma_object_hit_shrink(o: Object, ray: Ray, t_min: int, t_max: int, mid: int)
    requires
        t_min <= mid <= t_max,
    ensures
        object_hit(o, ray, t_min, mid) matches Some(h) ==> object_hit(o, ray, t_min, t_max)
            == Some(h),
        object_hit(o, ray, t_min, mid) is None ==> (object_hit(o, ray, t_min, t_max) matches Some(
            g,
        ) ==> g.t >= mid),
{
    match o {
        Object::Sphere { center, radius, material } => {
            let oc = v3_sub(ray.origin, center);
            let a = v3_mag_sq(ray.direction);
            let half_b = v3_dot(oc, ray.direction);
            let c = fx_sub(v3_mag_sq(oc), fx_mul(radius as int, radius as int));
            let discriminant = fx_sub(fx_mul(half_b, half_b), fx_mul(a, c));
            if discriminant >= 0 {
                let sqrtd = fx_sqrt(discriminant);
                let root1 = fx_div(fx_sub(-half_b, sqrtd), a);
                let root2 = fx_div(fx_add(-half_b, sqrtd), a);
                crate::vec3::lemma_mag_sq_nonneg(ray.direction);
                assert(sqrtd >= 0);
                crate::fixed::lemma_fx_div_monotone(
                    fx_sub(-half_b, sqrtd),
                    fx_add(-half_b, sqrtd),
                    a,
                );
                assert(root1 <= root2);
            }
        },
    }
}

impl Object {
    /// Intersect a ray with the object, accepting only parameters strictly
    /// inside `(t_min, t_max)`.
    pub fn hit(&self, ray: &Ray, t_min: i64, t_max: i64) -> (r: Option<HitData>)
        requires
            object_wf(*self),
            ray_wf(*ray),
            fx_wf(t_min as int),
            fx_wf(t_max as int),
        ensures
            r == object_hit(*self, *ray, t_min as int, t_max as int),
            r matches Some(h) ==> hit_wf(h) && t_min < h.t < t_max,
    {
        match self {
            Object::Sphere { center, radius, material } => {
                let oc = ray.origin.minus(center);
                let a = ray.direction.mag_sq();
                let half_b = oc.dot(&ray.direction);
                let c = fsub(oc.mag_sq(), fmul(*radius, *radius));

                let discriminant = fsub(fmul(half_b, half_b), fmul(a, c));
                if discriminant < 0 {
                    return None;
                }
                let sqrtd = fsqrt(discriminant);

                let mut root = fdiv(fsub(fneg(half_b), sqrtd), a);
                if root <= t_min || t_max <= root {
                    root = fdiv(fadd(fneg(half_b), sqrtd), a);
                    if root <= t_min || t_max <= root {
                        return None;
                    }
                }

                let point = ray.at_distance(root);
                let outward_normal = point.minus(center).div_by(*radius);
                let front_face = ray.direction.dot(&outward_normal) < 0;
                let normal = if front_face {
                    outward_normal
                } else {
                    outward_normal.negated()
                };
                Some(HitData { t: root, point, normal, front_face, material: *material })
            },
        }
    }
}

/// An ordered collection of primitives; order never changes which hit wins.
pub struct ObjectList {
    pub objects: Vec<Object>,
}

/// Every object of the scene is well-formed.
pub open spec fn scene_wf(s: ObjectList) -> bool {
    forall|i: int|
        0 <= i < s.objects@.len() ==> object_wf(#[trigger] s.objects@[i])
}

/// No object of the scene intersects the ray inside `(t_min, t_max)`.
pub open spec fn scene_misses(s: ObjectList, ray: Ray, t_min: int, t_max: int) -> bool {
    forall|i: int|
        0 <= i < s.objects@.len() ==> (#[trigger] object_hit(
            s.objects@[i],
            ray,
            t_min,
            t_max,
        )) is None
}

/// `h` is the hit the scene query settles on: a well-formed hit strictly
/// inside the interval, of minimal `t` over every object tested individually
/// over the full interval, produced by the first object attaining that
/// minimum. This pins the result down as a function of the arguments, ties
/// included.
pub open spec fn scene_best_hit(s: ObjectList, ray: Ray, t_min: int, t_max: int, h: HitData) -> bool {
    &&& hit_wf(h)
    &&& t_min < h.t < t_max
    &&& forall|j: int|
        0 <= j < s.objects@.len() ==> ((#[trigger] object_hit(s.objects@[j], ray, t_min, t_max))
            matches Some(g) ==> h.t <= g.t)
    &&& exists|i: int|
        0 <= i < s.objects@.len() && #[trigger] object_hit(s.objects@[i], ray, t_min, t_max)
            == Some(h) && forall|j: int|
            0 <= j < i ==> ((#[trigger] object_hit(s.objects@[j], ray, t_min, t_max)) matches Some(
                g,
            ) ==> g.t > h.t)
}

/// The scene query is a pure function of its arguments: any two results its
/// contract admits for the same scene, ray and interval are equal. Ties at
/// equal `t` are settled by the first object attaining the minimum, so two
/// calls on equal arguments return the same record.
pub proof fn lemma_scene_hit_deterministic(
    s: ObjectList,
    ray: Ray,
    t_min: int,
    t_max: int,
    r1: Option<HitData>,
    r2: Option<HitData>,
)
    requires
        match r1 {
            Option::None => scene_misses(s, ray, t_min, t_max),
            Option::Some(h) => scene_best_hit(s, ray, t_min, t_max, h),
        },
        match r2 {
            Option::None => scene_misses(s, ray, t_min, t_max),
            Option::Some(h) => scene_best_hit(s, ray, t_min, t_max, h),
        },
    ensures
        r1 == r2,
{
    if let Some(h1) = r1 {
        let i1 = choose|i: int|
            0 <= i < s.objects@.len() && #[trigger] object_hit(s.objects@[i], ray, t_min, t_max)
                == Some(h1) && forall|j: int|
                0 <= j < i ==> ((#[trigger] object_hit(s.objects@[j], ray, t_min, t_max)) matches
                    Some(g) ==> g.t > h1.t);
        if let Some(h2) = r2 {
            let i2 = choose|i: int|
                0 <= i < s.objects@.len() && #[trigger] object_hit(s.objects@[i], ray, t_min, t_max)
                    == Some(h2) && forall|j: int|
                    0 <= j < i ==> ((#[trigger] object_hit(s.objects@[j], ray, t_min, t_max))
                        matches Some(g) ==> g.t > h2.t);
            assert(h1.t <= h2.t && h2.t <= h1.t);
            if i1 < i2 {
                assert(object_hit(s.objects@[i1], ray, t_min, t_max) matches Some(g) ==> g.t
                    > h2.t);
            }
            if i2 < i1 {
                assert(object_hit(s.objects@[i2], ray, t_min, t_max) matches Some(g) ==> g.t
                    > h1.t);
            }
            assert(i1 == i2);
        } else {
            assert(object_hit(s.objects@[i1], ray, t_min, t_max) is None);
        }
    } else {
        if let Some(h2) = r2 {
            let i2 = choose|i: int|
                0 <= i < s.objects@.len() && #[trigger] object_hit(s.objects@[i], ray, t_min, t_max)
                    == Some(h2) && forall|j: int|
                    0 <= j < i ==> ((#[trigger] object_hit(s.objects@[j], ray, t_min, t_max))
                        matches Some(g) ==> g.t > h2.t);
            assert(object_hit(s.objects@[i2], ray, t_min, t_max) is None);
        }
    }
}

impl ObjectList {
    /// The nearest hit over all objects: `None` exactly when every object
    /// misses, else the hit of minimal `t` over every object tested
    /// individually over the full `(t_min, t_max)` interval, from the first
    /// object attaining that minimum — the same result as a brute-force
    /// reference check, and a function of the arguments alone.
    #[verifier::rlimit(100)]
    pub fn hit(&self, ray: &Ray, t_min: i64, t_max: i64) -> (r: Option<HitData>)
        requires
            scene_wf(*self),
            ray_wf(*ray),
            fx_wf(t_min as int),
            fx_wf(t_max as int),
            t_min <= t_max,
        ensures
            match r {
                Option::None => scene_misses(*self, *ray, t_min as int, t_max as int),
                Option::Some(h) => scene_best_hit(*self, *ray, t_min as int, t_max as int, h),
            },
    {
        let mut hit_data: Option<HitData> = None;
        let mut closest_so_far: i64 = t_max;
        let ghost mut win: int = 0;
        let n = self.objects.len();
        let mut idx: usize = 0;
        while idx < n
            invariant
                n == self.objects@.len(),
                idx <= n,
                scene_wf(*self),
                ray_wf(*ray),
                fx_wf(t_min as int),
                fx_wf(t_max as int),
                t_min <= t_max,
                fx_wf(closest_so_far as int),
                t_min <= closest_so_far <= t_max,
                match hit_data {
                    Option::None => closest_so_far == t_max && forall|j: int|
                        0 <= j < idx ==> (#[trigger] object_hit(
                            self.objects@[j],
                            *ray,
                            t_min as int,
                            t_max as int,
                        )) is None,
                    Option::Some(h) => {
                        &&& hit_wf(h)
                        &&& t_min < h.t < t_max
                        &&& closest_so_far == h.t
                        &&& 0 <= win < idx
                        &&& object_hit(self.objects@[win], *ray, t_min as int, t_max as int)
                            == Some(h)
                        &&& forall|j: int|
                            0 <= j < win ==> ((#[trigger] object_hit(
                                self.objects@[j],
                                *ray,
                                t_min as int,
                                t_max as int,
                            )) matches Some(g) ==> g.t > h.t)
                        &&& forall|j: int|
                            0 <= j < idx ==> ((#[trigger] object_hit(
                                self.objects@[j],
                                *ray,
                                t_min as int,
                                t_max as int,
                            )) matches Some(g) ==> h.t <= g.t)
                    },
                },
            decreases n - idx,
        {
            let object = &self.objects[idx];
            let res = object.hit(ray, t_min, closest_so_far);
            proof {
                lemma_object_hit_shrink(
                    *object,
                    *ray,
                    t_min as int,
                    t_max as int,
                    closest_so_far as int,
                );
            }
            match res {
                Option::Some(object_hit_data) => {
                    proof {
                        win = idx as int;
                    }
                    closest_so_far = object_hit_data.t;
                    hit_data = Some(object_hit_data);
                },
                Option::None => {},
            }
            idx += 1;
        }
        proof {
            if let Some(h) = hit_data {
                assert(object_hit(self.objects@[win], *ray, t_min as int, t_max as int)
                    == Some(h));
                assert(scene_best_hit(*self, *ray, t_min as int, t_max as int, h));
            }
        }
        hit_data
    }
}

} // verus!
