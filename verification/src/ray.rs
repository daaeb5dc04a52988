//! Rays and the camera that casts them.

use vstd::prelude::*;

use crate::fixed::fx_wf;
use crate::vec3::{v3_add, v3_scale, v3_wf, Vec3};

verus! {

/// A half-line: an origin and a direction.
#[derive(Clone, Copy, PartialEq, Eq, Structural, Debug)]
pub struct Ray {
    pub origin: Vec3,
    pub direction: Vec3,
}

/// Both vectors of a ray are well-formed.
pub open spec fn ray_wf(r: Ray) -> bool {
    &&& v3_wf(r.origin)
    &&& v3_wf(r.direction)
}

/// The point `origin + t * direction`.
pub open spec fn ray_at(r: Ray, t: int) -> Vec3 {
    v3_add(v3_scale(r.direction, t), r.origin)
}

impl Ray {
    /// The point reached after travelling `z` along the direction.
    pub fn at_distance(&self, z: i64) -> (r: Vec3)
        requires
            ray_wf(*self),
            fx_wf(z as int),
        ensures
            r == ray_at(*self, z as int),
            v3_wf(r),
    {
        self.direction.scaled(z).plus(&self.origin)
    }
}

/// An eye point and a world-space image rectangle.
#[derive(Clone, Copy, PartialEq, Eq, Structural, Debug)]
pub struct Camera {
    pub origin: Vec3,
    pub lower_left_corner: Vec3,
    pub horizontal: Vec3,
    pub vertical: Vec3,
}

/// All four camera vectors are well-formed.
pub open spec fn camera_wf(c: Camera) -> bool {
    &&& v3_wf(c.origin)
    &&& v3_wf(c.lower_left_corner)
    &&& v3_wf(c.horizontal)
    &&& v3_wf(c.vertical)
}

/// The ray a camera casts through image-plane coordinates `(u, v)`.
pub open spec fn camera_ray(c: Camera, u: int, v: int) -> Ray {
    Ray {
        origin: c.origin,
        direction: v3_add(
            v3_add(c.lower_left_corner, v3_scale(c.horizontal, u)),
            v3_scale(c.vertical, v),
        ),
    }
}

impl Camera {
    /// Cast the ray through image-plane coordinates `(u, v)`.
    ///
    /// `u` and `v` normally lie in `[0, 1]`; values outside simply aim the
    /// ray outside the framed rectangle and are not rejected.
    pub fn raycast(&self, u: i64, v: i64) -> (r: Ray)
        requires
            camera_wf(*self),
            fx_wf(u as int),
            fx_wf(v as int),
        ensures
            r == camera_ray(*self, u as int, v as int),
            ray_wf(r),
    {
        Ray {
            origin: self.origin,
            direction: self
                .lower_left_corner
                .plus(&self.horizontal.scaled(u))
                .plus(&self.vertical.scaled(v)),
        }
    }
}

} // verus!
