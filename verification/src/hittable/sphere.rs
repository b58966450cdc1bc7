//! Spheres, at rest and moving.

use crate::aabb::{surrounding_box, AABB};
use crate::hittable::HitRecord;
use crate::scalar::{Scalar, ZERO};
use crate::vec::{Point3, Vec3};
use vstd::prelude::*;

verus! {

/// Whether `t` lies in the range from `t_min` to `t_max`, ends included.
pub open spec fn in_range(t: Scalar, t_min: Scalar, t_max: Scalar) -> bool {
    t_min <= t <= t_max
}

/// The root of a sphere's quadratic at which a ray hits the sphere within a
/// range: none where the discriminant is negative; else the smaller root where
/// it lies in the range, else the larger root where that does, else none.
pub open spec fn spec_nearest_root(
    discriminant: Scalar,
    near: Scalar,
    far: Scalar,
    t_min: Scalar,
    t_max: Scalar,
) -> Option<Scalar> {
    if discriminant < ZERO {
        None
    } else if in_range(near, t_min, t_max) {
        Some(near)
    } else if in_range(far, t_min, t_max) {
        Some(far)
    } else {
        None
    }
}

/// The root of a sphere's quadratic at which a ray hits the sphere within the
/// range from `t_min` to `t_max`.
///
/// `near` and `far` are the smaller and the larger root; where the
/// discriminant is negative there are none, and they do not count.
pub fn nearest_root(
    discriminant: Scalar,
    near: Scalar,
    far: Scalar,
    t_min: Scalar,
    t_max: Scalar,
) -> (r: Option<Scalar>)
    ensures
        r == spec_nearest_root(discriminant, near, far, t_min, t_max),
        r matches Some(t) ==> in_range(t, t_min, t_max) && (t == near || t == far),
{
    if discriminant < ZERO {
        return None;
    }
    let mut root: Scalar = near;
    if root < t_min || t_max < root {
        root = far;
        if root < t_min || t_max < root {
            return None;
        }
    }
    Some(root)
}

/// A sphere.
#[derive(Clone, Copy, Debug, PartialEq, Eq)]
pub struct Sphere {
    pub center: Point3,
    pub radius: Scalar,
    /// The host's handle of the sphere's material.
    pub mat_ptr: usize,
}

impl Sphere {
    pub fn new(center: Point3, radius: Scalar, mat_ptr: usize) -> (r: Self)
        ensures
            r == (Sphere { center, radius, mat_ptr }),
    {
        Sphere { center, radius, mat_ptr }
    }

    /// The parameter at which a ray hits the sphere within the range from
    /// `t_min` to `t_max`, given the discriminant and the two roots of the
    /// sphere's quadratic for that ray.
    pub fn hit(
        &self,
        discriminant: Scalar,
        near: Scalar,
        far: Scalar,
        t_min: Scalar,
        t_max: Scalar,
    ) -> (r: Option<Scalar>)
        ensures
            r == spec_nearest_root(discriminant, near, far, t_min, t_max),
    {
        nearest_root(discriminant, near, far, t_min, t_max)
    }

    /// The record of a hit on the sphere at the parameter `t`.
    ///
    /// The host gives the point `p` that the ray reaches at `t`, the normal
    /// there that points away from the centre, whether the ray runs against
    /// that normal, and the surface coordinates of `p`.
    pub fn record(
        &self,
        t: Scalar,
        p: Point3,
        outward_normal: Vec3,
        front_face: bool,
        uv: (Scalar, Scalar),
    ) -> (rec: HitRecord)
        ensures
            rec == (HitRecord {
                p,
                normal: if front_face {
                    outward_normal
                } else {
                    outward_normal.spec_neg()
                },
                t,
                u: uv.0,
                v: uv.1,
                front_face,
                mat_ptr: Some(self.mat_ptr),
            }),
    {
        let mut rec = HitRecord::default();
        rec.t = t;
        rec.p = p;
        rec.set_face_normal(front_face, outward_normal);
        rec.set_uv(uv);
        rec.mat_ptr = Some(self.mat_ptr);
        rec
    }
}

/// A sphere whose centre moves in a straight line from one place to another
/// while the shutter is open.
#[derive(Clone, Copy, Debug, PartialEq, Eq)]
pub struct MovingSphere {
    /// Where the centre is at the first and at the second moment.
    pub center: (Point3, Point3),
    /// The two moments.
    pub time: (Scalar, Scalar),
    pub radius: Scalar,
    /// The host's handle of the sphere's material.
    pub mat_ptr: usize,
}

impl MovingSphere {
    pub fn new(center: (Point3, Point3), time: (Scalar, Scalar), radius: Scalar, mat_ptr: usize) -> (r:
        Self)
        ensures
            r == (MovingSphere { center, time, radius, mat_ptr }),
    {
        MovingSphere { center, time, radius, mat_ptr }
    }

    /// The parameter at which a ray hits the sphere within the range from
    /// `t_min` to `t_max`, given the discriminant and the two roots of the
    /// quadratic of the sphere as it stands at the ray's moment.
    pub fn hit(
        &self,
        discriminant: Scalar,
        near: Scalar,
        far: Scalar,
        t_min: Scalar,
        t_max: Scalar,
    ) -> (r: Option<Scalar>)
        ensures
            r == spec_nearest_root(discriminant, near, far, t_min, t_max),
    {
        nearest_root(discriminant, near, far, t_min, t_max)
    }

    /// The record of a hit on the sphere at the parameter `t`. A moving sphere
    /// has no surface coordinates: both stay zero.
    pub fn record(&self, t: Scalar, p: Point3, outward_normal: Vec3, front_face: bool) -> (rec:
        HitRecord)
        ensures
            rec == (HitRecord {
                p,
                normal: if front_face {
                    outward_normal
                } else {
                    outward_normal.spec_neg()
                },
                t,
                u: ZERO,
                v: ZERO,
                front_face,
                mat_ptr: Some(self.mat_ptr),
            }),
    {
        let mut rec = HitRecord::default();
        rec.t = t;
        rec.p = p;
        rec.set_face_normal(front_face, outward_normal);
        rec.mat_ptr = Some(self.mat_ptr);
        rec
    }

    /// The box around the sphere over a span of time: the union of the box
    /// around it at the start of the span and the box around it at the end,
    /// which the host computes. There always is one.
    pub fn bounding_box(&self, at_start: AABB, at_end: AABB, output_box: &mut AABB) -> (r: bool)
        ensures
            r,
            *final(output_box) == at_start.union(at_end),
    {
        *output_box = surrounding_box((at_start, at_end));
        true
    }
}

} // verus!
