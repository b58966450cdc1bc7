//! Rectangles that lie across an axis.

use crate::aabb::AABB;
use crate::hittable::HitRecord;
use crate::scalar::{Scalar, ONE, ZERO};
use crate::vec::{Point3, Vec3};
use vstd::prelude::*;

verus! {

/// Whether a ray that crosses a rectangle's plane at the parameter `t`, in the
/// point `(a, b)` of that plane, hits the rectangle within the range from
/// `t_min` to `t_max`: `t` lies in the range, and `a` and `b` within the
/// rectangle's two extents, ends included.
pub open spec fn crosses_within(
    t: Scalar,
    a: Scalar,
    b: Scalar,
    t_min: Scalar,
    t_max: Scalar,
    extent_a: (Scalar, Scalar),
    extent_b: (Scalar, Scalar),
) -> bool {
    &&& t_min <= t <= t_max
    &&& extent_a.0 <= a <= extent_a.1
    &&& extent_b.0 <= b <= extent_b.1
}

/// The record of a hit on a rectangle with the given outward normal.
pub open spec fn plane_record(
    mp: usize,
    outward_normal: Vec3,
    t: Scalar,
    p: Point3,
    uv: (Scalar, Scalar),
    front_face: bool,
) -> HitRecord {
    HitRecord {
        p,
        normal: if front_face {
            outward_normal
        } else {
            outward_normal.spec_neg()
        },
        t,
        u: uv.0,
        v: uv.1,
        front_face,
        mat_ptr: Some(mp),
    }
}

fn crossing(
    t: Scalar,
    a: Scalar,
    b: Scalar,
    t_min: Scalar,
    t_max: Scalar,
    extent_a: (Scalar, Scalar),
    extent_b: (Scalar, Scalar),
) -> (r: bool)
    ensures
        r == crosses_within(t, a, b, t_min, t_max, extent_a, extent_b),
{
    if t < t_min || t > t_max {
        return false;
    }
    if a < extent_a.0 || a > extent_a.1 || b < extent_b.0 || b > extent_b.1 {
        return false;
    }
    true
}

fn record_of(
    mp: usize,
    outward_normal: Vec3,
    t: Scalar,
    p: Point3,
    uv: (Scalar, Scalar),
    front_face: bool,
) -> (rec: HitRecord)
    ensures
        rec == plane_record(mp, outward_normal, t, p, uv, front_face),
{
    let mut rec = HitRecord::default();
    rec.set_uv(uv);
    rec.t = t;
    rec.set_face_normal(front_face, outward_normal);
    rec.mat_ptr = Some(mp);
    rec.p = p;
    rec
}

/// A rectangle in the plane `z = k`.
#[derive(Clone, Copy, Debug, PartialEq, Eq)]
pub struct XYPlane {
    /// The host's handle of the rectangle's material.
    pub mp: usize,
    /// The rectangle's extent along x and along y.
    pub x: (Scalar, Scalar),
    pub y: (Scalar, Scalar),
    pub k: Scalar,
}

impl XYPlane {
    pub fn new(mp: usize, x: (Scalar, Scalar), y: (Scalar, Scalar), k: Scalar) -> (r: Self)
        ensures
            r == (XYPlane { mp, x, y, k }),
    {
        XYPlane { mp, x, y, k }
    }

    /// Whether a ray hits the rectangle within the range from `t_min` to
    /// `t_max`, where the ray crosses the rectangle's plane at the parameter
    /// `t`, in the point with the coordinates `x` and `y`.
    pub fn hit(&self, t: Scalar, x: Scalar, y: Scalar, t_min: Scalar, t_max: Scalar) -> (r: bool)
        ensures
            r == crosses_within(t, x, y, t_min, t_max, self.x, self.y),
    {
        crossing(t, x, y, t_min, t_max, self.x, self.y)
    }

    /// The record of a hit at the parameter `t` in the point `p`, whose
    /// place within the rectangle's extents is `uv`. The rectangle's outward
    /// normal points along z.
    pub fn record(&self, t: Scalar, p: Point3, uv: (Scalar, Scalar), front_face: bool) -> (rec:
        HitRecord)
        ensures
            rec == plane_record(self.mp, Vec3(ZERO, ZERO, ONE), t, p, uv, front_face),
    {
        record_of(self.mp, Vec3(ZERO, ZERO, ONE), t, p, uv, front_face)
    }

    /// The box around the rectangle: its extents, and along z the thin slab
    /// from `below` to `above`, which the host places a little to both sides
    /// of the plane so that the box is not flat. There always is one.
    pub fn bounding_box(&self, below: Scalar, above: Scalar, output_box: &mut AABB) -> (r: bool)
        ensures
            r,
            *final(output_box) == (AABB {
                minimum: Vec3(self.x.0, self.y.0, below),
                maximum: Vec3(self.x.1, self.y.1, above),
            }),
    {
        *output_box = AABB::new(
            Point3::new((self.x.0, self.y.0, below)),
            Point3::new((self.x.1, self.y.1, above)),
        );
        true
    }
}

/// A rectangle in the plane `y = k`.
#[derive(Clone, Copy, Debug, PartialEq, Eq)]
pub struct XZPlane {
    /// The host's handle of the rectangle's material.
    pub mp: usize,
    /// The rectangle's extent along x and along z.
    pub x: (Scalar, Scalar),
    pub z: (Scalar, Scalar),
    pub k: Scalar,
}

impl XZPlane {
    pub fn new(mp: usize, x: (Scalar, Scalar), z: (Scalar, Scalar), k: Scalar) -> (r: Self)
        ensures
            r == (XZPlane { mp, x, z, k }),
    {
        XZPlane { mp, x, z, k }
    }

    /// Whether a ray hits the rectangle within the range from `t_min` to
    /// `t_max`, where the ray crosses the rectangle's plane at the parameter
    /// `t`, in the point with the coordinates `x` and `z`.
    pub fn hit(&self, t: Scalar, x: Scalar, z: Scalar, t_min: Scalar, t_max: Scalar) -> (r: bool)
        ensures
            r == crosses_within(t, x, z, t_min, t_max, self.x, self.z),
    {
        crossing(t, x, z, t_min, t_max, self.x, self.z)
    }

    /// The record of a hit at the parameter `t` in the point `p`, whose
    /// place within the rectangle's extents is `uv`. The rectangle's outward
    /// normal points along y.
    pub fn record(&self, t: Scalar, p: Point3, uv: (Scalar, Scalar), front_face: bool) -> (rec:
        HitRecord)
        ensures
            rec == plane_record(self.mp, Vec3(ZERO, ONE, ZERO), t, p, uv, front_face),
    {
        record_of(self.mp, Vec3(ZERO, ONE, ZERO), t, p, uv, front_face)
    }

    /// The box around the rectangle: its extents, and along y the thin slab
    /// from `below` to `above`. There always is one.
    pub fn bounding_box(&self, below: Scalar, above: Scalar, output_box: &mut AABB) -> (r: bool)
        ensures
            r,
            *final(output_box) == (AABB {
                minimum: Vec3(self.x.0, below, self.z.0),
                maximum: Vec3(self.x.1, above, self.z.1),
            }),
    {
        *output_box = AABB::new(
            Point3::new((self.x.0, below, self.z.0)),
            Point3::new((self.x.1, above, self.z.1)),
        );
        true
    }
}

/// A rectangle in the plane `x = k`.
#[derive(Clone, Copy, Debug, PartialEq, Eq)]
pub struct YZPlane {
    /// The host's handle of the rectangle's material.
    pub mp: usize,
    /// The rectangle's extent along y and along z.
    pub y: (Scalar, Scalar),
    pub z: (Scalar, Scalar),
    pub k: Scalar,
}

impl YZPlane {
    pub fn new(mp: usize, y: (Scalar, Scalar), z: (Scalar, Scalar), k: Scalar) -> (r: Self)
        ensures
            r == (YZPlane { mp, y, z, k }),
    {
        YZPlane { mp, y, z, k }
    }

    /// Whether a ray hits the rectangle within the range from `t_min` to
    /// `t_max`, where the ray crosses the rectangle's plane at the parameter
    /// `t`, in the point with the coordinates `y` and `z`.
    pub fn hit(&self, t: Scalar, y: Scalar, z: Scalar, t_min: Scalar, t_max: Scalar) -> (r: bool)
        ensures
            r == crosses_within(t, y, z, t_min, t_max, self.y, self.z),
    {
        crossing(t, y, z, t_min, t_max, self.y, self.z)
    }

    /// The record of a hit at the parameter `t` in the point `p`, whose
    /// place within the rectangle's extents is `uv`. The rectangle's outward
    /// normal points along x.
    pub fn record(&self, t: Scalar, p: Point3, uv: (Scalar, Scalar), front_face: bool) -> (rec:
        HitRecord)
        ensures
            rec == plane_record(self.mp, Vec3(ONE, ZERO, ZERO), t, p, uv, front_face),
    {
        record_of(self.mp, Vec3(ONE, ZERO, ZERO), t, p, uv, front_face)
    }

    /// The box around the rectangle: its extents, and along x the thin slab
    /// from `below` to `above`. There always is one.
    pub fn bounding_box(&self, below: Scalar, above: Scalar, output_box: &mut AABB) -> (r: bool)
        ensures
            r,
            *final(output_box) == (AABB {
                minimum: Vec3(below, self.y.0, self.z.0),
                maximum: Vec3(above, self.y.1, self.z.1),
            }),
    {
        *output_box = AABB::new(
            Point3::new((below, self.y.0, self.z.0)),
            Point3::new((above, self.y.1, self.z.1)),
        );
        true
    }
}

} // verus!
