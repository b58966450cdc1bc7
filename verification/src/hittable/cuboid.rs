//! Boxes made of six rectangles, and objects turned about the y axis.

use crate::aabb::AABB;
use crate::hittable::plane::{XYPlane, XZPlane, YZPlane};
use crate::scalar::{Scalar, INFINITY, NEG_INFINITY};
use crate::vec::{Point3, Vec3};
use vstd::prelude::*;

verus! {

/// One side of a box.
#[derive(Clone, Copy, Debug, PartialEq, Eq)]
pub enum Side {
    XY(XYPlane),
    XZ(XZPlane),
    YZ(YZPlane),
}

/// The six sides of the box between the corners `min` and `max`, all of the
/// material `mat_ptr`: for each axis the rectangle at the upper and the one at
/// the lower end, each as wide as the box is along the two other axes.
pub open spec fn box_sides(min: Point3, max: Point3, mat_ptr: usize) -> Seq<Side> {
    seq![
        Side::XY(XYPlane { mp: mat_ptr, x: (min.0, max.0), y: (min.1, max.1), k: max.2 }),
        Side::XY(XYPlane { mp: mat_ptr, x: (min.0, max.0), y: (min.1, max.1), k: min.2 }),
        Side::XZ(XZPlane { mp: mat_ptr, x: (min.0, max.0), z: (min.2, max.2), k: max.1 }),
        Side::XZ(XZPlane { mp: mat_ptr, x: (min.0, max.0), z: (min.2, max.2), k: min.1 }),
        Side::YZ(YZPlane { mp: mat_ptr, y: (min.1, max.1), z: (min.2, max.2), k: max.0 }),
        Side::YZ(YZPlane { mp: mat_ptr, y: (min.1, max.1), z: (min.2, max.2), k: min.0 }),
    ]
}

/// A box with its sides along the axes. A ray hits the box where it first
/// hits one of the sides.
#[derive(Debug, PartialEq, Eq)]
pub struct Box {
    pub min: Point3,
    pub max: Point3,
    pub sides: Vec<Side>,
}

impl Default for Box {
    /// The box at the origin, without sides.
    fn default() -> (r: Self)
        ensures
            r.min == Vec3(0, 0, 0),
            r.max == Vec3(0, 0, 0),
            r.sides@ == Seq::<Side>::empty(),
    {
        Box { min: Vec3(0, 0, 0), max: Vec3(0, 0, 0), sides: Vec::new() }
    }
}

impl Box {
    /// The box between the corners `min` and `max`, of the material with the
    /// handle `mat_ptr`.
    pub fn new(min: Point3, max: Point3, mat_ptr: usize) -> (r: Self)
        ensures
            r.min == min,
            r.max == max,
            r.sides@ == box_sides(min, max, mat_ptr),
    {
        let mut sides: Vec<Side> = Vec::new();
        sides.push(
            Side::XY(XYPlane::new(mat_ptr, (min.x(), max.x()), (min.y(), max.y()), max.z())),
        );
        sides.push(
            Side::XY(XYPlane::new(mat_ptr, (min.x(), max.x()), (min.y(), max.y()), min.z())),
        );
        sides.push(
            Side::XZ(XZPlane::new(mat_ptr, (min.x(), max.x()), (min.z(), max.z()), max.y())),
        );
        sides.push(
            Side::XZ(XZPlane::new(mat_ptr, (min.x(), max.x()), (min.z(), max.z()), min.y())),
        );
        sides.push(
            Side::YZ(YZPlane::new(mat_ptr, (min.y(), max.y()), (min.z(), max.z()), max.x())),
        );
        sides.push(
            Side::YZ(YZPlane::new(mat_ptr, (min.y(), max.y()), (min.z(), max.z()), min.x())),
        );
        assert(sides@ =~= box_sides(min, max, mat_ptr));
        Box { min, max, sides }
    }

    /// The box around the box: the box itself. There always is one.
    pub fn bounding_box(&self, output_box: &mut AABB) -> (r: bool)
        ensures
            r,
            *final(output_box) == (AABB { minimum: self.min, maximum: self.max }),
    {
        *output_box = AABB::new(self.min, self.max);
        true
    }
}

/// The smallest box that holds the first `n` of the given points; for no
/// point, the box from positive to negative infinity, which holds nothing.
pub open spec fn enclosure(points: Seq<Point3>, n: int) -> AABB
    decreases n,
{
    if n <= 0 {
        AABB {
            minimum: Vec3(INFINITY, INFINITY, INFINITY),
            maximum: Vec3(NEG_INFINITY, NEG_INFINITY, NEG_INFINITY),
        }
    } else {
        let before = enclosure(points, n - 1);
        AABB {
            minimum: points[n - 1].spec_min(before.minimum),
            maximum: points[n - 1].spec_max(before.maximum),
        }
    }
}

/// The enclosure of points holds each of them.
pub proof fn lemma_enclosure_holds(points: Seq<Point3>, n: int, i: int)
    requires
        0 <= i < n <= points.len(),
    ensures
        enclosure(points, n).minimum.le(points[i]),
        points[i].le(enclosure(points, n).maximum),
    decreases n,
{
    if i < n - 1 {
        lemma_enclosure_holds(points, n - 1, i);
    }
}

/// An object turned about the y axis.
#[derive(Clone, Copy, Debug, PartialEq, Eq)]
pub struct RotateY {
    /// The host's handle of the object.
    pub ptr: usize,
    /// The sine and the cosine of the angle.
    pub sin_theta: Scalar,
    pub cos_theta: Scalar,
    /// Whether the object has a box.
    pub hasbox: bool,
    /// The box around the turned object.
    pub bbox: AABB,
}

impl RotateY {
    /// The object with the handle `ptr`, turned by the angle whose sine and
    /// cosine are given.
    ///
    /// `corners` are the eight corners of the object's own box after the
    /// turn, which the host computes; the box around the turned object is the
    /// smallest that holds them all. `hasbox` says whether the object has a
    /// box at all.
    pub fn new(
        ptr: usize,
        sin_theta: Scalar,
        cos_theta: Scalar,
        hasbox: bool,
        corners: &[Point3; 8],
    ) -> (r: Self)
        ensures
            r == (RotateY { ptr, sin_theta, cos_theta, hasbox, bbox: enclosure(corners@, 8) }),
    {
        let mut min = Point3::new((INFINITY, INFINITY, INFINITY));
        let mut max = Point3::new((NEG_INFINITY, NEG_INFINITY, NEG_INFINITY));
        let mut i: usize = 0;
        while i < 8
            invariant
                i <= 8,
                (AABB { minimum: min, maximum: max }) == enclosure(corners@, i as int),
            decreases 8 - i,
        {
            min = corners[i].min(&min);
            max = corners[i].max(&max);
            i = i + 1;
        }
        RotateY { ptr, sin_theta, cos_theta, hasbox, bbox: AABB::new(min, max) }
    }

    /// The box around the turned object, if the object has one.
    pub fn bounding_box(&self, output_box: &mut AABB) -> (r: bool)
        ensures
            r == self.hasbox,
            *final(output_box) == self.bbox,
    {
        *output_box = self.bbox;
        self.hasbox
    }
}

} // verus!
