//! What the library knows of the things a ray can hit: the record of a hit, the
//! handle of an object, and the plain list of objects.

use crate::aabb::{surrounding_box, AABB};
use crate::scalar::{Scalar, ZERO};
use crate::vec::{Point3, Vec3};
use vstd::prelude::*;

pub mod constant_medium;
pub mod cuboid;
pub mod plane;
pub mod sphere;

verus! {

/// Where and how a ray met a surface.
#[derive(Clone, Copy, Debug, PartialEq, Eq)]
pub struct HitRecord {
    /// The point that was hit.
    pub p: Point3,
    /// The unit normal at that point, turned against the ray.
    pub normal: Vec3,
    /// The ray's parameter at that point.
    pub t: Scalar,
    /// The surface coordinates of that point.
    pub u: Scalar,
    pub v: Scalar,
    /// Whether the ray came from outside.
    pub front_face: bool,
    /// The host's handle of the material at that point.
    pub mat_ptr: Option<usize>,
}

impl Default for HitRecord {
    fn default() -> (r: Self)
        ensures
            r == (HitRecord {
                p: Vec3(ZERO, ZERO, ZERO),
                normal: Vec3(ZERO, ZERO, ZERO),
                t: ZERO,
                u: ZERO,
                v: ZERO,
                front_face: false,
                mat_ptr: None,
            }),
    {
        HitRecord {
            p: Vec3(ZERO, ZERO, ZERO),
            normal: Vec3(ZERO, ZERO, ZERO),
            t: ZERO,
            u: ZERO,
            v: ZERO,
            front_face: false,
            mat_ptr: None,
        }
    }
}

impl HitRecord {
    /// Records on which side the ray came in and turns the normal against it.
    ///
    /// `front_face` says whether the ray runs against `outward_normal`, that is
    /// whether their inner product, which the host computes, is negative.
    pub fn set_face_normal(&mut self, front_face: bool, outward_normal: Vec3)
        ensures
            *final(self) == (HitRecord {
                front_face,
                normal: if front_face {
                    outward_normal
                } else {
                    outward_normal.spec_neg()
                },
                ..*old(self)
            }),
    {
        self.front_face = front_face;
        self.normal = if front_face {
            outward_normal
        } else {
            outward_normal.neg()
        };
    }

    pub fn set_uv(&mut self, input: (Scalar, Scalar))
        ensures
            *final(self) == (HitRecord { u: input.0, v: input.1, ..*old(self) }),
    {
        self.u = input.0;
        self.v = input.1;
    }
}

/// An object as the library sees it: the handle by which the host finds it
/// again, and the box that bounds it, if it can be bounded.
#[derive(Clone, Copy, Debug, PartialEq, Eq)]
pub struct Entry {
    pub id: usize,
    pub bbox: Option<AABB>,
}

impl Entry {
    /// The box by which the object is ordered and enclosed: its own, or the box
    /// at the origin where it has none.
    pub open spec fn spec_key_box(self) -> AABB {
        match self.bbox {
            Some(b) => b,
            None => AABB { minimum: Vec3(0, 0, 0), maximum: Vec3(0, 0, 0) },
        }
    }

    /// The scalar by which the object is ordered along an axis: the lower
    /// corner of its box along that axis.
    pub open spec fn spec_axis_key(self, axis: int) -> Scalar {
        self.spec_key_box().minimum.spec_get(axis)
    }

    pub fn new(id: usize, bbox: Option<AABB>) -> (r: Self)
        ensures
            r == (Entry { id, bbox }),
    {
        Entry { id, bbox }
    }

    /// The box by which the object is ordered and enclosed.
    pub fn key_box(&self) -> (r: AABB)
        ensures
            r == self.spec_key_box(),
    {
        match self.bbox {
            Some(b) => b,
            None => AABB { minimum: Vec3(0, 0, 0), maximum: Vec3(0, 0, 0) },
        }
    }

    /// The scalar by which the object is ordered along an axis.
    pub fn axis_key(&self, axis: usize) -> (r: Scalar)
        ensures
            r == self.spec_axis_key(axis as int),
    {
        self.key_box().min().get(axis)
    }
}

/// The union of the boxes of the first `n` objects, which all have one.
pub open spec fn union_of(objects: Seq<Entry>, n: int) -> AABB
    decreases n,
{
    if n <= 1 {
        objects[0].bbox->0
    } else {
        union_of(objects, n - 1).union(objects[n - 1].bbox->0)
    }
}

/// Whether each of the first `n` objects has a box.
pub open spec fn all_bounded(objects: Seq<Entry>, n: int) -> bool {
    forall|i: int| 0 <= i < n ==> (#[trigger] objects[i]).bbox is Some
}

/// The union of the boxes of a run of objects holds each of them.
pub proof fn lemma_union_of_contains(objects: Seq<Entry>, n: int, i: int)
    requires
        0 <= i < n <= objects.len(),
        all_bounded(objects, n),
    ensures
        union_of(objects, n).contains(objects[i].bbox->0),
    decreases n,
{
    if n > 1 {
        if i < n - 1 {
            lemma_union_of_contains(objects, n - 1, i);
        }
    }
}

/// Objects in the order in which they were added.
#[derive(Clone, Debug, PartialEq, Eq)]
pub struct HittableList {
    pub objects: Vec<Entry>,
}

impl HittableList {
    pub fn new() -> (r: Self)
        ensures
            r.objects@ == Seq::<Entry>::empty(),
    {
        HittableList { objects: Vec::new() }
    }

    pub fn new_with_first_value(object: Entry) -> (r: Self)
        ensures
            r.objects@ == seq![object],
    {
        let mut res = Self::new();
        res.add(object);
        res
    }

    pub fn add(&mut self, object: Entry)
        ensures
            final(self).objects@ == old(self).objects@.push(object),
    {
        self.objects.push(object);
    }

    pub fn clear(&mut self)
        ensures
            final(self).objects@ == Seq::<Entry>::empty(),
    {
        self.objects.clear();
    }

    /// The box around all objects of the list.
    ///
    /// There is one exactly if the list is not empty and each of its objects
    /// has a box. It is then written to `output_box`, which otherwise stays as
    /// it was.
    pub fn bounding_box(&self, output_box: &mut AABB) -> (r: bool)
        ensures
            r == (self.objects@.len() > 0 && all_bounded(
                self.objects@,
                self.objects@.len() as int,
            )),
            r ==> *final(output_box) == union_of(self.objects@, self.objects@.len() as int),
            !r ==> *final(output_box) == *old(output_box),
    {
        if self.objects.len() == 0 {
            return false;
        }
        let mut acc: AABB = match self.objects[0].bbox {
            Some(b) => b,
            None => {
                return false;
            },
        };
        let mut i: usize = 1;
        while i < self.objects.len()
            invariant
                1 <= i <= self.objects@.len(),
                all_bounded(self.objects@, i as int),
                acc == union_of(self.objects@, i as int),
            decreases self.objects@.len() - i,
        {
            match self.objects[i].bbox {
                Some(b) => {
                    acc = surrounding_box((acc, b));
                },
                None => {
                    return false;
                },
            }
            i = i + 1;
        }
        *output_box = acc;
        true
    }
}

} // verus!
