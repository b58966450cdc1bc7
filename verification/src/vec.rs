//! Triples of scalars: points, directions and colours as the library stores them.

use crate::scalar::{
    greater, lesser, magnitude, negate, spec_greater, spec_lesser, spec_magnitude, spec_negate,
    Scalar, NEAR_ZERO, ONE, ZERO,
};
use vstd::prelude::*;

verus! {

/// Three scalars. Two triples are equal when their components are.
#[derive(Clone, Copy, Debug, PartialEq, Eq, Structural)]
pub struct Vec3(pub Scalar, pub Scalar, pub Scalar);

/// A position.
pub type Point3 = Vec3;

/// A colour: red, green and blue.
pub type Color = Vec3;

impl Default for Vec3 {
    /// The triple of three positive zeros.
    fn default() -> (r: Self)
        ensures
            r == Vec3(ZERO, ZERO, ZERO),
    {
        Vec3(ZERO, ZERO, ZERO)
    }
}

impl Vec3 {
    /// The component with the given index; positive zero for an index above 2.
    pub open spec fn spec_get(self, index: int) -> Scalar {
        if index == 0 {
            self.0
        } else if index == 1 {
            self.1
        } else if index == 2 {
            self.2
        } else {
            ZERO
        }
    }

    /// Whether every component has a magnitude below [`NEAR_ZERO`].
    pub open spec fn spec_near_zero(self) -> bool {
        &&& spec_magnitude(self.0) < NEAR_ZERO
        &&& spec_magnitude(self.1) < NEAR_ZERO
        &&& spec_magnitude(self.2) < NEAR_ZERO
    }

    /// The triple with every component negated.
    pub open spec fn spec_neg(self) -> Vec3 {
        Vec3(spec_negate(self.0), spec_negate(self.1), spec_negate(self.2))
    }

    /// The componentwise smaller of two triples.
    pub open spec fn spec_min(self, other: Vec3) -> Vec3 {
        Vec3(
            spec_lesser(self.0, other.0),
            spec_lesser(self.1, other.1),
            spec_lesser(self.2, other.2),
        )
    }

    /// The componentwise larger of two triples.
    pub open spec fn spec_max(self, other: Vec3) -> Vec3 {
        Vec3(
            spec_greater(self.0, other.0),
            spec_greater(self.1, other.1),
            spec_greater(self.2, other.2),
        )
    }

    /// Whether every component of `self` is at most the matching one of `other`.
    pub open spec fn le(self, other: Vec3) -> bool {
        self.0 <= other.0 && self.1 <= other.1 && self.2 <= other.2
    }

    pub fn new(e: (Scalar, Scalar, Scalar)) -> (r: Self)
        ensures
            r == Vec3(e.0, e.1, e.2),
    {
        Vec3(e.0, e.1, e.2)
    }

    /// The triple whose three components are all `s`.
    pub fn triple(s: Scalar) -> (r: Self)
        ensures
            r == Vec3(s, s, s),
    {
        Vec3(s, s, s)
    }

    pub fn x_mut(&mut self) -> (r: &mut Scalar)
        ensures
            *r == old(self).0,
            *final(self) == Vec3(*final(r), old(self).1, old(self).2),
    {
        &mut self.0
    }

    pub fn y_mut(&mut self) -> (r: &mut Scalar)
        ensures
            *r == old(self).1,
            *final(self) == Vec3(old(self).0, *final(r), old(self).2),
    {
        &mut self.1
    }

    pub fn z_mut(&mut self) -> (r: &mut Scalar)
        ensures
            *r == old(self).2,
            *final(self) == Vec3(old(self).0, old(self).1, *final(r)),
    {
        &mut self.2
    }

    pub fn x(&self) -> (r: Scalar)
        ensures
            r == self.0,
    {
        self.0
    }

    pub fn y(&self) -> (r: Scalar)
        ensures
            r == self.1,
    {
        self.1
    }

    pub fn z(&self) -> (r: Scalar)
        ensures
            r == self.2,
    {
        self.2
    }

    /// The component with the given index; positive zero for an index above 2.
    pub fn get(&self, index: usize) -> (r: Scalar)
        ensures
            r == self.spec_get(index as int),
    {
        if index == 0 {
            self.0
        } else if index == 1 {
            self.1
        } else if index == 2 {
            self.2
        } else {
            ZERO
        }
    }

    /// Whether the triple is close enough to zero to be useless as a direction.
    pub fn near_zero(&self) -> (r: bool)
        ensures
            r == self.spec_near_zero(),
    {
        magnitude(self.0) < NEAR_ZERO && magnitude(self.1) < NEAR_ZERO && magnitude(self.2)
            < NEAR_ZERO
    }

    /// The opposite triple.
    pub fn neg(self) -> (r: Self)
        ensures
            r == self.spec_neg(),
    {
        Vec3(negate(self.0), negate(self.1), negate(self.2))
    }

    /// A random vector of the unit sphere, by rejection.
    ///
    /// `candidate` is a random vector of the cube around the unit sphere and
    /// `len_squared` the square of its length, both from the host. The
    /// candidate is taken exactly if it lies inside the sphere; the host draws
    /// again until one is.
    pub fn random_in_unit_sphere(candidate: Vec3, len_squared: Scalar) -> (r: Option<Vec3>)
        ensures
            r == if len_squared >= ONE {
                None
            } else {
                Some(candidate)
            },
    {
        if len_squared >= ONE {
            return None;
        }
        Some(candidate)
    }

    /// A random vector of the unit sphere, turned to the side of `normal`.
    ///
    /// `in_unit_sphere` is the random vector and `facing` its inner product
    /// with the normal, both from the host: the vector stays as it is where
    /// `facing` is positive, and is turned round otherwise.
    pub fn random_in_hemisphere(in_unit_sphere: Vec3, facing: Scalar) -> (r: Self)
        ensures
            r == if facing > ZERO {
                in_unit_sphere
            } else {
                in_unit_sphere.spec_neg()
            },
    {
        if facing > ZERO {
            return in_unit_sphere;
        }
        in_unit_sphere.neg()
    }

    /// The componentwise smaller of two triples.
    pub fn min(&self, other: &Self) -> (r: Self)
        ensures
            r == self.spec_min(*other),
    {
        Vec3(lesser(self.0, other.0), lesser(self.1, other.1), lesser(self.2, other.2))
    }

    /// The componentwise larger of two triples.
    pub fn max(&self, other: &Self) -> (r: Self)
        ensures
            r == self.spec_max(*other),
    {
        Vec3(greater(self.0, other.0), greater(self.1, other.1), greater(self.2, other.2))
    }
}

} // verus!
