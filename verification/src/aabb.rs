//! Axis-aligned bounding boxes.

use crate::scalar::{greater, lesser, spec_greater, spec_lesser, Scalar};
use crate::vec::{Point3, Vec3};
use vstd::prelude::*;

verus! {

/// A box given by its two extreme corners. It may be flat along an axis.
#[derive(Clone, Copy, Debug, PartialEq, Eq, Structural)]
pub struct AABB {
    pub minimum: Point3,
    pub maximum: Point3,
}

impl Default for AABB {
    /// The box whose two corners are the origin.
    fn default() -> (r: Self)
        ensures
            r == (AABB { minimum: Vec3(0, 0, 0), maximum: Vec3(0, 0, 0) }),
    {
        AABB { minimum: Vec3(0, 0, 0), maximum: Vec3(0, 0, 0) }
    }
}

/// The part of the parameter range `t_in` that lies between the two crossings
/// of each of the first `n` axes. The pair is the interval's lower and upper
/// end; the interval is empty when the lower end is above the upper one.
pub open spec fn slab_interval(
    crossings: [(Scalar, Scalar); 3],
    t_in: (Scalar, Scalar),
    n: int,
) -> (Scalar, Scalar)
    decreases n,
{
    if n <= 0 {
        t_in
    } else {
        let before = slab_interval(crossings, t_in, n - 1);
        let c = crossings[n - 1];
        (
            spec_greater(before.0, spec_lesser(c.0, c.1)),
            spec_lesser(before.1, spec_greater(c.0, c.1)),
        )
    }
}

/// Whether the parameter `t` lies in `t_in` and between the two crossings of
/// every axis.
pub open spec fn inside_all_slabs(
    crossings: [(Scalar, Scalar); 3],
    t_in: (Scalar, Scalar),
    t: Scalar,
) -> bool {
    &&& t_in.0 <= t <= t_in.1
    &&& forall|a: int|
        0 <= a < 3 ==> spec_lesser(crossings[a].0, crossings[a].1) <= t <= spec_greater(
            (#[trigger] crossings[a]).0,
            crossings[a].1,
        )
}

impl AABB {
    /// Whether `other` lies within `self`.
    pub open spec fn contains(self, other: AABB) -> bool {
        self.minimum.le(other.minimum) && other.maximum.le(self.maximum)
    }

    /// The smallest box that holds both `self` and `other`.
    pub open spec fn union(self, other: AABB) -> AABB {
        AABB {
            minimum: self.minimum.spec_min(other.minimum),
            maximum: self.maximum.spec_max(other.maximum),
        }
    }

    pub fn new(minimum: Point3, maximum: Point3) -> (r: AABB)
        ensures
            r == (AABB { minimum, maximum }),
    {
        AABB { minimum, maximum }
    }

    pub fn min(&self) -> (r: Point3)
        ensures
            r == self.minimum,
    {
        self.minimum
    }

    pub fn max(&self) -> (r: Point3)
        ensures
            r == self.maximum,
    {
        self.maximum
    }

    /// The slab test, on the crossings that the host has computed.
    ///
    /// For each axis the host divides the distance from the ray's origin to the
    /// box's lower and upper plane by the ray's direction along that axis, and
    /// passes the two quotients in that order. The smaller quotient is where the
    /// ray enters the slab and the larger where it leaves, whatever the sign of
    /// the direction. The ray meets the box within `t_in` exactly if some
    /// parameter of `t_in` lies inside all three slabs. The scan stops at the
    /// first axis that leaves nothing.
    pub fn hit(crossings: &[(Scalar, Scalar); 3], t_in: (Scalar, Scalar)) -> (r: bool)
        ensures
            r == (slab_interval(*crossings, t_in, 3).0 <= slab_interval(*crossings, t_in, 3).1),
            r == exists|t: Scalar| inside_all_slabs(*crossings, t_in, t),
    {
        let mut t0: Scalar = t_in.0;
        let mut t1: Scalar = t_in.1;
        let mut a: usize = 0;
        while a < 3
            invariant
                a <= 3,
                (t0, t1) == slab_interval(*crossings, t_in, a as int),
                t0 <= t1 || a == 0,
            decreases 3 - a,
        {
            let c = crossings[a];
            t0 = greater(t0, lesser(c.0, c.1));
            t1 = lesser(t1, greater(c.0, c.1));
            if t1 < t0 {
                proof {
                    lemma_slab_interval_shrinks(*crossings, t_in, a as int + 1, 3);
                    lemma_slab_interval_sound(*crossings, t_in);
                }
                return false;
            }
            a = a + 1;
        }
        proof {
            lemma_slab_interval_sound(*crossings, t_in);
        }
        t0 <= t1
    }
}

/// Taking more axes into account can only shrink the interval.
pub proof fn lemma_slab_interval_shrinks(
    crossings: [(Scalar, Scalar); 3],
    t_in: (Scalar, Scalar),
    m: int,
    n: int,
)
    requires
        0 <= m <= n,
    ensures
        slab_interval(crossings, t_in, m).0 <= slab_interval(crossings, t_in, n).0,
        slab_interval(crossings, t_in, n).1 <= slab_interval(crossings, t_in, m).1,
    decreases n - m,
{
    if m < n {
        lemma_slab_interval_shrinks(crossings, t_in, m, n - 1);
    }
}

/// The interval over all three axes holds exactly the parameters that lie in
/// `t_in` and inside every slab.
pub proof fn lemma_slab_interval_sound(crossings: [(Scalar, Scalar); 3], t_in: (Scalar, Scalar))
    ensures
        forall|t: Scalar|
            inside_all_slabs(crossings, t_in, t) <==> slab_interval(crossings, t_in, 3).0 <= t
                <= slab_interval(crossings, t_in, 3).1,
        (slab_interval(crossings, t_in, 3).0 <= slab_interval(crossings, t_in, 3).1)
            == exists|t: Scalar| inside_all_slabs(crossings, t_in, t),
{
    reveal_with_fuel(slab_interval, 4);
    let iv = slab_interval(crossings, t_in, 3);
    assert forall|t: Scalar| inside_all_slabs(crossings, t_in, t) <==> iv.0 <= t <= iv.1 by {
        if inside_all_slabs(crossings, t_in, t) {
            assert(spec_lesser(crossings[0].0, crossings[0].1) <= t);
            assert(spec_lesser(crossings[1].0, crossings[1].1) <= t);
            assert(spec_lesser(crossings[2].0, crossings[2].1) <= t);
        }
    }
    if iv.0 <= iv.1 {
        assert(inside_all_slabs(crossings, t_in, iv.0));
    }
}

/// The smallest box that holds both boxes of the pair.
pub fn surrounding_box(input: (AABB, AABB)) -> (r: AABB)
    ensures
        r == input.0.union(input.1),
{
    let small = input.0.min().min(&input.1.min());
    let big = input.0.max().max(&input.1.max());
    AABB::new(small, big)
}

/// The union of two boxes does not depend on their order.
pub proof fn lemma_union_commutative(a: AABB, b: AABB)
    ensures
        a.union(b) == b.union(a),
{
}

/// Uniting three boxes gives the same box however they are grouped.
pub proof fn lemma_union_associative(a: AABB, b: AABB, c: AABB)
    ensures
        a.union(b).union(c) == a.union(b.union(c)),
{
}

/// The union holds both of its inputs, and every box that holds both inputs
/// holds the union.
pub proof fn lemma_union_least_upper_bound(a: AABB, b: AABB, c: AABB)
    ensures
        a.union(b).contains(a),
        a.union(b).contains(b),
        c.contains(a) && c.contains(b) ==> c.contains(a.union(b)),
{
}

/// Containment is reflexive and transitive.
pub proof fn lemma_contains_order(a: AABB, b: AABB, c: AABB)
    ensures
        a.contains(a),
        a.contains(b) && b.contains(c) ==> a.contains(c),
{
}

/// Two boxes that hold each other are the same box.
pub proof fn lemma_contains_antisymmetric(a: AABB, b: AABB)
    requires
        a.contains(b),
        b.contains(a),
    ensures
        a == b,
{
}

/// A ray that meets a box within a range meets it within every wider range.
pub proof fn lemma_slab_hit_widens(
    crossings: [(Scalar, Scalar); 3],
    t_in: (Scalar, Scalar),
    wider: (Scalar, Scalar),
)
    requires
        wider.0 <= t_in.0,
        t_in.1 <= wider.1,
        exists|t: Scalar| inside_all_slabs(crossings, t_in, t),
    ensures
        exists|t: Scalar| inside_all_slabs(crossings, wider, t),
{
    let t = choose|t: Scalar| inside_all_slabs(crossings, t_in, t);
    assert(inside_all_slabs(crossings, wider, t));
}

} // verus!
