//! The bounding-volume hierarchy: a binary tree of boxes over a set of objects,
//! built once and never changed.

use crate::aabb::{surrounding_box, AABB};
use crate::hittable::{Entry, HittableList};
use crate::random::random_integer_with_range;
use crate::scalar::Scalar;
use vstd::prelude::*;

verus! {

/// One of the two things below a node.
#[derive(Debug, PartialEq, Eq)]
pub enum Child {
    /// An object.
    Leaf(Entry),
    /// A smaller tree.
    Node(Box<BVHNode>),
}

/// A node of the hierarchy: two children and the box around both.
#[derive(Debug, PartialEq, Eq)]
pub struct BVHNode {
    pub left: Child,
    pub right: Child,
    pub bbox: AABB,
}

/// Whether the objects stand in ascending order of their keys along `axis`.
pub open spec fn sorted_along(s: Seq<Entry>, axis: int) -> bool {
    forall|i: int, j: int|
        0 <= i <= j < s.len() ==> (#[trigger] s[i]).spec_axis_key(axis) <= (
        #[trigger] s[j]).spec_axis_key(axis)
}

/// The test that picks the objects whose key along `axis` is `key`.
pub open spec fn has_key(axis: int, key: Scalar) -> spec_fn(Entry) -> bool {
    |e: Entry| e.spec_axis_key(axis) == key
}

/// Whether `sorted` is `objects` put in ascending order of the keys along
/// `axis`, with objects of equal key left in the order they had.
pub open spec fn stably_sorted(sorted: Seq<Entry>, objects: Seq<Entry>, axis: int) -> bool {
    &&& sorted.len() == objects.len()
    &&& sorted.to_multiset() == objects.to_multiset()
    &&& sorted_along(sorted, axis)
    &&& forall|key: Scalar| #[trigger]
        sorted.filter(has_key(axis, key)) == objects.filter(has_key(axis, key))
}

/// Sorts the objects by their keys along `axis`.
///
/// Calls `sort_by_key` of the standard library's slices, with
/// [`Entry::axis_key`] as the key. Not proved: that the call leaves the same
/// objects in ascending order of their keys, and that it keeps objects of equal
/// key in the order they had, as the standard library documents of its stable
/// sort.
#[verifier::external_body]
fn sort_along(objects: &mut Vec<Entry>, axis: usize)
    ensures
        stably_sorted(final(objects)@, old(objects)@, axis as int),
{
    objects.sort_by_key(|e| e.axis_key(axis));
}

impl Child {
    /// The box around what the child holds.
    pub open spec fn spec_bounding_box(self) -> AABB {
        match self {
            Child::Leaf(e) => e.spec_key_box(),
            Child::Node(n) => n.bbox,
        }
    }

    /// Whether the object `e` stands at a leaf of the child.
    pub open spec fn covers(self, e: Entry) -> bool
        decreases self,
    {
        match self {
            Child::Leaf(l) => l == e,
            Child::Node(n) => n.left.covers(e) || n.right.covers(e),
        }
    }

    /// Whether each node's box is the union of its two children's boxes.
    pub open spec fn boxes_fit(self) -> bool
        decreases self,
    {
        match self {
            Child::Leaf(_) => true,
            Child::Node(n) => {
                &&& n.left.boxes_fit()
                &&& n.right.boxes_fit()
                &&& n.bbox == n.left.spec_bounding_box().union(n.right.spec_bounding_box())
            },
        }
    }

    /// The number of nodes and leaves.
    pub open spec fn size(self) -> nat
        decreases self,
    {
        match self {
            Child::Leaf(_) => 1,
            Child::Node(n) => 1 + n.left.size() + n.right.size(),
        }
    }

    /// The box around what the child holds.
    pub fn bounding_box(&self) -> (r: AABB)
        ensures
            r == self.spec_bounding_box(),
    {
        match self {
            Child::Leaf(e) => e.key_box(),
            Child::Node(n) => n.bbox,
        }
    }
}

impl BVHNode {
    /// Whether the object `e` stands at a leaf of the tree.
    pub open spec fn covers(self, e: Entry) -> bool {
        self.left.covers(e) || self.right.covers(e)
    }

    /// Whether each node's box is the union of its two children's boxes.
    pub open spec fn boxes_fit(self) -> bool {
        &&& self.left.boxes_fit()
        &&& self.right.boxes_fit()
        &&& self.bbox == self.left.spec_bounding_box().union(self.right.spec_bounding_box())
    }

    /// Whether the tree is one that [`BVHNode::from_objects`] builds from
    /// `objects`, for some choice of axis at each node.
    ///
    /// A single object stands at both leaves of its node. Of two objects the
    /// one with the strictly smaller key along the axis stands left, and where
    /// neither is smaller the second one does. Three or more are sorted along
    /// the axis and divided in the middle, the smaller half (by one, where the
    /// number is odd) going left; each half makes a tree of its own.
    pub open spec fn built_from(self, objects: Seq<Entry>) -> bool
        decreases self,
    {
        &&& self.bbox == self.left.spec_bounding_box().union(self.right.spec_bounding_box())
        &&& if objects.len() == 1 {
            self.left == Child::Leaf(objects[0]) && self.right == Child::Leaf(objects[0])
        } else if objects.len() == 2 {
            exists|axis: int|
                0 <= axis < 3 && if #[trigger] objects[0].spec_axis_key(axis)
                    < objects[1].spec_axis_key(axis) {
                    self.left == Child::Leaf(objects[0]) && self.right == Child::Leaf(objects[1])
                } else {
                    self.left == Child::Leaf(objects[1]) && self.right == Child::Leaf(objects[0])
                }
        } else {
            &&& objects.len() >= 3
            &&& self.left matches Child::Node(l)
            &&& self.right matches Child::Node(r)
            &&& exists|axis: int, sorted: Seq<Entry>|
                {
                    &&& 0 <= axis < 3
                    &&& #[trigger] stably_sorted(sorted, objects, axis)
                    &&& l.built_from(sorted.subrange(0, objects.len() as int / 2))
                    &&& r.built_from(
                        sorted.subrange(objects.len() as int / 2, objects.len() as int),
                    )
                }
        }
    }

    /// The box around the whole tree. There always is one.
    pub fn bounding_box(&self, output_box: &mut AABB) -> (r: bool)
        ensures
            r,
            *final(output_box) == self.bbox,
    {
        *output_box = self.bbox;
        true
    }

    /// The hierarchy over the objects of a list.
    pub fn from_hittable_list(list: HittableList) -> (r: Self)
        requires
            list.objects@.len() >= 1,
        ensures
            r.built_from(list.objects@),
    {
        Self::from_objects(list.objects)
    }

    /// The hierarchy over the given objects.
    ///
    /// At each node an axis is drawn, and the objects are divided along it as
    /// [`divide`] says; each half of three or more makes a tree of its own.
    /// Whatever is drawn, the tree is one that [`BVHNode::built_from`]
    /// describes. An object without a box is ordered and enclosed by the box
    /// at the origin.
    pub fn from_objects(raw_objects: Vec<Entry>) -> (r: Self)
        requires
            raw_objects@.len() >= 1,
        ensures
            r.built_from(raw_objects@),
        decreases raw_objects@.len(),
    {
        let axis: usize = random_integer_with_range(0, 2) as usize;
        let left: Child;
        let right: Child;
        match divide(raw_objects, axis) {
            Division::One(e) => {
                left = Child::Leaf(e);
                right = Child::Leaf(e);
            },
            Division::Two(l, r) => {
                left = Child::Leaf(l);
                right = Child::Leaf(r);
                assert(divides(raw_objects@, axis as int, Division::Two(l, r)));
            },
            Division::Halves(lower, upper) => {
                let ghost sorted = lower@ + upper@;
                let ghost mid = raw_objects@.len() as int / 2;
                assert(sorted.subrange(0, mid) =~= lower@);
                assert(sorted.subrange(mid, raw_objects@.len() as int) =~= upper@);
                let l = Self::from_objects(lower);
                let r = Self::from_objects(upper);
                assert(stably_sorted(sorted, raw_objects@, axis as int));
                left = Child::Node(Box::new(l));
                right = Child::Node(Box::new(r));
            },
        }
        let bbox = surrounding_box((left.bounding_box(), right.bounding_box()));
        BVHNode { left, right, bbox }
    }
}

/// How the objects of a node go to its two children.
#[derive(Debug, PartialEq, Eq)]
pub enum Division {
    /// The one object, which stands at both leaves.
    One(Entry),
    /// The object at the left and the object at the right leaf.
    Two(Entry, Entry),
    /// The objects of the left and those of the right tree.
    Halves(Vec<Entry>, Vec<Entry>),
}

/// Whether `d` is how `objects` are divided along `axis`.
///
/// A single object is taken as it is. Of two objects the one with the
/// strictly smaller key along the axis goes left, and where neither is smaller
/// the second one does. Three or more are put in ascending order of their
/// keys, objects of equal key staying in the order they had; the first half of
/// them (the smaller, where the number is odd) goes left and the rest right.
pub open spec fn divides(objects: Seq<Entry>, axis: int, d: Division) -> bool {
    if objects.len() == 1 {
        d == Division::One(objects[0])
    } else if objects.len() == 2 {
        if objects[0].spec_axis_key(axis) < objects[1].spec_axis_key(axis) {
            d == Division::Two(objects[0], objects[1])
        } else {
            d == Division::Two(objects[1], objects[0])
        }
    } else {
        &&& d matches Division::Halves(lower, upper)
        &&& lower@.len() == objects.len() / 2
        &&& stably_sorted(lower@ + upper@, objects, axis)
    }
}

/// Divides the objects of a node along an axis: 0 for x, 1 for y, 2 for z.
pub fn divide(objects: Vec<Entry>, axis: usize) -> (d: Division)
    requires
        objects@.len() >= 1,
    ensures
        divides(objects@, axis as int, d),
        d matches Division::Halves(lower, upper) ==> lower@.len() >= 1 && upper@.len() >= 2
            && lower@.len() + upper@.len() == objects@.len(),
{
    let mut objects = objects;
    let object_span: usize = objects.len();
    if object_span == 1 {
        Division::One(objects[0])
    } else if object_span == 2 {
        if objects[0].axis_key(axis) < objects[1].axis_key(axis) {
            Division::Two(objects[0], objects[1])
        } else {
            Division::Two(objects[1], objects[0])
        }
    } else {
        let ghost before = objects@;
        sort_along(&mut objects, axis);
        let ghost sorted = objects@;
        let mid: usize = object_span / 2;
        let upper = objects.split_off(mid);
        assert(objects@ + upper@ =~= sorted);
        Division::Halves(objects, upper)
    }
}

/// Two sequences in ascending order of their keys that hold, for every key,
/// the same objects of that key in the same order are the same sequence.
pub proof fn lemma_sorted_key_by_key(a: Seq<Entry>, b: Seq<Entry>, axis: int)
    requires
        a.len() == b.len(),
        sorted_along(a, axis),
        sorted_along(b, axis),
        forall|key: Scalar| #[trigger] a.filter(has_key(axis, key)) == b.filter(has_key(axis, key)),
    ensures
        a == b,
    decreases a.len(),
{
    if a.len() == 0 {
        assert(a =~= b);
    } else {
        let ka = a.last().spec_axis_key(axis);
        let kb = b.last().spec_axis_key(axis);
        // The last objects have the same key: the greatest that occurs.
        assert(ka <= kb) by {
            a.lemma_filter_contains(has_key(axis, ka), a.len() - 1);
            assert(b.filter(has_key(axis, ka)).contains(a.last()));
            b.lemma_filter_contains_rev(has_key(axis, ka), a.last());
            let i = choose|i: int| 0 <= i < b.len() && b[i] == a.last();
            assert(b[i].spec_axis_key(axis) <= b[b.len() - 1].spec_axis_key(axis));
        }
        assert(kb <= ka) by {
            b.lemma_filter_contains(has_key(axis, kb), b.len() - 1);
            assert(a.filter(has_key(axis, kb)).contains(b.last()));
            a.lemma_filter_contains_rev(has_key(axis, kb), b.last());
            let i = choose|i: int| 0 <= i < a.len() && a[i] == b.last();
            assert(a[i].spec_axis_key(axis) <= a[a.len() - 1].spec_axis_key(axis));
        }
        let front_a = a.drop_last();
        let front_b = b.drop_last();
        assert(a =~= front_a.push(a.last()));
        assert(b =~= front_b.push(b.last()));
        assert forall|key: Scalar| #[trigger]
            front_a.filter(has_key(axis, key)) == front_b.filter(has_key(axis, key)) by {
            front_a.lemma_filter_push(a.last(), has_key(axis, key));
            front_b.lemma_filter_push(b.last(), has_key(axis, key));
            assert(a.filter(has_key(axis, key)) == b.filter(has_key(axis, key)));
            if key == ka {
                let fa = front_a.filter(has_key(axis, key));
                let fb = front_b.filter(has_key(axis, key));
                assert(fa.push(a.last()) == fb.push(b.last()));
                assert(fa =~= fa.push(a.last()).drop_last());
                assert(fb =~= fb.push(b.last()).drop_last());
            }
        }
        assert(a.last() == b.last()) by {
            front_a.lemma_filter_push(a.last(), has_key(axis, ka));
            front_b.lemma_filter_push(b.last(), has_key(axis, ka));
            let fa = front_a.filter(has_key(axis, ka));
            let fb = front_b.filter(has_key(axis, ka));
            assert(a.filter(has_key(axis, ka)) == b.filter(has_key(axis, ka)));
            assert(fa.push(a.last()).last() == a.last());
            assert(fb.push(b.last()).last() == b.last());
        }
        assert(sorted_along(front_a, axis)) by {
            assert forall|i: int, j: int| 0 <= i <= j < front_a.len() implies (
            #[trigger] front_a[i]).spec_axis_key(axis) <= (#[trigger] front_a[j]).spec_axis_key(
                axis,
            ) by {
                assert(a[i].spec_axis_key(axis) <= a[j].spec_axis_key(axis));
            }
        }
        assert(sorted_along(front_b, axis)) by {
            assert forall|i: int, j: int| 0 <= i <= j < front_b.len() implies (
            #[trigger] front_b[i]).spec_axis_key(axis) <= (#[trigger] front_b[j]).spec_axis_key(
                axis,
            ) by {
                assert(b[i].spec_axis_key(axis) <= b[j].spec_axis_key(axis));
            }
        }
        lemma_sorted_key_by_key(front_a, front_b, axis);
        assert(a =~= b);
    }
}

/// There is one way only to sort objects along an axis so that objects of
/// equal key keep their order.
pub proof fn lemma_stable_sort_is_unique(
    a: Seq<Entry>,
    b: Seq<Entry>,
    objects: Seq<Entry>,
    axis: int,
)
    requires
        stably_sorted(a, objects, axis),
        stably_sorted(b, objects, axis),
    ensures
        a == b,
{
    assert forall|key: Scalar| #[trigger]
        a.filter(has_key(axis, key)) == b.filter(has_key(axis, key)) by {
        assert(a.filter(has_key(axis, key)) == objects.filter(has_key(axis, key)));
        assert(b.filter(has_key(axis, key)) == objects.filter(has_key(axis, key)));
    }
    lemma_sorted_key_by_key(a, b, axis);
}

} // verus!
