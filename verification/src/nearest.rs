//! What the searches find.
//!
//! The laws here speak of a search that is run to its end against a host that
//! answers every question truthfully and the same way each time. They say
//! that a scan of a list and a search of a hierarchy over the same objects
//! end with a nearest hit among those objects, and so with the same parameter.
//! An object that answers by chance, as a participating medium does, is
//! outside these laws.

use crate::aabb::{
    lemma_contains_antisymmetric, lemma_contains_order, lemma_union_least_upper_bound, AABB,
};
use crate::bvh::{stably_sorted, BVHNode, Child};
use crate::hittable::{all_bounded, lemma_union_of_contains, union_of, Entry, HitRecord};
use crate::scalar::Scalar;
use crate::search::{closest_so_far, Item, Probe, Reply, ScanView, TraversalView};
use vstd::prelude::*;

verus! {

/// A truthful host, for one ray and one range of its parameter.
pub struct World {
    /// The nearest hit of the ray on the object with the given handle within
    /// the whole range, if there is one.
    pub first: spec_fn(usize) -> Option<HitRecord>,
    /// Whether the ray passes through the box within the given range.
    pub slab: spec_fn(AABB, Scalar, Scalar) -> bool,
}

impl World {
    /// The object's nearest hit up to `t_max`: its nearest hit in the whole
    /// range, unless that lies beyond `t_max`.
    pub open spec fn answer(self, id: usize, t_max: Scalar) -> Option<HitRecord> {
        match (self.first)(id) {
            Some(h) => if h.t <= t_max {
                Some(h)
            } else {
                None
            },
            None => None,
        }
    }

    /// The host's reply to a question.
    pub open spec fn reply(self, probe: Probe) -> Reply {
        match probe {
            Probe::Slab { bbox, t_min, t_max } => Reply::Slab((self.slab)(bbox, t_min, t_max)),
            Probe::Object { id, t_min, t_max } => Reply::Object(self.answer(id, t_max)),
            Probe::Done { hit } => Reply::Slab(false),
        }
    }

    /// Whether the host's answers fit together for these objects and this
    /// range: every hit lies within the range, and a ray that hits an object
    /// up to some parameter passes, up to that parameter, through every box
    /// that holds the object's own.
    pub open spec fn sound_for(self, objects: Seq<Entry>, t_min: Scalar, t_max: Scalar) -> bool {
        &&& forall|i: int|
            0 <= i < objects.len() ==> match (self.first)((#[trigger] objects[i]).id) {
                Some(h) => t_min <= h.t <= t_max,
                None => true,
            }
        &&& forall|i: int, b: AABB, hi: Scalar|
            #![trigger objects[i], (self.slab)(b, t_min, hi)]
            0 <= i < objects.len() && objects[i].bbox is Some && b.contains(objects[i].bbox->0)
                && (self.first)(objects[i].id) is Some && (self.first)(objects[i].id)->0.t <= hi
                ==> (self.slab)(b, t_min, hi)
    }

    /// Whether `r` is a nearest hit among the objects: the hit of one of them
    /// that no other object's hit comes before, or none where no object is hit.
    pub open spec fn is_nearest(self, objects: Seq<Entry>, r: Option<HitRecord>) -> bool {
        match r {
            Some(h) => {
                &&& exists|i: int|
                    0 <= i < objects.len() && (self.first)((#[trigger] objects[i]).id) == Some(h)
                &&& forall|j: int|
                    0 <= j < objects.len() && (self.first)((#[trigger] objects[j]).id) is Some
                        ==> h.t <= (self.first)(objects[j].id)->0.t
            },
            None => forall|j: int|
                0 <= j < objects.len() ==> (self.first)((#[trigger] objects[j]).id) is None,
        }
    }
}

/// Two nearest hits among the same objects have the same parameter.
pub proof fn lemma_nearest_is_unique(
    world: World,
    objects: Seq<Entry>,
    a: Option<HitRecord>,
    b: Option<HitRecord>,
)
    requires
        world.is_nearest(objects, a),
        world.is_nearest(objects, b),
    ensures
        a is Some <==> b is Some,
        a is Some ==> a->0.t == b->0.t,
{
    if a is Some {
        let i = choose|i: int|
            0 <= i < objects.len() && (world.first)((#[trigger] objects[i]).id) == a;
        assert((world.first)(objects[i].id) is Some);
        if b is Some {
            let j = choose|j: int|
                0 <= j < objects.len() && (world.first)((#[trigger] objects[j]).id) == b;
            assert((world.first)(objects[j].id) is Some);
        }
    } else if b is Some {
        let j = choose|j: int|
            0 <= j < objects.len() && (world.first)((#[trigger] objects[j]).id) == b;
        assert((world.first)(objects[j].id) is Some);
    }
}

impl ScanView {
    /// The hit with which the scan ends when the host `world` answers it.
    pub open spec fn outcome(self, world: World) -> Option<HitRecord>
        decreases self.objects.len() - self.next,
    {
        if 0 <= self.next < self.objects.len() {
            self.step(world.reply(self.probe())).outcome(world)
        } else {
            self.best
        }
    }

    /// Whether `r` is a nearest hit among the hit so far and the objects that
    /// the scan has not tested yet.
    pub open spec fn nearest_of_rest(self, world: World, r: Option<HitRecord>) -> bool {
        match r {
            Some(h) => {
                &&& r == self.best || exists|i: int|
                    self.next <= i < self.objects.len() && (world.first)(
                        (#[trigger] self.objects[i]).id,
                    ) == r
                &&& h.t <= closest_so_far(self.best, self.t_max)
                &&& forall|j: int|
                    self.next <= j < self.objects.len() && (world.first)(
                        (#[trigger] self.objects[j]).id,
                    ) is Some ==> h.t <= (world.first)(self.objects[j].id)->0.t
            },
            None => {
                &&& self.best is None
                &&& forall|j: int|
                    self.next <= j < self.objects.len() ==> (world.first)(
                        (#[trigger] self.objects[j]).id,
                    ) is None
            },
        }
    }
}

/// A scan ends with a nearest hit among the hit it has so far and the objects
/// it has not tested yet.
pub proof fn lemma_scan_outcome(v: ScanView, world: World)
    requires
        0 <= v.next,
        world.sound_for(v.objects, v.t_min, v.t_max),
    ensures
        v.nearest_of_rest(world, v.outcome(world)),
    decreases v.objects.len() - v.next,
{
    if v.next < v.objects.len() {
        let e = v.objects[v.next];
        let after = v.step(world.reply(v.probe()));
        lemma_scan_outcome(after, world);
        let r = v.outcome(world);
        assert(r == after.outcome(world));
        assert(after.nearest_of_rest(world, r));
        match r {
            Some(h) => {
                if r != v.best {
                    if r == after.best {
                        assert((world.first)(v.objects[v.next].id) == r);
                    } else {
                        let i = choose|i: int|
                            after.next <= i < after.objects.len() && (world.first)(
                                (#[trigger] after.objects[i]).id,
                            ) == r;
                        assert((world.first)(v.objects[i].id) == r);
                    }
                }
                assert forall|j: int|
                    v.next <= j < v.objects.len() && (world.first)(
                        (#[trigger] v.objects[j]).id,
                    ) is Some implies h.t <= (world.first)(v.objects[j].id)->0.t by {
                    if j > v.next {
                        assert(after.objects[j] == v.objects[j]);
                    }
                }
            },
            None => {
                assert forall|j: int| v.next <= j < v.objects.len() implies (world.first)(
                    (#[trigger] v.objects[j]).id,
                ) is None by {
                    if j > v.next {
                        assert(after.objects[j] == v.objects[j]);
                    }
                }
            },
        }
    }
}

/// A scan of a list ends with a nearest hit among the list's objects.
pub proof fn lemma_scan_finds_nearest(
    objects: Seq<Entry>,
    t_min: Scalar,
    t_max: Scalar,
    world: World,
)
    requires
        world.sound_for(objects, t_min, t_max),
    ensures
        world.is_nearest(
            objects,
            (ScanView { objects, next: 0, t_min, t_max, best: None }).outcome(world),
        ),
{
    let v = ScanView { objects, next: 0, t_min, t_max, best: None };
    lemma_scan_outcome(v, world);
}

/// The number of nodes and leaves in all items of a stack.
pub open spec fn weight(stack: Seq<Item>) -> nat
    decreases stack.len(),
{
    if stack.len() == 0 {
        0
    } else {
        weight(stack.drop_last()) + stack.last().size()
    }
}

/// An item put on a stack adds its own size to the stack's weight.
pub proof fn lemma_weight_push(stack: Seq<Item>, item: Item)
    ensures
        weight(stack.push(item)) == weight(stack) + item.size(),
{
    assert(stack.push(item).drop_last() =~= stack);
}

/// A child counts the same as a child and as an item.
pub proof fn lemma_child_size(child: Child)
    ensures
        child.as_item().size() == child.size(),
        child.size() >= 1,
{
}

/// Whether the object `e` is one of the stack's items or stands at a leaf of one.
pub open spec fn stack_covers(stack: Seq<Item>, e: Entry) -> bool {
    exists|k: int| 0 <= k < stack.len() && (#[trigger] stack[k]).covers(e)
}

impl Item {
    /// Whether each node's box is the union of its two children's boxes.
    pub open spec fn boxes_fit(self) -> bool {
        match self {
            Item::Object(_) => true,
            Item::Node(n) => n.boxes_fit(),
        }
    }
}

impl TraversalView {
    /// The hit with which the search ends when the host `world` answers it.
    pub open spec fn outcome(self, world: World) -> Option<HitRecord>
        decreases weight(self.stack),
    {
        if self.stack.len() == 0 {
            self.best
        } else {
            proof {
                lemma_step_lightens(self, world.reply(self.probe()));
            }
            self.step(world.reply(self.probe())).outcome(world)
        }
    }

    /// Whether `r` is a nearest hit among the hit so far and the objects that
    /// the search has still to look at.
    pub open spec fn nearest_of_rest(self, world: World, r: Option<HitRecord>) -> bool {
        match r {
            Some(h) => {
                &&& r == self.best || exists|e: Entry| #[trigger]
                    stack_covers(self.stack, e) && (world.first)(e.id) == r
                &&& h.t <= closest_so_far(self.best, self.t_max)
                &&& forall|e: Entry| #[trigger]
                    stack_covers(self.stack, e) && (world.first)(e.id) is Some ==> h.t <= (
                    world.first)(e.id)->0.t
            },
            None => {
                &&& self.best is None
                &&& forall|e: Entry| #[trigger]
                    stack_covers(self.stack, e) ==> (world.first)(e.id) is None
            },
        }
    }

    /// Whether every item on the stack has fitting boxes and holds only
    /// objects of `objects` that have a box.
    pub open spec fn over(self, objects: Seq<Entry>) -> bool {
        &&& forall|k: int| 0 <= k < self.stack.len() ==> (#[trigger] self.stack[k]).boxes_fit()
        &&& forall|e: Entry| #[trigger]
            stack_covers(self.stack, e) ==> objects.contains(e) && e.bbox is Some
    }
}

/// A reply to the question that was asked leaves less to look at.
pub proof fn lemma_step_lightens(v: TraversalView, reply: Reply)
    requires
        v.stack.len() > 0,
        v.stack.last() is Object <==> reply is Object,
    ensures
        weight(v.step(reply).stack) < weight(v.stack),
{
    let rest = v.stack.drop_last();
    match (v.stack.last(), reply) {
        (Item::Node(n), Reply::Slab(true)) => {
            lemma_weight_push(rest, n.right.as_item());
            lemma_weight_push(rest.push(n.right.as_item()), n.left.as_item());
            lemma_child_size(n.left);
            lemma_child_size(n.right);
        },
        _ => {},
    }
}

/// The box of a child with fitting boxes holds the box of every object at its
/// leaves.
pub proof fn lemma_child_box_holds(child: Child, e: Entry)
    requires
        child.boxes_fit(),
        child.covers(e),
    ensures
        child.spec_bounding_box().contains(e.spec_key_box()),
    decreases child,
{
    match child {
        Child::Leaf(l) => {
            lemma_contains_order(l.spec_key_box(), l.spec_key_box(), l.spec_key_box());
        },
        Child::Node(n) => {
            lemma_node_box_holds(*n, e);
        },
    }
}

/// The box of a tree with fitting boxes holds the box of every object at its
/// leaves.
pub proof fn lemma_node_box_holds(n: BVHNode, e: Entry)
    requires
        n.boxes_fit(),
        n.covers(e),
    ensures
        n.bbox.contains(e.spec_key_box()),
    decreases n,
{
    let lb = n.left.spec_bounding_box();
    let rb = n.right.spec_bounding_box();
    lemma_union_least_upper_bound(lb, rb, n.bbox);
    if n.left.covers(e) {
        lemma_child_box_holds(n.left, e);
        lemma_contains_order(n.bbox, lb, e.spec_key_box());
    } else {
        lemma_child_box_holds(n.right, e);
        lemma_contains_order(n.bbox, rb, e.spec_key_box());
    }
}

/// A search ends with a nearest hit among the hit it has so far and the
/// objects it has still to look at.
pub proof fn lemma_traversal_outcome(v: TraversalView, world: World, objects: Seq<Entry>)
    requires
        world.sound_for(objects, v.t_min, v.t_max),
        v.over(objects),
    ensures
        v.nearest_of_rest(world, v.outcome(world)),
    decreases weight(v.stack),
{
    if v.stack.len() > 0 {
        let top = v.stack.last();
        let rest = v.stack.drop_last();
        let last = v.stack.len() - 1;
        let reply = world.reply(v.probe());
        let after = v.step(reply);
        let r = v.outcome(world);
        let bound = closest_so_far(v.best, v.t_max);
        lemma_step_lightens(v, reply);
        assert(r == after.outcome(world));
        // What stays on the stack is covered as before.
        assert forall|e: Entry| stack_covers(rest, e) implies stack_covers(v.stack, e) by {
            let k = choose|k: int| 0 <= k < rest.len() && (#[trigger] rest[k]).covers(e);
            assert(v.stack[k].covers(e));
        }
        assert forall|e: Entry| stack_covers(v.stack, e) implies stack_covers(rest, e)
            || top.covers(e) by {
            let k = choose|k: int| 0 <= k < v.stack.len() && (#[trigger] v.stack[k]).covers(e);
            if k < last {
                assert(rest[k].covers(e));
            }
        }
        assert forall|e: Entry| top.covers(e) implies stack_covers(v.stack, e) by {
            assert(v.stack[last].covers(e));
        }
        match top {
            Item::Object(x) => {
                assert(after.stack == rest);
                assert(after.over(objects)) by {
                    assert forall|k: int| 0 <= k < rest.len() implies (
                    #[trigger] rest[k]).boxes_fit() by {
                        assert(v.stack[k].boxes_fit());
                    }
                }
                lemma_traversal_outcome(after, world, objects);
                assert(top.covers(x));
                assert(stack_covers(v.stack, x));
                let i = choose|i: int| 0 <= i < objects.len() && objects[i] == x;
                assert(objects[i].id == x.id);
                lemma_traversal_pops(v, world, after, r);
            },
            Item::Node(n) => {
                if (world.slab)(n.bbox, v.t_min, bound) {
                    let l = n.left.as_item();
                    let rt = n.right.as_item();
                    assert(after.stack == rest.push(rt).push(l));
                    assert forall|e: Entry| stack_covers(after.stack, e) implies stack_covers(
                        v.stack,
                        e,
                    ) by {
                        let k = choose|k: int|
                            0 <= k < after.stack.len() && (#[trigger] after.stack[k]).covers(e);
                        if k < rest.len() {
                            assert(rest[k].covers(e));
                        } else {
                            assert(top.covers(e));
                        }
                    }
                    assert forall|e: Entry| stack_covers(v.stack, e) implies stack_covers(
                        after.stack,
                        e,
                    ) by {
                        if stack_covers(rest, e) {
                            let k = choose|k: int|
                                0 <= k < rest.len() && (#[trigger] rest[k]).covers(e);
                            assert(after.stack[k].covers(e));
                        } else {
                            if n.left.covers(e) {
                                assert(after.stack[rest.len() as int + 1].covers(e));
                            } else {
                                assert(after.stack[rest.len() as int].covers(e));
                            }
                        }
                    }
                    assert(after.over(objects)) by {
                        assert forall|k: int| 0 <= k < after.stack.len() implies (
                        #[trigger] after.stack[k]).boxes_fit() by {
                            if k < rest.len() {
                                assert(v.stack[k].boxes_fit());
                            } else {
                                assert(v.stack[last].boxes_fit());
                            }
                        }
                    }
                    lemma_traversal_outcome(after, world, objects);
                } else {
                    assert(after.stack == rest);
                    assert(after.over(objects)) by {
                        assert forall|k: int| 0 <= k < rest.len() implies (
                        #[trigger] rest[k]).boxes_fit() by {
                            assert(v.stack[k].boxes_fit());
                        }
                    }
                    lemma_traversal_outcome(after, world, objects);
                    // Nothing below the tree is hit up to the bound.
                    assert forall|e: Entry| top.covers(e) && (world.first)(e.id) is Some implies (
                    world.first)(e.id)->0.t > bound by {
                        assert(stack_covers(v.stack, e));
                        assert(v.stack[last].boxes_fit());
                        lemma_node_box_holds(n, e);
                        let i = choose|i: int| 0 <= i < objects.len() && objects[i] == e;
                        if (world.first)(e.id)->0.t <= bound {
                            assert((world.slab)(n.bbox, v.t_min, bound));
                        }
                    }
                    lemma_traversal_pops(v, world, after, r);
                }
            },
        }
    }
}

/// What holds of the state after an item has left the stack holds of the state
/// before, where nothing below that item is hit up to the nearest hit so far,
/// or the hit that was taken from it is the nearest so far.
proof fn lemma_traversal_pops(
    v: TraversalView,
    world: World,
    after: TraversalView,
    r: Option<HitRecord>,
)
    requires
        v.stack.len() > 0,
        after.stack == v.stack.drop_last(),
        after.t_max == v.t_max,
        after.nearest_of_rest(world, r),
        forall|e: Entry| stack_covers(v.stack.drop_last(), e) ==> stack_covers(v.stack, e),
        forall|e: Entry|
            stack_covers(v.stack, e) ==> stack_covers(v.stack.drop_last(), e)
                || v.stack.last().covers(e),
        forall|e: Entry|
            v.stack.last().covers(e) ==> stack_covers(v.stack, e) && match (world.first)(e.id) {
                Some(h) => h.t <= v.t_max,
                None => true,
            },
        after.best == v.best && (forall|e: Entry|
            v.stack.last().covers(e) && (world.first)(e.id) is Some ==> (world.first)(e.id)->0.t
                > closest_so_far(v.best, v.t_max)) || (after.best is Some && after.best->0.t
            <= closest_so_far(v.best, v.t_max) && exists|e: Entry|
            v.stack.last().covers(e) && (world.first)(e.id) == after.best && forall|x: Entry|
                v.stack.last().covers(x) ==> x == e),
    ensures
        v.nearest_of_rest(world, r),
{
    let top = v.stack.last();
    let rest = v.stack.drop_last();
    match r {
        Some(h) => {
            if r != v.best {
                if r == after.best {
                    let e = choose|e: Entry|
                        top.covers(e) && (world.first)(e.id) == after.best && forall|x: Entry|
                            top.covers(x) ==> x == e;
                    assert(stack_covers(v.stack, e));
                } else {
                    let e = choose|e: Entry| #[trigger]
                        stack_covers(after.stack, e) && (world.first)(e.id) == r;
                    assert(stack_covers(v.stack, e));
                }
            }
            assert forall|e: Entry| #[trigger]
                stack_covers(v.stack, e) && (world.first)(e.id) is Some implies h.t <= (
            world.first)(e.id)->0.t by {
                if stack_covers(rest, e) {
                } else {
                    assert(top.covers(e));
                }
            }
        },
        None => {
            assert forall|e: Entry| #[trigger] stack_covers(v.stack, e) implies (world.first)(
                e.id,
            ) is None by {
                if stack_covers(rest, e) {
                } else {
                    assert(top.covers(e));
                }
            }
        },
    }
}

/// A tree built from objects has fitting boxes, and the objects at its leaves
/// are the objects it was built from.
pub proof fn lemma_built_tree(n: BVHNode, objects: Seq<Entry>)
    requires
        n.built_from(objects),
    ensures
        objects.len() >= 1,
        n.boxes_fit(),
        forall|e: Entry| n.covers(e) <==> objects.contains(e),
    decreases n,
{
    if objects.len() == 1 {
        assert forall|e: Entry| objects.contains(e) implies n.covers(e) by {
            let i = choose|i: int| 0 <= i < objects.len() && objects[i] == e;
        }
        assert(objects.contains(objects[0]));
    } else if objects.len() == 2 {
        assert forall|e: Entry| objects.contains(e) implies n.covers(e) by {
            let i = choose|i: int| 0 <= i < objects.len() && objects[i] == e;
        }
        assert(objects.contains(objects[0]));
        assert(objects.contains(objects[1]));
    } else {
        let l = n.left->Node_0;
        let r = n.right->Node_0;
        let len = objects.len() as int;
        let mid = len / 2;
        let (axis, sorted) = choose|axis: int, sorted: Seq<Entry>|
            {
                &&& 0 <= axis < 3
                &&& #[trigger] stably_sorted(sorted, objects, axis)
                &&& l.built_from(sorted.subrange(0, mid))
                &&& r.built_from(sorted.subrange(mid, len))
            };
        let lower = sorted.subrange(0, mid);
        let upper = sorted.subrange(mid, len);
        lemma_built_tree(*l, lower);
        lemma_built_tree(*r, upper);
        assert forall|e: Entry| n.covers(e) <==> objects.contains(e) by {
            broadcast use vstd::seq_lib::group_to_multiset_ensures;

            assert(objects.contains(e) <==> sorted.contains(e)) by {
                assert(objects.to_multiset().count(e) == sorted.to_multiset().count(e));
            }
            if lower.contains(e) {
                let i = choose|i: int| 0 <= i < lower.len() && lower[i] == e;
                assert(sorted[i] == e);
            }
            if upper.contains(e) {
                let i = choose|i: int| 0 <= i < upper.len() && upper[i] == e;
                assert(sorted[i + mid] == e);
            }
            if sorted.contains(e) {
                let i = choose|i: int| 0 <= i < sorted.len() && sorted[i] == e;
                if i < mid {
                    assert(lower[i] == e);
                } else {
                    assert(upper[i - mid] == e);
                }
            }
        }
    }
}

/// A search of a hierarchy ends with a nearest hit among the objects that the
/// hierarchy was built from, where each of them has a box.
pub proof fn lemma_traversal_finds_nearest(
    root: BVHNode,
    objects: Seq<Entry>,
    t_min: Scalar,
    t_max: Scalar,
    world: World,
)
    requires
        root.built_from(objects),
        forall|i: int| 0 <= i < objects.len() ==> (#[trigger] objects[i]).bbox is Some,
        world.sound_for(objects, t_min, t_max),
    ensures
        world.is_nearest(
            objects,
            (TraversalView { stack: seq![Item::Node(root)], t_min, t_max, best: None }).outcome(
                world,
            ),
        ),
{
    let v = TraversalView { stack: seq![Item::Node(root)], t_min, t_max, best: None };
    lemma_built_tree(root, objects);
    assert forall|e: Entry| #[trigger] stack_covers(v.stack, e) implies objects.contains(e)
        && e.bbox is Some by {
        let k = choose|k: int| 0 <= k < v.stack.len() && (#[trigger] v.stack[k]).covers(e);
        assert(root.covers(e));
        let i = choose|i: int| 0 <= i < objects.len() && objects[i] == e;
    }
    lemma_traversal_outcome(v, world, objects);
    let r = v.outcome(world);
    assert forall|j: int| 0 <= j < objects.len() implies stack_covers(
        v.stack,
        #[trigger] objects[j],
    ) by {
        assert(objects.contains(objects[j]));
        assert(v.stack[0].covers(objects[j]));
    }
    match r {
        Some(h) => {
            let e = choose|e: Entry| #[trigger]
                stack_covers(v.stack, e) && (world.first)(e.id) == r;
            let i = choose|i: int| 0 <= i < objects.len() && objects[i] == e;
            assert((world.first)(objects[i].id) == Some(h));
        },
        None => {},
    }
}

/// A search of a hierarchy and a scan of the list of the objects it was built
/// from end alike: both with a hit or both with none, and where they end with
/// a hit, at the same parameter of the ray.
pub proof fn lemma_hierarchy_agrees_with_list(
    root: BVHNode,
    objects: Seq<Entry>,
    t_min: Scalar,
    t_max: Scalar,
    world: World,
)
    requires
        root.built_from(objects),
        forall|i: int| 0 <= i < objects.len() ==> (#[trigger] objects[i]).bbox is Some,
        world.sound_for(objects, t_min, t_max),
    ensures
        ({
            let by_tree = (TraversalView {
                stack: seq![Item::Node(root)],
                t_min,
                t_max,
                best: None,
            }).outcome(world);
            let by_list = (ScanView { objects, next: 0, t_min, t_max, best: None }).outcome(
                world,
            );
            &&& by_tree is Some <==> by_list is Some
            &&& by_tree is Some ==> by_tree->0.t == by_list->0.t
        }),
{
    let by_tree = (TraversalView { stack: seq![Item::Node(root)], t_min, t_max, best: None })
        .outcome(world);
    let by_list = (ScanView { objects, next: 0, t_min, t_max, best: None }).outcome(world);
    lemma_traversal_finds_nearest(root, objects, t_min, t_max, world);
    lemma_scan_finds_nearest(objects, t_min, t_max, world);
    lemma_nearest_is_unique(world, objects, by_tree, by_list);
}

/// Two hierarchies over the same objects end a search alike, whichever axes
/// were drawn when they were built: both with a hit or both with none, and
/// where they end with a hit, at the same parameter of the ray.
pub proof fn lemma_hierarchies_agree(
    first: BVHNode,
    second: BVHNode,
    objects: Seq<Entry>,
    t_min: Scalar,
    t_max: Scalar,
    world: World,
)
    requires
        first.built_from(objects),
        second.built_from(objects),
        forall|i: int| 0 <= i < objects.len() ==> (#[trigger] objects[i]).bbox is Some,
        world.sound_for(objects, t_min, t_max),
    ensures
        ({
            let a = (TraversalView { stack: seq![Item::Node(first)], t_min, t_max, best: None })
                .outcome(world);
            let b = (TraversalView { stack: seq![Item::Node(second)], t_min, t_max, best: None })
                .outcome(world);
            &&& a is Some <==> b is Some
            &&& a is Some ==> a->0.t == b->0.t
        }),
{
    let a = (TraversalView { stack: seq![Item::Node(first)], t_min, t_max, best: None }).outcome(
        world,
    );
    let b = (TraversalView { stack: seq![Item::Node(second)], t_min, t_max, best: None }).outcome(
        world,
    );
    lemma_traversal_finds_nearest(first, objects, t_min, t_max, world);
    lemma_traversal_finds_nearest(second, objects, t_min, t_max, world);
    lemma_nearest_is_unique(world, objects, a, b);
}

/// Every box that holds the boxes of all objects at a child's leaves holds
/// the child's box.
pub proof fn lemma_child_box_least(child: Child, outer: AABB)
    requires
        child.boxes_fit(),
        forall|e: Entry| #[trigger] child.covers(e) ==> outer.contains(e.spec_key_box()),
    ensures
        outer.contains(child.spec_bounding_box()),
    decreases child,
{
    match child {
        Child::Leaf(l) => {
            assert(child.covers(l));
        },
        Child::Node(n) => {
            assert forall|e: Entry| #[trigger] n.covers(e) implies outer.contains(
                e.spec_key_box(),
            ) by {
                assert(child.covers(e));
            }
            lemma_node_box_least(*n, outer);
        },
    }
}

/// Every box that holds the boxes of all objects at a tree's leaves holds the
/// tree's box.
pub proof fn lemma_node_box_least(n: BVHNode, outer: AABB)
    requires
        n.boxes_fit(),
        forall|e: Entry| #[trigger] n.covers(e) ==> outer.contains(e.spec_key_box()),
    ensures
        outer.contains(n.bbox),
    decreases n,
{
    assert forall|e: Entry| #[trigger] n.left.covers(e) implies outer.contains(
        e.spec_key_box(),
    ) by {
        assert(n.covers(e));
    }
    assert forall|e: Entry| #[trigger] n.right.covers(e) implies outer.contains(
        e.spec_key_box(),
    ) by {
        assert(n.covers(e));
    }
    lemma_child_box_least(n.left, outer);
    lemma_child_box_least(n.right, outer);
    lemma_union_least_upper_bound(
        n.left.spec_bounding_box(),
        n.right.spec_bounding_box(),
        outer,
    );
}

/// Every box that holds the boxes of the first `n` objects holds their union.
pub proof fn lemma_union_of_least(objects: Seq<Entry>, n: int, outer: AABB)
    requires
        1 <= n <= objects.len(),
        all_bounded(objects, n),
        forall|i: int| 0 <= i < n ==> outer.contains((#[trigger] objects[i]).bbox->0),
    ensures
        outer.contains(union_of(objects, n)),
    decreases n,
{
    if n > 1 {
        lemma_union_of_least(objects, n - 1, outer);
        assert(outer.contains(objects[n - 1].bbox->0));
        lemma_union_least_upper_bound(union_of(objects, n - 1), objects[n - 1].bbox->0, outer);
    } else {
        assert(outer.contains(objects[0].bbox->0));
    }
}

/// The box of a hierarchy is the box of the list of the objects it was built
/// from, where each of them has a box: the order and the grouping in which
/// boxes are united do not count.
pub proof fn lemma_tree_box_is_list_box(root: BVHNode, objects: Seq<Entry>)
    requires
        root.built_from(objects),
        all_bounded(objects, objects.len() as int),
    ensures
        root.bbox == union_of(objects, objects.len() as int),
{
    let n = objects.len() as int;
    let whole = union_of(objects, n);
    lemma_built_tree(root, objects);
    assert forall|e: Entry| #[trigger] root.covers(e) implies whole.contains(
        e.spec_key_box(),
    ) by {
        let i = choose|i: int| 0 <= i < objects.len() && objects[i] == e;
        lemma_union_of_contains(objects, n, i);
    }
    lemma_node_box_least(root, whole);
    assert forall|i: int| 0 <= i < n implies root.bbox.contains(
        (#[trigger] objects[i]).bbox->0,
    ) by {
        assert(objects.contains(objects[i]));
        lemma_node_box_holds(root, objects[i]);
    }
    lemma_union_of_least(objects, n, root.bbox);
    lemma_contains_antisymmetric(root.bbox, whole);
}

} // verus!
