//! The search for the nearest hit, as a dialogue with the host.
//!
//! The library decides which box and which object is tested next and over
//! which range of the ray's parameter; the host, which holds the ray and does
//! the arithmetic, carries out each test and reports what it found. A search
//! is a value that says what it wants to know ([`Probe`]) and moves on when it
//! is told ([`Reply`]).

use crate::aabb::AABB;
use crate::bvh::{BVHNode, Child};
use crate::hittable::{Entry, HitRecord, HittableList};
use crate::scalar::Scalar;
use vstd::prelude::*;

verus! {

/// What a search wants to know next.
#[derive(Clone, Copy, Debug, PartialEq, Eq)]
pub enum Probe {
    /// Does the ray pass through this box within the range?
    Slab { bbox: AABB, t_min: Scalar, t_max: Scalar },
    /// Where within the range does the ray first hit the object with this handle?
    Object { id: usize, t_min: Scalar, t_max: Scalar },
    /// Nothing more: the search has ended, with this hit or with none.
    Done { hit: Option<HitRecord> },
}

/// What the host found.
#[derive(Clone, Copy, Debug, PartialEq, Eq)]
pub enum Reply {
    /// Whether the ray passes through the box.
    Slab(bool),
    /// The object's nearest hit within the range, if there is one.
    Object(Option<HitRecord>),
}

/// The upper end of the range that is still of interest: the parameter of the
/// nearest hit so far, or `t_max` while there is none.
pub open spec fn closest_so_far(best: Option<HitRecord>, t_max: Scalar) -> Scalar {
    match best {
        Some(h) => h.t,
        None => t_max,
    }
}

/// The state of a scan through a list.
pub struct ScanView {
    /// The list's objects.
    pub objects: Seq<Entry>,
    /// How many of them have been tested.
    pub next: int,
    /// The range that was asked for.
    pub t_min: Scalar,
    pub t_max: Scalar,
    /// The nearest hit so far.
    pub best: Option<HitRecord>,
}

impl ScanView {
    /// What the scan wants to know in this state: the next object's nearest
    /// hit up to the nearest hit so far.
    pub open spec fn probe(self) -> Probe {
        if 0 <= self.next < self.objects.len() {
            Probe::Object {
                id: self.objects[self.next].id,
                t_min: self.t_min,
                t_max: closest_so_far(self.best, self.t_max),
            }
        } else {
            Probe::Done { hit: self.best }
        }
    }

    /// The state after a reply. A hit becomes the nearest so far, and the scan
    /// moves to the next object. A reply to a question that was not asked
    /// changes nothing.
    pub open spec fn step(self, reply: Reply) -> ScanView {
        if 0 <= self.next < self.objects.len() {
            match reply {
                Reply::Object(Some(h)) => ScanView { next: self.next + 1, best: Some(h), ..self },
                Reply::Object(None) => ScanView { next: self.next + 1, ..self },
                Reply::Slab(_) => self,
            }
        } else {
            self
        }
    }
}

/// A scan through a list: every object in turn, each over the range that the
/// hits before it have left.
pub struct ListScan<'a> {
    list: &'a HittableList,
    next: usize,
    t_min: Scalar,
    t_max: Scalar,
    best: Option<HitRecord>,
}

impl<'a> ListScan<'a> {
    /// The scan's state.
    pub closed spec fn view(&self) -> ScanView {
        ScanView {
            objects: self.list.objects@,
            next: self.next as int,
            t_min: self.t_min,
            t_max: self.t_max,
            best: self.best,
        }
    }

    /// A scan of `list` over the range from `t_min` to `t_max`, before its
    /// first question.
    pub fn new(list: &'a HittableList, t_min: Scalar, t_max: Scalar) -> (r: Self)
        ensures
            r@ == (ScanView { objects: list.objects@, next: 0, t_min, t_max, best: None }),
    {
        ListScan { list, next: 0, t_min, t_max, best: None }
    }

    /// What the scan wants to know.
    pub fn probe(&self) -> (r: Probe)
        ensures
            r == self@.probe(),
    {
        if self.next < self.list.objects.len() {
            let t_max = match self.best {
                Some(h) => h.t,
                None => self.t_max,
            };
            Probe::Object { id: self.list.objects[self.next].id, t_min: self.t_min, t_max }
        } else {
            Probe::Done { hit: self.best }
        }
    }

    /// Takes the host's reply to the last question.
    pub fn advance(&mut self, reply: Reply)
        ensures
            final(self)@ == old(self)@.step(reply),
    {
        if self.next < self.list.objects.len() {
            match reply {
                Reply::Object(Some(h)) => {
                    self.best = Some(h);
                    self.next = self.next + 1;
                },
                Reply::Object(None) => {
                    self.next = self.next + 1;
                },
                Reply::Slab(_) => {},
            }
        }
    }
}

/// Something that a search of a hierarchy has still to look at.
pub enum Item {
    /// An object.
    Object(Entry),
    /// A tree.
    Node(BVHNode),
}

impl Child {
    /// The child as something to look at.
    pub open spec fn as_item(self) -> Item {
        match self {
            Child::Leaf(e) => Item::Object(e),
            Child::Node(n) => Item::Node(*n),
        }
    }
}

impl Item {
    /// Whether the object `e` is the item or stands at a leaf of it.
    pub open spec fn covers(self, e: Entry) -> bool {
        match self {
            Item::Object(x) => x == e,
            Item::Node(n) => n.covers(e),
        }
    }

    /// The number of nodes and leaves.
    pub open spec fn size(self) -> nat {
        match self {
            Item::Object(_) => 1,
            Item::Node(n) => 1 + n.left.size() + n.right.size(),
        }
    }
}

/// The state of a search through a hierarchy.
pub struct TraversalView {
    /// What has still to be looked at; the last item comes first.
    pub stack: Seq<Item>,
    /// The range that was asked for.
    pub t_min: Scalar,
    pub t_max: Scalar,
    /// The nearest hit so far.
    pub best: Option<HitRecord>,
}

impl TraversalView {
    /// What the search wants to know in this state. Of a tree it asks whether
    /// the ray passes through its box, of an object where the ray hits it, both
    /// up to the nearest hit so far.
    pub open spec fn probe(self) -> Probe {
        if self.stack.len() == 0 {
            Probe::Done { hit: self.best }
        } else {
            match self.stack.last() {
                Item::Object(e) => Probe::Object {
                    id: e.id,
                    t_min: self.t_min,
                    t_max: closest_so_far(self.best, self.t_max),
                },
                Item::Node(n) => Probe::Slab {
                    bbox: n.bbox,
                    t_min: self.t_min,
                    t_max: closest_so_far(self.best, self.t_max),
                },
            }
        }
    }

    /// The state after a reply. An object that was asked about is done with,
    /// and its hit becomes the nearest so far. A tree whose box the ray misses
    /// is done with as a whole; otherwise its two children take its place, the
    /// left one to be looked at first. A reply to a question that was not
    /// asked changes nothing.
    pub open spec fn step(self, reply: Reply) -> TraversalView {
        if self.stack.len() == 0 {
            self
        } else {
            match (self.stack.last(), reply) {
                (Item::Object(_), Reply::Object(Some(h))) => TraversalView {
                    stack: self.stack.drop_last(),
                    best: Some(h),
                    ..self
                },
                (Item::Object(_), Reply::Object(None)) => TraversalView {
                    stack: self.stack.drop_last(),
                    ..self
                },
                (Item::Node(n), Reply::Slab(true)) => TraversalView {
                    stack: self.stack.drop_last().push(n.right.as_item()).push(n.left.as_item()),
                    ..self
                },
                (Item::Node(_), Reply::Slab(false)) => TraversalView {
                    stack: self.stack.drop_last(),
                    ..self
                },
                _ => self,
            }
        }
    }
}

/// An object or a tree that a search has still to look at.
#[derive(Clone, Copy)]
enum Pending<'a> {
    Object(Entry),
    Node(&'a BVHNode),
}

impl<'a> Pending<'a> {
    spec fn view(self) -> Item {
        match self {
            Pending::Object(e) => Item::Object(e),
            Pending::Node(n) => Item::Node(*n),
        }
    }

    fn of_child(child: &'a Child) -> (r: Self)
        ensures
            r@ == child.as_item(),
    {
        match child {
            Child::Leaf(e) => Pending::Object(*e),
            Child::Node(n) => Pending::Node(&**n),
        }
    }
}

/// A search through a hierarchy: depth first, the left child before the right
/// one, each test over the range that the hits before it have left. A hit in
/// the right child therefore replaces one in the left child only if it is at
/// least as near: the search ends with the nearest hit, not with the first.
pub struct Traversal<'a> {
    stack: Vec<Pending<'a>>,
    t_min: Scalar,
    t_max: Scalar,
    best: Option<HitRecord>,
}

impl<'a> Traversal<'a> {
    /// The search's state.
    pub closed spec fn view(&self) -> TraversalView {
        TraversalView {
            stack: self.stack@.map_values(|p: Pending<'a>| p@),
            t_min: self.t_min,
            t_max: self.t_max,
            best: self.best,
        }
    }

    /// A search of the tree below `root` over the range from `t_min` to
    /// `t_max`, before its first question.
    pub fn new(root: &'a BVHNode, t_min: Scalar, t_max: Scalar) -> (r: Self)
        ensures
            r@ == (TraversalView { stack: seq![Item::Node(*root)], t_min, t_max, best: None }),
    {
        let mut stack: Vec<Pending<'a>> = Vec::new();
        stack.push(Pending::Node(root));
        let r = Traversal { stack, t_min, t_max, best: None };
        assert(r@.stack =~= seq![Item::Node(*root)]);
        r
    }

    /// What the search wants to know.
    pub fn probe(&self) -> (r: Probe)
        ensures
            r == self@.probe(),
    {
        let t_max = match self.best {
            Some(h) => h.t,
            None => self.t_max,
        };
        if self.stack.len() == 0 {
            Probe::Done { hit: self.best }
        } else {
            match self.stack[self.stack.len() - 1] {
                Pending::Object(e) => Probe::Object { id: e.id, t_min: self.t_min, t_max },
                Pending::Node(n) => Probe::Slab { bbox: n.bbox, t_min: self.t_min, t_max },
            }
        }
    }

    /// Takes the host's reply to the last question.
    pub fn advance(&mut self, reply: Reply)
        ensures
            final(self)@ == old(self)@.step(reply),
    {
        if self.stack.len() == 0 {
            return ;
        }
        let top = self.stack[self.stack.len() - 1];
        let ghost before = self.stack@;
        match (top, reply) {
            (Pending::Object(_), Reply::Object(found)) => {
                self.stack.pop();
                if let Some(h) = found {
                    self.best = Some(h);
                }
                assert(self@.stack =~= old(self)@.stack.drop_last());
            },
            (Pending::Node(n), Reply::Slab(through)) => {
                self.stack.pop();
                if through {
                    self.stack.push(Pending::of_child(&n.right));
                    self.stack.push(Pending::of_child(&n.left));
                    assert(self@.stack =~= old(self)@.stack.drop_last().push(
                        n.right.as_item(),
                    ).push(n.left.as_item()));
                } else {
                    assert(self@.stack =~= old(self)@.stack.drop_last());
                }
            },
            _ => {},
        }
    }
}

impl HittableList {
    /// Starts the search for the nearest hit among the list's objects within
    /// the range from `t_min` to `t_max`.
    pub fn hit(&self, t_min: Scalar, t_max: Scalar) -> (r: ListScan<'_>)
        ensures
            r@ == (ScanView { objects: self.objects@, next: 0, t_min, t_max, best: None }),
    {
        ListScan::new(self, t_min, t_max)
    }
}

impl BVHNode {
    /// Starts the search for the nearest hit among the tree's objects within
    /// the range from `t_min` to `t_max`.
    pub fn hit(&self, t_min: Scalar, t_max: Scalar) -> (r: Traversal<'_>)
        ensures
            r@ == (TraversalView { stack: seq![Item::Node(*self)], t_min, t_max, best: None }),
    {
        Traversal::new(self, t_min, t_max)
    }
}

} // verus!
