//! The lattice of the gradient noise: three shuffled index tables and the
//! gradient that they assign to each lattice point.

use crate::random::random_integer_with_range;
use crate::vec::Vec3;
use vstd::prelude::*;

verus! {

/// The number of gradients, and the length of each index table.
pub const POINT_COUNT: usize = 256;

/// Whether `p` holds each index below [`POINT_COUNT`] exactly once.
pub open spec fn is_permutation(p: Seq<usize>) -> bool {
    &&& p.len() == POINT_COUNT
    &&& forall|i: int| 0 <= i < p.len() ==> #[trigger] p[i] < POINT_COUNT
    &&& p.no_duplicates()
}

/// The table that holds each index at its own place.
pub open spec fn identity_table() -> Seq<usize> {
    Seq::new(POINT_COUNT as nat, |i: int| i as usize)
}

/// The place of a lattice coordinate in an index table: the coordinate modulo
/// [`POINT_COUNT`], which is never negative.
pub open spec fn lattice(i: int) -> int {
    i % 256
}

/// `s` with the entries at `i` and `j` exchanged.
pub open spec fn swapped(s: Seq<usize>, i: int, j: int) -> Seq<usize> {
    s.update(i, s[j]).update(j, s[i])
}

/// The table after the first `n` steps of a shuffle of `p`: in step `i` the
/// entry at `i` changes places with the entry at `targets[i]`.
pub open spec fn shuffled(p: Seq<usize>, targets: Seq<int>, n: int) -> Seq<usize>
    decreases n,
{
    if n <= 0 {
        p
    } else {
        swapped(shuffled(p, targets, n - 1), n - 1, targets[n - 1])
    }
}

/// Whether each of the first `n` targets of a shuffle points at an entry up to
/// and including the one it is drawn for.
pub open spec fn targets_in_reach(targets: Seq<int>, n: int) -> bool {
    &&& targets.len() == n
    &&& forall|i: int| 0 <= i < n ==> 0 <= #[trigger] targets[i] <= i
}

/// The first steps of a shuffle do not depend on the targets of later steps.
pub proof fn lemma_shuffled_prefix(p: Seq<usize>, targets: Seq<int>, more: Seq<int>, n: int)
    requires
        0 <= n <= targets.len() <= more.len(),
        forall|i: int| 0 <= i < n ==> targets[i] == more[i],
    ensures
        shuffled(p, targets, n) == shuffled(p, more, n),
    decreases n,
{
    if n > 0 {
        lemma_shuffled_prefix(p, targets, more, n - 1);
    }
}

/// Exchanges two entries of a table.
pub fn swap_entries(p: &mut Vec<usize>, i: usize, j: usize)
    requires
        i < old(p).len(),
        j < old(p).len(),
    ensures
        final(p)@ == swapped(old(p)@, i as int, j as int),
{
    let tmp: usize = p[i];
    let other: usize = p[j];
    p[i] = other;
    p[j] = tmp;
}

/// Exchanging two entries keeps what a table holds.
pub proof fn lemma_swapped_rearranges(s: Seq<usize>, i: int, j: int)
    requires
        0 <= i < s.len(),
        0 <= j < s.len(),
    ensures
        swapped(s, i, j).to_multiset() == s.to_multiset(),
        swapped(s, i, j).len() == s.len(),
{
    broadcast use vstd::seq_lib::to_multiset_update;

    let mid = s.update(i, s[j]);
    assert(mid.to_multiset() == s.to_multiset().insert(s[j]).remove(s[i]));
    assert(swapped(s, i, j).to_multiset() == mid.to_multiset().insert(s[i]).remove(mid[j]));
    assert(mid[j] == s[j]);
    assert(swapped(s, i, j).to_multiset() =~= s.to_multiset()) by {
        broadcast use vstd::seq_lib::group_to_multiset_ensures;

        assert(s.contains(s[i]));
        assert(s.contains(s[j]));
    }
}

/// A table that holds what a permutation holds, at the same length, is a
/// permutation.
pub proof fn lemma_rearranged_permutation(p: Seq<usize>, q: Seq<usize>)
    requires
        is_permutation(p),
        q.to_multiset() == p.to_multiset(),
    ensures
        is_permutation(q),
{
    broadcast use vstd::seq_lib::group_to_multiset_ensures;

    assert(q.len() == q.to_multiset().len());
    assert(p.len() == p.to_multiset().len());
    assert forall|i: int| 0 <= i < q.len() implies #[trigger] q[i] < POINT_COUNT by {
        assert(q.contains(q[i]));
        assert(p.to_multiset().count(q[i]) > 0);
        assert(p.contains(q[i]));
        let k = choose|k: int| 0 <= k < p.len() && p[k] == q[i];
        assert(p[k] < POINT_COUNT);
    }
    p.lemma_multiset_has_no_duplicates();
    q.lemma_multiset_has_no_duplicates_conv();
}

/// The gradient noise's tables. The three index tables are permutations.
pub struct Perlin {
    random_vec: [Vec3; 256],
    perm_x: Vec<usize>,
    perm_y: Vec<usize>,
    perm_z: Vec<usize>,
}

impl Perlin {
    #[verifier::type_invariant]
    spec fn wf(self) -> bool {
        &&& is_permutation(self.perm_x@)
        &&& is_permutation(self.perm_y@)
        &&& is_permutation(self.perm_z@)
    }

    /// The 256 gradients.
    pub closed spec fn gradients(self) -> Seq<Vec3> {
        self.random_vec@
    }

    /// The index table of an axis: 0 for x, 1 for y, anything else for z.
    pub closed spec fn table(self, axis: int) -> Seq<usize> {
        if axis == 0 {
            self.perm_x@
        } else if axis == 1 {
            self.perm_y@
        } else {
            self.perm_z@
        }
    }

    /// The place among the gradients of the one that belongs to the lattice
    /// point `(i, j, k)`: the three tables' entries for the coordinates,
    /// combined bit by bit with exclusive or.
    pub open spec fn gradient_index(self, i: int, j: int, k: int) -> usize {
        self.table(0)[lattice(i)] ^ self.table(1)[lattice(j)] ^ self.table(2)[lattice(k)]
    }

    /// The gradient that belongs to the lattice point `(i, j, k)`.
    pub open spec fn spec_corner(self, i: int, j: int, k: int) -> Vec3 {
        self.gradients()[self.gradient_index(i, j, k) as int]
    }

    /// Shuffles the first `n` entries of `p`: each in turn changes places with
    /// an entry drawn from those up to and including itself.
    ///
    /// Whatever is drawn, the outcome is the shuffle of `p` by some targets
    /// within reach. So `p` holds afterwards what it held before, and the
    /// entries from `n` on stay where they were.
    pub fn permute(p: &mut Vec<usize>, n: usize)
        requires
            n <= old(p).len(),
        ensures
            exists|targets: Seq<int>|
                targets_in_reach(targets, n as int) && final(p)@ == #[trigger] shuffled(
                    old(p)@,
                    targets,
                    n as int,
                ),
            final(p)@.len() == old(p)@.len(),
            final(p)@.to_multiset() == old(p)@.to_multiset(),
            forall|k: int| n <= k < old(p)@.len() ==> final(p)@[k] == old(p)@[k],
    {
        let mut i: usize = 0;
        let ghost mut targets: Seq<int> = Seq::empty();
        while i < n
            invariant
                i <= n <= p.len(),
                p@.len() == old(p)@.len(),
                p@.to_multiset() == old(p)@.to_multiset(),
                forall|k: int| i <= k < old(p)@.len() ==> p@[k] == old(p)@[k],
                targets_in_reach(targets, i as int),
                p@ == shuffled(old(p)@, targets, i as int),
            decreases n - i,
        {
            let bound: u32 = if i > 0xFFFF_FFFF {
                0xFFFF_FFFF
            } else {
                i as u32
            };
            let target: usize = random_integer_with_range(0, bound) as usize;
            proof {
                lemma_swapped_rearranges(p@, i as int, target as int);
                lemma_shuffled_prefix(old(p)@, targets, targets.push(target as int), i as int);
                targets = targets.push(target as int);
            }
            swap_entries(p, i, target);
            i = i + 1;
        }
    }

    /// A fresh shuffled index table: the shuffle of the table that holds each
    /// index at its own place.
    ///
    /// Whatever is drawn, the table holds each index below [`POINT_COUNT`]
    /// exactly once.
    pub fn generate_perm() -> (p: Vec<usize>)
        ensures
            exists|targets: Seq<int>|
                targets_in_reach(targets, POINT_COUNT as int) && p@ == #[trigger] shuffled(
                    identity_table(),
                    targets,
                    POINT_COUNT as int,
                ),
            is_permutation(p@),
            p@.to_multiset() == identity_table().to_multiset(),
    {
        let mut p: Vec<usize> = Vec::new();
        let mut i: usize = 0;
        while i < POINT_COUNT
            invariant
                i <= POINT_COUNT,
                p@.len() == i,
                forall|k: int| 0 <= k < i ==> p@[k] == k,
            decreases POINT_COUNT - i,
        {
            p.push(i);
            i = i + 1;
        }
        assert(p@ =~= identity_table());
        assert(is_permutation(identity_table()));
        Self::permute(&mut p, POINT_COUNT);
        proof {
            lemma_rearranged_permutation(identity_table(), p@);
        }
        p
    }

    /// The noise over the given gradients, with three fresh index tables.
    pub fn new(random_vec: [Vec3; 256]) -> (r: Self)
        ensures
            r.gradients() == random_vec@,
            is_permutation(r.table(0)),
            is_permutation(r.table(1)),
            is_permutation(r.table(2)),
    {
        let perm_x = Self::generate_perm();
        let perm_y = Self::generate_perm();
        let perm_z = Self::generate_perm();
        Perlin { random_vec, perm_x, perm_y, perm_z }
    }

    /// The index table of an axis: 0 for x, 1 for y, anything else for z.
    pub fn perm(&self, axis: usize) -> (r: &Vec<usize>)
        ensures
            r@ == self.table(axis as int),
            is_permutation(r@),
    {
        proof {
            use_type_invariant(self);
        }
        if axis == 0 {
            &self.perm_x
        } else if axis == 1 {
            &self.perm_y
        } else {
            &self.perm_z
        }
    }

    /// The gradient that belongs to the lattice point `(i, j, k)`.
    pub fn corner(&self, i: i64, j: i64, k: i64) -> (r: Vec3)
        ensures
            r == self.spec_corner(i as int, j as int, k as int),
    {
        proof {
            use_type_invariant(self);
        }
        let a: usize = lattice_place(i);
        let b: usize = lattice_place(j);
        let c: usize = lattice_place(k);
        let x: usize = self.perm_x[a];
        let y: usize = self.perm_y[b];
        let z: usize = self.perm_z[c];
        assert(x ^ y ^ z < 256) by (bit_vector)
            requires
                x < 256,
                y < 256,
                z < 256,
        ;
        self.random_vec[x ^ y ^ z]
    }

    /// The gradients at the eight corners of the lattice cell whose lowest
    /// corner is `(i, j, k)`: the entry at `[di][dj][dk]` belongs to the point
    /// `(i + di, j + dj, k + dk)`.
    pub fn corners(&self, i: i64, j: i64, k: i64) -> (c: [[[Vec3; 2]; 2]; 2])
        ensures
            forall|di: int, dj: int, dk: int|
                0 <= di < 2 && 0 <= dj < 2 && 0 <= dk < 2 ==> #[trigger] c[di][dj][dk]
                    == self.spec_corner(i + di, j + dj, k + dk),
    {
        let i1: i64 = lattice_next(i);
        let j1: i64 = lattice_next(j);
        let k1: i64 = lattice_next(k);
        [
            [
                [self.corner(i, j, k), self.corner(i, j, k1)],
                [self.corner(i, j1, k), self.corner(i, j1, k1)],
            ],
            [
                [self.corner(i1, j, k), self.corner(i1, j, k1)],
                [self.corner(i1, j1, k), self.corner(i1, j1, k1)],
            ],
        ]
    }
}

/// The place of a lattice coordinate in an index table.
pub fn lattice_place(i: i64) -> (r: usize)
    ensures
        r == lattice(i as int),
        r < POINT_COUNT,
{
    let low: i64 = i & 255;
    assert(0 <= low < 256 && low == i % 256) by (bit_vector)
        requires
            low == i & 255,
    ;
    low as usize
}

/// A coordinate that shares its place in the tables with `i + 1`, also where
/// `i + 1` itself would overflow.
pub fn lattice_next(i: i64) -> (r: i64)
    ensures
        r == if i == i64::MAX {
            0
        } else {
            i + 1
        },
        lattice(r as int) == lattice(i + 1),
{
    if i == i64::MAX {
        assert(lattice(i64::MAX + 1) == 0);
        0
    } else {
        i + 1
    }
}

} // verus!
