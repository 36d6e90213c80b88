//! The lattice of a gradient noise: three permutation tables and a table of
//! gradient vectors, and the lookup that hashes a lattice point into it.

use vstd::prelude::*;
use crate::random::{draw_below, Rng};
use crate::rearrange::{lemma_exchange_keeps_elements, lemma_rearranged_keeps_distinct};
use crate::vec3::Vec3;

verus! {

/// The number of lattice gradients, and the length of each table.
pub const POINT_COUNT: usize = 256;

/// The lattice: 256 gradients, and one permutation table for each axis.
pub struct Perlin {
    ranfloat: [Vec3; 256],
    perm_x: [u16; 256],
    perm_y: [u16; 256],
    perm_z: [u16; 256],
}

/// The table `0, 1, .., 255`.
pub open spec fn identity_table() -> Seq<u16> {
    Seq::new(256, |i: int| i as u16)
}

/// Whether a table holds each of `0, 1, .., 255` exactly once.
pub open spec fn is_permutation(p: Seq<u16>) -> bool {
    p.to_multiset() =~= identity_table().to_multiset()
}

/// Whether `from` says where the entries of `after` began in `before`, and
/// none of them began where it is.
pub open spec fn derangement(before: Seq<u16>, after: Seq<u16>, from: Seq<int>) -> bool {
    &&& before.len() == after.len() == from.len()
    &&& forall|k: int|
        0 <= k < after.len() ==> 0 <= #[trigger] from[k] < before.len() && from[k] != k && after[k]
            == before[from[k]]
}

/// Whether every position of `after` holds an entry that began at another
/// position of `before`.
pub open spec fn displaced(before: Seq<u16>, after: Seq<u16>) -> bool {
    exists|from: Seq<int>| derangement(before, after, from)
}

/// The low eight bits of a lattice coordinate, as a table index.
pub open spec fn spec_wrap(c: i32) -> usize {
    (c & 255) as usize
}

/// A permutation table has 256 entries below 256, no two of them equal.
pub proof fn lemma_permutation_entries(p: Seq<u16>)
    requires
        is_permutation(p),
    ensures
        p.len() == 256,
        p.no_duplicates(),
        forall|i: int| 0 <= i < 256 ==> (#[trigger] p[i]) < 256,
{
    let id = identity_table();
    p.to_multiset_ensures();
    id.to_multiset_ensures();
    assert(id.no_duplicates());
    lemma_rearranged_keeps_distinct(id, p);
    assert forall|i: int| 0 <= i < p.len() implies (#[trigger] p[i]) < 256 by {
        assert(p.contains(p[i]));
        assert(id.to_multiset().count(p[i]) > 0);
        assert(id.contains(p[i]));
    }
}

impl Perlin {
    /// The gradients, by their table index.
    pub closed spec fn gradients(&self) -> Seq<Vec3> {
        self.ranfloat@
    }

    /// The permutation table of an axis: 0, 1 or 2.
    pub closed spec fn table(&self, axis: int) -> Seq<u16> {
        if axis == 0 {
            self.perm_x@
        } else if axis == 1 {
            self.perm_y@
        } else {
            self.perm_z@
        }
    }

    /// Whether the three tables are permutations.
    pub open spec fn well_formed(&self) -> bool {
        &&& is_permutation(self.table(0))
        &&& is_permutation(self.table(1))
        &&& is_permutation(self.table(2))
    }

    /// The index of the gradient at the lattice point `(i, j, k)`: the three
    /// tables' entries at the wrapped coordinates, combined by exclusive or.
    pub open spec fn spec_hash(&self, i: i32, j: i32, k: i32) -> usize {
        (self.table(0)[spec_wrap(i) as int] ^ self.table(1)[spec_wrap(j) as int] ^ self.table(
            2,
        )[spec_wrap(k) as int]) as usize
    }

    /// Rearranges the table at random: walking down from the last position,
    /// each entry changes places with one drawn from the positions before it.
    /// Nothing is lost, and nothing stays where it was: every position ends
    /// with an entry that began at another.
    pub fn permute(rng: &mut Rng, p: &mut [u16; 256])
        ensures
            final(p)@.to_multiset() =~= old(p)@.to_multiset(),
            displaced(old(p)@, final(p)@),
    {
        let ghost mut from: Seq<int> = Seq::new(256, |k: int| k);
        let mut i: usize = 255;
        while i >= 1
            invariant
                i <= 255,
                p@.len() == 256,
                p@.to_multiset() =~= old(p)@.to_multiset(),
                from.len() == 256,
                forall|k: int| 0 <= k < 256 ==> 0 <= #[trigger] from[k] < 256 && p@[k] == old(p)@[from[k]],
                forall|k: int| i < k < 256 ==> #[trigger] from[k] != k,
                forall|k: int| 0 <= k <= i ==> #[trigger] from[k] == k || from[k] > i,
                i == 0 ==> from[0] != 0,
            decreases i,
        {
            let target = draw_below(rng, i);
            let ghost before = p@;
            let upper = p[i];
            let lower = p[target];
            p[i] = lower;
            p[target] = upper;
            proof {
                lemma_exchange_keeps_elements(before, i as int, target as int);
                assert(p@ =~= before.update(i as int, before[target as int]).update(
                    target as int,
                    before[i as int],
                ));
                let moved_up = from[target as int];
                let moved_down = from[i as int];
                from = from.update(i as int, moved_up).update(target as int, moved_down);
            }
            i = i - 1;
        }
        proof {
            assert(derangement(old(p)@, p@, from));
        }
    }

    /// Fills the table with `0, 1, .., 255` and rearranges it at random. The
    /// table is then a permutation without a fixed point.
    pub fn generate_perm(rng: &mut Rng, p: &mut [u16; 256])
        ensures
            is_permutation(final(p)@),
            forall|k: int| 0 <= k < 256 ==> #[trigger] final(p)@[k] != k,
    {
        let mut i: usize = 0;
        while i < 256
            invariant
                i <= 256,
                p@.len() == 256,
                forall|k: int| 0 <= k < i ==> p@[k] == k as u16,
            decreases 256 - i,
        {
            p[i] = i as u16;
            i = i + 1;
        }
        let ghost filled = p@;
        proof {
            assert(filled =~= identity_table());
        }
        Self::permute(rng, p);
        proof {
            let from = choose|from: Seq<int>| derangement(filled, p@, from);
            assert forall|k: int| 0 <= k < 256 implies #[trigger] p@[k] != k by {
                assert(p@[k] == filled[from[k]]);
            }
        }
    }

    /// The lattice with the given gradients and three fresh permutation
    /// tables, drawn in the order of the axes.
    pub fn new(rng: &mut Rng, ranfloat: [Vec3; 256]) -> (noise: Perlin)
        ensures
            noise.well_formed(),
            noise.gradients() == ranfloat@,
    {
        let mut perm_x = [0u16; 256];
        let mut perm_y = [0u16; 256];
        let mut perm_z = [0u16; 256];
        Self::generate_perm(rng, &mut perm_x);
        Self::generate_perm(rng, &mut perm_y);
        Self::generate_perm(rng, &mut perm_z);
        Perlin { ranfloat, perm_x, perm_y, perm_z }
    }

    /// The index of the gradient at the lattice point `(i, j, k)`.
    pub fn hash(&self, i: i32, j: i32, k: i32) -> (index: usize)
        requires
            self.well_formed(),
        ensures
            index == self.spec_hash(i, j, k),
            index < 256,
    {
        let a: usize = wrap(i);
        let b: usize = wrap(j);
        let c: usize = wrap(k);
        let x: u16 = self.perm_x[a];
        let y: u16 = self.perm_y[b];
        let z: u16 = self.perm_z[c];
        proof {
            lemma_permutation_entries(self.table(0));
            lemma_permutation_entries(self.table(1));
            lemma_permutation_entries(self.table(2));
            assert(x < 256 && y < 256 && z < 256);
            assert((x ^ y ^ z) < 256) by (bit_vector)
                requires
                    x < 256 && y < 256 && z < 256,
            ;
        }
        (x ^ y ^ z) as usize
    }

    /// The gradient at the lattice point `(i, j, k)`.
    pub fn gradient(&self, i: i32, j: i32, k: i32) -> (g: Vec3)
        requires
            self.well_formed(),
        ensures
            g == self.gradients()[self.spec_hash(i, j, k) as int],
    {
        let index = self.hash(i, j, k);
        self.ranfloat[index]
    }

    /// The gradients at the eight corners of the lattice cell whose lowest
    /// corner is `(i, j, k)`; the corner `(i + di, j + dj, k + dk)` stands at
    /// `[di][dj][dk]`.
    pub fn corners(&self, i: i32, j: i32, k: i32) -> (c: [[[Vec3; 2]; 2]; 2])
        requires
            self.well_formed(),
            i < i32::MAX,
            j < i32::MAX,
            k < i32::MAX,
        ensures
            forall|di: int, dj: int, dk: int|
                0 <= di < 2 && 0 <= dj < 2 && 0 <= dk < 2 ==> #[trigger] c@[di]@[dj]@[dk]
                    == self.gradients()[self.spec_hash(
                    (i + di) as i32,
                    (j + dj) as i32,
                    (k + dk) as i32,
                ) as int],
    {
        let c00 = [self.gradient(i, j, k), self.gradient(i, j, k + 1)];
        let c01 = [self.gradient(i, j + 1, k), self.gradient(i, j + 1, k + 1)];
        let c10 = [self.gradient(i + 1, j, k), self.gradient(i + 1, j, k + 1)];
        let c11 = [self.gradient(i + 1, j + 1, k), self.gradient(i + 1, j + 1, k + 1)];
        [[c00, c01], [c10, c11]]
    }
}

/// The low eight bits of a lattice coordinate, as a table index.
#[verifier::when_used_as_spec(spec_wrap)]
pub fn wrap(c: i32) -> (index: usize)
    ensures
        index == spec_wrap(c),
        index < 256,
{
    let low: i32 = c & 255;
    proof {
        assert(0 <= (c & 255) < 256) by (bit_vector);
    }
    low as usize
}

} // verus!
