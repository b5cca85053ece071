//! The whole-number half of a gradient noise generator.
//!
//! The noise itself is blended in floating point by the caller. What is kept
//! here is what it blends: the table that the corners of a lattice cell are
//! hashed with, which holds the 256 byte values in a random order, written
//! twice so that a lookup past the 255th entry needs no wrapping; the hashes
//! of the four corners of a cell; the gradient that a hash stands for; and
//! the level of a noise value against the cutoffs of map generation.

use crate::map::NoiseLevel;
use crate::random::shuffle;
use vstd::prelude::*;

verus! {

/// A noise generator's permutation table.
pub struct PerlinNoise {
    pub permutation: [u8; 512],
}

/// The byte values in ascending order.
pub open spec fn ascending_bytes() -> Seq<u8> {
    Seq::new(256, |i: int| i as u8)
}

/// `table` holds a permutation of the byte values, twice over.
pub open spec fn is_doubled_permutation(table: Seq<u8>) -> bool {
    &&& table.len() == 512
    &&& table.subrange(0, 256).to_multiset() == ascending_bytes().to_multiset()
    &&& forall|i: int| 0 <= i < 256 ==> #[trigger] table[i + 256] == table[i]
}

/// In a doubled permutation each byte value stands exactly once among the
/// first 256 entries.
pub proof fn lemma_each_byte_once(table: Seq<u8>, value: u8)
    requires
        is_doubled_permutation(table),
    ensures
        table.subrange(0, 256).to_multiset().count(value) == 1,
        table.subrange(0, 256).contains(value),
{
    let ascending = ascending_bytes();
    assert(ascending.no_duplicates());
    ascending.lemma_multiset_has_no_duplicates();
    assert(ascending[value as int] == value);
    assert(ascending.contains(value));
    vstd::seq_lib::to_multiset_contains(ascending, value);
    vstd::seq_lib::to_multiset_contains(table.subrange(0, 256), value);
}

impl PerlinNoise {
    /// The table holds a permutation of the byte values, twice over.
    pub open spec fn wf(&self) -> bool {
        is_doubled_permutation(self.permutation@)
    }

    /// A generator with a freshly shuffled table.
    pub fn new() -> (noise: Self)
        ensures
            noise.wf(),
    {
        Self { permutation: Self::generate_permutation() }
    }

    /// The byte values in a random order, written twice.
    fn generate_permutation() -> (table: [u8; 512])
        ensures
            is_doubled_permutation(table@),
    {
        let mut permutation: Vec<u8> = Vec::new();
        let mut value: usize = 0;
        while value < 256
            invariant
                value <= 256,
                permutation@ == ascending_bytes().take(value as int),
            decreases 256 - value,
        {
            permutation.push(value as u8);
            value += 1;
            assert(permutation@ =~= ascending_bytes().take(value as int));
        }
        assert(permutation@ =~= ascending_bytes());
        shuffle(&mut permutation);
        proof {
            vstd::seq_lib::to_multiset_len(permutation@);
            vstd::seq_lib::to_multiset_len(ascending_bytes());
        }
        let mut result: [u8; 512] = [0; 512];
        let mut i: usize = 0;
        while i < 256
            invariant
                i <= 256,
                permutation@.len() == 256,
                forall|k: int| 0 <= k < i ==> #[trigger] result@[k] == permutation@[k],
                forall|k: int| 0 <= k < i ==> #[trigger] result@[k + 256] == permutation@[k],
            decreases 256 - i,
        {
            result[i] = permutation[i];
            result[i + 256] = permutation[i];
            i += 1;
        }
        assert(result@.subrange(0, 256) =~= permutation@);
        result
    }
}

impl PerlinNoise {
    /// The hash of the lattice point in column `x`, row `y`, for columns and
    /// rows up to 256: two lookups, the second at the first's result plus the
    /// row, and a third at what that gave.
    pub open spec fn hash_at(&self, x: int, y: int) -> u8 {
        self.permutation@[self.permutation@[self.permutation@[x] + y] as int]
    }

    /// The hashes of the four corners of the lattice cell whose top left corner
    /// is column `x`, row `y`: top left, top right, bottom left, bottom right.
    pub fn corner_hashes(&self, x: u8, y: u8) -> (hashes: [u8; 4])
        ensures
            hashes@[0] == self.hash_at(x as int, y as int),
            hashes@[1] == self.hash_at(x + 1, y as int),
            hashes@[2] == self.hash_at(x as int, y + 1),
            hashes@[3] == self.hash_at(x + 1, y + 1),
    {
        let x: usize = x as usize;
        let y: usize = y as usize;
        let a: usize = self.permutation[x] as usize + y;
        let aa: usize = self.permutation[a] as usize;
        let ab: usize = self.permutation[a + 1] as usize;
        let b: usize = self.permutation[x + 1] as usize + y;
        let ba: usize = self.permutation[b] as usize;
        let bb: usize = self.permutation[b + 1] as usize;
        [
            self.permutation[aa],
            self.permutation[ba],
            self.permutation[ab],
            self.permutation[bb],
        ]
    }
}

/// The gradient that a hash stands for: one of 1 to 8 by the hash's three
/// lowest bits, taken negative where its fourth bit is set.
pub open spec fn gradient_of(hash: u8) -> int {
    if (hash / 8) % 2 == 1 {
        -(1 + hash % 8)
    } else {
        1 + hash % 8
    }
}

/// The gradient that a hash stands for.
pub fn grad(hash: u8) -> (gradient: i8)
    ensures
        gradient == gradient_of(hash),
        gradient != 0,
        -8 <= gradient <= 8,
{
    let h: u8 = hash & 15;
    let low: u8 = h & 7;
    let sign: u8 = h & 8;
    assert(low == hash % 8 && (sign != 0 <==> (hash / 8) % 2 == 1)) by (bit_vector)
        requires
            h == hash & 15,
            low == h & 7,
            sign == h & 8,
    ;
    let magnitude: i8 = 1 + low as i8;
    if sign != 0 {
        -magnitude
    } else {
        magnitude
    }
}

/// The two cutoffs that a noise value is set against when a map is drawn.
#[derive(Clone, Copy, Debug, PartialEq, Eq, Structural)]
pub struct NoiseCutoffs {
    /// Noise above this draws flowers.
    pub flowers_above: i64,
    /// Noise above this, and not above the other, draws grass.
    pub grass_above: i64,
}

/// The level of a noise value: high above the upper cutoff, low at or below
/// the lower one, and in the middle otherwise. The value and the cutoffs are
/// counted in the same unit.
pub open spec fn level_of(value: i64, cutoffs: NoiseCutoffs) -> NoiseLevel {
    if value > cutoffs.flowers_above {
        NoiseLevel::High
    } else if value > cutoffs.grass_above {
        NoiseLevel::Middle
    } else {
        NoiseLevel::Low
    }
}

/// The level of a noise value against the cutoffs.
pub fn noise_level(value: i64, cutoffs: &NoiseCutoffs) -> (level: NoiseLevel)
    ensures
        level == level_of(value, *cutoffs),
{
    if value > cutoffs.flowers_above {
        NoiseLevel::High
    } else if value > cutoffs.grass_above {
        NoiseLevel::Middle
    } else {
        NoiseLevel::Low
    }
}

} // verus!
