//! The random number generator that every sampling point draws from.

use vstd::prelude::*;

verus! {

/// The 32-byte seed that a ChaCha20 generator seeded from a 64-bit number
/// starts with.
pub uninterp spec fn seed_of_u64(n: u64) -> Seq<u8>;

/// The index below `bound` that a ChaCha20 generator with the given seed
/// draws at the given position of its stream, and the position behind the
/// draw.
pub uninterp spec fn index_draw(seed: Seq<u8>, word_pos: u128, bound: u64) -> (u64, u128);

/// A ChaCha20 generator, held as its seed and its position in the stream of
/// 32-bit words. Given the same seed and position it yields the same draws.
pub struct SeededRng {
    /// The key of the stream.
    pub seed: [u8; 32],
    /// The number of 32-bit words drawn so far.
    pub word_pos: u128,
}

impl SeededRng {
    /// The same generator at another position of its stream.
    pub open spec fn at(self, word_pos: u128) -> SeededRng {
        SeededRng { seed: self.seed, word_pos }
    }

    /// The index below `bound` that the generator draws next.
    pub open spec fn next_index(self, bound: usize) -> usize {
        index_draw(self.seed@, self.word_pos, bound as u64).0 as usize
    }

    /// The generator behind its next draw of an index below `bound`.
    pub open spec fn after_index(self, bound: usize) -> SeededRng {
        self.at(index_draw(self.seed@, self.word_pos, bound as u64).1)
    }

    /// A generator seeded from a 64-bit number: the number is expanded to a
    /// seed, and the stream starts at its first word.
    pub fn seed_from_u64(seed: u64) -> (r: SeededRng)
        ensures
            r.seed@ == seed_of_u64(seed),
            r.word_pos == 0,
    {
        SeededRng { seed: chacha_expand_seed(seed), word_pos: 0 }
    }

    /// A generator seeded from 32 bytes: the stream of that seed, at its
    /// first word.
    pub fn from_seed(seed: [u8; 32]) -> (r: SeededRng)
        ensures
            r.seed == seed,
            r.word_pos == 0,
    {
        SeededRng { seed, word_pos: 0 }
    }

    /// The next index below `bound`: the draw that the seed and the position
    /// decide, after which the generator stands behind that draw.
    pub fn gen_index(&mut self, bound: usize) -> (r: usize)
        requires
            bound > 0,
        ensures
            r == old(self).next_index(bound),
            *final(self) == old(self).after_index(bound),
            r < bound,
    {
        let (index, pos) = chacha_gen_range(&self.seed, self.word_pos, bound as u64);
        self.word_pos = pos;
        index as usize
    }
}

/// `SeedableRng::seed_from_u64` and `get_seed` of `rand_chacha::ChaCha20Rng`:
/// the seed that the number is expanded to.
#[verifier::external_body]
fn chacha_expand_seed(n: u64) -> (r: [u8; 32])
    ensures
        r@ == seed_of_u64(n),
{
    <rand_chacha::ChaCha20Rng as rand::SeedableRng>::seed_from_u64(n).get_seed()
}

/// `Rng::gen_range` over `0..bound` on the `rand_chacha::ChaCha20Rng` that
/// `from_seed` and `set_word_pos` put at the given place, with the place at
/// which `get_word_pos` finds it afterwards: the index of that range that
/// seed, place and bound decide. The call panics on an empty range.
#[verifier::external_body]
fn chacha_gen_range(seed: &[u8; 32], word_pos: u128, bound: u64) -> (r: (u64, u128))
    requires
        bound > 0,
    ensures
        r == index_draw(seed@, word_pos, bound),
        r.0 < bound,
{
    let mut g = <rand_chacha::ChaCha20Rng as rand::SeedableRng>::from_seed(*seed);
    g.set_word_pos(word_pos);
    let index: u64 = rand::Rng::gen_range(&mut g, 0..bound);
    (index, g.get_word_pos())
}

} // verus!
