//! Deterministic word generation for page payloads.
use vstd::prelude::*;
use rand_xoshiro::rand_core::{RngCore, SeedableRng};
use rand_xoshiro::Xoroshiro128PlusPlus;

verus! {

#[verifier::external_type_specification]
#[verifier::external_body]
pub struct ExXoroshiro128PlusPlus(Xoroshiro128PlusPlus);

/// The word that a `Xoroshiro128PlusPlus` generator, seeded with
/// `SeedableRng::seed_from_u64(seed)`, returns from its `index`-th call of
/// `RngCore::next_u64` (counting from zero).
pub uninterp spec fn xoroshiro_word(seed: u64, index: nat) -> u64;

/// The first `count` words of the stream seeded by `seed`.
pub open spec fn generated_words(seed: u64, count: nat) -> Seq<u64> {
    Seq::new(count, |i: int| xoroshiro_word(seed, i as nat))
}

/// A seeded word generator that remembers, as ghost state, the seed it was
/// created from and how many words it has handed out.
pub struct WordGenerator {
    rng: Xoroshiro128PlusPlus,
    seed: Ghost<u64>,
    drawn: Ghost<nat>,
}

impl View for WordGenerator {
    type V = (u64, nat);

    closed spec fn view(&self) -> (u64, nat) {
        (self.seed@, self.drawn@)
    }
}

impl WordGenerator {
    /// Seeds a generator with `Xoroshiro128PlusPlus::seed_from_u64`. Trusted:
    /// the returned generator is the one whose stream `xoroshiro_word(seed, _)`
    /// names, with no word drawn yet.
    #[verifier::external_body]
    pub fn from_seed(seed: u64) -> (g: WordGenerator)
        ensures
            g@ == (seed, 0nat),
    {
        WordGenerator { rng: Xoroshiro128PlusPlus::seed_from_u64(seed), seed: Ghost(seed), drawn: Ghost(0) }
    }

    /// Draws the next word with `RngCore::next_u64`. Trusted: the word is the
    /// `drawn`-th word of the stream of the generator's seed, and the count of
    /// drawn words goes up by one (`next_u64` never panics).
    #[verifier::external_body]
    pub fn next_word(&mut self) -> (w: u64)
        ensures
            w == xoroshiro_word(old(self)@.0, old(self)@.1),
            final(self)@ == (old(self)@.0, old(self)@.1 + 1),
    {
        self.rng.next_u64()
    }
}

} // verus!
