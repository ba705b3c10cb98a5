//! The deterministic random source that committee selection draws from.

use rand::rngs::StdRng;
use rand::RngCore;
use rand::SeedableRng;
use vstd::prelude::*;

verus! {

/// `rand::rngs::StdRng`, the generator of the rand crate. Nothing of its
/// inside is known here; what it will hand out is named by `upcoming`.
#[verifier::external_type_specification]
#[verifier::external_body]
pub struct ExStdRng(rand::rngs::StdRng);

/// The word at `position` in the output stream of a `StdRng` that
/// `SeedableRng::seed_from_u64` built from `seed`.
pub uninterp spec fn seeded_word(seed: u64, position: nat) -> u64;

/// The word that a generator in the given state hands out after `position`
/// earlier draws.
pub uninterp spec fn upcoming(rng: StdRng, position: nat) -> u64;

/// Calls `StdRng::seed_from_u64`. The generator is a deterministic function of
/// the seed, so its whole output stream is the one named by `seeded_word`.
#[verifier::external_body]
fn seed_generator(seed: u64) -> (rng: StdRng)
    ensures
        forall|i: nat| #[trigger] upcoming(rng, i) == seeded_word(seed, i),
{
    StdRng::seed_from_u64(seed)
}

/// Calls `RngCore::next_u64` on a `StdRng`. It returns the first word that was
/// still to come and moves the stream on by one word.
#[verifier::external_body]
fn draw_word(rng: &mut StdRng) -> (word: u64)
    ensures
        word == upcoming(*old(rng), 0),
        forall|i: nat| #[trigger] upcoming(*final(rng), i) == upcoming(*old(rng), i + 1),
{
    rng.next_u64()
}

/// A random source whose output is fixed by its seed: two sources with equal
/// seeds give equal words at equal positions.
pub struct SeededRng {
    inner: StdRng,
    seed: Ghost<u64>,
    drawn: Ghost<nat>,
}

impl SeededRng {
    /// The seed the source was created from.
    pub closed spec fn seed(&self) -> u64 {
        self.seed@
    }

    /// How many words have been drawn so far.
    pub closed spec fn drawn(&self) -> nat {
        self.drawn@
    }

    /// The words still to come are those of the seed's stream from `drawn()` on.
    pub closed spec fn wf(&self) -> bool {
        forall|i: nat| #[trigger] upcoming(self.inner, i) == seeded_word(self.seed@, self.drawn@ + i)
    }

    /// Draws the next word of the stream.
    pub fn next_u64(&mut self) -> (word: u64)
        requires
            old(self).wf(),
        ensures
            final(self).wf(),
            word == seeded_word(old(self).seed(), old(self).drawn()),
            final(self).seed() == old(self).seed(),
            final(self).drawn() == old(self).drawn() + 1,
    {
        let ghost before = self.inner;
        let word = draw_word(&mut self.inner);
        proof {
            self.drawn = Ghost((self.drawn@ + 1) as nat);
            assert forall|i: nat| #[trigger]
                upcoming(self.inner, i) == seeded_word(self.seed@, self.drawn@ + i) by {
                assert(upcoming(self.inner, i) == upcoming(before, i + 1));
            }
        }
        word
    }
}

/// Creates the random source for `seed`, positioned at the start of its stream.
pub fn initialize_rng(seed: u64) -> (rng: SeededRng)
    ensures
        rng.wf(),
        rng.seed() == seed,
        rng.drawn() == 0,
{
    SeededRng { inner: seed_generator(seed), seed: Ghost(seed), drawn: Ghost(0) }
}

} // verus!
