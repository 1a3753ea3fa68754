//! The seeded stream of draws that places every shape.

use rand::Rng;
use rand::SeedableRng;
use rand_chacha::ChaCha8Rng;
use vstd::prelude::*;

verus! {

#[verifier::external_type_specification]
#[verifier::external_body]
pub struct ExChaCha8Rng(ChaCha8Rng);

/// Where a generator stands, as bytes: its key, its stream number and its
/// word position. Nothing else decides what it hands out next.
pub uninterp spec fn generator_state(rng: ChaCha8Rng) -> Seq<u8>;

/// The state in which `SeedableRng::seed_from_u64` leaves a fresh generator.
pub uninterp spec fn seeded_state(seed: u64) -> Seq<u8>;

/// What `Rng::gen_range` does on the half-open range `low..high` of `u64`
/// to a generator in `state`: the number drawn and the state afterwards.
pub uninterp spec fn uniform_draw(state: Seq<u8>, low: u64, high: u64) -> (u64, Seq<u8>);

/// Calls `ChaCha8Rng::seed_from_u64`. Believed, not proved: the state of the
/// new generator depends on the seed alone.
#[verifier::external_body]
fn seeded_generator(seed: u64) -> (rng: ChaCha8Rng)
    ensures
        generator_state(rng) == seeded_state(seed),
{
    ChaCha8Rng::seed_from_u64(seed)
}

/// Calls `Rng::gen_range` on `low..high`. Believed, not proved: the number
/// lies in the range, and it and the new state depend only on the old state
/// and the two bounds. An empty range is left out: the call panics on it.
#[verifier::external_body]
fn draw_between(rng: &mut ChaCha8Rng, low: u64, high: u64) -> (drawn: u64)
    requires
        low < high,
    ensures
        low <= drawn < high,
        (drawn, generator_state(*final(rng))) == uniform_draw(generator_state(*old(rng)), low, high),
{
    rng.gen_range(low..high)
}

/// A reproducible stream of draws.
pub struct Stream {
    rng: ChaCha8Rng,
}

impl Stream {
    /// The state of the stream.
    pub closed spec fn view(&self) -> Seq<u8> {
        generator_state(self.rng)
    }

    /// A stream that starts from `seed`.
    pub fn new(seed: u64) -> (stream: Stream)
        ensures
            stream@ == seeded_state(seed),
    {
        Stream { rng: seeded_generator(seed) }
    }

    /// Draws a number of `low..high` and advances the stream.
    pub fn next_uniform_int(&mut self, low: usize, high: usize) -> (drawn: usize)
        requires
            low < high,
        ensures
            low <= drawn < high,
            drawn == draw_value(old(self)@, low, high),
            final(self)@ == draw_rest(old(self)@, low, high),
    {
        let drawn: u64 = draw_between(&mut self.rng, low as u64, high as u64);
        drawn as usize
    }
}

/// The number that a stream in `state` draws from `low..high`.
pub open spec fn draw_value(state: Seq<u8>, low: usize, high: usize) -> usize {
    uniform_draw(state, low as u64, high as u64).0 as usize
}

/// The state of a stream after it drew from `low..high` in `state`.
pub open spec fn draw_rest(state: Seq<u8>, low: usize, high: usize) -> Seq<u8> {
    uniform_draw(state, low as u64, high as u64).1
}

/// Two streams that start from the same seed are in the same state, and
/// two streams in the same state draw the same number from a range and
/// are left in the same state: a seed fixes the whole run of draws.
pub proof fn law_seed_fixes_draws(seed: u64, a: Stream, b: Stream, low: usize, high: usize)
    requires
        a@ == seeded_state(seed),
        b@ == seeded_state(seed),
    ensures
        a@ == b@,
        draw_value(a@, low, high) == draw_value(b@, low, high),
        draw_rest(a@, low, high) == draw_rest(b@, low, high),
{
}

} // verus!
