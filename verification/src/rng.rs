use vstd::prelude::*;
use rand::Rng;
use rand::SeedableRng;

verus! {

/// The seeded deterministic random stream that drives map generation.
#[verifier::external_type_specification]
#[verifier::external_body]
pub struct ExChaCha20Rng(rand_chacha::ChaCha20Rng);

/// What a ChaCha20 generator holds: its internal state words (key,
/// counter and buffered output). Two generators with equal state words
/// produce equal draws, which is what the generation contracts rest on.
pub uninterp spec fn rng_state(r: rand_chacha::ChaCha20Rng) -> Seq<u32>;

/// The state words of the generator that seeding with `seed` produces.
pub uninterp spec fn seeded_state(seed: u64) -> Seq<u32>;

/// One uniform draw below `n` from a given state: the successor state
/// words and the drawn value.
pub uninterp spec fn gen_step(state: Seq<u32>, n: u64) -> (Seq<u32>, u64);

/// Relies on rand_core::SeedableRng::seed_from_u64 for ChaCha20Rng: the
/// generator built from a seed is a fixed function of that seed, on
/// every machine (the seed is expanded by a fixed PCG32 routine).
#[verifier::external_body]
pub fn rng_from_seed(seed: u64) -> (r: rand_chacha::ChaCha20Rng)
    ensures
        rng_state(r) == seeded_state(seed),
{
    rand_chacha::ChaCha20Rng::seed_from_u64(seed)
}

/// Relies on rand::Rng::gen_range over `0..n`: the draw is uniform in
/// `0..n`, and both the drawn value and the generator's next state are a
/// fixed function of the previous state and of `n` alone.
#[verifier::external_body]
pub fn gen_below(r: &mut rand_chacha::ChaCha20Rng, n: u64) -> (v: u64)
    requires
        n >= 1,
    ensures
        rng_state(*final(r)) == gen_step(rng_state(*old(r)), n).0,
        v == gen_step(rng_state(*old(r)), n).1,
        v < n,
{
    r.gen_range(0..n)
}

} // verus!
