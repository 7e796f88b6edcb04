//! The seeded random generator of a VM.

use rand_chacha::ChaCha8Rng;
use vstd::prelude::*;

verus! {

/// The generator of the `rand_chacha` crate: ChaCha with 8 rounds.
#[verifier::external_type_specification]
#[verifier::external_body]
pub struct ExChaCha8Rng(ChaCha8Rng);

/// The seed that a generator started from.
pub uninterp spec fn rng_seed(rng: ChaCha8Rng) -> Seq<u8>;

/// How many numbers a generator has handed out.
pub uninterp spec fn rng_drawn(rng: ChaCha8Rng) -> nat;

/// The 64-bit number that comes out of a seed after `drawn` others.
pub uninterp spec fn chacha8_u64(seed: Seq<u8>, drawn: nat) -> u64;

/// `rand::SeedableRng::from_seed` of `rand_chacha::ChaCha8Rng`: a generator
/// that starts from `seed` and has handed out nothing.
#[verifier::external_body]
pub(crate) fn rng_from_seed(seed: [u8; 32]) -> (rng: ChaCha8Rng)
    ensures
        rng_seed(rng) == seed@,
        rng_drawn(rng) == 0,
{
    <ChaCha8Rng as rand::SeedableRng>::from_seed(seed)
}

/// `rand::RngCore::next_u64` of `rand_chacha::ChaCha8Rng`: the number handed
/// out depends on the seed and on how many came before it, and on nothing
/// else.
#[verifier::external_body]
pub(crate) fn rng_next_u64(rng: &mut ChaCha8Rng) -> (value: u64)
    ensures
        value == chacha8_u64(rng_seed(*old(rng)), rng_drawn(*old(rng))),
        rng_seed(*final(rng)) == rng_seed(*old(rng)),
        rng_drawn(*final(rng)) == rng_drawn(*old(rng)) + 1,
{
    rand::RngCore::next_u64(rng)
}

} // verus!
