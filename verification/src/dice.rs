//! The source of chance. Everything random in the simulation is drawn
//! from one generator of the `rand` crate through the functions below,
//! whose contracts are taken on trust; the rules of the simulation take
//! what they return as plain numbers.

use rand::rngs::EntropyRng;
use rand::rngs::StdRng;
use rand::Rng;
use rand::SeedableRng;
use vstd::prelude::*;

verus! {

/// `rand::rngs::StdRng`, the generator that the server owns. Nothing is
/// known of its state.
#[verifier::external_type_specification]
#[verifier::external_body]
pub struct ExStdRng(rand::rngs::StdRng);

/// Calls `StdRng::from_rng` on a fresh `EntropyRng`: a generator seeded
/// from the operating system, or nothing if the system gave no entropy.
/// Nothing is claimed of the result.
#[verifier::external_body]
pub(crate) fn entropy_rng() -> Option<StdRng> {
    StdRng::from_rng(EntropyRng::new()).ok()
}

/// Calls `StdRng::seed_from_u64`: a generator whose stream is fixed by
/// `seed`. Nothing is claimed of the result.
#[verifier::external_body]
pub(crate) fn seeded_rng(seed: u64) -> StdRng {
    StdRng::seed_from_u64(seed)
}

/// Calls `Rng::gen::<usize>`: any identifier may come back.
#[verifier::external_body]
pub(crate) fn draw_id(rng: &mut StdRng) -> usize {
    rng.gen::<usize>()
}

/// Calls `Rng::gen_range::<i32>`, which panics unless `low < high` and
/// returns a value from `low` up to, but not including, `high`. Only the
/// range is claimed, not how the values are spread over it.
#[verifier::external_body]
pub(crate) fn draw_between(rng: &mut StdRng, low: i32, high: i32) -> (r: i32)
    requires
        low < high,
    ensures
        low <= r < high,
{
    rng.gen_range(low, high)
}

} // verus!
