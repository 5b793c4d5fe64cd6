//! The random source of the generator: the standard generator of `rand`,
//! and the few draws that password generation makes from it.
use vstd::prelude::*;

use rand::rngs::StdRng;
use rand::{Rng, SeedableRng};

verus! {

#[verifier::external_type_specification]
#[verifier::external_body]
pub struct ExStdRng(StdRng);

/// Relies on `SeedableRng::from_entropy`: a generator seeded by the operating
/// system. Nothing is known of the state it starts in (it panics only where
/// the system offers no entropy at all).
#[verifier::external_body]
pub(crate) fn entropy_rng() -> (r: StdRng) {
    StdRng::from_entropy()
}

/// Relies on `Rng::gen_range` over `low..high`: a value in that half-open
/// range, which must not be empty (it panics on an empty one).
#[verifier::external_body]
pub(crate) fn draw_below(rng: &mut StdRng, low: usize, high: usize) -> (r: usize)
    requires
        low < high,
    ensures
        low <= r < high,
{
    rng.gen_range(low..high)
}

/// Relies on `Rng::gen::<bool>`: a fair coin flip, either value possible.
#[verifier::external_body]
pub(crate) fn draw_bool(rng: &mut StdRng) -> (r: bool) {
    rng.gen::<bool>()
}

} // verus!
