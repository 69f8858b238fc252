//! The source of randomness: the standard generator of the `rand` crate.
//!
//! Nothing in this file is proved. The generator is opaque to the verifier,
//! and of a draw it is only taken for granted that it lies in the range asked
//! for. Neither call can panic on what it is given here.

use vstd::prelude::*;
use rand::rngs::{OsRng, StdRng};
use rand::{Rng, SeedableRng};

verus! {

/// `rand::rngs::StdRng`, carried through verified code without a look inside.
#[verifier::external_type_specification]
#[verifier::external_body]
pub struct ExStdRng(rand::rngs::StdRng);

/// Calls `rand::Rng::gen_range` on the half-open range from `low` to `high`.
/// The call panics on an empty range, which the precondition rules out; the
/// number drawn is taken to lie in the range, and nothing else is said of it.
#[verifier::external_body]
pub(crate) fn gen_range(rng: &mut StdRng, low: usize, high: usize) -> (drawn: usize)
    requires
        low < high,
    ensures
        low <= drawn < high,
{
    rng.gen_range(low..high)
}

/// Calls `rand::SeedableRng::from_rng` on `rand::rngs::OsRng` for a generator
/// seeded by the operating system. Where the system yields no seed the call
/// hands back an error, and no generator is had. Nothing is said of the
/// generator that comes back, nor of when one does.
#[verifier::external_body]
pub(crate) fn fresh_rng() -> Option<StdRng> {
    StdRng::from_rng(OsRng).ok()
}

} // verus!
