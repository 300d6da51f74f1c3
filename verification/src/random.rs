//! The random source. Nothing here is proved: these are the calls into the
//! `rand` crate, with what the rest of the library relies on about them.

use rand::rngs::StdRng;
use rand::seq::IndexedRandom;
use rand::SeedableRng;
use vstd::prelude::*;

verus! {

/// `rand::rngs::StdRng`, the generator the library draws from. Its state is
/// opaque here.
#[verifier::external_type_specification]
#[verifier::external_body]
pub struct ExStdRng(rand::rngs::StdRng);

/// Calls `rand::seq::IndexedRandom::choose` on the slice of `cells`.
///
/// Relied upon: the call gives `None` exactly when the slice is empty, and
/// otherwise one of the slice's own elements. Which element it is depends
/// on the generator and is left open.
#[verifier::external_body]
pub(crate) fn choose_cell(cells: &Vec<(u16, u16)>, rng: &mut StdRng) -> (picked: Option<(u16, u16)>)
    ensures
        picked is None <==> cells@.len() == 0,
        picked matches Some(c) ==> cells@.contains(c),
{
    cells.choose(rng).copied()
}

/// Calls `rand::SeedableRng::from_rng` on the thread-local generator
/// `rand::rng()`, which gives a new `StdRng` seeded from it. Nothing is
/// claimed about the generator that comes back. `rand` panics here if the
/// operating system cannot supply the entropy for the thread-local
/// generator.
#[verifier::external_body]
pub(crate) fn fresh_rng() -> (rng: StdRng) {
    StdRng::from_rng(&mut rand::rng())
}

} // verus!
