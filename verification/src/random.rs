//! Draws from an explicit, seedable source of randomness.

use rand::rngs::StdRng;
use rand::Rng;
use vstd::prelude::*;

verus! {

#[verifier::external_type_specification]
#[verifier::external_body]
pub struct ExStdRng(rand::rngs::StdRng);

/// Calls `Rng::gen_range` of `rand` on the inclusive range `0..=last`.
///
/// Believed, not proved: the draw lies in the range. The range is never
/// empty, so the call does not panic. Nothing more is claimed: which value
/// comes out depends on the generator's state, which this crate does not
/// model.
#[verifier::external_body]
pub(crate) fn next_index(rng: &mut StdRng, last: i32) -> (drawn: i32)
    requires
        0 <= last,
    ensures
        0 <= drawn <= last,
{
    rng.gen_range(0..=last)
}

/// Calls `Rng::gen` of `rand` for a `u64`.
///
/// Nothing is claimed of the result: every 64-bit value can come out.
#[verifier::external_body]
pub(crate) fn next_id(rng: &mut StdRng) -> u64 {
    rng.gen::<u64>()
}

} // verus!
