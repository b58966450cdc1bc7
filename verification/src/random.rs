//! The library's one source of chance.

use vstd::prelude::*;

verus! {

/// An integer drawn uniformly from `min..=max`.
///
/// Calls `rand::Rng::gen_range` with the inclusive range on the generator that
/// `rand::thread_rng` hands to the calling thread. Not proved: that the call
/// returns for every range with `min <= max`, and that what it returns lies in
/// the range. Nothing is claimed of how the draws are distributed, and two
/// calls with the same bounds may differ. Where the system has no entropy to
/// seed the thread's generator, `rand` ends the program.
#[verifier::external_body]
pub fn random_integer_with_range(min: u32, max: u32) -> (r: u32)
    requires
        min <= max,
    ensures
        min <= r <= max,
{
    rand::Rng::gen_range(&mut rand::thread_rng(), min..=max)
}

} // verus!
