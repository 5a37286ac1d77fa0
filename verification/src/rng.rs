//! The one source of randomness the engine uses.

use vstd::prelude::*;
use rand::Rng;

verus! {

/// Relies on rand::Rng::gen_range over `0..bound` on the thread-local
/// generator: the draw is uniform over that range, so the result is
/// below the bound.  gen_range panics only on an empty range, which the
/// precondition rules out.
#[verifier::external_body]
pub(crate) fn rand_below(bound: u64) -> (r: u64)
    requires
        bound > 0,
    ensures
        r < bound,
{
    rand::thread_rng().gen_range(0..bound)
}

} // verus!
