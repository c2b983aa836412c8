//! The uniform random source used by the selection logic.
use rand::Rng;
use vstd::prelude::*;

verus! {

/// Relies on rand's `Rng::gen_range` over `0..bound` with the thread-local
/// generator: it returns a value inside the half-open range, and panics only
/// on an empty range.
#[verifier::external_body]
pub(crate) fn uniform_below(bound: u64) -> (r: u64)
    requires
        bound > 0,
    ensures
        r < bound,
{
    rand::thread_rng().gen_range(0..bound)
}

} // verus!
