//! The single source of randomness in the simulation: block values, the
//! spawn coin, the AI's tie-break and the respawn cell are all drawn through
//! `random_below`, and every caller is verified for every value it may
//! return.

use vstd::prelude::*;

verus! {

/// Relies on rand's `thread_rng` and `Rng::gen_range(0..n)`: for a non-empty
/// range the sample lies within it, so the result is below `n`.
#[verifier::external_body]
pub(crate) fn random_below(n: u64) -> (r: u64)
    requires
        n >= 1,
    ensures
        r < n,
{
    rand::Rng::gen_range(&mut rand::thread_rng(), 0..n)
}

} // verus!
