//! Identity generation for new sessions: the one place the engine consults
//! a random source.
use vstd::prelude::*;

verus! {

/// Relies on rand::random::<u64>: a value drawn from the thread-local
/// generator. Nothing is assumed of the result; the caller checks
/// freshness itself.
#[verifier::external_body]
pub(crate) fn random_id() -> u64 {
    rand::random::<u64>()
}

} // verus!
