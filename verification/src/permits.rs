//! The bound that the runtime puts on counting semaphores.

use vstd::prelude::*;

verus! {

/// The most permits that a semaphore can have.
pub open spec fn permit_limit() -> usize {
    usize::MAX / 8
}

/// Reads `tokio::sync::Semaphore::MAX_PERMITS`, which the crate defines as
/// `usize::MAX >> 3`. The contract claims that value.
#[verifier::external_body]
pub(crate) fn max_permits() -> (limit: usize)
    ensures
        limit == permit_limit(),
{
    tokio::sync::Semaphore::MAX_PERMITS
}

} // verus!
