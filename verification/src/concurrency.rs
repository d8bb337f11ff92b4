//! Bounds on what runs at the same time.
use crate::error::{Error, ErrorView};
use crate::text::join3;
use vstd::prelude::*;

verus! {

/// Reads `tokio::sync::Semaphore::MAX_PERMITS`, an eighth of the largest machine word.
#[verifier::external_body]
fn max_permits() -> (r: usize)
    ensures
        r == usize::MAX / 8,
{
    tokio::sync::Semaphore::MAX_PERMITS
}

/// Whether so many permits can be handed out.
pub open spec fn usable_limit(limit: nat) -> bool {
    0 < limit <= usize::MAX / 8
}

/// Checks a limit; `name` tells what it bounds.
pub fn check_limit(limit: usize, name: &str) -> (r: Result<(), Error>)
    ensures
        r is Ok <==> usable_limit(limit as nat),
        r is Err ==> r->Err_0@ == ErrorView::Invalid(
            "invalid "@ + name@ + " concurrency limit"@,
        ),
{
    if limit == 0 || limit > max_permits() {
        return Err(Error::Invalid(join3("invalid ", name, " concurrency limit")));
    }
    Ok(())
}

} // verus!
