//! How much media may be buffered.
use crate::error::{invalid, Error, ErrorView};
use vstd::prelude::*;

verus! {

/// The most chunks that are buffered. It bounds empty end markers too, which cost no bytes.
pub const MAX_BUFFERED_CHUNKS: usize = 4096;

/// What a chunk takes from a budget of bytes.
pub open spec fn reservation_size(limit: nat, size: nat) -> Result<u32, ErrorView> {
    if size > limit {
        Err(ErrorView::Invalid("media payload exceeds buffer budget"@))
    } else if size > u32::MAX {
        Err(ErrorView::Invalid("media payload too large"@))
    } else {
        Ok(size as u32)
    }
}

pub fn reserve_size(limit: usize, size: usize) -> (r: Result<u32, Error>)
    ensures
        match reservation_size(limit as nat, size as nat) {
            Ok(n) => r is Ok && r->Ok_0 == n,
            Err(e) => r is Err && r->Err_0@ == e,
        },
{
    if size > limit {
        return Err(invalid("media payload exceeds buffer budget"));
    }
    if size > 0xffff_ffff {
        return Err(invalid("media payload too large"));
    }
    Ok(size as u32)
}

} // verus!
