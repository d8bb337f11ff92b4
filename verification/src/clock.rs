//! Times on a clock that never goes back, in nanoseconds.
use vstd::prelude::*;

verus! {

/// Nanoseconds in a second.
pub const SECOND: u128 = 1_000_000_000;

/// Nanoseconds in a millisecond.
pub const MILLISECOND: u128 = 1_000_000;

/// A moment on a clock, and the last one that the clock can count.
#[derive(Debug, Clone, Copy, PartialEq, Eq, Structural)]
pub struct Moment {
    pub at: u128,
    pub last: u128,
}

impl Moment {
    /// The time after a while. There is none where the clock cannot count so far.
    pub open spec fn after(self, duration: u128) -> Option<u128> {
        if self.at + duration <= self.last {
            Some((self.at + duration) as u128)
        } else {
            None
        }
    }

    /// The time after a while.
    pub fn plus(self, duration: u128) -> (r: Option<u128>)
        ensures
            r == self.after(duration),
    {
        match self.at.checked_add(duration) {
            Some(at) => if at <= self.last {
                Some(at)
            } else {
                None
            },
            None => None,
        }
    }
}

} // verus!
