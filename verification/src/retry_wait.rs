//! How long to wait before another try. Times are in nanoseconds of one clock.
use crate::clock::{Moment, MILLISECOND};
use crate::error::{checked, invalid, Error, ErrorView};
use vstd::prelude::*;

verus! {

/// The longest sleep between two looks at the cancellation.
pub const TICK: u128 = 10_000_000;

/// The deadline of a run on the caller's clock: as far from `now` as its wall-clock time, in
/// milliseconds, is from `now_ms`, or at once where that has passed.
pub open spec fn run_deadline(at_ms: Option<u64>, now_ms: u64, now: Moment) -> Result<
    Option<u128>,
    ErrorView,
> {
    match at_ms {
        None => Ok(None),
        Some(at) => {
            let left = if at > now_ms {
                (at - now_ms) * MILLISECOND
            } else {
                0
            };
            match now.after(left as u128) {
                Some(deadline) => Ok(Some(deadline)),
                None => Err(ErrorView::Invalid("retry deadline exceeds clock range"@)),
            }
        },
    }
}

pub fn deadline(at_ms: Option<u64>, now_ms: u64, now: Moment) -> (r: Result<Option<u128>, Error>)
    ensures
        match run_deadline(at_ms, now_ms, now) {
            Ok(at) => r is Ok && r->Ok_0 == at,
            Err(e) => r is Err && r->Err_0@ == e,
        },
{
    match at_ms {
        None => Ok(None),
        Some(at) => {
            let left: u128 = at.saturating_sub(now_ms) as u128 * MILLISECOND;
            match now.plus(left) {
                Some(deadline) => Ok(Some(deadline)),
                None => Err(invalid("retry deadline exceeds clock range")),
            }
        },
    }
}

pub open spec fn passed(deadline: Option<u128>, now: u128) -> bool {
    deadline matches Some(at) && now >= at
}

/// Fails where the run was cancelled, and else where its deadline has passed.
pub fn check(cancelled: Result<(), Error>, deadline: Option<u128>, now: u128) -> (r: Result<(), Error>)
    ensures
        checked(r) == (match checked(cancelled) {
            Err(e) => Err(e),
            Ok(_) => if passed(deadline, now) {
                Err(ErrorView::Deadline)
            } else {
                Ok(())
            },
        }),
{
    cancelled?;
    if let Some(at) = deadline {
        if now >= at {
            return Err(Error::Deadline);
        }
    }
    Ok(())
}

/// When a wait that begins now is over.
pub fn wait_until(now: Moment, delay: u128) -> (r: Result<u128, Error>)
    ensures
        match now.after(delay) {
            Some(until) => r is Ok && r->Ok_0 == until,
            None => r is Err && r->Err_0@ == ErrorView::Invalid(
                "retry delay exceeds clock range"@,
            ),
        },
{
    match now.plus(delay) {
        Some(until) => Ok(until),
        None => Err(invalid("retry delay exceeds clock range")),
    }
}

/// When to look again: at the end of the wait, at the deadline or after a tick, whichever
/// comes first.
pub open spec fn next_look(until: u128, deadline: Option<u128>, now: u128) -> u128 {
    let end = match deadline {
        Some(at) => if at < until {
            at
        } else {
            until
        },
        None => until,
    };
    if end < now + TICK {
        end
    } else {
        (now + TICK) as u128
    }
}

/// When to look again, or nothing where the wait is over.
pub fn wake(until: u128, deadline: Option<u128>, now: u128) -> (r: Option<u128>)
    ensures
        r == (if now >= until {
            None
        } else {
            Some(next_look(until, deadline, now))
        }),
{
    if now >= until {
        return None;
    }
    let end = match deadline {
        Some(at) => if at < until {
            at
        } else {
            until
        },
        None => until,
    };
    match now.checked_add(TICK) {
        Some(tick) => if end < tick {
            Some(end)
        } else {
            Some(tick)
        },
        None => Some(end),
    }
}

/// No wait goes past its end or the deadline, and it always moves on.
pub proof fn waits_move_on(until: u128, deadline: Option<u128>, now: u128)
    requires
        now < until,
        !passed(deadline, now),
    ensures
        now < next_look(until, deadline, now) <= until,
        deadline matches Some(at) ==> next_look(until, deadline, now) <= at,
{
}

/// A deadline is as far away on one clock as on the other, a millisecond of the wall clock
/// being a million nanoseconds; one that has passed is now.
pub proof fn deadlines_are_as_far_away(at_ms: u64, now_ms: u64, now: Moment)
    ensures
        match run_deadline(Some(at_ms), now_ms, now) {
            Ok(Some(deadline)) => if at_ms > now_ms {
                deadline - now.at == 1_000_000 * (at_ms - now_ms)
            } else {
                deadline == now.at
            },
            Ok(None) => false,
            Err(_) => at_ms > now_ms && now.at + 1_000_000 * (at_ms - now_ms) > now.last || now.at
                > now.last,
        },
        run_deadline(None, now_ms, now) == Ok::<Option<u128>, ErrorView>(None),
{
}

} // verus!
