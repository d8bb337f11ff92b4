//! One serialized remote barrier, with the time until which it must be confirmed.
use crate::clock::Moment;
use crate::error::{invalid, protocol, Error, ErrorView};
use crate::text::join4;
use vstd::prelude::*;

verus! {

/// A barrier that the remote side has yet to confirm. `shown` is how the value is written in
/// an error, `expected` the event that confirms it.
pub struct PendingView<T> {
    pub value: T,
    pub shown: Seq<char>,
    pub expected: Seq<char>,
    pub deadline: u128,
}

/// At most one barrier at a time; nothing but a new barrier sets its deadline.
pub struct ConfirmationView<T> {
    pub pending: Option<PendingView<T>>,
}

impl<T> ConfirmationView<T> {
    pub open spec fn idle() -> ConfirmationView<T> {
        ConfirmationView { pending: None }
    }

    pub open spec fn begun(
        self,
        value: T,
        shown: Seq<char>,
        expected: Seq<char>,
        now: Moment,
        timeout: u128,
    ) -> Result<ConfirmationView<T>, ErrorView> {
        if self.pending is Some {
            Err(ErrorView::Protocol("remote confirmation already pending"@))
        } else if timeout == 0 || now.after(timeout) is None {
            Err(ErrorView::Invalid("invalid confirmation timeout"@))
        } else {
            Ok(
                ConfirmationView {
                    pending: Some(
                        PendingView { value, shown, expected, deadline: now.after(timeout)->0 },
                    ),
                },
            )
        }
    }

    pub open spec fn checked(self, now: Moment) -> Result<(), ErrorView> {
        match self.pending {
            Some(p) => if now.at >= p.deadline {
                Err(
                    ErrorView::Uncertain(
                        "remote confirmation timed out: expected "@ + p.expected + ", pending "@
                            + p.shown,
                    ),
                )
            } else {
                Ok(())
            },
            None => Ok(()),
        }
    }

    /// The value that is confirmed, where a barrier is pending and its time has not run out.
    pub open spec fn completed(self, now: Moment) -> Result<T, ErrorView> {
        match self.checked(now) {
            Err(e) => Err(e),
            Ok(_) => match self.pending {
                Some(p) => Ok(p.value),
                None => Err(ErrorView::Protocol("unsolicited remote confirmation"@)),
            },
        }
    }
}

struct Pending<T> {
    value: T,
    shown: String,
    expected: String,
    deadline: u128,
}

/// One serialized remote barrier. Times count from a clock of the caller's.
pub struct Confirmation<T> {
    pending: Option<Pending<T>>,
}

impl<T: View> View for Confirmation<T> {
    type V = ConfirmationView<T::V>;

    closed spec fn view(&self) -> ConfirmationView<T::V> {
        ConfirmationView {
            pending: match self.pending {
                Some(p) => Some(
                    PendingView {
                        value: p.value@,
                        shown: p.shown@,
                        expected: p.expected@,
                        deadline: p.deadline,
                    },
                ),
                None => None,
            },
        }
    }
}

impl<T: View> Confirmation<T> {
    pub fn new() -> (r: Confirmation<T>)
        ensures
            r@ == ConfirmationView::<T::V>::idle(),
    {
        Confirmation { pending: None }
    }

    /// Begins a barrier, unless one is pending.
    pub fn begin(&mut self, value: T, shown: String, expected: &str, now: Moment, timeout: u128) -> (r:
        Result<(), Error>)
        ensures
            match old(self)@.begun(value@, shown@, expected@, now, timeout) {
                Ok(next) => r is Ok && final(self)@ == next,
                Err(e) => r is Err && r->Err_0@ == e && final(self)@ == old(self)@,
            },
    {
        if self.pending.is_some() {
            return Err(protocol("remote confirmation already pending"));
        }
        if timeout == 0 {
            return Err(invalid("invalid confirmation timeout"));
        }
        match now.plus(timeout) {
            Some(deadline) => {
                self.pending = Some(
                    Pending { value, shown, expected: expected.to_owned(), deadline },
                );
                Ok(())
            },
            None => Err(invalid("invalid confirmation timeout")),
        }
    }

    pub fn pending(&self) -> (r: Option<&T>)
        ensures
            match r {
                Some(value) => self@.pending is Some && value@ == self@.pending->0.value,
                None => self@.pending is None,
            },
    {
        match &self.pending {
            Some(p) => Some(&p.value),
            None => None,
        }
    }

    pub fn deadline(&self) -> (r: Option<u128>)
        ensures
            match r {
                Some(deadline) => self@.pending is Some && deadline == self@.pending->0.deadline,
                None => self@.pending is None,
            },
    {
        match &self.pending {
            Some(p) => Some(p.deadline),
            None => None,
        }
    }

    /// Fails once the pending barrier's time has run out.
    pub fn check(&self, now: Moment) -> (r: Result<(), Error>)
        ensures
            match self@.checked(now) {
                Ok(_) => r is Ok,
                Err(e) => r is Err && r->Err_0@ == e,
            },
    {
        if let Some(p) = &self.pending {
            if now.at >= p.deadline {
                return Err(
                    Error::Uncertain(
                        join4(
                            "remote confirmation timed out: expected ",
                            p.expected.as_str(),
                            ", pending ",
                            p.shown.as_str(),
                        ),
                    ),
                );
            }
        }
        Ok(())
    }

    /// Ends the barrier. To be called once the event was matched against `pending`.
    pub fn complete(&mut self, now: Moment) -> (r: Result<T, Error>)
        ensures
            match old(self)@.completed(now) {
                Ok(value) => r is Ok && r->Ok_0@ == value && final(self)@
                    == ConfirmationView::<T::V>::idle(),
                Err(e) => r is Err && r->Err_0@ == e && final(self)@ == old(self)@,
            },
    {
        self.check(now)?;
        match self.pending.take() {
            Some(p) => Ok(p.value),
            None => Err(protocol("unsolicited remote confirmation")),
        }
    }
}

/// A pending barrier admits no second one, so its deadline is never extended.
pub proof fn pending_barrier_stands<T>(
    confirmation: ConfirmationView<T>,
    value: T,
    shown: Seq<char>,
    expected: Seq<char>,
    now: Moment,
    timeout: u128,
)
    requires
        confirmation.pending is Some,
    ensures
        confirmation.begun(value, shown, expected, now, timeout) is Err,
{
}

/// What was begun is what is confirmed, up to its deadline and never after it.
pub proof fn confirmed_until_deadline<T>(
    confirmation: ConfirmationView<T>,
    value: T,
    shown: Seq<char>,
    expected: Seq<char>,
    now: Moment,
    timeout: u128,
    then: Moment,
)
    requires
        confirmation.begun(value, shown, expected, now, timeout) is Ok,
    ensures
        then.at < now.at + timeout ==> confirmation.begun(
            value,
            shown,
            expected,
            now,
            timeout,
        )->Ok_0.completed(then) == Ok::<T, ErrorView>(value),
        then.at >= now.at + timeout ==> confirmation.begun(
            value,
            shown,
            expected,
            now,
            timeout,
        )->Ok_0.completed(then) is Err,
{
}

} // verus!
