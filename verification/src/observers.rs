//! Sessions that show their deltas to an observer.
use crate::error::{checked, Error, ErrorView};
use vstd::prelude::*;

verus! {

/// What an observed session needs next before it runs.
#[derive(Debug, Clone, Copy, PartialEq, Eq, Structural)]
pub enum Opening {
    MakeObserver,
    Open,
}

/// How an observed session opens: with an observer of its own, made once the run is known not
/// to be cancelled. `made` is what making the observer came to.
pub open spec fn opened(
    cancelled: Result<(), ErrorView>,
    made: Option<Result<(), ErrorView>>,
) -> Result<Opening, ErrorView> {
    match (cancelled, made) {
        (Err(e), _) => Err(e),
        (Ok(_), None) => Ok(Opening::MakeObserver),
        (Ok(_), Some(Err(e))) => Err(e),
        (Ok(_), Some(Ok(_))) => Ok(Opening::Open),
    }
}

pub fn opening(cancelled: Result<(), Error>, made: Option<Result<(), Error>>) -> (r: Result<
    Opening,
    Error,
>)
    ensures
        (match r {
            Ok(next) => Ok(next),
            Err(e) => Err(e@),
        }) == opened(
            checked(cancelled),
            match made {
                Some(outcome) => Some(checked(outcome)),
                None => None,
            },
        ),
{
    cancelled?;
    match made {
        None => Ok(Opening::MakeObserver),
        Some(Err(e)) => Err(e),
        Some(Ok(_)) => Ok(Opening::Open),
    }
}

/// Where a delta goes.
#[derive(Debug, Clone, Copy, PartialEq, Eq, Structural)]
pub enum Sink {
    Downstream,
    Observer,
}

/// The way of one delta to its sinks: which of them are still to get it, and whether one was
/// given it.
pub struct RelayView {
    pub downstream: bool,
    pub observer: bool,
    pub visible: bool,
}

impl RelayView {
    /// The delta goes downstream first.
    pub open spec fn next(self) -> Option<Sink> {
        if self.downstream {
            Some(Sink::Downstream)
        } else if self.observer {
            Some(Sink::Observer)
        } else {
            None
        }
    }

    /// A sink was given the delta. Where it fails the delta goes no further.
    pub open spec fn emitted(self, outcome: Result<(), ErrorView>) -> (
        RelayView,
        Result<(), ErrorView>,
    ) {
        match (self.next(), outcome) {
            (None, _) => (self, Ok(())),
            (Some(_), Err(e)) => (
                RelayView { downstream: false, observer: false, visible: true },
                Err(e),
            ),
            (Some(Sink::Downstream), Ok(_)) => (
                RelayView { downstream: false, visible: true, ..self },
                Ok(()),
            ),
            (Some(Sink::Observer), Ok(_)) => (
                RelayView { observer: false, visible: true, ..self },
                Ok(()),
            ),
        }
    }
}

/// A delta on its way to its sinks.
#[derive(Debug, PartialEq, Eq)]
pub struct Relay {
    downstream: bool,
    observer: bool,
    visible: bool,
}

impl View for Relay {
    type V = RelayView;

    closed spec fn view(&self) -> RelayView {
        RelayView {
            downstream: self.downstream,
            observer: self.observer,
            visible: self.visible,
        }
    }
}

impl Relay {
    /// A delta that nobody was given yet. `downstream` tells whether there is a sink downstream.
    pub fn new(downstream: bool) -> (r: Relay)
        ensures
            r@ == (RelayView { downstream, observer: true, visible: false }),
    {
        Relay { downstream, observer: true, visible: false }
    }

    /// The sink to give the delta to, or none once it went to all.
    pub fn next(&self) -> (r: Option<Sink>)
        ensures
            r == self@.next(),
    {
        if self.downstream {
            Some(Sink::Downstream)
        } else if self.observer {
            Some(Sink::Observer)
        } else {
            None
        }
    }

    /// What giving the delta to the next sink came to.
    pub fn emitted(&mut self, outcome: Result<(), Error>) -> (r: Result<(), Error>)
        ensures
            (final(self)@, checked(r)) == old(self)@.emitted(checked(outcome)),
    {
        match self.next() {
            None => Ok(()),
            Some(sink) => {
                self.visible = true;
                match outcome {
                    Err(e) => {
                        self.downstream = false;
                        self.observer = false;
                        Err(e)
                    },
                    Ok(_) => {
                        match sink {
                            Sink::Downstream => self.downstream = false,
                            Sink::Observer => self.observer = false,
                        }
                        Ok(())
                    },
                }
            },
        }
    }

    /// Whether a sink was given the delta.
    pub fn visible(&self) -> (r: bool)
        ensures
            r == self@.visible,
    {
        self.visible
    }
}

/// A sink downstream that fails keeps the delta from the observer.
pub proof fn downstream_failures_stop_before_the_observer(outcome: Result<(), ErrorView>)
    ensures
        ({
            let fresh = RelayView { downstream: true, observer: true, visible: false };
            let (after, result) = fresh.emitted(outcome);
            &&& fresh.next() == Some(Sink::Downstream)
            &&& outcome matches Err(e) ==> result == Err::<(), ErrorView>(e) && after.next() is None
            &&& outcome is Ok ==> result is Ok && after.next() == Some(Sink::Observer)
        }),
{
}

/// Once a delta was given to a sink, no failure is followed by another try.
pub proof fn visible_failures_are_not_retried(
    relay: RelayView,
    outcome: Result<(), ErrorView>,
    error: ErrorView,
    resumes: bool,
    attempt: nat,
    max_attempts: nat,
)
    requires
        relay.next() is Some,
    ensures
        relay.emitted(outcome).0.visible,
        !crate::decorators::retried(
            error,
            relay.emitted(outcome).0.visible,
            resumes,
            attempt,
            max_attempts,
        ),
{
}

/// Where the run is cancelled or no observer can be made, the session is not opened.
pub proof fn failed_observers_open_nothing(
    cancelled: Result<(), ErrorView>,
    made: Option<Result<(), ErrorView>>,
)
    ensures
        cancelled is Err ==> opened(cancelled, made) == Err::<Opening, ErrorView>(cancelled->Err_0),
        made matches Some(Err(_)) ==> opened(cancelled, made) is Err,
        opened(cancelled, made) == Ok::<Opening, ErrorView>(Opening::Open) <==> cancelled is Ok
            && made is Some && made->0 is Ok,
{
}

} // verus!
