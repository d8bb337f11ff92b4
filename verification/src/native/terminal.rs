//! The end of a native session: what was accepted comes out before what went wrong.
use crate::command::{SessionEvent, SessionEventView};
use crate::error::{seen, uncertain, Error, ErrorView};
use std::collections::VecDeque;
use vstd::prelude::*;

verus! {

/// What a session still has to say once its worker stopped: events that were accepted, and
/// how the worker ended.
#[derive(Debug, PartialEq, Eq)]
pub struct Terminal {
    events: VecDeque<SessionEvent>,
    error: Option<Error>,
}

pub struct TerminalView {
    pub events: Seq<SessionEventView>,
    pub error: Option<ErrorView>,
}

impl View for Terminal {
    type V = TerminalView;

    closed spec fn view(&self) -> TerminalView {
        TerminalView { events: self.events.deep_view(), error: self.error.deep_view() }
    }
}

impl TerminalView {
    /// The state after one more was asked for, and the answer: the events in order, then
    /// the error, once, and nothing from there on.
    pub open spec fn step(self) -> (TerminalView, Result<Option<SessionEventView>, ErrorView>) {
        if self.events.len() > 0 {
            (
                TerminalView { events: self.events.drop_first(), ..self },
                Ok(Some(self.events[0])),
            )
        } else {
            (
                TerminalView { error: None, ..self },
                match self.error {
                    Some(e) => Err(e),
                    None => Ok(None),
                },
            )
        }
    }

    /// The state after several were asked for.
    pub open spec fn after(self, n: nat) -> TerminalView
        decreases n,
    {
        if n == 0 {
            self
        } else {
            self.after((n - 1) as nat).step().0
        }
    }
}

impl Terminal {
    /// What is left when a worker ended as `result` says.
    pub fn new(events: VecDeque<SessionEvent>, result: Result<(), Error>) -> (r: Terminal)
        ensures
            r@ == (TerminalView {
                events: events.deep_view(),
                error: match result {
                    Ok(_) => None,
                    Err(e) => Some(e@),
                },
            }),
    {
        let error = match result {
            Ok(_) => None,
            Err(e) => Some(e),
        };
        Terminal { events, error }
    }

    /// What is left when a worker stopped without saying how.
    pub fn lost() -> (r: Terminal)
        ensures
            r@ == (TerminalView {
                events: Seq::empty(),
                error: Some(
                    ErrorView::Uncertain("native session worker stopped without settlement"@),
                ),
            }),
    {
        let r = Terminal {
            events: VecDeque::new(),
            error: Some(uncertain("native session worker stopped without settlement")),
        };
        assert(r.events.deep_view() =~= Seq::empty());
        r
    }

    /// The next event, or how the session ended.
    pub fn next(&mut self) -> (r: Result<Option<SessionEvent>, Error>)
        ensures
            (final(self)@, seen(r)) == old(self)@.step(),
    {
        let ghost before = self.events.deep_view();
        let ghost raw = self.events@;
        match self.events.pop_front() {
            Some(event) => {
                proof {
                    assert(self.events.deep_view() =~= before.drop_first());
                    assert(before[0] == raw[0].deep_view());
                }
                Ok(Some(event))
            },
            None => {
                assert(self.events.deep_view() =~= before);
                match self.error.take() {
                    Some(e) => Err(e),
                    None => Ok(None),
                }
            },
        }
    }
}

/// Nothing that was accepted is lost: all events come out in order, then the error, exactly
/// once, and nothing after it.
pub proof fn accepted_events_come_before_the_error(terminal: TerminalView, n: nat)
    ensures
        n < terminal.events.len() ==> terminal.after(n).step().1 == Ok::<
            Option<SessionEventView>,
            ErrorView,
        >(Some(terminal.events[n as int])),
        n == terminal.events.len() ==> terminal.after(n).step().1 == (match terminal.error {
            Some(e) => Err::<Option<SessionEventView>, ErrorView>(e),
            None => Ok::<Option<SessionEventView>, ErrorView>(None),
        }),
        n > terminal.events.len() ==> terminal.after(n).step().1 == Ok::<
            Option<SessionEventView>,
            ErrorView,
        >(None),
{
    after_is(terminal, n);
}

proof fn after_is(terminal: TerminalView, n: nat)
    ensures
        n <= terminal.events.len() ==> terminal.after(n) == (TerminalView {
            events: terminal.events.skip(n as int),
            error: terminal.error,
        }),
        n > terminal.events.len() ==> terminal.after(n) == (TerminalView {
            events: Seq::empty(),
            error: None,
        }),
    decreases n,
{
    if n == 0 {
        assert(terminal.events.skip(0) =~= terminal.events);
    } else {
        let m = (n - 1) as nat;
        after_is(terminal, m);
        if n <= terminal.events.len() {
            assert(terminal.events.skip(m as int).drop_first() =~= terminal.events.skip(n as int));
        } else if n == terminal.events.len() + 1 {
            assert(terminal.events.skip(m as int) =~= Seq::empty());
        }
    }
}

} // verus!
