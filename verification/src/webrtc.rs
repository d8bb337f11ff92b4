//! WebRTC sessions: a text channel for control and a queue of audio. What the driver of one
//! does next, apart from the provider's protocol.
use crate::command::{MediaChunk, MediaChunkView, SessionEventBody, SessionEventBodyView};
use crate::error::{checked, invalid, protocol, uncertain, Error, ErrorView};
use crate::json::{Json, JsonView};
use crate::native::outputs::{Outputs, OutputsView};
use crate::session::queue;
use std::collections::VecDeque;
use vstd::prelude::*;

verus! {

/// What a protocol asks of its driver.
#[derive(Debug, PartialEq, Eq)]
pub enum Action {
    /// Connect a peer by the deadline; `timeout` is the error past it.
    Connect { payload: Json, deadline: u128, timeout: Error },
    Send(String),
    /// Send all input that was taken before going on.
    DrainInput,
    Event(SessionEventBody),
    Disconnect,
    Fail(Error),
}

pub enum ActionView {
    Connect { payload: JsonView, deadline: u128, timeout: ErrorView },
    Send(Seq<char>),
    DrainInput,
    Event(SessionEventBodyView),
    Disconnect,
    Fail(ErrorView),
}

impl View for Action {
    type V = ActionView;

    open spec fn view(&self) -> ActionView {
        match self {
            Action::Connect { payload, deadline, timeout } => ActionView::Connect {
                payload: payload@,
                deadline: *deadline,
                timeout: timeout@,
            },
            Action::Send(text) => ActionView::Send(text@),
            Action::DrainInput => ActionView::DrainInput,
            Action::Event(body) => ActionView::Event(body@),
            Action::Disconnect => ActionView::Disconnect,
            Action::Fail(error) => ActionView::Fail(error@),
        }
    }
}

impl DeepView for Action {
    type V = ActionView;

    open spec fn deep_view(&self) -> ActionView {
        self@
    }
}

// ---------------------------------------------------------------------------------------
// The driver
// ---------------------------------------------------------------------------------------
/// What a protocol tells its driver of itself.
#[derive(Clone, Copy)]
pub struct ProtocolStatus {
    pub commands_allowed: bool,
    pub input_allowed: bool,
    pub draining: bool,
    pub finished: bool,
    pub closed: bool,
}

/// What a connection allows at the moment, and until when.
#[derive(Debug, Clone, Copy, PartialEq, Eq, Structural)]
pub struct ConnectionStatus {
    pub commands_allowed: bool,
    pub input_allowed: bool,
    pub deadline: Option<u128>,
}

/// What stands in the queues that others fill.
#[derive(Clone, Copy)]
pub struct Queues {
    pub input_empty: bool,
    pub events_empty: bool,
    pub audio_empty: bool,
}

/// What the driver does on the wire for an action.
#[derive(Debug, PartialEq, Eq)]
pub enum Effect {
    /// Nothing can be done yet.
    Blocked,
    /// It is done.
    Done,
    Connect { payload: Json, deadline: u128, timeout: Error },
    Send(String),
    CloseInput,
    Disconnect,
}

pub enum EffectView {
    Blocked,
    Done,
    Connect { payload: JsonView, deadline: u128, timeout: ErrorView },
    Send(Seq<char>),
    CloseInput,
    Disconnect,
}

impl View for Effect {
    type V = EffectView;

    open spec fn view(&self) -> EffectView {
        match self {
            Effect::Blocked => EffectView::Blocked,
            Effect::Done => EffectView::Done,
            Effect::Connect { payload, deadline, timeout } => EffectView::Connect {
                payload: payload@,
                deadline: *deadline,
                timeout: timeout@,
            },
            Effect::Send(text) => EffectView::Send(text@),
            Effect::CloseInput => EffectView::CloseInput,
            Effect::Disconnect => EffectView::Disconnect,
        }
    }
}

impl DeepView for Effect {
    type V = EffectView;

    open spec fn deep_view(&self) -> EffectView {
        self@
    }
}

/// What the driver may wait for.
#[derive(Debug, Clone, Copy, PartialEq, Eq, Structural)]
pub struct Ready {
    pub command: bool,
    pub input: bool,
    pub event: bool,
    pub audio: bool,
    pub written: bool,
    pub flush: bool,
    /// Changes of the connection.
    pub changes: bool,
}

pub struct DriverView {
    pub outputs: OutputsView,
    pub connected: bool,
    pub stopped: bool,
    /// The actions behind a drain of the input, while it goes on.
    pub drain_tail: Option<Seq<ActionView>>,
    pub actions: Seq<ActionView>,
    /// What one received message led to.
    pub observations: Seq<ActionView>,
    pub writing: bool,
}

pub type AdvancedView = (DriverView, Result<EffectView, ErrorView>);

impl DriverView {
    pub open spec fn idle(self) -> bool {
        !self.writing && self.drain_tail is None && self.actions.len() == 0
            && self.observations.len() == 0
    }

    /// Once all input that was taken is written, the actions behind the drain go on.
    pub open spec fn resumed(self, input_empty: bool) -> DriverView {
        if !self.writing && input_empty && self.drain_tail is Some {
            DriverView { actions: self.drain_tail->0 + self.actions, drain_tail: None, ..self }
        } else {
            self
        }
    }

    /// The action to carry out next: what was received goes first. Actions of commands wait
    /// for a drain and for a write to end.
    pub open spec fn next_action(self) -> Option<ActionView> {
        if self.observations.len() > 0 {
            Some(self.observations[0])
        } else if self.drain_tail is Some || self.writing || self.actions.len() == 0 {
            None
        } else {
            Some(self.actions[0])
        }
    }

    /// What is left of the queue that the next action came from.
    pub open spec fn rest(self) -> Seq<ActionView> {
        if self.observations.len() > 0 {
            self.observations.drop_first()
        } else {
            self.actions.drop_first()
        }
    }

    pub open spec fn with_rest(self, rest: Seq<ActionView>) -> DriverView {
        if self.observations.len() > 0 {
            DriverView { observations: rest, ..self }
        } else {
            DriverView { actions: rest, ..self }
        }
    }

    /// Whether the next action must wait: one write goes on at a time, and nothing is sent
    /// while the connection does not allow it.
    pub open spec fn held_back(self, action: ActionView, link: Result<bool, ErrorView>) -> Result<
        bool,
        ErrorView,
    > {
        if self.writing && (action is Send || action is Connect || action is DrainInput) {
            Ok(true)
        } else if action is Send && self.connected && !self.stopped {
            match link {
                Err(e) => Err(e),
                Ok(allowed) => Ok(!allowed),
            }
        } else {
            Ok(false)
        }
    }

    /// The next action is carried out; `link` tells whether the connection allows commands.
    pub open spec fn advanced(self, link: Result<bool, ErrorView>, input_empty: bool) -> AdvancedView {
        match self.next_action() {
            None => (self, Ok(EffectView::Blocked)),
            Some(action) => match self.held_back(action, link) {
                Err(e) => (self, Err(e)),
                Ok(true) => (self, Ok(EffectView::Blocked)),
                Ok(false) => self.performed(action, input_empty),
            },
        }
    }

    pub open spec fn performed(self, action: ActionView, input_empty: bool) -> AdvancedView {
        let next = self.with_rest(self.rest());
        match action {
            ActionView::Connect { payload, deadline, timeout } => if self.connected {
                (next, Err(ErrorView::Protocol("WebRTC peer already created"@)))
            } else {
                (next, Ok(EffectView::Connect { payload, deadline, timeout }))
            },
            ActionView::Send(text) => if !self.connected {
                (next, Err(ErrorView::Cancelled))
            } else {
                (DriverView { writing: true, ..next }, Ok(EffectView::Send(text)))
            },
            ActionView::DrainInput => {
                let emptied = self.with_rest(Seq::empty());
                if self.drain_tail is Some {
                    (emptied, Err(ErrorView::Protocol("overlapping WebRTC input drains"@)))
                } else if !self.connected && !input_empty {
                    (
                        emptied,
                        Err(
                            ErrorView::Protocol(
                                "cannot drain accepted audio without a WebRTC peer"@,
                            ),
                        ),
                    )
                } else {
                    (
                        DriverView { drain_tail: Some(self.rest()), ..emptied },
                        Ok(EffectView::CloseInput),
                    )
                }
            },
            ActionView::Event(body) => match self.outputs.with_event(body) {
                Ok(outputs) => (DriverView { outputs, ..next }, Ok(EffectView::Done)),
                Err(e) => (next, Err(e)),
            },
            ActionView::Disconnect => (next, Ok(EffectView::Disconnect)),
            ActionView::Fail(e) => (next, Err(e)),
        }
    }

    /// The peer is closed. Input that was taken and is not yet written is then lost.
    pub open spec fn disconnected(self, input_empty: bool) -> (
        DriverView,
        Result<(), ErrorView>,
    ) {
        (
            DriverView { stopped: true, ..self },
            if self.drain_tail is Some && (!input_empty || self.writing) {
                Err(ErrorView::Uncertain("WebRTC closed before accepted input drained"@))
            } else {
                Ok(())
            },
        )
    }

    /// Whether the protocol may finish: nothing is under way, and every queue is empty.
    pub open spec fn may_finalize(self, draining: bool, queues: Queues) -> bool {
        draining && self.idle() && !self.outputs.busy() && (!self.connected || (
        queues.audio_empty && queues.events_empty))
    }

    /// Whether the session ends here.
    pub open spec fn is_done(self, closed: bool) -> bool {
        closed && self.idle() && !self.outputs.busy()
    }

    /// Whether the remote side may still send.
    pub open spec fn remote_open(self, finished: bool) -> bool {
        !finished && !self.stopped
    }

    pub open spec fn ready(
        self,
        protocol: ProtocolStatus,
        connection: ConnectionStatus,
        queues: Queues,
        audio_input: bool,
        headroom: usize,
    ) -> Ready {
        let receiving = !protocol.finished;
        let open = self.remote_open(protocol.finished);
        let room = self.outputs.events.len() + headroom < self.outputs.event_limit;
        if self.connected {
            let allowed = if open {
                connection
            } else {
                ConnectionStatus { commands_allowed: true, input_allowed: false, deadline: None }
            };
            Ready {
                command: self.idle() && allowed.commands_allowed && protocol.commands_allowed
                    && room,
                input: !self.writing && allowed.input_allowed && (self.drain_tail is Some || (
                self.idle() && audio_input && protocol.input_allowed)),
                event: receiving && self.observations.len() == 0 && (open
                    || !queues.events_empty),
                audio: receiving && self.outputs.media.len() == 0 && (open
                    || !queues.audio_empty),
                written: self.writing,
                flush: self.outputs.busy(),
                changes: open,
            }
        } else {
            Ready {
                command: self.idle() && protocol.commands_allowed && room,
                input: false,
                event: false,
                audio: false,
                written: false,
                flush: self.outputs.busy(),
                changes: false,
            }
        }
    }
}

/// The state of a session's driver.
pub struct Driver {
    pub outputs: Outputs,
    connected: bool,
    stopped: bool,
    drain_tail: Option<VecDeque<Action>>,
    actions: VecDeque<Action>,
    observations: VecDeque<Action>,
    writing: bool,
}

impl View for Driver {
    type V = DriverView;

    closed spec fn view(&self) -> DriverView {
        DriverView {
            outputs: self.outputs@,
            connected: self.connected,
            stopped: self.stopped,
            drain_tail: match self.drain_tail {
                Some(tail) => Some(tail.deep_view()),
                None => None,
            },
            actions: self.actions.deep_view(),
            observations: self.observations.deep_view(),
            writing: self.writing,
        }
    }
}

impl Driver {
    pub closed spec fn wf(&self) -> bool {
        self.outputs.wf()
    }

    /// A driver with the actions that its protocol begins with.
    pub fn new(outputs: Outputs, initial: Vec<Action>) -> (r: Driver)
        requires
            outputs.wf(),
        ensures
            r.wf(),
            r@ == (DriverView {
                outputs: outputs@,
                connected: false,
                stopped: false,
                drain_tail: None,
                actions: initial.deep_view(),
                observations: Seq::empty(),
                writing: false,
            }),
    {
        let observations: VecDeque<Action> = VecDeque::new();
        assert(observations.deep_view() =~= Seq::empty());
        Driver {
            outputs,
            connected: false,
            stopped: false,
            drain_tail: None,
            actions: queue(initial),
            observations,
            writing: false,
        }
    }

    pub fn idle(&self) -> (r: bool)
        ensures
            r == self@.idle(),
    {
        !self.writing && self.drain_tail.is_none() && self.actions.len() == 0
            && self.observations.len() == 0
    }

    pub fn stopped(&self) -> (r: bool)
        ensures
            r == self@.stopped,
    {
        self.stopped
    }

    /// Goes on behind a drain that ended.
    pub fn resume(&mut self, input_empty: bool)
        requires
            old(self).wf(),
        ensures
            final(self).wf(),
            final(self)@ == old(self)@.resumed(input_empty),
    {
        if !self.writing && input_empty {
            if let Some(tail) = self.drain_tail.take() {
                let ghost first = tail.deep_view();
                let ghost second = self.actions.deep_view();
                let mut all = tail;
                all.append(&mut self.actions);
                assert(all.deep_view() =~= first + second);
                self.actions = all;
            }
        }
    }

    /// Carries out the next action as far as no wire is needed for it. `link` tells whether
    /// the connection allows commands.
    pub fn advance(&mut self, link: Result<bool, Error>, input_empty: bool) -> (r: Result<
        Effect,
        Error,
    >)
        requires
            old(self).wf(),
        ensures
            final(self).wf(),
            (final(self)@, crate::error::seen(r)) == old(self)@.advanced(linked(link), input_empty),
    {
        let observing = self.observations.len() > 0;
        if !observing && (self.drain_tail.is_some() || self.writing || self.actions.len() == 0) {
            return Ok(Effect::Blocked);
        }
        let ghost before = self@;
        let sends = if observing {
            assert(before.observations[0] == self.observations@[0]@);
            matches!(&self.observations[0], Action::Send(_))
        } else {
            assert(before.actions[0] == self.actions@[0]@);
            matches!(&self.actions[0], Action::Send(_))
        };
        let writes = sends || if observing {
            matches!(&self.observations[0], Action::Connect { .. }) || matches!(&self.observations[0], Action::DrainInput)
        } else {
            matches!(&self.actions[0], Action::Connect { .. }) || matches!(&self.actions[0], Action::DrainInput)
        };
        if self.writing && writes {
            return Ok(Effect::Blocked);
        }
        if sends && self.connected && !self.stopped {
            let allowed = link?;
            if !allowed {
                return Ok(Effect::Blocked);
            }
        }
        let mut rest: VecDeque<Action> = VecDeque::new();
        if observing {
            std::mem::swap(&mut rest, &mut self.observations);
        } else {
            std::mem::swap(&mut rest, &mut self.actions);
        }
        let ghost all = rest.deep_view();
        let ghost raw = rest@;
        let action = match rest.pop_front() {
            Some(action) => action,
            None => return Ok(Effect::Blocked),
        };
        proof {
            assert(all[0] == raw[0]@);
            assert(rest.deep_view() =~= all.drop_first());
            assert(rest.deep_view() == before.rest());
            assert(before.next_action() == Some(action@));
        }
        if let Action::DrainInput = action {
            assert(self.observations.deep_view() =~= before.with_rest(
                Seq::empty(),
            ).observations);
            assert(self.actions.deep_view() =~= before.with_rest(Seq::empty()).actions);
            if self.drain_tail.is_some() {
                return Err(protocol("overlapping WebRTC input drains"));
            }
            if !self.connected && !input_empty {
                return Err(protocol("cannot drain accepted audio without a WebRTC peer"));
            }
            self.drain_tail = Some(rest);
            return Ok(Effect::CloseInput);
        }
        if observing {
            self.observations = rest;
        } else {
            self.actions = rest;
        }
        match action {
            Action::Connect { payload, deadline, timeout } => {
                if self.connected {
                    return Err(protocol("WebRTC peer already created"));
                }
                Ok(Effect::Connect { payload, deadline, timeout })
            },
            Action::Send(text) => {
                if !self.connected {
                    return Err(Error::Cancelled);
                }
                self.writing = true;
                Ok(Effect::Send(text))
            },
            Action::DrainInput => Ok(Effect::CloseInput),
            Action::Event(body) => {
                self.outputs.event(body)?;
                Ok(Effect::Done)
            },
            Action::Disconnect => Ok(Effect::Disconnect),
            Action::Fail(error) => Err(error),
        }
    }

    /// A peer was made.
    pub fn connect(&mut self)
        requires
            old(self).wf(),
        ensures
            final(self).wf(),
            final(self)@ == (DriverView { connected: true, ..old(self)@ }),
    {
        self.connected = true;
    }

    /// The peer was closed.
    pub fn disconnect(&mut self, input_empty: bool) -> (r: Result<(), Error>)
        requires
            old(self).wf(),
        ensures
            final(self).wf(),
            (final(self)@, checked(r)) == old(self)@.disconnected(input_empty),
    {
        self.stopped = true;
        if self.drain_tail.is_some() && (!input_empty || self.writing) {
            return Err(uncertain("WebRTC closed before accepted input drained"));
        }
        Ok(())
    }

    pub fn may_finalize(&self, draining: bool, queues: Queues) -> (r: bool)
        ensures
            r == self@.may_finalize(draining, queues),
    {
        draining && self.idle() && !self.outputs.pending() && (!self.connected || (
        queues.audio_empty && queues.events_empty))
    }

    /// Ends the media, and takes the actions that the protocol ends with. `end` marks the end
    /// of a media stream, and `valid` is what its validation said.
    pub fn finalize(
        &mut self,
        end: Option<MediaChunk>,
        valid: Result<(), Error>,
        actions: Result<Vec<Action>, Error>,
    ) -> (r: Result<(), Error>)
        requires
            old(self).wf(),
        ensures
            final(self).wf(),
            match ended(old(self)@.outputs, end.deep_view(), checked(valid)) {
                Err(e) => r is Err && r->Err_0@ == e && final(self)@ == old(self)@,
                Ok(outputs) => match crate::error::seen(actions) {
                    Err(e) => r is Err && r->Err_0@ == e && final(self)@ == (DriverView {
                        outputs,
                        ..old(self)@
                    }),
                    Ok(actions) => r is Ok && final(self)@ == (DriverView {
                        outputs,
                        actions,
                        ..old(self)@
                    }),
                },
            },
    {
        if let Some(end) = end {
            self.outputs.queue_media(end, false, valid)?;
        }
        self.outputs.end_media();
        self.actions = queue(actions?);
        Ok(())
    }

    pub fn is_done(&self, closed: bool) -> (r: bool)
        ensures
            r == self@.is_done(closed),
    {
        closed && self.idle() && !self.outputs.pending()
    }

    /// The failure of a transport ends the session, once every message before it was taken.
    pub fn check_failure(&self, finished: bool, queues: Queues, failure: Option<Error>) -> (r: Result<
        (),
        Error,
    >)
        ensures
            checked(r) == (match failure {
                Some(e) => if self@.connected && self@.remote_open(finished)
                    && queues.events_empty {
                    Err(e@)
                } else {
                    Ok(())
                },
                None => Ok(()),
            }),
    {
        match failure {
            Some(e) => if self.connected && !finished && !self.stopped && queues.events_empty {
                Err(e)
            } else {
                Ok(())
            },
            None => Ok(()),
        }
    }

    /// What to wait for next.
    pub fn ready(
        &self,
        protocol: ProtocolStatus,
        connection: ConnectionStatus,
        queues: Queues,
        audio_input: bool,
        headroom: usize,
    ) -> (r: Ready)
        ensures
            r == self@.ready(protocol, connection, queues, audio_input, headroom),
    {
        let idle = self.idle();
        let room = self.outputs.commands_allowed(headroom);
        if !self.connected {
            return Ready {
                command: idle && protocol.commands_allowed && room,
                input: false,
                event: false,
                audio: false,
                written: false,
                flush: self.outputs.pending(),
                changes: false,
            };
        }
        let receiving = !protocol.finished;
        let open = receiving && !self.stopped;
        let commands = !open || connection.commands_allowed;
        let inputs = open && connection.input_allowed;
        Ready {
            command: idle && commands && protocol.commands_allowed && room,
            input: !self.writing && inputs && (self.drain_tail.is_some() || (idle && audio_input
                && protocol.input_allowed)),
            event: receiving && self.observations.len() == 0 && (open || !queues.events_empty),
            audio: receiving && self.outputs.can_receive_media() && (open || !queues.audio_empty),
            written: self.writing,
            flush: self.outputs.pending(),
            changes: open,
        }
    }

    /// A command led to actions.
    pub fn commanded(&mut self, actions: Vec<Action>)
        requires
            old(self).wf(),
        ensures
            final(self).wf(),
            final(self)@ == (DriverView { actions: actions.deep_view(), ..old(self)@ }),
    {
        self.actions = queue(actions);
    }

    /// A received message led to actions.
    pub fn observed(&mut self, actions: Vec<Action>)
        requires
            old(self).wf(),
        ensures
            final(self).wf(),
            final(self)@ == (DriverView { observations: actions.deep_view(), ..old(self)@ }),
    {
        self.observations = queue(actions);
    }

    /// Input is being written.
    pub fn write(&mut self)
        requires
            old(self).wf(),
        ensures
            final(self).wf(),
            final(self)@ == (DriverView { writing: true, ..old(self)@ }),
    {
        self.writing = true;
    }

    /// A write ended.
    pub fn written(&mut self)
        requires
            old(self).wf(),
        ensures
            final(self).wf(),
            final(self)@ == (DriverView { writing: false, ..old(self)@ }),
    {
        self.writing = false;
    }

    /// Queues the chunk that a received packet was mapped to. It must not have grown: its
    /// bytes were reserved when the packet came in.
    pub fn received_media(&mut self, chunk: MediaChunk, payload: usize, valid: Result<(), Error>) -> (r:
        Result<(), Error>)
        requires
            old(self).wf(),
        ensures
            final(self).wf(),
            chunk@.bytes.len() > payload ==> r is Err && r->Err_0@ == ErrorView::Invalid(
                "media mapping grew the reserved payload"@,
            ) && final(self)@ == old(self)@,
            chunk@.bytes.len() <= payload ==> match valid {
                Err(e) => r is Err && r->Err_0@ == e@ && final(self)@ == old(self)@,
                Ok(_) => match old(self)@.outputs.with_media(chunk@, true) {
                    Ok(outputs) => r is Ok && final(self)@ == (DriverView {
                        outputs,
                        ..old(self)@
                    }),
                    Err(e) => r is Err && r->Err_0@ == e && final(self)@ == old(self)@,
                },
            },
    {
        if chunk.bytes.len() > payload {
            return Err(invalid("media mapping grew the reserved payload"));
        }
        self.outputs.queue_media(chunk, true, valid)
    }
}

pub open spec fn linked(link: Result<bool, Error>) -> Result<bool, ErrorView> {
    match link {
        Ok(allowed) => Ok(allowed),
        Err(e) => Err(e@),
    }
}

/// The outputs once the media ended.
pub open spec fn ended(
    outputs: OutputsView,
    end: Option<MediaChunkView>,
    valid: Result<(), ErrorView>,
) -> Result<OutputsView, ErrorView> {
    match end {
        None => Ok(OutputsView { ending: true, ..outputs }),
        Some(chunk) => match valid {
            Err(e) => Err(e),
            Ok(_) => match outputs.with_media(chunk, false) {
                Err(e) => Err(e),
                Ok(outputs) => Ok(OutputsView { ending: true, ..outputs }),
            },
        },
    }
}

/// The session may be opened: it is bound to no other adapter.
pub fn check_open(bound: bool) -> (r: Result<(), Error>)
    ensures
        r is Ok <==> !bound,
        r is Err ==> r->Err_0@ == ErrorView::Invalid(
            "binding does not belong to this transport adapter"@,
        ),
{
    if bound {
        return Err(invalid("binding does not belong to this transport adapter"));
    }
    Ok(())
}

// ---------------------------------------------------------------------------------------
// Laws
// ---------------------------------------------------------------------------------------
/// While a write or a drain goes on, no action of a command is carried out: its answer stays
/// behind what it answers for.
pub proof fn commands_wait_for_writes(
    driver: DriverView,
    link: Result<bool, ErrorView>,
    input_empty: bool,
)
    requires
        driver.writing || driver.drain_tail is Some,
        driver.observations.len() == 0,
    ensures
        driver.advanced(link, input_empty) == (driver, Ok::<EffectView, ErrorView>(
            EffectView::Blocked,
        )),
{
}

/// Actions are carried out in their order, each once.
pub proof fn actions_keep_their_order(
    driver: DriverView,
    link: Result<bool, ErrorView>,
    input_empty: bool,
)
    requires
        driver.observations.len() == 0,
    ensures
        ({
            let (next, r) = driver.advanced(link, input_empty);
            let left = match next.drain_tail {
                Some(tail) => tail + next.actions,
                None => next.actions,
            };
            driver.drain_tail is None ==> (next.actions == driver.actions || left
                == driver.actions.drop_first() || r is Err)
        }),
{
    let (next, r) = driver.advanced(link, input_empty);
    if let Some(tail) = next.drain_tail {
        assert(tail + next.actions =~= tail || next.actions.len() > 0);
    }
}

/// A drain takes nothing away: what stood behind it goes on unchanged once the input is
/// written, ahead of what came later.
pub proof fn drains_give_back_their_tail(driver: DriverView)
    requires
        driver.drain_tail is Some,
    ensures
        driver.resumed(false) == driver,
        !driver.writing ==> driver.resumed(true).actions == driver.drain_tail->0 + driver.actions
            && driver.resumed(true).drain_tail is None,
{
}

/// The session finishes only when nothing is under way and everything received was taken.
pub proof fn finalization_comes_last(driver: DriverView, draining: bool, queues: Queues)
    requires
        driver.may_finalize(draining, queues),
    ensures
        !driver.writing && driver.drain_tail is None && driver.actions.len() == 0
            && driver.observations.len() == 0,
        driver.outputs.events.len() == 0 && driver.outputs.media.len() == 0,
        driver.connected ==> queues.audio_empty && queues.events_empty,
{
}

/// An action that is carried out reaches its place: a text goes to the peer, which then writes,
/// a connection is made of its payload, and what is told stands behind all events. Nothing is
/// sent without a peer, and no second peer is made.
pub proof fn actions_reach_their_place(
    driver: DriverView,
    link: Result<bool, ErrorView>,
    input_empty: bool,
)
    requires
        driver.observations.len() == 0,
        driver.actions.len() > 0,
        driver.drain_tail is None,
        !driver.writing,
        link == Ok::<bool, ErrorView>(true),
    ensures
        ({
            let (next, result) = driver.advanced(link, input_empty);
            match driver.actions[0] {
                ActionView::Send(text) => if driver.connected {
                    result == Ok::<EffectView, ErrorView>(EffectView::Send(text)) && next.writing
                } else {
                    result is Err
                },
                ActionView::Connect { payload, deadline, timeout } => if driver.connected {
                    result is Err
                } else {
                    result == Ok::<EffectView, ErrorView>(
                        EffectView::Connect { payload, deadline, timeout },
                    )
                },
                ActionView::Event(body) => result is Ok ==> {
                    &&& next.outputs.events.len() == driver.outputs.events.len() + 1
                    &&& next.outputs.events.drop_last() == driver.outputs.events
                    &&& next.outputs.events.last().body == body
                },
                ActionView::Fail(e) => result == Err::<EffectView, ErrorView>(e),
                ActionView::Disconnect => result == Ok::<EffectView, ErrorView>(
                    EffectView::Disconnect,
                ),
                ActionView::DrainInput => driver.connected || input_empty ==> result == Ok::<
                    EffectView,
                    ErrorView,
                >(EffectView::CloseInput) && next.drain_tail == Some(driver.actions.drop_first()),
            }
        }),
{
    let (next, _) = driver.advanced(link, input_empty);
    if next.outputs.events.len() > driver.outputs.events.len() {
        assert(next.outputs.events.drop_last() =~= driver.outputs.events);
    }
}

} // verus!
