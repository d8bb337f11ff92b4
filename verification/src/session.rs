//! Sessions made of single exchanges: which commands they take, and in which order their
//! events go out.
use crate::command::{
    acknowledge, acknowledged, Acknowledgement, Closure, ClosureView, HistoryEntry,
    HistoryEntryView, ResponseStatus, SessionCommand, SessionCommandBody, SessionEventBody,
    SessionEventBodyView, TurnEnd, TurnEndView,
};
use crate::error::{checked, invalid, protocol, seen, Error, ErrorView};
use crate::json::{Json, JsonView};
use crate::message::{copy_messages, Message, MessageView, Output, OutputView};
use crate::model::{Profile, ProfileView, TurnOutput, TurnOutputView};
use crate::text::{decimal, join, join3, number};
use std::collections::VecDeque;
use vstd::prelude::*;

verus! {

// ---------------------------------------------------------------------------------------
// Commands
// ---------------------------------------------------------------------------------------
/// What a session knows of the conversation. `seed` stands before the history; the revisions
/// count what was acknowledged.
pub struct ProjectionView {
    pub seed: Seq<MessageView>,
    pub history: Seq<HistoryEntryView>,
    pub profile: ProfileView,
    pub context_revision: u64,
    pub input_position: u64,
    pub profile_revision: u64,
    pub sealed: bool,
    /// The generation under way, and the input position that it answers.
    pub active: Option<(Seq<char>, u64)>,
}

/// What the host is asked of a command: to negotiate the request as it would then be, whether
/// the history admits the entry, what the new context projects to, or nothing.
#[derive(Debug, Clone, Copy, PartialEq, Eq, Structural)]
pub enum Ask {
    Negotiation,
    Admission,
    Projection,
    Nothing,
}

/// What the host says of a command: whether the run was cancelled, and what it found out where
/// it was asked.
pub struct HostView {
    pub cancelled: Result<(), ErrorView>,
    pub negotiated: Result<(), ErrorView>,
    pub admitted: Result<(), ErrorView>,
    pub projected: Result<Seq<MessageView>, ErrorView>,
}

pub struct Host {
    pub cancelled: Result<(), Error>,
    pub negotiated: Result<(), Error>,
    pub admitted: Result<(), Error>,
    pub projected: Result<Vec<Message>, Error>,
}

impl View for Host {
    type V = HostView;

    open spec fn view(&self) -> HostView {
        HostView {
            cancelled: checked(self.cancelled),
            negotiated: checked(self.negotiated),
            admitted: checked(self.admitted),
            projected: seen(self.projected),
        }
    }
}

/// Whether user input comes in after it was sealed.
pub open spec fn sealed_out(sealed: bool, submitted: bool, message: MessageView) -> bool {
    submitted && sealed && message is User
}

impl ProjectionView {
    /// What the host is asked of a command, or why it is refused before the host is asked.
    pub open spec fn asks(self, id: Seq<char>, body: SessionCommandBody, busy: bool) -> Result<
        Ask,
        ErrorView,
    > {
        if id.len() == 0 {
            Err(ErrorView::Invalid("empty command identity"@))
        } else {
            match body {
                SessionCommandBody::Generate {
                    generation_id,
                    context_revision,
                    input_position,
                    profile_revision,
                } => if busy || generation_id@.len() == 0 || context_revision
                    != self.context_revision || input_position != self.input_position
                    || profile_revision != self.profile_revision {
                    Err(
                        ErrorView::Protocol(
                            "generation does not match the acknowledged projection or another generation is active"@,
                        ),
                    )
                } else {
                    Ok(Ask::Negotiation)
                },
                SessionCommandBody::Append {
                    entry,
                    context_revision,
                    input_position,
                    submitted,
                } => if sealed_out(self.sealed, submitted, entry.message@) {
                    Err(ErrorView::Invalid("user input is sealed"@))
                } else if context_revision != self.context_revision + 1 || input_position
                    < self.input_position {
                    Err(ErrorView::Protocol("non-contiguous context revision"@))
                } else {
                    Ok(Ask::Admission)
                },
                SessionCommandBody::ReplaceContext { entries, context_revision } => if busy
                    || context_revision != self.context_revision + 1 {
                    Err(
                        ErrorView::Protocol(
                            "context replacement crosses a generation or revision"@,
                        ),
                    )
                } else {
                    Ok(Ask::Projection)
                },
                SessionCommandBody::UpdateProfile { revision, profile } => if revision
                    != self.profile_revision + 1 {
                    Err(ErrorView::Protocol("non-contiguous profile revision"@))
                } else {
                    Ok(Ask::Negotiation)
                },
                SessionCommandBody::SealUserInput => Ok(Ask::Nothing),
                SessionCommandBody::Close => if busy {
                    Err(ErrorView::Protocol("cannot close an active generation"@))
                } else {
                    Ok(Ask::Nothing)
                },
                _ => Err(ErrorView::Invalid("unsupported exchange session command"@)),
            }
        }
    }

    /// What a command leads to, with what the host says of it: the projection after it, and
    /// the events that answer it.
    pub open spec fn commanded(
        self,
        id: Seq<char>,
        body: SessionCommandBody,
        busy: bool,
        host: HostView,
    ) -> (ProjectionView, Result<Seq<SessionEventBodyView>, ErrorView>) {
        let ack = acknowledged(id, Some(Acknowledgement::Projection));
        if host.cancelled is Err {
            (self, Err(host.cancelled->Err_0))
        } else if self.asks(id, body, busy) is Err {
            (self, Err(self.asks(id, body, busy)->Err_0))
        } else {
            match body {
                SessionCommandBody::Generate { generation_id, input_position, .. } => {
                    match host.negotiated {
                        Err(e) => (self, Err(e)),
                        Ok(_) => (
                            ProjectionView {
                                active: Some((generation_id@, input_position)),
                                ..self
                            },
                            Ok(
                                seq![
                                    ack,
                                    SessionEventBodyView::ResponseStarted {
                                        generation_id: generation_id@,
                                        input_position,
                                    },
                                ],
                            ),
                        ),
                    }
                },
                SessionCommandBody::Append { entry, context_revision, input_position, .. } => {
                    match host.admitted {
                        Err(e) => (self, Err(e)),
                        Ok(_) => (
                            ProjectionView {
                                history: self.history.push(entry@),
                                context_revision,
                                input_position,
                                ..self
                            },
                            Ok(seq![ack]),
                        ),
                    }
                },
                SessionCommandBody::ReplaceContext { context_revision, .. } => {
                    match host.projected {
                        Err(e) => (self, Err(e)),
                        Ok(seed) => (
                            ProjectionView {
                                seed,
                                history: Seq::empty(),
                                context_revision,
                                ..self
                            },
                            Ok(seq![ack]),
                        ),
                    }
                },
                SessionCommandBody::UpdateProfile { revision, profile } => {
                    match host.negotiated {
                        Err(e) => (ProjectionView { profile: profile@, ..self }, Err(e)),
                        Ok(_) => (
                            ProjectionView {
                                profile: profile@,
                                profile_revision: revision,
                                ..self
                            },
                            Ok(seq![ack]),
                        ),
                    }
                },
                SessionCommandBody::SealUserInput => (
                    ProjectionView { sealed: true, ..self },
                    Ok(seq![ack]),
                ),
                _ => (
                    self,
                    Ok(
                        seq![
                            ack,
                            SessionEventBodyView::Closed(
                                Some(
                                    ClosureView {
                                        reason: "host_request"@,
                                        provider_data: JsonView::Null,
                                    },
                                ),
                            ),
                        ],
                    ),
                ),
            }
        }
    }
}

/// The state of a session made of single exchanges.
pub struct SessionTask {
    seed: Vec<Message>,
    history: Vec<HistoryEntry>,
    profile: Profile,
    context_revision: u64,
    input_position: u64,
    profile_revision: u64,
    sealed: bool,
    active: Option<(String, u64)>,
}

impl View for SessionTask {
    type V = ProjectionView;

    closed spec fn view(&self) -> ProjectionView {
        ProjectionView {
            seed: self.seed.deep_view(),
            history: self.history.deep_view(),
            profile: self.profile@,
            context_revision: self.context_revision,
            input_position: self.input_position,
            profile_revision: self.profile_revision,
            sealed: self.sealed,
            active: self.active.deep_view(),
        }
    }
}

impl SessionTask {
    pub fn new(
        seed: Vec<Message>,
        profile: Profile,
        context_revision: u64,
        input_position: u64,
        profile_revision: u64,
    ) -> (r: SessionTask)
        ensures
            r@ == (ProjectionView {
                seed: seed.deep_view(),
                history: Seq::empty(),
                profile: profile@,
                context_revision,
                input_position,
                profile_revision,
                sealed: false,
                active: None,
            }),
    {
        let history: Vec<HistoryEntry> = Vec::new();
        assert(history.deep_view() =~= Seq::empty());
        SessionTask {
            seed,
            history,
            profile,
            context_revision,
            input_position,
            profile_revision,
            sealed: false,
            active: None,
        }
    }

    pub fn history(&self) -> (r: &Vec<HistoryEntry>)
        ensures
            r.deep_view() == self@.history,
    {
        &self.history
    }

    pub fn profile(&self) -> (r: &Profile)
        ensures
            r@ == self@.profile,
    {
        &self.profile
    }

    pub fn context_revision(&self) -> (r: u64)
        ensures
            r == self@.context_revision,
    {
        self.context_revision
    }

    pub fn is_active(&self) -> (r: bool)
        ensures
            r == (self@.active is Some),
    {
        self.active.is_some()
    }

    /// The messages of the next exchange: the seed, and what the history projects to.
    pub fn messages(&self, conversation: Vec<Message>) -> (r: Vec<Message>)
        ensures
            r.deep_view() == self@.seed + conversation.deep_view(),
    {
        let ghost later = conversation.deep_view();
        let mut rest = conversation;
        let mut messages = copy_messages(&self.seed);
        messages.append(&mut rest);
        assert(messages.deep_view() =~= self@.seed + later);
        messages
    }

    /// What the host is asked of a command before it is taken. `busy` tells that a generation is
    /// under way or its events are still going out. The next revision must be countable.
    pub fn asks(&self, command: &SessionCommand, busy: bool) -> (r: Result<Ask, Error>)
        requires
            command.body is Append || command.body is ReplaceContext ==> self@.context_revision
                < u64::MAX,
            command.body is UpdateProfile ==> self@.profile_revision < u64::MAX,
        ensures
            match r {
                Ok(ask) => self@.asks(command.id@, command.body, busy) == Ok::<Ask, ErrorView>(ask),
                Err(e) => self@.asks(command.id@, command.body, busy) == Err::<Ask, ErrorView>(e@),
            },
    {
        if command.id.as_str().unicode_len() == 0 {
            return Err(invalid("empty command identity"));
        }
        match &command.body {
            SessionCommandBody::Generate {
                generation_id,
                context_revision,
                input_position,
                profile_revision,
            } => {
                if busy || generation_id.as_str().unicode_len() == 0 || *context_revision
                    != self.context_revision || *input_position != self.input_position
                    || *profile_revision != self.profile_revision {
                    return Err(
                        protocol(
                            "generation does not match the acknowledged projection or another generation is active",
                        ),
                    );
                }
                Ok(Ask::Negotiation)
            },
            SessionCommandBody::Append { entry, context_revision, input_position, submitted } => {
                if *submitted && self.sealed && matches!(entry.message, Message::User(_)) {
                    return Err(invalid("user input is sealed"));
                }
                if *context_revision != self.context_revision + 1 || *input_position
                    < self.input_position {
                    return Err(protocol("non-contiguous context revision"));
                }
                Ok(Ask::Admission)
            },
            SessionCommandBody::ReplaceContext { entries: _, context_revision } => {
                if busy || *context_revision != self.context_revision + 1 {
                    return Err(protocol("context replacement crosses a generation or revision"));
                }
                Ok(Ask::Projection)
            },
            SessionCommandBody::UpdateProfile { revision, profile: _ } => {
                if *revision != self.profile_revision + 1 {
                    return Err(protocol("non-contiguous profile revision"));
                }
                Ok(Ask::Negotiation)
            },
            SessionCommandBody::SealUserInput => Ok(Ask::Nothing),
            SessionCommandBody::Close => {
                if busy {
                    return Err(protocol("cannot close an active generation"));
                }
                Ok(Ask::Nothing)
            },
            _ => Err(invalid("unsupported exchange session command")),
        }
    }

    /// Takes a command, with what the host says of it.
    pub fn command(&mut self, command: SessionCommand, busy: bool, host: Host) -> (r: Result<
        Vec<SessionEventBody>,
        Error,
    >)
        requires
            command.body is Append || command.body is ReplaceContext ==> old(
                self,
            )@.context_revision < u64::MAX,
            command.body is UpdateProfile ==> old(self)@.profile_revision < u64::MAX,
        ensures
            (final(self)@, seen(r)) == old(self)@.commanded(
                command.id@,
                command.body,
                busy,
                host@,
            ),
    {
        host.cancelled?;
        let _ = self.asks(&command, busy)?;
        let ghost id = command.id@;
        let mut events: Vec<SessionEventBody> = Vec::new();
        events.push(acknowledge(command.id, Some(Acknowledgement::Projection)));
        let ghost ack = acknowledged(id, Some(Acknowledgement::Projection));
        assert(events.deep_view() =~= seq![ack]);
        match command.body {
            SessionCommandBody::Generate { generation_id, input_position, .. } => {
                host.negotiated?;
                self.active = Some((generation_id.clone(), input_position));
                let ghost generation = generation_id@;
                events.push(SessionEventBody::ResponseStarted { generation_id, input_position });
                assert(events.deep_view() =~= seq![
                    ack,
                    SessionEventBodyView::ResponseStarted {
                        generation_id: generation,
                        input_position,
                    },
                ]);
            },
            SessionCommandBody::Append { entry, context_revision, input_position, .. } => {
                host.admitted?;
                let ghost before = self.history.deep_view();
                let ghost added = entry@;
                self.history.push(entry);
                assert(self.history.deep_view() =~= before.push(added));
                self.context_revision = context_revision;
                self.input_position = input_position;
            },
            SessionCommandBody::ReplaceContext { context_revision, .. } => {
                self.seed = host.projected?;
                self.history = Vec::new();
                assert(self.history.deep_view() =~= Seq::empty());
                self.context_revision = context_revision;
            },
            SessionCommandBody::UpdateProfile { revision, profile } => {
                self.profile = profile;
                host.negotiated?;
                self.profile_revision = revision;
            },
            SessionCommandBody::SealUserInput => {
                self.sealed = true;
            },
            _ => {
                let closure = Closure {
                    reason: "host_request".to_owned(),
                    provider_data: Json::Null,
                };
                let ghost closed = closure@;
                events.push(SessionEventBody::Closed(Some(closure)));
                assert(events.deep_view() =~= seq![
                    ack,
                    SessionEventBodyView::Closed(Some(closed)),
                ]);
            },
        }
        Ok(events)
    }

    /// The generation ended: hands out which it was.
    pub fn generated(&mut self) -> (r: Option<(String, u64)>)
        ensures
            r.deep_view() == old(self)@.active,
            final(self)@ == (ProjectionView { active: None, ..old(self)@ }),
    {
        let active = self.active.take();
        assert(self.active.deep_view() == None::<(Seq<char>, u64)>);
        active
    }
}

/// Whether a session may be opened: it is neither bound to an adapter nor resumed.
pub open spec fn open_fault(bound: bool, resumes: bool) -> Option<ErrorView> {
    if bound {
        Some(ErrorView::Invalid("binding does not belong to an exchange adapter"@))
    } else if resumes {
        Some(ErrorView::Protocol("exchange session has no persistent session resume"@))
    } else {
        None
    }
}

pub fn check_open(bound: bool, resumes: bool) -> (r: Result<(), Error>)
    ensures
        match open_fault(bound, resumes) {
            Some(e) => r is Err && r->Err_0@ == e,
            None => r is Ok,
        },
{
    if bound {
        return Err(invalid("binding does not belong to an exchange adapter"));
    }
    if resumes {
        return Err(protocol("exchange session has no persistent session resume"));
    }
    Ok(())
}

/// The number of the event after one.
pub fn next_sequence(sequence: u64) -> (r: Result<u64, Error>)
    ensures
        sequence < u64::MAX ==> r is Ok && r->Ok_0 == sequence + 1,
        sequence == u64::MAX ==> r is Err && r->Err_0@ == ErrorView::Protocol(
            "event sequence overflow"@,
        ),
{
    match sequence.checked_add(1) {
        Some(next) => Ok(next),
        None => Err(protocol("event sequence overflow")),
    }
}

/// The error that a session ends with once its events are out: that of its worker, or the
/// loss of the worker.
pub fn terminal_error(result: Option<Result<(), Error>>) -> (r: Option<Error>)
    ensures
        r.deep_view() == (match result {
            Some(Ok(_)) => None,
            Some(Err(e)) => Some(e@),
            None => Some(ErrorView::Protocol("exchange driver lost its terminal result"@)),
        }),
{
    match result {
        Some(Ok(_)) => None,
        Some(Err(e)) => Some(e),
        None => Some(protocol("exchange driver lost its terminal result")),
    }
}

// ---------------------------------------------------------------------------------------
// The events of a response
// ---------------------------------------------------------------------------------------
pub open spec fn calls_runtime_tools(output: Seq<OutputView>) -> bool {
    exists|i: int| 0 <= i < output.len() && (#[trigger] output[i]) is RuntimeToolCall
}

/// How a response ended for the host: one that completed with tool calls waits for results.
pub open spec fn host_status(status: ResponseStatus, output: Seq<OutputView>) -> ResponseStatus {
    if status == ResponseStatus::Completed && calls_runtime_tools(output) {
        ResponseStatus::RequiresResults
    } else {
        status
    }
}

pub fn response_status(status: ResponseStatus, output: &Vec<Output>) -> (r: ResponseStatus)
    ensures
        r == host_status(status, output.deep_view()),
{
    if status != ResponseStatus::Completed {
        return status;
    }
    let ghost all = output.deep_view();
    let mut i: usize = 0;
    while i < output.len()
        invariant
            i <= output.len(),
            all == output.deep_view(),
            status == ResponseStatus::Completed,
            forall|j: int| 0 <= j < i ==> !((#[trigger] all[j]) is RuntimeToolCall),
        decreases output.len() - i,
    {
        assert(all[i as int] == output@[i as int]@);
        if let Output::RuntimeToolCall(_) = &output[i] {
            return ResponseStatus::RequiresResults;
        }
        i += 1;
    }
    ResponseStatus::Completed
}

/// What an event that goes out means to the scheduler.
#[derive(Debug, Clone, Copy, PartialEq, Eq, Structural)]
pub enum Emission {
    Control,
    Start,
    Output,
    Finish,
}

impl Emission {
    pub open spec fn is_control(self) -> bool {
        self == Emission::Control || self == Emission::Start
    }

    pub fn control(self) -> (r: bool)
        ensures
            r == self.is_control(),
    {
        matches!(self, Emission::Control | Emission::Start)
    }
}

/// The events of a response that are still to go out.
pub struct FinishView {
    pub generation_id: Seq<char>,
    /// The number of the next output.
    pub index: nat,
    pub output: Seq<OutputView>,
    pub finished: Option<SessionEventBodyView>,
}

pub open spec fn output_event(generation_id: Seq<char>, index: nat, output: OutputView) -> SessionEventBodyView {
    SessionEventBodyView::Output {
        turn_id: Some(generation_id),
        item_id: generation_id + ":"@ + decimal(index),
        caller_id: "model"@,
        output,
    }
}

pub open spec fn finish_event(
    generation_id: Seq<char>,
    input_position: u64,
    status: ResponseStatus,
    response: TurnOutputView,
) -> SessionEventBodyView {
    SessionEventBodyView::ResponseFinished {
        input_position,
        status: host_status(status, response.output),
        end: TurnEndView {
            turn_id: generation_id,
            usage: response.usage,
            model_id: response.model_id,
            response_id: response.response_id,
            finish_reason: response.finish_reason,
            provider_data: response.provider_data,
            effective: response.provider_data.get("effective"@),
        },
    }
}

impl FinishView {
    pub open spec fn of(
        generation_id: Seq<char>,
        input_position: u64,
        status: ResponseStatus,
        response: TurnOutputView,
    ) -> FinishView {
        FinishView {
            generation_id,
            index: 0,
            output: response.output,
            finished: Some(finish_event(generation_id, input_position, status, response)),
        }
    }

    pub open spec fn is_empty(self) -> bool {
        self.output.len() == 0 && self.finished is None
    }

    /// The next event to go out.
    pub open spec fn first(self) -> (SessionEventBodyView, Emission) {
        if self.output.len() > 0 {
            (output_event(self.generation_id, self.index, self.output[0]), Emission::Output)
        } else {
            (self.finished->0, Emission::Finish)
        }
    }

    /// What is left after the next event.
    pub open spec fn rest(self) -> FinishView {
        if self.output.len() > 0 {
            FinishView { index: self.index + 1, output: self.output.drop_first(), ..self }
        } else {
            FinishView { finished: None, ..self }
        }
    }

    /// All events still to go out, in order: the outputs, then the end.
    pub open spec fn events(self) -> Seq<(SessionEventBodyView, Emission)> {
        let outputs = Seq::new(
            self.output.len(),
            |i: int|
                (
                    output_event(self.generation_id, (self.index + i) as nat, self.output[i]),
                    Emission::Output,
                ),
        );
        match self.finished {
            Some(end) => outputs.push((end, Emission::Finish)),
            None => outputs,
        }
    }
}

/// Items in the order in which they are to be taken.
pub fn queue<T: DeepView>(items: Vec<T>) -> (r: VecDeque<T>)
    ensures
        r.deep_view() == items.deep_view(),
        r@.len() <= usize::MAX,
{
    let ghost all = items.deep_view();
    let mut given = items;
    let mut out: VecDeque<T> = VecDeque::new();
    let total: usize = given.len();
    assert(total == all.len());
    assert(given.deep_view() =~= all.take(all.len() as int));
    assert(out.deep_view() =~= all.skip(all.len() as int));
    while given.len() > 0
        invariant
            given@.len() <= all.len() <= usize::MAX,
            given.deep_view() =~= all.take(given@.len() as int),
            out.deep_view() =~= all.skip(given@.len() as int),
        decreases given.len(),
    {
        let ghost before = out.deep_view();
        let ghost n = given@.len() - 1;
        assert(given.deep_view()[n] == all[n]);
        if let Some(last) = given.pop() {
            assert(last.deep_view() == all[n]);
            out.push_front(last);
            assert(out.deep_view() =~= seq![all[n]] + before);
            assert(out.deep_view() =~= all.skip(n));
            assert(given.deep_view() =~= all.take(n));
        }
    }
    assert(all.skip(0) =~= all);
    assert(out@.len() == out.deep_view().len());
    out
}

/// Hands out the events of a response.
pub struct FinishEvents {
    generation_id: String,
    index: u64,
    output: VecDeque<Output>,
    finished: Option<SessionEventBody>,
}

impl View for FinishEvents {
    type V = FinishView;

    closed spec fn view(&self) -> FinishView {
        FinishView {
            generation_id: self.generation_id@,
            index: self.index as nat,
            output: self.output.deep_view(),
            finished: self.finished.deep_view(),
        }
    }
}

impl FinishEvents {
    /// Outputs are numbered within what a machine counts.
    pub closed spec fn wf(&self) -> bool {
        self.index + self.output@.len() <= u64::MAX
    }

    /// The events of a response. `effective` is what reading the profile that took effect came
    /// to, where the response reports one.
    pub fn new(
        generation_id: String,
        input_position: u64,
        status: ResponseStatus,
        response: TurnOutput,
        effective: Result<(), String>,
    ) -> (r: Result<FinishEvents, Error>)
        ensures
            match (response@.provider_data.get("effective"@), effective) {
                (Some(_), Err(message)) => r is Err && r->Err_0@ == ErrorView::Protocol(
                    "effective profile: "@ + message@,
                ),
                _ => r is Ok && r->Ok_0.wf() && r->Ok_0@ == FinishView::of(
                    generation_id@,
                    input_position,
                    status,
                    response@,
                ),
            },
    {
        let reported: Option<Json> = match response.provider_data.get("effective") {
            Some(value) => {
                if let Err(message) = effective {
                    return Err(Error::Protocol(join("effective profile: ", message.as_str())));
                }
                Some(value.clone())
            },
            None => None,
        };
        let status = response_status(status, &response.output);
        let end = TurnEnd {
            turn_id: generation_id.clone(),
            usage: response.usage,
            model_id: response.model_id,
            response_id: response.response_id,
            finish_reason: response.finish_reason,
            provider_data: response.provider_data,
            effective: reported,
        };
        let output = queue(response.output);
        proof {
            assert(output@.len() == output.deep_view().len());
        }
        Ok(
            FinishEvents {
                generation_id,
                index: 0,
                output,
                finished: Some(SessionEventBody::ResponseFinished { input_position, status, end }),
            },
        )
    }

    /// The next event, until all are out.
    pub fn next(&mut self) -> (r: Option<(SessionEventBody, Emission)>)
        requires
            old(self).wf(),
        ensures
            final(self).wf(),
            match r {
                Some((body, emission)) => !old(self)@.is_empty() && (body@, emission) == old(
                    self,
                )@.first() && final(self)@ == old(self)@.rest(),
                None => old(self)@.is_empty() && final(self)@ == old(self)@,
            },
    {
        let ghost before = self@;
        let ghost raw = self.output@;
        match self.output.pop_front() {
            Some(output) => {
                proof {
                    assert(before.output[0] == raw[0]@);
                    assert(self.output.deep_view() =~= before.output.drop_first());
                }
                let digits = number(self.index);
                let item_id = join3(self.generation_id.as_str(), ":", digits.as_str());
                self.index = self.index + 1;
                Some(
                    (
                        SessionEventBody::Output {
                            turn_id: Some(self.generation_id.clone()),
                            item_id,
                            caller_id: "model".to_owned(),
                            output,
                        },
                        Emission::Output,
                    ),
                )
            },
            None => {
                let finished = self.finished.take();
                match finished {
                    Some(end) => {
                        Some((end, Emission::Finish))
                    },
                    None => None,
                }
            },
        }
    }
}

// ---------------------------------------------------------------------------------------
// Scheduling
// ---------------------------------------------------------------------------------------
/// What waits to go out, and what the session waits for.
pub struct ScheduleView {
    pub controls: Seq<SessionEventBodyView>,
    /// The kind of the event that is going out.
    pub sending: Option<Emission>,
    pub generating: bool,
    pub finishing: Option<FinishView>,
    pub closing: bool,
}

/// What the scheduler does before it waits.
pub enum StepView {
    Emit(SessionEventBodyView),
    Wait,
    Done,
}

#[derive(Debug, PartialEq, Eq)]
pub enum Step {
    /// Send the event.
    Emit(SessionEventBody),
    Wait,
    /// The session ends here.
    Done,
}

impl View for Step {
    type V = StepView;

    open spec fn view(&self) -> StepView {
        match self {
            Step::Emit(body) => StepView::Emit(body@),
            Step::Wait => StepView::Wait,
            Step::Done => StepView::Done,
        }
    }
}

impl ScheduleView {
    /// A session begins by telling that it is ready.
    pub open spec fn fresh(context_revision: u64) -> ScheduleView {
        ScheduleView {
            controls: seq![SessionEventBodyView::Ready { context_revision }],
            sending: None,
            generating: false,
            finishing: None,
            closing: false,
        }
    }

    /// A response that is going out has its end left, or that is under way.
    pub open spec fn wf(self) -> bool {
        self.finishing matches Some(finish) ==> finish.finished is Some || self.sending == Some(
            Emission::Finish,
        )
    }

    /// Answers to commands go out before the events of a response, one event at a time.
    pub open spec fn stepped(self) -> (ScheduleView, StepView) {
        if self.sending is Some {
            (self, StepView::Wait)
        } else if self.controls.len() > 0 {
            let body = self.controls[0];
            (
                ScheduleView {
                    controls: self.controls.drop_first(),
                    sending: Some(
                        if body is ResponseStarted {
                            Emission::Start
                        } else {
                            Emission::Control
                        },
                    ),
                    ..self
                },
                StepView::Emit(body),
            )
        } else {
            match self.finishing {
                Some(finish) => (
                    ScheduleView {
                        sending: Some(finish.first().1),
                        finishing: Some(finish.rest()),
                        ..self
                    },
                    StepView::Emit(finish.first().0),
                ),
                None => if self.closing {
                    (self, StepView::Done)
                } else {
                    (self, StepView::Wait)
                },
            }
        }
    }

    /// Whether a command may be taken: every answer is out, and none is going out.
    pub open spec fn takes_commands(self) -> bool {
        !self.closing && self.controls.len() == 0 && !(self.sending matches Some(emission)
            && emission.is_control())
    }

    /// The event that was going out is out. A generation starts once its start was told.
    pub open spec fn sent(self) -> ScheduleView {
        ScheduleView {
            sending: None,
            generating: self.generating || self.sending == Some(Emission::Start),
            finishing: if self.sending == Some(Emission::Finish) {
                None
            } else {
                self.finishing
            },
            ..self
        }
    }
}

/// Sends the events of a session in their order.
pub struct Schedule {
    controls: VecDeque<SessionEventBody>,
    sending: Option<Emission>,
    generating: bool,
    finishing: Option<FinishEvents>,
    closing: bool,
}

impl View for Schedule {
    type V = ScheduleView;

    closed spec fn view(&self) -> ScheduleView {
        ScheduleView {
            controls: self.controls.deep_view(),
            sending: self.sending,
            generating: self.generating,
            finishing: match self.finishing {
                Some(finish) => Some(finish@),
                None => None,
            },
            closing: self.closing,
        }
    }
}

impl Schedule {
    pub closed spec fn wf(&self) -> bool {
        &&& self@.wf()
        &&& self.finishing matches Some(finish) ==> finish.wf()
    }

    pub fn new(context_revision: u64) -> (r: Schedule)
        ensures
            r.wf(),
            r@ == ScheduleView::fresh(context_revision),
    {
        let mut controls: VecDeque<SessionEventBody> = VecDeque::new();
        controls.push_back(SessionEventBody::Ready { context_revision });
        assert(controls.deep_view() =~= seq![SessionEventBodyView::Ready { context_revision }]);
        Schedule { controls, sending: None, generating: false, finishing: None, closing: false }
    }

    /// What to do before waiting.
    pub fn step(&mut self) -> (r: Step)
        requires
            old(self).wf(),
        ensures
            final(self).wf(),
            (final(self)@, r@) == old(self)@.stepped(),
    {
        if self.sending.is_some() {
            return Step::Wait;
        }
        let ghost before = self.controls.deep_view();
        let ghost raw = self.controls@;
        if let Some(body) = self.controls.pop_front() {
            proof {
                assert(before[0] == raw[0]@);
                assert(self.controls.deep_view() =~= before.drop_first());
            }
            self.sending = Some(
                if matches!(body, SessionEventBody::ResponseStarted { .. }) {
                    Emission::Start
                } else {
                    Emission::Control
                },
            );
            return Step::Emit(body);
        }
        assert(self.controls.deep_view() =~= before);
        let mut finishing = self.finishing.take();
        let step = match &mut finishing {
            Some(finish) => match finish.next() {
                Some((body, emission)) => {
                    self.sending = Some(emission);
                    Step::Emit(body)
                },
                None => Step::Wait,
            },
            None => if self.closing {
                Step::Done
            } else {
                Step::Wait
            },
        };
        self.finishing = finishing;
        step
    }

    pub fn is_sending(&self) -> (r: bool)
        ensures
            r == (self@.sending is Some),
    {
        self.sending.is_some()
    }

    pub fn is_generating(&self) -> (r: bool)
        ensures
            r == self@.generating,
    {
        self.generating
    }

    pub fn is_finishing(&self) -> (r: bool)
        ensures
            r == (self@.finishing is Some),
    {
        self.finishing.is_some()
    }

    pub fn takes_commands(&self) -> (r: bool)
        ensures
            r == self@.takes_commands(),
    {
        let answering = match self.sending {
            Some(emission) => emission.control(),
            None => false,
        };
        !self.closing && self.controls.len() == 0 && !answering
    }

    /// The event that was going out is out.
    pub fn sent(&mut self)
        requires
            old(self).wf(),
        ensures
            final(self).wf(),
            final(self)@ == old(self)@.sent(),
    {
        match self.sending {
            Some(Emission::Start) => {
                self.generating = true;
            },
            Some(Emission::Finish) => {
                self.finishing = None;
            },
            _ => {},
        }
        self.sending = None;
    }

    /// A command was taken: its answers are to go out.
    pub fn commanded(&mut self, closing: bool, events: Vec<SessionEventBody>)
        requires
            old(self).wf(),
        ensures
            final(self).wf(),
            final(self)@ == (ScheduleView {
                closing,
                controls: old(self)@.controls + events.deep_view(),
                ..old(self)@
            }),
    {
        self.closing = closing;
        let ghost start = self.controls.deep_view();
        let ghost all = events.deep_view();
        let mut rest = queue(events);
        self.controls.append(&mut rest);
        assert(self.controls.deep_view() =~= start + all);
    }

    /// The generation ended: the events of its response are to go out.
    pub fn generated(&mut self, finish: FinishEvents)
        requires
            old(self).wf(),
            finish.wf(),
            finish@.finished is Some,
        ensures
            final(self).wf(),
            final(self)@ == (ScheduleView {
                generating: false,
                finishing: Some(finish@),
                ..old(self)@
            }),
    {
        self.generating = false;
        self.finishing = Some(finish);
    }
}

/// The host is heard only on what it was asked: what else it says of a command makes no
/// difference.
pub proof fn only_what_was_asked_counts(
    projection: ProjectionView,
    id: Seq<char>,
    body: SessionCommandBody,
    busy: bool,
    one: HostView,
    other: HostView,
)
    requires
        one.cancelled == other.cancelled,
        match projection.asks(id, body, busy) {
            Ok(Ask::Negotiation) => one.negotiated == other.negotiated,
            Ok(Ask::Admission) => one.admitted == other.admitted,
            Ok(Ask::Projection) => one.projected == other.projected,
            _ => true,
        },
    ensures
        projection.commanded(id, body, busy, one) == projection.commanded(id, body, busy, other),
{
}

/// A command that is taken is acknowledged before anything else, as part of the projection.
pub proof fn taken_commands_are_acknowledged(
    projection: ProjectionView,
    id: Seq<char>,
    body: SessionCommandBody,
    busy: bool,
    host: HostView,
)
    ensures
        projection.commanded(id, body, busy, host).1 matches Ok(events) ==> events.len() > 0
            && events[0] == acknowledged(id, Some(Acknowledgement::Projection)),
{
}

// ---------------------------------------------------------------------------------------
// Laws
// ---------------------------------------------------------------------------------------
/// Each accepted change counts its revision up by one, input positions never go back, and
/// nothing else moves either.
pub proof fn revisions_are_contiguous(
    projection: ProjectionView,
    id: Seq<char>,
    body: SessionCommandBody,
    busy: bool,
    host: HostView,
)
    ensures
        ({
            let (next, r) = projection.commanded(id, body, busy, host);
            &&& next.input_position >= projection.input_position
            &&& r is Ok && (body is Append || body is ReplaceContext) ==> next.context_revision
                == projection.context_revision + 1
            &&& !(r is Ok && (body is Append || body is ReplaceContext))
                ==> next.context_revision == projection.context_revision && next.seed
                == projection.seed && next.history == projection.history
            &&& r is Ok && body is UpdateProfile ==> next.profile_revision
                == projection.profile_revision + 1
            &&& !(r is Ok && body is UpdateProfile) ==> next.profile_revision
                == projection.profile_revision
        }),
{
}

/// A generation starts only on exactly what was acknowledged, and never beside another.
pub proof fn generations_match_the_projection(
    projection: ProjectionView,
    id: Seq<char>,
    body: SessionCommandBody,
    busy: bool,
    host: HostView,
)
    requires
        projection.commanded(id, body, busy, host).0.active != projection.active,
    ensures
        !busy,
        body matches SessionCommandBody::Generate {
            context_revision,
            input_position,
            profile_revision,
            ..
        } && context_revision == projection.context_revision && input_position
            == projection.input_position && profile_revision == projection.profile_revision,
{
}

/// Sealed input stays sealed, and refuses what the user submits from then on.
pub proof fn sealing_is_final(
    projection: ProjectionView,
    id: Seq<char>,
    body: SessionCommandBody,
    busy: bool,
    host: HostView,
)
    requires
        projection.sealed,
    ensures
        projection.commanded(id, body, busy, host).0.sealed,
        body matches SessionCommandBody::Append { entry, submitted, .. } && submitted
            && entry.message@ is User ==> projection.commanded(id, body, busy, host).1 is Err,
{
}

/// A response goes out as its outputs in order, each once, and then its end.
pub proof fn response_events(
    generation_id: Seq<char>,
    input_position: u64,
    status: ResponseStatus,
    response: TurnOutputView,
)
    ensures
        ({
            let events = FinishView::of(generation_id, input_position, status, response).events();
            let n = response.output.len() as int;
            &&& events.len() == n + 1
            &&& events[n] == (
                finish_event(generation_id, input_position, status, response),
                Emission::Finish,
            )
            &&& forall|i: int|
                0 <= i < n ==> #[trigger] events[i] == (
                    output_event(generation_id, i as nat, response.output[i]),
                    Emission::Output,
                )
        }),
{
}

/// What is handed out one by one are the events of the response, in order.
pub proof fn events_are_handed_out_in_order(finish: FinishView)
    requires
        !finish.is_empty(),
    ensures
        finish.events().len() > 0,
        finish.first() == finish.events()[0],
        finish.rest().events() == finish.events().drop_first(),
{
    assert(finish.rest().events() =~= finish.events().drop_first());
}

/// A generation runs only after its start was told: while an answer waits or is going out, no
/// other event goes out before it.
pub proof fn answers_go_first(schedule: ScheduleView)
    requires
        schedule.controls.len() > 0,
    ensures
        !schedule.takes_commands(),
        schedule.sending is None ==> schedule.stepped().1 == StepView::Emit(schedule.controls[0]),
        schedule.sending is Some ==> schedule.stepped() == (schedule, StepView::Wait),
{
}

/// What a command asks for is done when it is taken: an entry stands behind the history, a
/// context takes the place of all that was, a profile is the one that holds, input is sealed,
/// a generation is under way and told to start, and a session closes.
pub proof fn taken_commands_are_carried_out(
    projection: ProjectionView,
    id: Seq<char>,
    body: SessionCommandBody,
    busy: bool,
    host: HostView,
)
    requires
        projection.commanded(id, body, busy, host).1 is Ok,
    ensures
        ({
            let (next, result) = projection.commanded(id, body, busy, host);
            let events = result->Ok_0;
            match body {
                SessionCommandBody::Append { entry, context_revision, input_position, .. } => {
                    &&& next.history.len() == projection.history.len() + 1
                    &&& next.history.drop_last() == projection.history
                    &&& next.history.last() == entry@
                    &&& next.seed == projection.seed
                    &&& next.context_revision == context_revision
                    &&& next.input_position == input_position
                    &&& events.len() == 1
                },
                SessionCommandBody::ReplaceContext { context_revision, .. } => {
                    &&& Ok::<Seq<MessageView>, ErrorView>(next.seed) == host.projected
                    &&& next.history.len() == 0
                    &&& next.context_revision == context_revision
                    &&& next.input_position == projection.input_position
                    &&& events.len() == 1
                },
                SessionCommandBody::UpdateProfile { revision, profile } => {
                    &&& next.profile == profile@
                    &&& next.profile_revision == revision
                    &&& events.len() == 1
                },
                SessionCommandBody::SealUserInput => next.sealed && events.len() == 1,
                SessionCommandBody::Generate { generation_id, input_position, .. } => {
                    &&& next.active == Some((generation_id@, input_position))
                    &&& events.len() == 2
                    &&& events[1] matches SessionEventBodyView::ResponseStarted {
                        generation_id: started,
                        input_position: position,
                    } && started == generation_id@ && position == input_position
                },
                SessionCommandBody::Close => {
                    &&& next == projection
                    &&& !busy
                    &&& events.len() == 2
                    &&& events[1] matches SessionEventBodyView::Closed(Some(closure))
                        && closure.reason == "host_request"@
                },
                _ => false,
            }
        }),
{
    let (next, _) = projection.commanded(id, body, busy, host);
    if body is Append {
        assert(next.history.drop_last() =~= projection.history);
    }
}

/// A command that follows on what was acknowledged, and that the host does not object to, is
/// taken.
pub proof fn fitting_commands_are_taken(
    projection: ProjectionView,
    id: Seq<char>,
    body: SessionCommandBody,
    busy: bool,
    host: HostView,
)
    requires
        id.len() > 0,
        host.cancelled is Ok,
        host.negotiated is Ok,
        host.admitted is Ok,
        host.projected is Ok,
        match body {
            SessionCommandBody::Append { entry, context_revision, input_position, submitted } => {
                &&& context_revision == projection.context_revision + 1
                &&& input_position >= projection.input_position
                &&& !projection.sealed || !submitted || !(entry.message@ is User)
            },
            SessionCommandBody::ReplaceContext { context_revision, .. } => !busy && context_revision
                == projection.context_revision + 1,
            SessionCommandBody::UpdateProfile { revision, .. } => revision
                == projection.profile_revision + 1,
            SessionCommandBody::SealUserInput => true,
            SessionCommandBody::Generate {
                generation_id,
                context_revision,
                input_position,
                profile_revision,
            } => !busy && generation_id@.len() > 0 && context_revision
                == projection.context_revision && input_position == projection.input_position
                && profile_revision == projection.profile_revision,
            SessionCommandBody::Close => !busy,
            _ => false,
        },
    ensures
        projection.commanded(id, body, busy, host).1 is Ok,
{
}

/// What goes out of a response is what it says: each output under the generation that it
/// answers, numbered from zero on, and at the end its counts, its model, its identity and its
/// reason. One that is complete but for the results of its calls waits for them; any other
/// ended as it was reported.
pub proof fn a_response_is_told(
    generation_id: Seq<char>,
    input_position: u64,
    status: ResponseStatus,
    response: TurnOutputView,
)
    ensures
        ({
            let events = FinishView::of(generation_id, input_position, status, response).events();
            let n = response.output.len() as int;
            &&& events.len() == n + 1
            &&& forall|i: int|
                0 <= i < n ==> ((#[trigger] events[i]).0 matches SessionEventBodyView::Output {
                    turn_id,
                    item_id,
                    caller_id,
                    output,
                } && turn_id == Some(generation_id) && item_id == generation_id + ":"@ + decimal(
                    i as nat,
                ) && caller_id == "model"@ && output == response.output[i])
            &&& events[n].0 matches SessionEventBodyView::ResponseFinished {
                input_position: position,
                status: told,
                end,
            } && {
                &&& position == input_position
                &&& end.turn_id == generation_id
                &&& end.usage == response.usage
                &&& end.model_id == response.model_id
                &&& end.response_id == response.response_id
                &&& end.finish_reason == response.finish_reason
                &&& end.provider_data == response.provider_data
                &&& told == ResponseStatus::RequiresResults <==> status
                    == ResponseStatus::RequiresResults || (status == ResponseStatus::Completed
                    && exists|i: int|
                    0 <= i < response.output.len() && (#[trigger] response.output[i])
                        is RuntimeToolCall)
                &&& told != ResponseStatus::RequiresResults ==> told == status
            }
        }),
{
}

} // verus!
