//! What a Live conversation takes and answers: no sockets, queues or clocks are in here.
use super::codec::{
    context, context_messages, initial_items, message_text, opening_items, read_event,
    server_event, text, Delegation, ServerEvent, ServerEventView, TextPart, TextPartView, Turn,
};
use super::LiveConfig;
use crate::clock::Moment;
use crate::capabilities::holds_text;
use crate::codec::minimax_tts::{has_overrides, overrides};
use crate::command::{
    acknowledge, acknowledged, SessionCommand, SessionCommandBody, SessionEventBody,
    SessionEventBodyView, TurnDisposition, TurnEnd, TurnEndView,
};
use crate::error::{checked, invalid, protocol, seen, uncertain, Error, ErrorView, Failure, FailureView};
use crate::json::{json_text, printed, Json, JsonView};
use crate::message::{Content, ContentView, Message, MessageView, Output, OutputView};
use crate::model::{ModelDelta, ModelDeltaView, ModelRequest, Usage};
use crate::native::confirmation::{Confirmation, ConfirmationView};
use crate::text::{join, join3, quote, quoted, same};
use crate::webrtc::{Action, ActionView};
use vstd::prelude::*;

verus! {

// ---------------------------------------------------------------------------------------
// Requests
// ---------------------------------------------------------------------------------------
/// Whether a conversation can begin with a request, where general negotiation says so.
pub open spec fn negotiated(request: ModelRequest, policy: Result<(), ErrorView>) -> Result<
    (),
    ErrorView,
> {
    if overrides(request.profile) {
        Err(
            ErrorView::Invalid(
                "Live configuration uses LiveConfig; generation overrides are unsupported"@,
            ),
        )
    } else {
        match opening_items(request.messages.deep_view()) {
            Err(e) => Err(e),
            Ok(_) => policy,
        }
    }
}

/// Negotiates a request; `policy` is what general negotiation says of it.
pub fn negotiate(request: &ModelRequest, policy: Result<(), Error>) -> (r: Result<(), Error>)
    ensures
        checked(r) == negotiated(*request, checked(policy)),
{
    if has_overrides(&request.profile) {
        return Err(
            invalid("Live configuration uses LiveConfig; generation overrides are unsupported"),
        );
    }
    match initial_items(request) {
        Ok(_) => policy,
        Err(e) => Err(e),
    }
}

/// Whether a session may be opened: none is resumed.
pub fn check_open(resumes: bool) -> (r: Result<(), Error>)
    ensures
        r is Ok <==> !resumes,
        r is Err ==> r->Err_0@ == ErrorView::Protocol(
            "Live adapter has no verified subscription session recovery mechanism"@,
        ),
{
    if resumes {
        return Err(
            protocol("Live adapter has no verified subscription session recovery mechanism"),
        );
    }
    Ok(())
}

// ---------------------------------------------------------------------------------------
// State
// ---------------------------------------------------------------------------------------
pub enum PhaseView {
    Idle,
    Starting,
    Active,
    /// The service closed the conversation; what it sent before is still to be taken.
    Draining { reason: Seq<char>, usage: JsonView },
    Finished,
    Closed,
}

enum Phase {
    Idle,
    Starting,
    Active,
    Draining { reason: String, usage: Json },
    Finished,
    Closed,
}

impl View for Phase {
    type V = PhaseView;

    closed spec fn view(&self) -> PhaseView {
        match self {
            Phase::Idle => PhaseView::Idle,
            Phase::Starting => PhaseView::Starting,
            Phase::Active => PhaseView::Active,
            Phase::Draining { reason, usage } => PhaseView::Draining {
                reason: reason@,
                usage: usage@,
            },
            Phase::Finished => PhaseView::Finished,
            Phase::Closed => PhaseView::Closed,
        }
    }
}

/// What the service has yet to confirm, by the command that asked for it.
pub enum PendingView {
    Start(Seq<char>),
    Audio { id: Seq<char>, enabled: bool },
    Close(Seq<char>),
}

pub enum Pending {
    Start(String),
    Audio { id: String, enabled: bool },
    Close(String),
}

impl View for Pending {
    type V = PendingView;

    open spec fn view(&self) -> PendingView {
        match self {
            Pending::Start(id) => PendingView::Start(id@),
            Pending::Audio { id, enabled } => PendingView::Audio { id: id@, enabled: *enabled },
            Pending::Close(id) => PendingView::Close(id@),
        }
    }
}

impl PendingView {
    /// How a pending confirmation is written in an error.
    pub open spec fn shown(self) -> Seq<char> {
        match self {
            PendingView::Start(id) => "Start("@ + quoted(id) + ")"@,
            PendingView::Audio { id, enabled } => "Audio { id: "@ + quoted(id) + (if enabled {
                ", enabled: true }"@
            } else {
                ", enabled: false }"@
            }),
            PendingView::Close(id) => "Close("@ + quoted(id) + ")"@,
        }
    }

    /// The event that confirms it.
    pub open spec fn confirmed_by(self) -> Seq<char> {
        match self {
            PendingView::Start(_) => "session.started"@,
            PendingView::Audio { enabled, .. } => if enabled {
                "input_audio.resumed"@
            } else {
                "input_audio.paused"@
            },
            PendingView::Close(_) => "session.closed"@,
        }
    }
}

impl Pending {
    fn show(&self) -> (r: String)
        ensures
            r@ == self@.shown(),
    {
        match self {
            Pending::Start(id) => {
                let text = quote(id.as_str());
                join3("Start(", text.as_str(), ")")
            },
            Pending::Audio { id, enabled } => {
                let text = quote(id.as_str());
                join3(
                    "Audio { id: ",
                    text.as_str(),
                    if *enabled {
                        ", enabled: true }"
                    } else {
                        ", enabled: false }"
                    },
                )
            },
            Pending::Close(id) => {
                let text = quote(id.as_str());
                join3("Close(", text.as_str(), ")")
            },
        }
    }

    fn event(&self) -> (r: &'static str)
        ensures
            r@ == self@.confirmed_by(),
    {
        match self {
            Pending::Start(_) => "session.started",
            Pending::Audio { enabled, .. } => if *enabled {
                "input_audio.resumed"
            } else {
                "input_audio.paused"
            },
            Pending::Close(_) => "session.closed",
        }
    }
}

pub struct ProtocolView {
    pub config: LiveConfig,
    pub phase: PhaseView,
    pub turn: Option<Seq<char>>,
    pub confirmation: ConfirmationView<PendingView>,
    /// The command that ended the input.
    pub end_id: Option<Seq<char>>,
    /// The command that closed the conversation.
    pub close_id: Option<Seq<char>>,
    pub remote_session: JsonView,
    /// The delegations under way.
    pub delegations: Seq<Seq<char>>,
    pub max_delegations: nat,
}

pub open spec fn ack(id: Seq<char>) -> ActionView {
    ActionView::Event(acknowledged(id, None))
}

/// What is pending is begun at a time.
pub open spec fn awaiting(
    confirmation: ConfirmationView<PendingView>,
    pending: PendingView,
    now: Moment,
    timeout: u128,
) -> Result<ConfirmationView<PendingView>, ErrorView> {
    confirmation.begun(pending, pending.shown(), pending.confirmed_by(), now, timeout)
}

/// Context is sent fragment by fragment.
pub open spec fn appended(
    kind: Seq<char>,
    id: Seq<char>,
    text: Seq<char>,
    delegation: Option<Seq<char>>,
    channel: Seq<char>,
) -> Seq<ActionView> {
    let messages = context_messages(kind, id, text, delegation, channel);
    Seq::new(messages.len(), |i: int| ActionView::Send(printed(messages[i])))
}

pub open spec fn without(ids: Seq<Seq<char>>, id: Seq<char>) -> Seq<Seq<char>> {
    ids.filter(|other: Seq<char>| other != id)
}

/// What the conversation is opened with.
pub open spec fn session_payload(config: LiveConfig, items: Seq<JsonView>) -> JsonView {
    let output = JsonView::empty().set("voice"@, JsonView::text(config.voice@));
    let audio = JsonView::empty().set("output"@, output);
    let delegation = JsonView::empty().set("type"@, JsonView::text("client"@)).set(
        "ack_filler"@,
        JsonView::Bool(false),
    );
    JsonView::empty().set("model"@, JsonView::text(config.model@)).set(
        "instructions"@,
        JsonView::text(config.instructions@),
    ).set("audio"@, audio).set("delegation"@, delegation).set(
        "initial_items"@,
        JsonView::Array(items),
    )
}

pub open spec fn close_message() -> JsonView {
    JsonView::empty().set("type"@, JsonView::text("session.close"@))
}

pub open spec fn audio_message(enabled: bool, id: Seq<char>) -> JsonView {
    JsonView::empty().set(
        "type"@,
        JsonView::text(
            if enabled {
                "input_audio.resume"@
            } else {
                "input_audio.pause"@
            },
        ),
    ).set("event_id"@, JsonView::text(id))
}

/// What the host finds out before a command is taken: what general negotiation says of a
/// request, and the text of a delegation's content or outcome.
pub struct HostView {
    pub policy: Result<(), ErrorView>,
    pub rendered: Result<Seq<char>, ErrorView>,
}

pub struct Host {
    pub policy: Result<(), Error>,
    pub rendered: Result<String, Error>,
}

impl View for Host {
    type V = HostView;

    open spec fn view(&self) -> HostView {
        HostView { policy: checked(self.policy), rendered: seen(self.rendered) }
    }
}

pub open spec fn order_error() -> ErrorView {
    ErrorView::Invalid("unsupported Live command or command order"@)
}

impl ProtocolView {
    pub open spec fn fresh(config: LiveConfig, max_delegations: nat) -> ProtocolView {
        ProtocolView {
            config,
            phase: PhaseView::Idle,
            turn: None,
            confirmation: ConfirmationView::idle(),
            end_id: None,
            close_id: None,
            remote_session: JsonView::Null,
            delegations: Seq::empty(),
            max_delegations,
        }
    }

    pub open spec fn commands_allowed(self) -> bool {
        (self.phase is Idle || self.phase is Active || self.phase is Finished)
            && self.confirmation.pending is None
    }

    pub open spec fn input_allowed(self) -> bool {
        self.phase is Active && self.end_id is None && self.close_id is None
    }

    pub open spec fn finished(self) -> bool {
        self.phase is Finished || self.phase is Closed
    }

    /// The command that asked for the end: the one to close, or else the one that ended the
    /// input.
    pub open spec fn closing_id(self) -> Option<Seq<char>> {
        if self.close_id is Some {
            self.close_id
        } else {
            self.end_id
        }
    }

    /// The service is asked to close, which it must confirm.
    pub open spec fn closed_remotely(self, now: Moment) -> Result<
        (ProtocolView, ActionView),
        ErrorView,
    > {
        match self.closing_id() {
            None => Err(ErrorView::Protocol("Live close has no command identity"@)),
            Some(id) => match awaiting(
                self.confirmation,
                PendingView::Close(id),
                now,
                self.config.command_timeout,
            ) {
                Err(e) => Err(e),
                Ok(confirmation) => Ok(
                    (
                        ProtocolView { confirmation, ..self },
                        ActionView::Send(printed(close_message())),
                    ),
                ),
            },
        }
    }

    /// What a command leads to.
    pub open spec fn commanded(
        self,
        id: Seq<char>,
        body: SessionCommandBody,
        host: HostView,
        now: Moment,
    ) -> (ProtocolView, Result<Seq<ActionView>, ErrorView>) {
        if id.len() == 0 || !self.commands_allowed() {
            (self, Err(ErrorView::Invalid("invalid Live command identity or order"@)))
        } else {
            match body {
                SessionCommandBody::StartTurn { turn_id, request } => self.started(
                    id,
                    turn_id@,
                    request,
                    host.policy,
                    now,
                ),
                SessionCommandBody::Input(message) => if !self.input_allowed() {
                    (self, Err(order_error()))
                } else {
                    match message_text(message@) {
                        Err(e) => (self, Err(e)),
                        Ok(text) => (
                            self,
                            Ok(
                                appended(
                                    "session.context.append"@,
                                    id,
                                    text,
                                    None,
                                    "commentary"@,
                                ).push(ack(id)),
                            ),
                        ),
                    }
                },
                SessionCommandBody::DelegationContext { call_id, .. } => if !(
                self.phase is Active) {
                    (self, Err(order_error()))
                } else if !self.delegations.contains(call_id@) {
                    (self, Err(ErrorView::Protocol("unknown or completed Live delegation"@)))
                } else {
                    match host.rendered {
                        Err(e) => (self, Err(e)),
                        Ok(text) => (
                            self,
                            Ok(
                                appended(
                                    "delegation.context.append"@,
                                    id,
                                    text,
                                    Some(call_id@),
                                    "commentary"@,
                                ).push(ack(id)),
                            ),
                        ),
                    }
                },
                SessionCommandBody::DelegationResult { call_id, .. } => self.delegated(
                    id,
                    call_id@,
                    host.rendered,
                    now,
                ),
                SessionCommandBody::SetInputAudio(enabled) => if !self.input_allowed() {
                    (self, Err(order_error()))
                } else {
                    match awaiting(
                        self.confirmation,
                        PendingView::Audio { id, enabled },
                        now,
                        self.config.command_timeout,
                    ) {
                        Err(e) => (self, Err(e)),
                        Ok(confirmation) => (
                            ProtocolView { confirmation, ..self },
                            Ok(seq![ActionView::Send(printed(audio_message(enabled, id)))]),
                        ),
                    }
                },
                SessionCommandBody::EndInput => if !self.input_allowed() {
                    (self, Err(order_error()))
                } else {
                    let ended = ProtocolView { end_id: Some(id), ..self };
                    if self.delegations.len() > 0 {
                        (ended, Ok(seq![ActionView::DrainInput]))
                    } else {
                        match ended.closed_remotely(now) {
                            Err(e) => (ended, Err(e)),
                            Ok((next, close)) => (next, Ok(seq![ActionView::DrainInput, close])),
                        }
                    }
                },
                SessionCommandBody::Close => if self.phase is Finished {
                    (ProtocolView { phase: PhaseView::Closed, ..self }, Ok(seq![ack(id)]))
                } else if self.phase is Active {
                    let closing = ProtocolView { close_id: Some(id), ..self };
                    match closing.closed_remotely(now) {
                        Err(e) => (closing, Err(e)),
                        Ok((next, close)) => (next, Ok(seq![close])),
                    }
                } else {
                    (self, Err(order_error()))
                },
                _ => (self, Err(order_error())),
            }
        }
    }

    /// A turn is started: a peer is to be connected by a deadline.
    pub open spec fn started(
        self,
        id: Seq<char>,
        turn_id: Seq<char>,
        request: ModelRequest,
        policy: Result<(), ErrorView>,
        now: Moment,
    ) -> (ProtocolView, Result<Seq<ActionView>, ErrorView>) {
        if !(self.phase is Idle) {
            (self, Err(order_error()))
        } else if turn_id.len() == 0 {
            (self, Err(ErrorView::Invalid("empty Live turn identity"@)))
        } else {
            match negotiated(request, policy) {
                Err(e) => (self, Err(e)),
                Ok(_) => match opening_items(request.messages.deep_view()) {
                    Err(e) => (self, Err(e)),
                    Ok(items) => match awaiting(
                        self.confirmation,
                        PendingView::Start(id),
                        now,
                        self.config.connect_timeout,
                    ) {
                        Err(e) => (self, Err(e)),
                        Ok(confirmation) => (
                            ProtocolView {
                                confirmation,
                                turn: Some(turn_id),
                                phase: PhaseView::Starting,
                                ..self
                            },
                            Ok(
                                seq![
                                    ActionView::Connect {
                                        payload: session_payload(self.config, items),
                                        deadline: now.after(self.config.connect_timeout)->0,
                                        timeout: ErrorView::Uncertain(
                                            "Live session startup timed out"@,
                                        ),
                                    },
                                ],
                            ),
                        ),
                    },
                },
            }
        }
    }

    /// A delegation's result is told. Where the input has ended and no other delegation is
    /// left, the service is asked to close.
    pub open spec fn delegated(
        self,
        id: Seq<char>,
        call_id: Seq<char>,
        rendered: Result<Seq<char>, ErrorView>,
        now: Moment,
    ) -> (ProtocolView, Result<Seq<ActionView>, ErrorView>) {
        if !(self.phase is Active) {
            (self, Err(order_error()))
        } else if !self.delegations.contains(call_id) {
            (self, Err(ErrorView::Protocol("unknown or completed Live delegation"@)))
        } else {
            match rendered {
                Err(e) => (self, Err(e)),
                Ok(text) => {
                    let next = ProtocolView {
                        delegations: without(self.delegations, call_id),
                        ..self
                    };
                    let actions = appended(
                        "delegation.context.append"@,
                        id,
                        text,
                        Some(call_id),
                        "speakable"@,
                    ).push(ack(id));
                    if next.end_id is Some && next.delegations.len() == 0 {
                        match next.closed_remotely(now) {
                            Err(e) => (next, Err(e)),
                            Ok((last, close)) => (last, Ok(actions.push(close))),
                        }
                    } else {
                        (next, Ok(actions))
                    }
                },
            }
        }
    }
}

/// A Live conversation.
pub struct Protocol {
    config: LiveConfig,
    phase: Phase,
    turn: Option<String>,
    confirmation: Confirmation<Pending>,
    end_id: Option<String>,
    close_id: Option<String>,
    remote_session: Json,
    delegations: Vec<String>,
    max_delegations: usize,
}

impl View for Protocol {
    type V = ProtocolView;

    closed spec fn view(&self) -> ProtocolView {
        ProtocolView {
            config: self.config,
            phase: self.phase@,
            turn: self.turn.deep_view(),
            confirmation: self.confirmation@,
            end_id: self.end_id.deep_view(),
            close_id: self.close_id.deep_view(),
            remote_session: self.remote_session@,
            delegations: self.delegations.deep_view(),
            max_delegations: self.max_delegations as nat,
        }
    }
}

fn append(kind: &str, id: &str, text: &str, delegation: Option<&str>, channel: &str) -> (r: Vec<
    Action,
>)
    ensures
        r.deep_view() == appended(kind@, id@, text@, delegation.deep_view(), channel@),
{
    let messages = context(kind, id, text, delegation, channel);
    let ghost all = messages.deep_view();
    let mut actions: Vec<Action> = Vec::new();
    let mut i: usize = 0;
    while i < messages.len()
        invariant
            i <= messages.len(),
            all == messages.deep_view(),
            actions.deep_view().len() == i,
            forall|j: int|
                0 <= j < i ==> #[trigger] actions.deep_view()[j] == ActionView::Send(
                    printed(all[j]),
                ),
        decreases messages.len() - i,
    {
        assert(all[i as int] == messages@[i as int]@);
        let ghost before = actions.deep_view();
        actions.push(Action::Send(messages[i].print()));
        assert(actions.deep_view() =~= before.push(ActionView::Send(printed(all[i as int]))));
        i += 1;
    }
    assert(actions.deep_view() =~= appended(kind@, id@, text@, delegation.deep_view(), channel@));
    actions
}

fn make_payload(config: &LiveConfig, items: Vec<Json>) -> (r: Json)
    ensures
        r@ == session_payload(*config, items.deep_view()),
{
    let output = Json::empty().with_text("voice", config.voice.as_str());
    let audio = Json::empty().with("output", output);
    let delegation = Json::empty().with_text("type", "client").with(
        "ack_filler",
        Json::Bool(false),
    );
    Json::empty().with_text("model", config.model.as_str()).with_text(
        "instructions",
        config.instructions.as_str(),
    ).with("audio", audio).with("delegation", delegation).with("initial_items", Json::array(items))
}

fn make_ack(id: String) -> (r: Action)
    ensures
        r@ == ack(id@),
{
    Action::Event(acknowledge(id, None))
}

/// Removes an identity from a list.
fn remove(ids: &Vec<String>, id: &str) -> (r: Vec<String>)
    ensures
        r.deep_view() == without(ids.deep_view(), id@),
{
    let ghost all = ids.deep_view();
    let ghost pred = |other: Seq<char>| other != id@;
    let mut kept: Vec<String> = Vec::new();
    let mut i: usize = 0;
    proof {
        reveal(Seq::filter);
        assert(all.take(0) =~= Seq::empty());
        assert(kept.deep_view() =~= Seq::empty());
    }
    while i < ids.len()
        invariant
            i <= ids.len(),
            all == ids.deep_view(),
            pred == (|other: Seq<char>| other != id@),
            kept.deep_view() == all.take(i as int).filter(pred),
        decreases ids.len() - i,
    {
        proof {
            reveal(Seq::filter);
            assert(all.take(i + 1).drop_last() =~= all.take(i as int));
            assert(all[i as int] == ids@[i as int]@);
        }
        if !same(ids[i].as_str(), id) {
            let ghost before = kept.deep_view();
            kept.push(ids[i].clone());
            assert(kept.deep_view() =~= before.push(all[i as int]));
        }
        i += 1;
    }
    assert(all.take(all.len() as int) =~= all);
    kept
}

impl Protocol {
    pub fn new(config: LiveConfig, max_delegations: usize) -> (r: Protocol)
        ensures
            r@ == ProtocolView::fresh(config, max_delegations as nat),
    {
        let delegations: Vec<String> = Vec::new();
        assert(delegations.deep_view() =~= Seq::empty());
        Protocol {
            config,
            phase: Phase::Idle,
            turn: None,
            confirmation: Confirmation::new(),
            end_id: None,
            close_id: None,
            remote_session: Json::Null,
            delegations,
            max_delegations,
        }
    }

    pub fn turn(&self) -> (r: Result<&str, Error>)
        ensures
            match self@.turn {
                Some(turn) => r is Ok && r->Ok_0@ == turn,
                None => r is Err && r->Err_0@ == ErrorView::Protocol("Live execution not started"@),
            },
    {
        match &self.turn {
            Some(turn) => Ok(turn.as_str()),
            None => Err(protocol("Live execution not started")),
        }
    }

    pub fn deadline(&self) -> (r: Option<u128>)
        ensures
            match r {
                Some(deadline) => self@.confirmation.pending is Some && deadline
                    == self@.confirmation.pending->0.deadline,
                None => self@.confirmation.pending is None,
            },
    {
        self.confirmation.deadline()
    }

    pub fn check_deadline(&self, now: Moment) -> (r: Result<(), Error>)
        ensures
            checked(r) == self@.confirmation.checked(now),
    {
        self.confirmation.check(now)
    }

    pub fn commands_allowed(&self) -> (r: bool)
        ensures
            r == self@.commands_allowed(),
    {
        let phase = match &self.phase {
            Phase::Idle => true,
            Phase::Active => true,
            Phase::Finished => true,
            _ => false,
        };
        phase && self.confirmation.pending().is_none()
    }

    pub fn input_allowed(&self) -> (r: bool)
        ensures
            r == self@.input_allowed(),
    {
        matches!(self.phase, Phase::Active) && self.end_id.is_none() && self.close_id.is_none()
    }

    pub fn draining(&self) -> (r: bool)
        ensures
            r == (self@.phase is Draining),
    {
        matches!(self.phase, Phase::Draining { .. })
    }

    pub fn finished(&self) -> (r: bool)
        ensures
            r == self@.finished(),
    {
        matches!(self.phase, Phase::Finished) || matches!(self.phase, Phase::Closed)
    }

    pub fn closed(&self) -> (r: bool)
        ensures
            r == (self@.phase is Closed),
    {
        matches!(self.phase, Phase::Closed)
    }

    fn wait_for(&mut self, pending: Pending, now: Moment, timeout: u128) -> (r: Result<(), Error>)
        ensures
            match awaiting(old(self)@.confirmation, pending@, now, timeout) {
                Ok(confirmation) => r is Ok && final(self)@ == (ProtocolView {
                    confirmation,
                    ..old(self)@
                }),
                Err(e) => r is Err && r->Err_0@ == e && final(self)@ == old(self)@,
            },
    {
        let shown = pending.show();
        let event = pending.event();
        self.confirmation.begin(pending, shown, event, now, timeout)
    }

    fn close_remote(&mut self, now: Moment) -> (r: Result<Action, Error>)
        ensures
            match old(self)@.closed_remotely(now) {
                Ok((next, action)) => r is Ok && r->Ok_0@ == action && final(self)@ == next,
                Err(e) => r is Err && r->Err_0@ == e && final(self)@ == old(self)@,
            },
    {
        let id = match &self.close_id {
            Some(id) => id.clone(),
            None => match &self.end_id {
                Some(id) => id.clone(),
                None => return Err(protocol("Live close has no command identity")),
            },
        };
        let timeout = self.config.command_timeout;
        self.wait_for(Pending::Close(id), now, timeout)?;
        let message = Json::empty().with_text("type", "session.close");
        Ok(Action::Send(message.print()))
    }

    fn start(
        &mut self,
        id: String,
        turn_id: String,
        request: ModelRequest,
        policy: Result<(), Error>,
        now: Moment,
    ) -> (r: Result<Vec<Action>, Error>)
        ensures
            (final(self)@, seen(r)) == old(self)@.started(
                id@,
                turn_id@,
                request,
                checked(policy),
                now,
            ),
    {
        if !matches!(self.phase, Phase::Idle) {
            return Err(invalid("unsupported Live command or command order"));
        }
        if turn_id.as_str().unicode_len() == 0 {
            return Err(invalid("empty Live turn identity"));
        }
        negotiate(&request, policy)?;
        let items = initial_items(&request)?;
        let payload = make_payload(&self.config, items);
        let timeout = self.config.connect_timeout;
        self.wait_for(Pending::Start(id), now, timeout)?;
        self.turn = Some(turn_id);
        self.phase = Phase::Starting;
        let mut actions: Vec<Action> = Vec::new();
        let connect = Action::Connect {
            payload,
            deadline: now.at + timeout,
            timeout: uncertain("Live session startup timed out"),
        };
        let ghost first = connect@;
        actions.push(connect);
        assert(actions.deep_view() =~= seq![first]);
        Ok(actions)
    }

    fn delegate(
        &mut self,
        id: String,
        call_id: String,
        rendered: Result<String, Error>,
        now: Moment,
    ) -> (r: Result<Vec<Action>, Error>)
        ensures
            (final(self)@, seen(r)) == old(self)@.delegated(id@, call_id@, seen(rendered), now),
    {
        if !matches!(self.phase, Phase::Active) {
            return Err(invalid("unsupported Live command or command order"));
        }
        if !holds_text(&self.delegations, call_id.as_str()) {
            return Err(protocol("unknown or completed Live delegation"));
        }
        let text = rendered?;
        let mut actions = append(
            "delegation.context.append",
            id.as_str(),
            text.as_str(),
            Some(call_id.as_str()),
            "speakable",
        );
        self.delegations = remove(&self.delegations, call_id.as_str());
        let ghost sent = actions.deep_view();
        let ghost told = id@;
        actions.push(make_ack(id));
        assert(actions.deep_view() =~= sent.push(ack(told)));
        if self.end_id.is_some() && self.delegations.len() == 0 {
            let close = self.close_remote(now)?;
            let ghost before = actions.deep_view();
            let ghost last = close@;
            actions.push(close);
            assert(actions.deep_view() =~= before.push(last));
        }
        Ok(actions)
    }

    /// Takes a command; `now` is the time on the clock that the timeouts count on.
    pub fn command(&mut self, command: SessionCommand, host: Host, now: Moment) -> (r: Result<
        Vec<Action>,
        Error,
    >)
        ensures
            (final(self)@, seen(r)) == old(self)@.commanded(
                command.id@,
                command.body,
                host@,
                now,
            ),
    {
        if command.id.as_str().unicode_len() == 0 || !self.commands_allowed() {
            return Err(invalid("invalid Live command identity or order"));
        }
        let ghost id = command.id@;
        let mut actions: Vec<Action> = Vec::new();
        match command.body {
            SessionCommandBody::StartTurn { turn_id, request } => {
                return self.start(command.id, turn_id, request, host.policy, now);
            },
            SessionCommandBody::Input(message) => {
                if !self.input_allowed() {
                    return Err(invalid("unsupported Live command or command order"));
                }
                let text = text(&message)?;
                // The service echoes no command: that every fragment was handed over is all
                // there is to tell.
                actions = append(
                    "session.context.append",
                    command.id.as_str(),
                    text.as_str(),
                    None,
                    "commentary",
                );
                let ghost sent = actions.deep_view();
                actions.push(make_ack(command.id));
                assert(actions.deep_view() =~= sent.push(ack(id)));
            },
            SessionCommandBody::DelegationContext { call_id, content: _ } => {
                if !matches!(self.phase, Phase::Active) {
                    return Err(invalid("unsupported Live command or command order"));
                }
                if !holds_text(&self.delegations, call_id.as_str()) {
                    return Err(protocol("unknown or completed Live delegation"));
                }
                let text = host.rendered?;
                actions = append(
                    "delegation.context.append",
                    command.id.as_str(),
                    text.as_str(),
                    Some(call_id.as_str()),
                    "commentary",
                );
                let ghost sent = actions.deep_view();
                actions.push(make_ack(command.id));
                assert(actions.deep_view() =~= sent.push(ack(id)));
            },
            SessionCommandBody::DelegationResult { call_id, outcome: _ } => {
                return self.delegate(command.id, call_id, host.rendered, now);
            },
            SessionCommandBody::SetInputAudio(enabled) => {
                if !self.input_allowed() {
                    return Err(invalid("unsupported Live command or command order"));
                }
                let message = Json::empty().with_text(
                    "type",
                    if enabled {
                        "input_audio.resume"
                    } else {
                        "input_audio.pause"
                    },
                ).with_text("event_id", command.id.as_str());
                let timeout = self.config.command_timeout;
                self.wait_for(Pending::Audio { id: command.id, enabled }, now, timeout)?;
                actions.push(Action::Send(message.print()));
                assert(actions.deep_view() =~= seq![
                    ActionView::Send(printed(audio_message(enabled, id))),
                ]);
            },
            SessionCommandBody::EndInput => {
                if !self.input_allowed() {
                    return Err(invalid("unsupported Live command or command order"));
                }
                self.end_id = Some(command.id);
                actions.push(Action::DrainInput);
                assert(actions.deep_view() =~= seq![ActionView::DrainInput]);
                if self.delegations.len() == 0 {
                    let close = self.close_remote(now)?;
                    let ghost last = close@;
                    actions.push(close);
                    assert(actions.deep_view() =~= seq![ActionView::DrainInput, last]);
                }
            },
            SessionCommandBody::Close => {
                if matches!(self.phase, Phase::Finished) {
                    self.phase = Phase::Closed;
                    actions.push(make_ack(command.id));
                    assert(actions.deep_view() =~= seq![ack(id)]);
                } else if matches!(self.phase, Phase::Active) {
                    self.close_id = Some(command.id);
                    let close = self.close_remote(now)?;
                    let ghost last = close@;
                    actions.push(close);
                    assert(actions.deep_view() =~= seq![last]);
                } else {
                    return Err(invalid("unsupported Live command or command order"));
                }
            },
            _ => return Err(invalid("unsupported Live command or command order")),
        }
        Ok(actions)
    }
}

// ---------------------------------------------------------------------------------------
// Events
// ---------------------------------------------------------------------------------------
pub open spec fn observed(turn: Option<Seq<char>>, value: JsonView) -> ActionView {
    ActionView::Event(
        SessionEventBodyView::Delta {
            turn_id: Some(
                match turn {
                    Some(turn) => turn,
                    None => Seq::empty(),
                },
            ),
            delta: ModelDeltaView::ProtocolEvent { output_index: 0, data: value },
        },
    )
}

pub open spec fn joined_parts(parts: Seq<TextPartView>) -> Seq<char>
    decreases parts.len(),
{
    if parts.len() == 0 {
        Seq::empty()
    } else {
        joined_parts(parts.drop_last()) + parts.last().text
    }
}

/// Whether a delegation is one that the host can take.
pub open spec fn client_delegation(
    kind: Seq<char>,
    id: Seq<char>,
    target: Seq<char>,
    content: Seq<TextPartView>,
) -> bool {
    id.len() > 0 && kind == "delegation"@ && target == "client"@ && forall|i: int|
        0 <= i < content.len() ==> (#[trigger] content[i]).kind == "input_text"@
}

/// What was said, as a message of the conversation.
pub open spec fn spoken(role: Seq<char>, transcript: Seq<char>) -> Option<MessageView> {
    if role == "user"@ {
        Some(MessageView::User(seq![ContentView::Text(transcript)]))
    } else if role == "assistant"@ {
        Some(
            MessageView::Assistant {
                output: seq![OutputView::text(transcript)],
                provider_data: JsonView::Null,
            },
        )
    } else {
        None
    }
}

impl ProtocolView {
    pub open spec fn takes_output(self) -> bool {
        self.phase is Active || self.phase is Draining
    }

    pub open spec fn confirmed(self) -> ProtocolView {
        ProtocolView { confirmation: ConfirmationView::idle(), ..self }
    }

    /// The conversation started.
    pub open spec fn on_started(self, session: JsonView, now: Moment) -> (
        ProtocolView,
        Result<Seq<ActionView>, ErrorView>,
    ) {
        if !(self.phase is Starting) {
            (self, Err(ErrorView::Protocol("unexpected or duplicate Live start"@)))
        } else if session.str_or_empty("id"@).len() == 0 {
            (self, Err(ErrorView::Protocol("Live start lacks a remote session identity"@)))
        } else {
            match self.confirmation.completed(now) {
                Err(e) => (self, Err(e)),
                Ok(PendingView::Start(id)) => (
                    ProtocolView {
                        remote_session: session,
                        phase: PhaseView::Active,
                        ..self.confirmed()
                    },
                    Ok(seq![ack(id)]),
                ),
                Ok(_) => (
                    self.confirmed(),
                    Err(ErrorView::Protocol("unexpected Live start confirmation"@)),
                ),
            }
        }
    }

    /// The audio input was switched.
    pub open spec fn on_audio(self, enabled: bool, now: Moment) -> (
        ProtocolView,
        Result<Seq<ActionView>, ErrorView>,
    ) {
        let expected = self.confirmation.pending matches Some(p) && p.value
            matches PendingView::Audio { enabled: wanted, .. } && wanted == enabled;
        if !expected {
            (self, Err(ErrorView::Protocol("Live audio input acknowledgement mismatch"@)))
        } else {
            match self.confirmation.completed(now) {
                Err(e) => (self, Err(e)),
                Ok(pending) => (self.confirmed(), Ok(seq![ack(pending->id)])),
            }
        }
    }

    /// Someone spoke.
    pub open spec fn on_turn(self, id: Seq<char>, role: Seq<char>, transcript: Seq<char>) -> Result<
        Seq<ActionView>,
        ErrorView,
    > {
        if !self.takes_output() {
            Err(ErrorView::Protocol("Live output outside an active session"@))
        } else if id.len() == 0 {
            Err(ErrorView::Protocol("empty Live conversation identity"@))
        } else {
            match spoken(role, transcript) {
                None => Err(ErrorView::Protocol("invalid Live speaker"@)),
                Some(message) => Ok(
                    seq![
                        ActionView::Event(
                            SessionEventBodyView::ConversationItem { item_id: id, message },
                        ),
                    ],
                ),
            }
        }
    }

    /// The model asks the host to do something.
    pub open spec fn on_delegation(
        self,
        kind: Seq<char>,
        id: Seq<char>,
        target: Seq<char>,
        content: Seq<TextPartView>,
    ) -> (ProtocolView, Result<Seq<ActionView>, ErrorView>) {
        if !self.takes_output() {
            (self, Err(ErrorView::Protocol("Live output outside an active session"@)))
        } else if !client_delegation(kind, id, target, content) {
            (self, Err(ErrorView::Protocol("unsupported Live delegation"@)))
        } else if !self.delegations.contains(id) && self.delegations.len()
            >= self.max_delegations {
            (self, Err(ErrorView::Protocol("Live delegation capacity exceeded"@)))
        } else if self.phase is Draining && self.close_id is None {
            (self, Err(ErrorView::Uncertain("Live closed with an unfinished delegation"@)))
        } else {
            let next = ProtocolView {
                delegations: crate::capabilities::with_value(self.delegations, id),
                ..self
            };
            match self.turn {
                None => (next, Err(ErrorView::Protocol("Live execution not started"@))),
                Some(turn) => (
                    next,
                    Ok(
                        seq![
                            ActionView::Event(
                                SessionEventBodyView::Output {
                                    turn_id: Some(turn),
                                    item_id: id,
                                    caller_id: "live"@,
                                    output: OutputView::Delegation {
                                        id,
                                        prompt: joined_parts(content),
                                    },
                                },
                            ),
                        ],
                    ),
                ),
            }
        }
    }

    /// The service closed the conversation: as it was asked to, or in passing. What it owed is
    /// then uncertain.
    pub open spec fn on_closed(self, reason: Seq<char>, usage: JsonView, now: Moment) -> (
        ProtocolView,
        Result<Seq<ActionView>, ErrorView>,
    ) {
        let closing = self.confirmation.pending matches Some(p) && p.value is Close;
        if self.finished() || self.phase is Draining {
            (self, Err(ErrorView::Protocol("duplicate Live closure"@)))
        } else if reason == "connection_lost"@ || (self.delegations.len() > 0 && self.close_id
            is None) || (closing && reason != "client_request"@) {
            (
                self,
                Err(
                    ErrorView::Uncertain(
                        "Live closed without confirming requested completion: "@ + reason,
                    ),
                ),
            )
        } else if closing && self.closing_id() == Some(self.confirmation.pending->0.value->Close_0) {
            match self.confirmation.completed(now) {
                Err(e) => (self, Err(e)),
                Ok(_) => (
                    ProtocolView {
                        phase: PhaseView::Draining { reason, usage },
                        ..self.confirmed()
                    },
                    Ok(seq![ActionView::Disconnect]),
                ),
            }
        } else if self.confirmation.pending is None && self.phase is Active {
            (
                ProtocolView { phase: PhaseView::Draining { reason, usage }, ..self },
                Ok(seq![ActionView::Disconnect]),
            )
        } else {
            (self, Err(ErrorView::Uncertain("Live closed before pending command confirmation"@)))
        }
    }

    /// What an event leads to; `value` is the event as it came in.
    pub open spec fn received(self, event: ServerEventView, value: JsonView, now: Moment) -> (
        ProtocolView,
        Result<Seq<ActionView>, ErrorView>,
    ) {
        match event {
            ServerEventView::Started { session } => self.on_started(session, now),
            ServerEventView::AudioPaused => self.on_audio(false, now),
            ServerEventView::AudioResumed => self.on_audio(true, now),
            ServerEventView::Turn { id, role, transcript } => (
                self,
                self.on_turn(id, role, transcript),
            ),
            ServerEventView::Delegation { kind, id, target, content } => self.on_delegation(
                kind,
                id,
                target,
                content,
            ),
            ServerEventView::Closed { reason, usage } => self.on_closed(reason, usage, now),
            ServerEventView::Error { code, message } => (
                self,
                Ok(
                    seq![
                        observed(self.turn, value),
                        ActionView::Fail(
                            ErrorView::Model(FailureView { code, message, retryable: false }),
                        ),
                    ],
                ),
            ),
            ServerEventView::Observation => (self, Ok(seq![observed(self.turn, value)])),
        }
    }

    /// What a text of the control channel leads to.
    pub open spec fn read(self, text: Seq<char>, now: Moment) -> (
        ProtocolView,
        Result<Seq<ActionView>, ErrorView>,
    ) {
        if self.confirmation.checked(now) is Err {
            (self, Err(self.confirmation.checked(now)->Err_0))
        } else {
            match json_text(text) {
                Err(_) => (self, Err(ErrorView::Protocol("invalid Live event JSON"@))),
                Ok(value) => match read_event(value) {
                    None => (self, Err(ErrorView::Protocol("invalid Live event fields"@))),
                    Some(event) => self.received(event, value, now),
                },
            }
        }
    }

    pub open spec fn end_acks(self) -> Seq<ActionView> {
        match self.end_id {
            Some(id) => seq![ack(id)],
            None => Seq::empty(),
        }
    }

    pub open spec fn close_acks(self) -> Seq<ActionView> {
        match self.close_id {
            Some(id) => seq![ack(id)],
            None => Seq::empty(),
        }
    }

    /// Everything that the service sent was taken: the commands that asked for the end are
    /// acknowledged, and the turn is over.
    pub open spec fn finalized(self) -> (ProtocolView, Result<Seq<ActionView>, ErrorView>) {
        let next = ProtocolView {
            phase: if self.close_id is Some {
                PhaseView::Closed
            } else {
                PhaseView::Finished
            },
            ..self
        };
        match self.phase {
            PhaseView::Draining { reason, usage } => {
                let last = ProtocolView { end_id: None, close_id: None, ..next };
                match self.turn {
                    None => (last, Err(ErrorView::Protocol("Live execution not started"@))),
                    Some(turn) => (
                        last,
                        Ok(
                            self.end_acks() + self.close_acks() + seq![
                                ActionView::Event(
                                    SessionEventBodyView::TurnFinished {
                                        disposition: TurnDisposition::Finished,
                                        end: TurnEndView {
                                            turn_id: turn,
                                            usage: Usage::unknown(),
                                            model_id: Some(self.config.model@),
                                            response_id: self.remote_session.get_str("id"@),
                                            finish_reason: Some(reason),
                                            provider_data: JsonView::empty().set(
                                                "session"@,
                                                self.remote_session,
                                            ).set("session_usage"@, usage).set(
                                                "close_reason"@,
                                                JsonView::text(reason),
                                            ),
                                            effective: None,
                                        },
                                    },
                                ),
                                ActionView::Event(SessionEventBodyView::Closed(None)),
                            ],
                        ),
                    ),
                }
            },
            _ => (next, Err(ErrorView::Protocol("Live finalized before remote closure"@))),
        }
    }
}

fn one(action: Action) -> (r: Vec<Action>)
    ensures
        r.deep_view() == seq![action@],
{
    let ghost first = action@;
    let mut actions: Vec<Action> = Vec::new();
    actions.push(action);
    assert(actions.deep_view() =~= seq![first]);
    actions
}

fn join_parts(parts: &Vec<TextPart>) -> (r: String)
    ensures
        r@ == joined_parts(parts.deep_view()),
{
    let ghost all = parts.deep_view();
    let mut text = String::new();
    let mut i: usize = 0;
    assert(all.take(0) =~= Seq::empty());
    while i < parts.len()
        invariant
            i <= parts.len(),
            all == parts.deep_view(),
            text@ == joined_parts(all.take(i as int)),
        decreases parts.len() - i,
    {
        proof {
            assert(all.take(i + 1).drop_last() =~= all.take(i as int));
            assert(all.take(i + 1).last() == all[i as int]);
            assert(all[i as int] == parts@[i as int].deep_view());
        }
        text.append(parts[i].text.as_str());
        i += 1;
    }
    assert(all.take(all.len() as int) =~= all);
    text
}

fn is_client_delegation(item: &Delegation) -> (r: bool)
    ensures
        r == client_delegation(item.kind@, item.id@, item.target@, item.content.deep_view()),
{
    if item.id.as_str().unicode_len() == 0 || !same(item.kind.as_str(), "delegation") || !same(
        item.target.as_str(),
        "client",
    ) {
        return false;
    }
    let ghost all = item.content.deep_view();
    let mut i: usize = 0;
    while i < item.content.len()
        invariant
            i <= item.content.len(),
            all == item.content.deep_view(),
            forall|j: int| 0 <= j < i ==> (#[trigger] all[j]).kind == "input_text"@,
        decreases item.content.len() - i,
    {
        assert(all[i as int] == item.content@[i as int].deep_view());
        if !same(item.content[i].kind.as_str(), "input_text") {
            assert(all[i as int].kind != "input_text"@);
            return false;
        }
        i += 1;
    }
    true
}

fn make_message(role: &str, transcript: String) -> (r: Option<Message>)
    ensures
        r.deep_view() == spoken(role@, transcript@),
{
    if same(role, "user") {
        let ghost said = transcript@;
        let mut content: Vec<Content> = Vec::new();
        content.push(Content::Text(transcript));
        assert(content.deep_view() =~= seq![ContentView::Text(said)]);
        Some(Message::User(content))
    } else if same(role, "assistant") {
        let mut output: Vec<Output> = Vec::new();
        output.push(Output::text(transcript.as_str()));
        assert(output.deep_view() =~= seq![OutputView::text(transcript@)]);
        Some(Message::Assistant { output, provider_data: Json::Null })
    } else {
        None
    }
}

impl Protocol {
    fn observe(&self, value: Json) -> (r: Action)
        ensures
            r@ == observed(self@.turn, value@),
    {
        let turn = match &self.turn {
            Some(turn) => turn.clone(),
            None => String::new(),
        };
        Action::Event(
            SessionEventBody::Delta {
                turn_id: Some(turn),
                delta: ModelDelta::ProtocolEvent { output_index: 0, data: value },
            },
        )
    }

    fn start_confirmed(&mut self, session: Json, now: Moment) -> (r: Result<Vec<Action>, Error>)
        ensures
            (final(self)@, seen(r)) == old(self)@.on_started(session@, now),
    {
        if !matches!(self.phase, Phase::Starting) {
            return Err(protocol("unexpected or duplicate Live start"));
        }
        if session.str_or_empty("id").unicode_len() == 0 {
            return Err(protocol("Live start lacks a remote session identity"));
        }
        match self.confirmation.complete(now)? {
            Pending::Start(id) => {
                self.remote_session = session;
                self.phase = Phase::Active;
                Ok(one(make_ack(id)))
            },
            _ => Err(protocol("unexpected Live start confirmation")),
        }
    }

    fn audio_confirmed(&mut self, enabled: bool, now: Moment) -> (r: Result<Vec<Action>, Error>)
        ensures
            (final(self)@, seen(r)) == old(self)@.on_audio(enabled, now),
    {
        let expected = match self.confirmation.pending() {
            Some(Pending::Audio { enabled: wanted, .. }) => *wanted == enabled,
            _ => false,
        };
        if !expected {
            return Err(protocol("Live audio input acknowledgement mismatch"));
        }
        match self.confirmation.complete(now)? {
            Pending::Audio { id, .. } => Ok(one(make_ack(id))),
            // What was pending has just been looked at.
            Pending::Start(_) => Err(protocol("Live audio input acknowledgement mismatch")),
            Pending::Close(_) => Err(protocol("Live audio input acknowledgement mismatch")),
        }
    }

    fn take_turn(&self, turn: Turn) -> (r: Result<Vec<Action>, Error>)
        ensures
            seen(r) == self@.on_turn(turn.id@, turn.role@, turn.transcript@),
    {
        if !self.is_taking_output() {
            return Err(protocol("Live output outside an active session"));
        }
        if turn.id.as_str().unicode_len() == 0 {
            return Err(protocol("empty Live conversation identity"));
        }
        match make_message(turn.role.as_str(), turn.transcript) {
            Some(message) => Ok(
                one(Action::Event(SessionEventBody::ConversationItem { item_id: turn.id, message })),
            ),
            None => Err(protocol("invalid Live speaker")),
        }
    }

    fn is_taking_output(&self) -> (r: bool)
        ensures
            r == self@.takes_output(),
    {
        matches!(self.phase, Phase::Active) || matches!(self.phase, Phase::Draining { .. })
    }

    fn take_delegation(&mut self, item: Delegation) -> (r: Result<Vec<Action>, Error>)
        ensures
            (final(self)@, seen(r)) == old(self)@.on_delegation(
                item.kind@,
                item.id@,
                item.target@,
                item.content.deep_view(),
            ),
    {
        if !self.is_taking_output() {
            return Err(protocol("Live output outside an active session"));
        }
        if !is_client_delegation(&item) {
            return Err(protocol("unsupported Live delegation"));
        }
        let known = holds_text(&self.delegations, item.id.as_str());
        if !known && self.delegations.len() >= self.max_delegations {
            return Err(protocol("Live delegation capacity exceeded"));
        }
        if self.draining() && self.close_id.is_none() {
            return Err(uncertain("Live closed with an unfinished delegation"));
        }
        if !known {
            let ghost before = self.delegations.deep_view();
            self.delegations.push(item.id.clone());
            assert(self.delegations.deep_view() =~= before.push(item.id@));
        }
        let turn = match &self.turn {
            Some(turn) => turn.clone(),
            None => return Err(protocol("Live execution not started")),
        };
        let prompt = join_parts(&item.content);
        Ok(
            one(
                Action::Event(
                    SessionEventBody::Output {
                        turn_id: Some(turn),
                        item_id: item.id.clone(),
                        caller_id: "live".to_owned(),
                        output: Output::Delegation { id: item.id, prompt },
                    },
                ),
            ),
        )
    }

    fn close_confirmed(&mut self, reason: String, usage: Json, now: Moment) -> (r: Result<
        Vec<Action>,
        Error,
    >)
        ensures
            (final(self)@, seen(r)) == old(self)@.on_closed(reason@, usage@, now),
    {
        if self.finished() || self.draining() {
            return Err(protocol("duplicate Live closure"));
        }
        let closing = matches!(self.confirmation.pending(), Some(Pending::Close(_)));
        if same(reason.as_str(), "connection_lost") || (self.delegations.len() > 0
            && self.close_id.is_none()) || (closing && !same(reason.as_str(), "client_request")) {
            return Err(
                Error::Uncertain(
                    join(
                        "Live closed without confirming requested completion: ",
                        reason.as_str(),
                    ),
                ),
            );
        }
        let asked = match self.confirmation.pending() {
            Some(Pending::Close(id)) => match &self.close_id {
                Some(close) => same(close.as_str(), id.as_str()),
                None => match &self.end_id {
                    Some(end) => same(end.as_str(), id.as_str()),
                    None => false,
                },
            },
            _ => false,
        };
        if asked {
            self.confirmation.complete(now)?;
        } else if self.confirmation.pending().is_some() || !matches!(self.phase, Phase::Active) {
            return Err(uncertain("Live closed before pending command confirmation"));
        }
        self.phase = Phase::Draining { reason, usage };
        Ok(one(Action::Disconnect))
    }

    /// Takes an event of the service; `value` is the event as it came in.
    pub fn receive_event(&mut self, event: ServerEvent, value: Json, now: Moment) -> (r: Result<
        Vec<Action>,
        Error,
    >)
        ensures
            (final(self)@, seen(r)) == old(self)@.received(event@, value@, now),
    {
        match event {
            ServerEvent::Started { session } => self.start_confirmed(session, now),
            ServerEvent::AudioPaused => self.audio_confirmed(false, now),
            ServerEvent::AudioResumed => self.audio_confirmed(true, now),
            ServerEvent::Turn(turn) => self.take_turn(turn),
            ServerEvent::Delegation(item) => self.take_delegation(item),
            ServerEvent::Closed { reason, usage } => self.close_confirmed(reason, usage, now),
            ServerEvent::Error { code, message } => {
                let observed = self.observe(value);
                let failure = Action::Fail(Error::Model(Failure::new(code, message.as_str())));
                let ghost first = observed@;
                let ghost second = failure@;
                let mut actions: Vec<Action> = Vec::new();
                actions.push(observed);
                actions.push(failure);
                assert(actions.deep_view() =~= seq![first, second]);
                Ok(actions)
            },
            ServerEvent::Observation => Ok(one(self.observe(value))),
        }
    }

    /// Takes a text of the control channel.
    pub fn receive(&mut self, text: &str, now: Moment) -> (r: Result<Vec<Action>, Error>)
        ensures
            (final(self)@, seen(r)) == old(self)@.read(text@, now),
    {
        self.confirmation.check(now)?;
        let value = match Json::parse(text) {
            Ok(value) => value,
            Err(_) => return Err(protocol("invalid Live event JSON")),
        };
        match server_event(&value) {
            Some(event) => self.receive_event(event, value, now),
            None => Err(protocol("invalid Live event fields")),
        }
    }

    /// Ends the turn, once everything that the service sent was taken.
    pub fn finalize(&mut self) -> (r: Result<Vec<Action>, Error>)
        ensures
            (final(self)@, seen(r)) == old(self)@.finalized(),
    {
        let mut phase = if self.close_id.is_some() {
            Phase::Closed
        } else {
            Phase::Finished
        };
        std::mem::swap(&mut phase, &mut self.phase);
        let (reason, usage) = match phase {
            Phase::Draining { reason, usage } => (reason, usage),
            _ => return Err(protocol("Live finalized before remote closure")),
        };
        let ghost before = old(self)@;
        let mut actions: Vec<Action> = Vec::new();
        assert(actions.deep_view() =~= Seq::empty());
        if let Some(id) = self.end_id.take() {
            actions.push(make_ack(id));
            assert(actions.deep_view() =~= before.end_acks());
        }
        assert(actions.deep_view() =~= before.end_acks());
        if let Some(id) = self.close_id.take() {
            actions.push(make_ack(id));
            assert(actions.deep_view() =~= before.end_acks() + before.close_acks());
        }
        assert(actions.deep_view() =~= before.end_acks() + before.close_acks());
        let turn_id = match &self.turn {
            Some(turn) => turn.clone(),
            None => return Err(protocol("Live execution not started")),
        };
        let response_id = match self.remote_session.get_str("id") {
            Some(id) => Some(id.to_owned()),
            None => None,
        };
        let end = TurnEnd {
            turn_id,
            usage: Usage::default(),
            model_id: Some(self.config.model.clone()),
            response_id,
            finish_reason: Some(reason.clone()),
            provider_data: Json::empty().with("session", self.remote_session.clone()).with(
                "session_usage",
                usage,
            ).with_text("close_reason", reason.as_str()),
            effective: None,
        };
        let disposition = TurnDisposition::Finished;
        let ghost acks = actions.deep_view();
        let ghost ended = end@;
        actions.push(Action::Event(SessionEventBody::TurnFinished { disposition, end }));
        actions.push(Action::Event(SessionEventBody::Closed(None)));
        assert(actions.deep_view() =~= acks + seq![
            ActionView::Event(SessionEventBodyView::TurnFinished { disposition, end: ended }),
            ActionView::Event(SessionEventBodyView::Closed(None)),
        ]);
        Ok(actions)
    }
}

// ---------------------------------------------------------------------------------------
// Laws
// ---------------------------------------------------------------------------------------
/// While the service has something to confirm, no command is taken.
pub proof fn confirmations_hold_commands_back(
    protocol: ProtocolView,
    id: Seq<char>,
    body: SessionCommandBody,
    host: HostView,
    now: Moment,
)
    requires
        protocol.confirmation.pending is Some,
    ensures
        protocol.commanded(id, body, host, now).1 is Err,
        protocol.commanded(id, body, host, now).0 == protocol,
{
}

/// A confirmation that is out of time is taken no more, whatever comes in.
pub proof fn late_confirmations_are_refused(protocol: ProtocolView, text: Seq<char>, now: Moment)
    requires
        protocol.confirmation.pending matches Some(p) && now.at >= p.deadline,
    ensures
        protocol.read(text, now).1 is Err,
        protocol.read(text, now).0 == protocol,
{
}

/// The delegations under way never outnumber the limit.
pub proof fn delegations_stay_bounded(
    protocol: ProtocolView,
    event: ServerEventView,
    value: JsonView,
    now: Moment,
)
    requires
        protocol.delegations.len() <= protocol.max_delegations,
    ensures
        protocol.received(event, value, now).0.delegations.len() <= protocol.max_delegations,
        protocol.received(event, value, now).0.max_delegations == protocol.max_delegations,
{
}

/// A turn is finished once: after that, nothing that the service sends changes the phase, and
/// it cannot be finished again.
pub proof fn turns_finish_once(
    protocol: ProtocolView,
    event: ServerEventView,
    value: JsonView,
    now: Moment,
)
    requires
        protocol.finished(),
    ensures
        protocol.received(event, value, now).0.phase == protocol.phase,
        protocol.finalized().1 is Err,
{
}

/// A closure is accepted as complete only where no delegation is left open, or the host itself
/// asked to close.
pub proof fn completion_leaves_no_delegation(
    protocol: ProtocolView,
    reason: Seq<char>,
    usage: JsonView,
    now: Moment,
)
    requires
        protocol.on_closed(reason, usage, now).1 is Ok,
    ensures
        protocol.delegations.len() == 0 || protocol.close_id is Some,
        reason != "connection_lost"@,
        protocol.on_closed(reason, usage, now).0.phase == (PhaseView::Draining { reason, usage }),
{
}

} // verus!
