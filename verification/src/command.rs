//! Session commands, session events and media: what a host and a model session exchange.
use crate::json::{Json, JsonView};
use crate::message::{
    Content, ContentView, Message, MessageView, Output, OutputView, RuntimeToolOutcome,
};
use crate::model::{ModelDelta, ModelDeltaView, ModelRequest, Profile, Usage};
use vstd::prelude::*;

verus! {

/// A message of the conversation, with its identity and, where the host states one, its
/// origin.
#[derive(Debug, Clone, PartialEq, Eq)]
pub struct HistoryEntry {
    pub id: String,
    pub origin: Option<Json>,
    pub message: Message,
}

pub struct HistoryEntryView {
    pub id: Seq<char>,
    pub origin: Option<JsonView>,
    pub message: MessageView,
}

impl View for HistoryEntry {
    type V = HistoryEntryView;

    open spec fn view(&self) -> HistoryEntryView {
        HistoryEntryView {
            id: self.id@,
            origin: self.origin.deep_view(),
            message: self.message@,
        }
    }
}

impl DeepView for HistoryEntry {
    type V = HistoryEntryView;

    open spec fn deep_view(&self) -> HistoryEntryView {
        self@
    }
}

#[derive(Debug, Clone, PartialEq, Eq)]
pub enum SessionCommandBody {
    StartTurn { turn_id: String, request: ModelRequest },
    Input(Message),
    DelegationContext { call_id: String, content: Vec<Content> },
    DelegationResult { call_id: String, outcome: RuntimeToolOutcome },
    ToolResult { call_id: String, outcome: RuntimeToolOutcome },
    SetInputAudio(bool),
    EndInput,
    InterruptOutput { turn_id: String, output_epoch: u64 },
    Generate {
        generation_id: String,
        context_revision: u64,
        input_position: u64,
        profile_revision: u64,
    },
    /// `submitted` tells what the user sent from what the host adds.
    Append { entry: HistoryEntry, context_revision: u64, input_position: u64, submitted: bool },
    ReplaceContext { entries: Vec<HistoryEntry>, context_revision: u64 },
    UpdateProfile { revision: u64, profile: Profile },
    SealUserInput,
    Close,
}

#[derive(Debug, Clone, PartialEq, Eq)]
pub struct SessionCommand {
    pub id: String,
    pub body: SessionCommandBody,
}

/// What a session can be resumed by.
#[derive(Debug, PartialEq, Eq)]
pub struct RecoveryRef {
    pub adapter: String,
    pub data: Json,
}

pub struct RecoveryRefView {
    pub adapter: Seq<char>,
    pub data: JsonView,
}

impl View for RecoveryRef {
    type V = RecoveryRefView;

    open spec fn view(&self) -> RecoveryRefView {
        RecoveryRefView { adapter: self.adapter@, data: self.data@ }
    }
}

impl DeepView for RecoveryRef {
    type V = RecoveryRefView;

    open spec fn deep_view(&self) -> RecoveryRefView {
        self@
    }
}

impl Clone for RecoveryRef {
    fn clone(&self) -> (r: RecoveryRef)
        ensures
            r@ == self@,
    {
        RecoveryRef { adapter: self.adapter.clone(), data: self.data.clone() }
    }
}

/// What ties a session to the model that it was opened on.
#[derive(Debug, Clone, PartialEq, Eq)]
pub struct ModelBinding {
    pub adapter: String,
    pub data: Json,
}

pub struct ModelBindingView {
    pub adapter: Seq<char>,
    pub data: JsonView,
}

impl View for ModelBinding {
    type V = ModelBindingView;

    open spec fn view(&self) -> ModelBindingView {
        ModelBindingView { adapter: self.adapter@, data: self.data@ }
    }
}

impl DeepView for ModelBinding {
    type V = ModelBindingView;

    open spec fn deep_view(&self) -> ModelBindingView {
        self@
    }
}

/// How a response ended.
#[derive(Debug, Clone, Copy, PartialEq, Eq, Structural)]
pub enum ResponseStatus {
    Completed,
    RequiresResults,
    Incomplete,
    Failed,
}

/// How far a command got by the time it is acknowledged.
#[derive(Debug, Clone, Copy, PartialEq, Eq, Structural)]
pub enum Acknowledgement {
    /// The session's own view of the conversation holds it.
    Projection,
}

/// What became of a turn.
#[derive(Debug, Clone, Copy, PartialEq, Eq, Structural)]
pub enum TurnDisposition {
    Finished,
}

/// Why a session closed.
#[derive(Debug, Clone, PartialEq, Eq)]
pub struct Closure {
    pub reason: String,
    pub provider_data: Json,
}

pub struct ClosureView {
    pub reason: Seq<char>,
    pub provider_data: JsonView,
}

impl View for Closure {
    type V = ClosureView;

    open spec fn view(&self) -> ClosureView {
        ClosureView { reason: self.reason@, provider_data: self.provider_data@ }
    }
}

impl DeepView for Closure {
    type V = ClosureView;

    open spec fn deep_view(&self) -> ClosureView {
        self@
    }
}

/// How a turn ended. `effective` is the profile that took effect, as the provider reported
/// it; without a report it is the default.
#[derive(Debug, Clone, PartialEq, Eq)]
pub struct TurnEnd {
    pub turn_id: String,
    pub usage: Usage,
    pub model_id: Option<String>,
    pub response_id: Option<String>,
    pub finish_reason: Option<String>,
    pub provider_data: Json,
    pub effective: Option<Json>,
}

pub struct TurnEndView {
    pub turn_id: Seq<char>,
    pub usage: Usage,
    pub model_id: Option<Seq<char>>,
    pub response_id: Option<Seq<char>>,
    pub finish_reason: Option<Seq<char>>,
    pub provider_data: JsonView,
    pub effective: Option<JsonView>,
}

impl View for TurnEnd {
    type V = TurnEndView;

    open spec fn view(&self) -> TurnEndView {
        TurnEndView {
            turn_id: self.turn_id@,
            usage: self.usage,
            model_id: self.model_id.deep_view(),
            response_id: self.response_id.deep_view(),
            finish_reason: self.finish_reason.deep_view(),
            provider_data: self.provider_data@,
            effective: self.effective.deep_view(),
        }
    }
}

/// What happened in a session. Where a turn is named, a generation may stand in its place.
/// Sessions over one connection state neither a level of acknowledgement nor a closure.
#[allow(inconsistent_fields)]
#[derive(Debug, Clone, PartialEq, Eq)]
pub enum SessionEventBody {
    Ready { context_revision: u64 },
    Acknowledged {
        command_id: String,
        recovery: Option<RecoveryRef>,
        level: Option<Acknowledgement>,
    },
    Recovery(RecoveryRef),
    ResponseStarted { generation_id: String, input_position: u64 },
    Delta { turn_id: Option<String>, delta: ModelDelta },
    Output { turn_id: Option<String>, item_id: String, caller_id: String, output: Output },
    ConversationItem { item_id: String, message: Message },
    OperationFinished(Vec<Content>),
    TurnFinished { disposition: TurnDisposition, end: TurnEnd },
    ResponseFinished { input_position: u64, status: ResponseStatus, end: TurnEnd },
    Closed(Option<Closure>),
}

#[allow(inconsistent_fields)]
pub enum SessionEventBodyView {
    Ready { context_revision: u64 },
    Acknowledged {
        command_id: Seq<char>,
        recovery: Option<RecoveryRefView>,
        level: Option<Acknowledgement>,
    },
    Recovery(RecoveryRefView),
    ResponseStarted { generation_id: Seq<char>, input_position: u64 },
    Delta { turn_id: Option<Seq<char>>, delta: ModelDeltaView },
    Output {
        turn_id: Option<Seq<char>>,
        item_id: Seq<char>,
        caller_id: Seq<char>,
        output: OutputView,
    },
    ConversationItem { item_id: Seq<char>, message: MessageView },
    OperationFinished(Seq<ContentView>),
    TurnFinished { disposition: TurnDisposition, end: TurnEndView },
    ResponseFinished { input_position: u64, status: ResponseStatus, end: TurnEndView },
    Closed(Option<ClosureView>),
}

impl View for SessionEventBody {
    type V = SessionEventBodyView;

    open spec fn view(&self) -> SessionEventBodyView {
        match self {
            SessionEventBody::Ready { context_revision } => SessionEventBodyView::Ready {
                context_revision: *context_revision,
            },
            SessionEventBody::Acknowledged { command_id, recovery, level } => {
                SessionEventBodyView::Acknowledged {
                    command_id: command_id@,
                    recovery: recovery.deep_view(),
                    level: *level,
                }
            },
            SessionEventBody::Recovery(reference) => SessionEventBodyView::Recovery(reference@),
            SessionEventBody::ResponseStarted { generation_id, input_position } => {
                SessionEventBodyView::ResponseStarted {
                    generation_id: generation_id@,
                    input_position: *input_position,
                }
            },
            SessionEventBody::Delta { turn_id, delta } => SessionEventBodyView::Delta {
                turn_id: turn_id.deep_view(),
                delta: delta@,
            },
            SessionEventBody::Output { turn_id, item_id, caller_id, output } => {
                SessionEventBodyView::Output {
                    turn_id: turn_id.deep_view(),
                    item_id: item_id@,
                    caller_id: caller_id@,
                    output: output@,
                }
            },
            SessionEventBody::ConversationItem { item_id, message } => {
                SessionEventBodyView::ConversationItem { item_id: item_id@, message: message@ }
            },
            SessionEventBody::OperationFinished(content) => {
                SessionEventBodyView::OperationFinished(content.deep_view())
            },
            SessionEventBody::TurnFinished { disposition, end } => {
                SessionEventBodyView::TurnFinished { disposition: *disposition, end: end@ }
            },
            SessionEventBody::ResponseFinished { input_position, status, end } => {
                SessionEventBodyView::ResponseFinished {
                    input_position: *input_position,
                    status: *status,
                    end: end@,
                }
            },
            SessionEventBody::Closed(closure) => SessionEventBodyView::Closed(
                closure.deep_view(),
            ),
        }
    }
}

impl DeepView for SessionEventBody {
    type V = SessionEventBodyView;

    open spec fn deep_view(&self) -> SessionEventBodyView {
        self@
    }
}

/// An event with its place in the session.
#[derive(Debug, Clone, PartialEq, Eq)]
pub struct SessionEvent {
    pub sequence: u64,
    pub body: SessionEventBody,
}

pub struct SessionEventView {
    pub sequence: u64,
    pub body: SessionEventBodyView,
}

impl View for SessionEvent {
    type V = SessionEventView;

    open spec fn view(&self) -> SessionEventView {
        SessionEventView { sequence: self.sequence, body: self.body@ }
    }
}

impl DeepView for SessionEvent {
    type V = SessionEventView;

    open spec fn deep_view(&self) -> SessionEventView {
        self@
    }
}

/// The event that a command was taken, on a level where one is stated.
pub open spec fn acknowledged(
    command_id: Seq<char>,
    level: Option<Acknowledgement>,
) -> SessionEventBodyView {
    SessionEventBodyView::Acknowledged { command_id, recovery: None, level }
}

pub fn acknowledge(command_id: String, level: Option<Acknowledgement>) -> (r: SessionEventBody)
    ensures
        r@ == acknowledged(command_id@, level),
{
    SessionEventBody::Acknowledged { command_id, recovery: None, level }
}

/// A piece of a media stream.
#[derive(Debug, Clone, PartialEq, Eq)]
pub struct MediaChunk {
    pub stream_id: String,
    pub turn_id: String,
    pub epoch: u64,
    pub sequence: u64,
    pub timestamp_us: u64,
    pub media_type: String,
    pub bytes: Vec<u8>,
    pub end: bool,
}

pub struct MediaChunkView {
    pub stream_id: Seq<char>,
    pub turn_id: Seq<char>,
    pub epoch: u64,
    pub sequence: u64,
    pub timestamp_us: u64,
    pub media_type: Seq<char>,
    pub bytes: Seq<u8>,
    pub end: bool,
}

impl View for MediaChunk {
    type V = MediaChunkView;

    open spec fn view(&self) -> MediaChunkView {
        MediaChunkView {
            stream_id: self.stream_id@,
            turn_id: self.turn_id@,
            epoch: self.epoch,
            sequence: self.sequence,
            timestamp_us: self.timestamp_us,
            media_type: self.media_type@,
            bytes: self.bytes@,
            end: self.end,
        }
    }
}

impl DeepView for MediaChunk {
    type V = MediaChunkView;

    open spec fn deep_view(&self) -> MediaChunkView {
        self@
    }
}

} // verus!
