//! Stored inputs, resolved before a request is encoded, and resources in the output of a
//! model, sealed in a store before they are handed on.
//!
//! Reading and writing a store is up to the host: what is asked of it comes out as a stop,
//! and the work is taken up again with the answers so far, in order.
pub mod kept;
pub mod laws;
pub mod resolve;
pub mod seal;

use crate::command::SessionCommandBody;
use crate::error::{invalid, Error, ErrorView};
use crate::json::{group_json_views, Json, JsonView};
use crate::message::{
    Content, ContentView, Message, MessageView, ResourceInput, ResourceInputView,
    RuntimeToolOutcome,
};
use crate::resources::resolve::{
    resolve_contents, resolve_message, resolve_messages, resolved_contents, resolved_message,
    resolved_messages,
};
use vstd::prelude::*;

verus! {

/// The field that marks a reference in native data.
pub const RESOURCE_KEY: &'static str = "$zhir_resource";

/// The most bytes that are read or written at once.
pub const CHUNK_BYTES: usize = 1_048_576;

/// A resource that is asked for: a part of a message, or what a marker names.
#[derive(Debug, PartialEq, Eq)]
pub enum Reference {
    Part(ResourceInput),
    Marker(Json),
}

pub enum ReferenceView {
    Part(ResourceInputView),
    Marker(JsonView),
}

impl View for Reference {
    type V = ReferenceView;

    open spec fn view(&self) -> ReferenceView {
        match self {
            Reference::Part(input) => ReferenceView::Part(input@),
            Reference::Marker(value) => ReferenceView::Marker(value@),
        }
    }
}

/// Why the work stops: something is asked of the store, or it failed. What is opened may
/// hold no more bytes than the limit.
#[derive(Debug, PartialEq, Eq)]
pub enum Stop {
    Open { reference: Reference, limit: usize },
    Seal { key: String, resource: ResourceInput },
    Failed(Error),
}

pub enum StopView {
    Open { reference: ReferenceView, limit: usize },
    Seal { key: Seq<char>, resource: ResourceInputView },
    Failed(ErrorView),
}

impl View for Stop {
    type V = StopView;

    open spec fn view(&self) -> StopView {
        match self {
            Stop::Open { reference, limit } => StopView::Open {
                reference: reference@,
                limit: *limit,
            },
            Stop::Seal { key, resource } => StopView::Seal { key: key@, resource: resource@ },
            Stop::Failed(error) => StopView::Failed(error@),
        }
    }
}

/// A result with a stop, as a result of views.
pub open spec fn reached<T: DeepView>(r: Result<T, Stop>) -> Result<T::V, StopView> {
    match r {
        Ok(value) => Ok(value.deep_view()),
        Err(stop) => Err(stop@),
    }
}

/// What stands for a sealed payload in native data.
pub open spec fn marker(reference: JsonView) -> JsonView {
    JsonView::Object(seq![(RESOURCE_KEY@, reference)])
}

pub(crate) fn mark(reference: Json) -> (r: Json)
    ensures
        r@ == marker(reference@),
{
    broadcast use group_json_views;

    let mut fields: Vec<(String, Json)> = Vec::new();
    fields.push((RESOURCE_KEY.to_owned(), reference));
    assert(fields.deep_view() =~= seq![(RESOURCE_KEY@, reference@)]);
    Json::Object(fields)
}

// ---------------------------------------------------------------------------------------
// Reading a resource
// ---------------------------------------------------------------------------------------
/// A resource that is being read into memory.
#[derive(Debug, PartialEq, Eq)]
pub struct Reading {
    limit: usize,
    bytes: Vec<u8>,
}

pub struct ReadingView {
    pub limit: usize,
    pub bytes: Seq<u8>,
}

impl View for Reading {
    type V = ReadingView;

    closed spec fn view(&self) -> ReadingView {
        ReadingView { limit: self.limit, bytes: self.bytes@ }
    }
}

impl ReadingView {
    /// Whether no more was read than may be.
    pub open spec fn bounded(self) -> bool {
        self.bytes.len() <= self.limit
    }

    /// How much is asked for next: one byte more than is left, to see whether there is more.
    pub open spec fn wanted(self) -> int {
        let more = self.limit - self.bytes.len() + 1;
        if more < CHUNK_BYTES {
            more
        } else {
            CHUNK_BYTES as int
        }
    }
}

pub open spec fn too_large() -> ErrorView {
    ErrorView::Invalid("resource exceeds input materialization limit; use media streaming"@)
}

/// What reading came to: there may be more, or all was read.
#[derive(Debug, PartialEq, Eq)]
pub enum Read {
    More(Reading),
    Done(Vec<u8>),
}

impl Reading {
    pub fn new(limit: usize) -> (r: Reading)
        ensures
            r@ == (ReadingView { limit, bytes: Seq::empty() }),
            r@.bounded(),
    {
        Reading { limit, bytes: Vec::new() }
    }

    /// How many bytes to read next.
    pub fn wanted(&self) -> (r: usize)
        requires
            self@.bounded(),
        ensures
            r == self@.wanted(),
    {
        let left: usize = self.limit - self.bytes.len();
        if left < CHUNK_BYTES - 1 {
            left + 1
        } else {
            CHUNK_BYTES
        }
    }

    /// Takes what was read. An empty chunk ends the resource.
    pub fn read(self, chunk: Vec<u8>) -> (r: Result<Read, Error>)
        requires
            self@.bounded(),
        ensures
            if chunk@.len() == 0 {
                r matches Ok(Read::Done(bytes)) && bytes@ == self@.bytes
            } else if self@.bytes.len() + chunk@.len() > self@.limit {
                r matches Err(e) && e@ == too_large()
            } else {
                r matches Ok(Read::More(next)) && next@ == (ReadingView {
                    bytes: self@.bytes + chunk@,
                    ..self@
                }) && next@.bounded()
            },
    {
        if chunk.len() == 0 {
            return Ok(Read::Done(self.bytes));
        }
        if chunk.len() > self.limit - self.bytes.len() {
            return Err(
                invalid("resource exceeds input materialization limit; use media streaming"),
            );
        }
        let mut bytes = self.bytes;
        let mut more = chunk;
        bytes.append(&mut more);
        Ok(Read::More(Reading { limit: self.limit, bytes }))
    }
}

// ---------------------------------------------------------------------------------------
// The model
// ---------------------------------------------------------------------------------------
/// A model whose stored inputs are resolved, up to a number of bytes per request.
#[derive(Debug, Clone, Copy, PartialEq, Eq, Structural)]
pub struct ResourceModel {
    max_input_bytes: usize,
}

/// What becomes of a command.
#[derive(Debug, PartialEq, Eq)]
pub enum Command {
    Input(Message),
    ToolResult(Vec<Content>),
    Unchanged,
}

pub enum CommandView {
    Input(MessageView),
    ToolResult(Seq<ContentView>),
    Unchanged,
}

impl View for Command {
    type V = CommandView;

    open spec fn view(&self) -> CommandView {
        match self {
            Command::Input(message) => CommandView::Input(message@),
            Command::ToolResult(content) => CommandView::ToolResult(content.deep_view()),
            Command::Unchanged => CommandView::Unchanged,
        }
    }
}

impl DeepView for Command {
    type V = CommandView;

    open spec fn deep_view(&self) -> CommandView {
        self@
    }
}

/// A command with its stored inputs resolved.
pub open spec fn resolved_command(
    body: SessionCommandBody,
    limit: usize,
    loads: Seq<Seq<u8>>,
) -> Result<CommandView, StopView> {
    let purse = resolve::PurseView { left: limit as nat, used: 0 };
    match body {
        SessionCommandBody::Input(message) => match resolved_message(message@, purse, loads) {
            Ok((found, _)) => Ok(CommandView::Input(found)),
            Err(stop) => Err(stop),
        },
        SessionCommandBody::ToolResult {
            outcome: RuntimeToolOutcome::Success(content),
            ..
        } => match resolved_contents(content.deep_view(), purse, loads) {
            Ok((found, _)) => Ok(CommandView::ToolResult(found)),
            Err(stop) => Err(stop),
        },
        _ => Ok(CommandView::Unchanged),
    }
}

impl ResourceModel {
    pub closed spec fn limit(self) -> usize {
        self.max_input_bytes
    }

    pub fn new(max_input_bytes: usize) -> (r: Result<ResourceModel, Error>)
        ensures
            if max_input_bytes == 0 {
                r matches Err(e) && e@ == ErrorView::Invalid(
                    "resource materialization limit must be positive"@,
                )
            } else {
                r matches Ok(model) && model.limit() == max_input_bytes
            },
    {
        if max_input_bytes == 0 {
            return Err(invalid("resource materialization limit must be positive"));
        }
        Ok(ResourceModel { max_input_bytes })
    }

    /// The messages of a request with stored inputs resolved.
    pub fn resolve(&self, messages: &Vec<Message>, loads: &Vec<Vec<u8>>) -> (r: Result<
        Vec<Message>,
        Stop,
    >)
        ensures
            reached(r) == resolved_messages(messages.deep_view(), self.limit(), loads.deep_view()),
    {
        resolve_messages(messages, self.max_input_bytes, loads)
    }

    /// A command with stored inputs resolved.
    pub fn resolve_command(&self, body: &SessionCommandBody, loads: &Vec<Vec<u8>>) -> (r: Result<
        Command,
        Stop,
    >)
        ensures
            reached(r) == resolved_command(*body, self.limit(), loads.deep_view()),
    {
        let purse = resolve::Purse { left: self.max_input_bytes, used: 0 };
        match body {
            SessionCommandBody::Input(message) => {
                let (found, _) = resolve_message(message, purse, loads)?;
                Ok(Command::Input(found))
            },
            SessionCommandBody::ToolResult {
                outcome: RuntimeToolOutcome::Success(content),
                ..
            } => {
                let (found, _) = resolve_contents(content, purse, loads)?;
                Ok(Command::ToolResult(found))
            },
            _ => Ok(Command::Unchanged),
        }
    }
}

} // verus!
