//! Messages: what is said to a model and what it answers.
use crate::json::{Json, JsonView};
use vstd::prelude::*;

verus! {

// ---------------------------------------------------------------------------------------
// Content
// ---------------------------------------------------------------------------------------
/// Where the bytes of a media part are.
#[derive(Debug, PartialEq, Eq)]
pub enum MediaSource {
    Url(String),
    Inline { mime_type: String, base64: String },
    Artifact { id: String, mime_type: String },
}

pub enum MediaSourceView {
    Url(Seq<char>),
    Inline { mime_type: Seq<char>, base64: Seq<char> },
    Artifact { id: Seq<char>, mime_type: Seq<char> },
}

impl View for MediaSource {
    type V = MediaSourceView;

    open spec fn view(&self) -> MediaSourceView {
        match self {
            MediaSource::Url(url) => MediaSourceView::Url(url@),
            MediaSource::Inline { mime_type, base64 } => MediaSourceView::Inline {
                mime_type: mime_type@,
                base64: base64@,
            },
            MediaSource::Artifact { id, mime_type } => MediaSourceView::Artifact {
                id: id@,
                mime_type: mime_type@,
            },
        }
    }
}

/// Where the bytes of a resource are.
#[derive(Debug, PartialEq, Eq)]
pub enum ResourceSource {
    Url(String),
    Inline(Vec<u8>),
    Stored(String),
    Provider { provider: String, reference: String },
}

pub enum ResourceSourceView {
    Url(Seq<char>),
    Inline(Seq<u8>),
    Stored(Seq<char>),
    Provider { provider: Seq<char>, reference: Seq<char> },
}

impl View for ResourceSource {
    type V = ResourceSourceView;

    open spec fn view(&self) -> ResourceSourceView {
        match self {
            ResourceSource::Url(url) => ResourceSourceView::Url(url@),
            ResourceSource::Inline(bytes) => ResourceSourceView::Inline(bytes@),
            ResourceSource::Stored(key) => ResourceSourceView::Stored(key@),
            ResourceSource::Provider { provider, reference } => ResourceSourceView::Provider {
                provider: provider@,
                reference: reference@,
            },
        }
    }
}

/// What kind of media a resource holds.
#[derive(Debug, Clone, Copy, PartialEq, Eq, Structural)]
pub enum Modality {
    Image,
    Audio,
    Video,
    File,
    Other,
}

/// How closely a model is to look at a resource.
#[derive(Debug, Clone, Copy, PartialEq, Eq, Structural)]
pub enum Fidelity {
    Economy,
    High,
    Original,
}

/// A resource, and how a request uses it. `metadata` is the host's own; `extensions` holds,
/// per protocol, fields that are added to its encoding.
#[derive(Debug, PartialEq, Eq)]
pub struct ResourceInput {
    pub id: String,
    pub media_type: String,
    pub modality: Modality,
    pub name: Option<String>,
    pub source: ResourceSource,
    pub metadata: Json,
    pub fidelity: Option<Fidelity>,
    pub extensions: Json,
}

pub struct ResourceInputView {
    pub id: Seq<char>,
    pub media_type: Seq<char>,
    pub modality: Modality,
    pub name: Option<Seq<char>>,
    pub source: ResourceSourceView,
    pub metadata: JsonView,
    pub fidelity: Option<Fidelity>,
    pub extensions: JsonView,
}

impl View for ResourceInput {
    type V = ResourceInputView;

    open spec fn view(&self) -> ResourceInputView {
        ResourceInputView {
            id: self.id@,
            media_type: self.media_type@,
            modality: self.modality,
            name: self.name.deep_view(),
            source: self.source@,
            metadata: self.metadata@,
            fidelity: self.fidelity,
            extensions: self.extensions@,
        }
    }
}

#[derive(Debug, PartialEq, Eq)]
pub enum Content {
    Text(String),
    /// A part that only its provider reads.
    Opaque { provider: String, data: Json },
    Image(MediaSource),
    Audio(MediaSource),
    Video(MediaSource),
    File { source: MediaSource, name: Option<String> },
    Resource(ResourceInput),
}

pub enum ContentView {
    Text(Seq<char>),
    Opaque { provider: Seq<char>, data: JsonView },
    Image(MediaSourceView),
    Audio(MediaSourceView),
    Video(MediaSourceView),
    File { source: MediaSourceView, name: Option<Seq<char>> },
    Resource(ResourceInputView),
}

impl View for Content {
    type V = ContentView;

    open spec fn view(&self) -> ContentView {
        match self {
            Content::Text(text) => ContentView::Text(text@),
            Content::Opaque { provider, data } => ContentView::Opaque {
                provider: provider@,
                data: data@,
            },
            Content::Image(source) => ContentView::Image(source@),
            Content::Audio(source) => ContentView::Audio(source@),
            Content::Video(source) => ContentView::Video(source@),
            Content::File { source, name } => ContentView::File {
                source: source@,
                name: name.deep_view(),
            },
            Content::Resource(input) => ContentView::Resource(input@),
        }
    }
}

impl DeepView for Content {
    type V = ContentView;

    open spec fn deep_view(&self) -> ContentView {
        self@
    }
}

// ---------------------------------------------------------------------------------------
// Tool calls
// ---------------------------------------------------------------------------------------
#[derive(Debug, PartialEq, Eq)]
pub enum RuntimeToolInput {
    Structured(Json),
    Freeform(String),
}

pub enum RuntimeToolInputView {
    Structured(JsonView),
    Freeform(Seq<char>),
}

impl View for RuntimeToolInput {
    type V = RuntimeToolInputView;

    open spec fn view(&self) -> RuntimeToolInputView {
        match self {
            RuntimeToolInput::Structured(value) => RuntimeToolInputView::Structured(value@),
            RuntimeToolInput::Freeform(text) => RuntimeToolInputView::Freeform(text@),
        }
    }
}

/// A call of a tool that the host runs.
#[derive(Debug, PartialEq, Eq)]
pub struct RuntimeToolCall {
    pub id: String,
    pub name: String,
    pub input: RuntimeToolInput,
}

pub struct RuntimeToolCallView {
    pub id: Seq<char>,
    pub name: Seq<char>,
    pub input: RuntimeToolInputView,
}

impl View for RuntimeToolCall {
    type V = RuntimeToolCallView;

    open spec fn view(&self) -> RuntimeToolCallView {
        RuntimeToolCallView { id: self.id@, name: self.name@, input: self.input@ }
    }
}

#[derive(Debug, Clone, Copy, PartialEq, Eq, Structural)]
pub enum ProviderToolStatus {
    Pending,
    Running,
    Completed,
    Failed,
}

/// A call of a tool that the provider runs.
#[derive(Debug, PartialEq, Eq)]
pub struct ProviderToolCall {
    pub id: String,
    pub provider: String,
    pub name: String,
    pub status: ProviderToolStatus,
    pub output: Vec<Content>,
    pub data: Json,
}

pub struct ProviderToolCallView {
    pub id: Seq<char>,
    pub provider: Seq<char>,
    pub name: Seq<char>,
    pub status: ProviderToolStatus,
    pub output: Seq<ContentView>,
    pub data: JsonView,
}

impl View for ProviderToolCall {
    type V = ProviderToolCallView;

    open spec fn view(&self) -> ProviderToolCallView {
        ProviderToolCallView {
            id: self.id@,
            provider: self.provider@,
            name: self.name@,
            status: self.status,
            output: self.output.deep_view(),
            data: self.data@,
        }
    }
}

impl DeepView for ProviderToolCall {
    type V = ProviderToolCallView;

    open spec fn deep_view(&self) -> ProviderToolCallView {
        self@
    }
}

// ---------------------------------------------------------------------------------------
// Output and messages
// ---------------------------------------------------------------------------------------
#[derive(Debug, PartialEq, Eq)]
pub enum Output {
    Content(Content),
    RuntimeToolCall(RuntimeToolCall),
    ProviderToolCall(ProviderToolCall),
    Delegation { id: String, prompt: String },
}

pub enum OutputView {
    Content(ContentView),
    RuntimeToolCall(RuntimeToolCallView),
    ProviderToolCall(ProviderToolCallView),
    Delegation { id: Seq<char>, prompt: Seq<char> },
}

impl View for Output {
    type V = OutputView;

    open spec fn view(&self) -> OutputView {
        match self {
            Output::Content(content) => OutputView::Content(content@),
            Output::RuntimeToolCall(call) => OutputView::RuntimeToolCall(call@),
            Output::ProviderToolCall(call) => OutputView::ProviderToolCall(call@),
            Output::Delegation { id, prompt } => OutputView::Delegation {
                id: id@,
                prompt: prompt@,
            },
        }
    }
}

impl DeepView for Output {
    type V = OutputView;

    open spec fn deep_view(&self) -> OutputView {
        self@
    }
}

impl OutputView {
    pub open spec fn text(text: Seq<char>) -> OutputView {
        OutputView::Content(ContentView::Text(text))
    }
}

impl Output {
    pub fn text(text: &str) -> (r: Output)
        ensures
            r@ == OutputView::text(text@),
    {
        Output::Content(Content::Text(text.to_owned()))
    }
}

/// How a runtime tool call ended.
#[derive(Debug, PartialEq, Eq)]
pub enum RuntimeToolOutcome {
    Success(Vec<Content>),
    Accepted(Vec<Content>),
    Waiting(Vec<Content>),
    Failure { code: String, message: String },
}

pub enum RuntimeToolOutcomeView {
    Success(Seq<ContentView>),
    Accepted(Seq<ContentView>),
    Waiting(Seq<ContentView>),
    Failure { code: Seq<char>, message: Seq<char> },
}

impl View for RuntimeToolOutcome {
    type V = RuntimeToolOutcomeView;

    open spec fn view(&self) -> RuntimeToolOutcomeView {
        match self {
            RuntimeToolOutcome::Success(content) => RuntimeToolOutcomeView::Success(
                content.deep_view(),
            ),
            RuntimeToolOutcome::Accepted(content) => RuntimeToolOutcomeView::Accepted(
                content.deep_view(),
            ),
            RuntimeToolOutcome::Waiting(content) => RuntimeToolOutcomeView::Waiting(
                content.deep_view(),
            ),
            RuntimeToolOutcome::Failure { code, message } => RuntimeToolOutcomeView::Failure {
                code: code@,
                message: message@,
            },
        }
    }
}

#[derive(Debug, PartialEq, Eq)]
pub enum Message {
    System(Vec<Content>),
    User(Vec<Content>),
    External(Vec<Content>),
    Assistant { output: Vec<Output>, provider_data: Json },
    RuntimeTool { call_id: String, outcome: RuntimeToolOutcome },
    DelegationResult { id: String, outcome: RuntimeToolOutcome },
}

pub enum MessageView {
    System(Seq<ContentView>),
    User(Seq<ContentView>),
    External(Seq<ContentView>),
    Assistant { output: Seq<OutputView>, provider_data: JsonView },
    RuntimeTool { call_id: Seq<char>, outcome: RuntimeToolOutcomeView },
    DelegationResult { id: Seq<char>, outcome: RuntimeToolOutcomeView },
}

impl View for Message {
    type V = MessageView;

    open spec fn view(&self) -> MessageView {
        match self {
            Message::System(content) => MessageView::System(content.deep_view()),
            Message::User(content) => MessageView::User(content.deep_view()),
            Message::External(content) => MessageView::External(content.deep_view()),
            Message::Assistant { output, provider_data } => MessageView::Assistant {
                output: output.deep_view(),
                provider_data: provider_data@,
            },
            Message::RuntimeTool { call_id, outcome } => MessageView::RuntimeTool {
                call_id: call_id@,
                outcome: outcome@,
            },
            Message::DelegationResult { id, outcome } => MessageView::DelegationResult {
                id: id@,
                outcome: outcome@,
            },
        }
    }
}

impl DeepView for Message {
    type V = MessageView;

    open spec fn deep_view(&self) -> MessageView {
        self@
    }
}

// ---------------------------------------------------------------------------------------
// Copies
// ---------------------------------------------------------------------------------------
impl Clone for MediaSource {
    fn clone(&self) -> (r: MediaSource)
        ensures
            r@ == self@,
    {
        match self {
            MediaSource::Url(url) => MediaSource::Url(url.clone()),
            MediaSource::Inline { mime_type, base64 } => MediaSource::Inline {
                mime_type: mime_type.clone(),
                base64: base64.clone(),
            },
            MediaSource::Artifact { id, mime_type } => MediaSource::Artifact {
                id: id.clone(),
                mime_type: mime_type.clone(),
            },
        }
    }
}

/// A copy of bytes.
pub fn copy_bytes(bytes: &Vec<u8>) -> (r: Vec<u8>)
    ensures
        r@ == bytes@,
{
    let r = bytes.clone();
    assert(r@ =~= bytes@);
    r
}

/// A copy of an optional text.
pub fn copy_text(text: &Option<String>) -> (r: Option<String>)
    ensures
        r.deep_view() == text.deep_view(),
{
    match text {
        Some(s) => Some(s.clone()),
        None => None,
    }
}

impl Clone for ResourceSource {
    fn clone(&self) -> (r: ResourceSource)
        ensures
            r@ == self@,
    {
        match self {
            ResourceSource::Url(url) => ResourceSource::Url(url.clone()),
            ResourceSource::Inline(bytes) => ResourceSource::Inline(copy_bytes(bytes)),
            ResourceSource::Stored(key) => ResourceSource::Stored(key.clone()),
            ResourceSource::Provider { provider, reference } => ResourceSource::Provider {
                provider: provider.clone(),
                reference: reference.clone(),
            },
        }
    }
}

impl Clone for ResourceInput {
    fn clone(&self) -> (r: ResourceInput)
        ensures
            r@ == self@,
    {
        ResourceInput {
            id: self.id.clone(),
            media_type: self.media_type.clone(),
            modality: self.modality,
            name: copy_text(&self.name),
            source: self.source.clone(),
            metadata: self.metadata.clone(),
            fidelity: self.fidelity,
            extensions: self.extensions.clone(),
        }
    }
}

impl Clone for Content {
    fn clone(&self) -> (r: Content)
        ensures
            r@ == self@,
    {
        match self {
            Content::Text(text) => Content::Text(text.clone()),
            Content::Opaque { provider, data } => Content::Opaque {
                provider: provider.clone(),
                data: data.clone(),
            },
            Content::Image(source) => Content::Image(source.clone()),
            Content::Audio(source) => Content::Audio(source.clone()),
            Content::Video(source) => Content::Video(source.clone()),
            Content::File { source, name } => Content::File {
                source: source.clone(),
                name: copy_text(name),
            },
            Content::Resource(input) => Content::Resource(input.clone()),
        }
    }
}

/// A copy of content parts.
pub fn copy_contents(contents: &Vec<Content>) -> (r: Vec<Content>)
    ensures
        r.deep_view() == contents.deep_view(),
{
    let r = contents.clone();
    assert(r.deep_view() =~= contents.deep_view());
    r
}

impl Clone for RuntimeToolInput {
    fn clone(&self) -> (r: RuntimeToolInput)
        ensures
            r@ == self@,
    {
        match self {
            RuntimeToolInput::Structured(value) => RuntimeToolInput::Structured(value.clone()),
            RuntimeToolInput::Freeform(text) => RuntimeToolInput::Freeform(text.clone()),
        }
    }
}

impl Clone for RuntimeToolCall {
    fn clone(&self) -> (r: RuntimeToolCall)
        ensures
            r@ == self@,
    {
        RuntimeToolCall {
            id: self.id.clone(),
            name: self.name.clone(),
            input: self.input.clone(),
        }
    }
}

impl Clone for ProviderToolCall {
    fn clone(&self) -> (r: ProviderToolCall)
        ensures
            r@ == self@,
    {
        ProviderToolCall {
            id: self.id.clone(),
            provider: self.provider.clone(),
            name: self.name.clone(),
            status: self.status,
            output: copy_contents(&self.output),
            data: self.data.clone(),
        }
    }
}

impl Clone for Output {
    fn clone(&self) -> (r: Output)
        ensures
            r@ == self@,
    {
        match self {
            Output::Content(content) => Output::Content(content.clone()),
            Output::RuntimeToolCall(call) => Output::RuntimeToolCall(call.clone()),
            Output::ProviderToolCall(call) => Output::ProviderToolCall(call.clone()),
            Output::Delegation { id, prompt } => Output::Delegation {
                id: id.clone(),
                prompt: prompt.clone(),
            },
        }
    }
}

impl Clone for RuntimeToolOutcome {
    fn clone(&self) -> (r: RuntimeToolOutcome)
        ensures
            r@ == self@,
    {
        match self {
            RuntimeToolOutcome::Success(content) => RuntimeToolOutcome::Success(
                copy_contents(content),
            ),
            RuntimeToolOutcome::Accepted(content) => RuntimeToolOutcome::Accepted(
                copy_contents(content),
            ),
            RuntimeToolOutcome::Waiting(content) => RuntimeToolOutcome::Waiting(
                copy_contents(content),
            ),
            RuntimeToolOutcome::Failure { code, message } => RuntimeToolOutcome::Failure {
                code: code.clone(),
                message: message.clone(),
            },
        }
    }
}

impl Clone for Message {
    fn clone(&self) -> (r: Message)
        ensures
            r@ == self@,
    {
        match self {
            Message::System(content) => Message::System(copy_contents(content)),
            Message::User(content) => Message::User(copy_contents(content)),
            Message::External(content) => Message::External(copy_contents(content)),
            Message::Assistant { output, provider_data } => {
                let copy = output.clone();
                assert(copy.deep_view() =~= output.deep_view());
                Message::Assistant { output: copy, provider_data: provider_data.clone() }
            },
            Message::RuntimeTool { call_id, outcome } => Message::RuntimeTool {
                call_id: call_id.clone(),
                outcome: outcome.clone(),
            },
            Message::DelegationResult { id, outcome } => Message::DelegationResult {
                id: id.clone(),
                outcome: outcome.clone(),
            },
        }
    }
}

/// A copy of messages.
pub fn copy_messages(messages: &Vec<Message>) -> (r: Vec<Message>)
    ensures
        r.deep_view() == messages.deep_view(),
{
    let r = messages.clone();
    assert(r.deep_view() =~= messages.deep_view());
    r
}

} // verus!
