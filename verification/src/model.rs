//! Requests to a model, and what comes back.
use crate::json::{Json, JsonView};
use crate::message::{Message, Output, OutputView};
use vstd::prelude::*;

verus! {

/// A wire protocol for one exchange with a model.
#[derive(Debug, Clone, Copy, PartialEq, Eq, Structural)]
pub enum Protocol {
    Chat,
    Responses,
    Messages,
}

impl Protocol {
    /// The name under which replay data and extensions of the protocol are kept.
    pub open spec fn name(self) -> Seq<char> {
        match self {
            Protocol::Chat => "chat"@,
            Protocol::Responses => "responses"@,
            Protocol::Messages => "messages"@,
        }
    }

    pub fn key(self) -> (r: &'static str)
        ensures
            r@ == self.name(),
    {
        match self {
            Protocol::Chat => "chat",
            Protocol::Responses => "responses",
            Protocol::Messages => "messages",
        }
    }
}

/// Token counts of one exchange.
#[derive(Debug, Clone, Copy, PartialEq, Eq, Structural)]
pub struct Usage {
    pub input_tokens: Option<u64>,
    pub output_tokens: Option<u64>,
    pub total_tokens: Option<u64>,
    pub reasoning_tokens: Option<u64>,
    pub cache_read_tokens: Option<u64>,
    pub cache_write_tokens: Option<u64>,
}

impl Usage {
    /// Usage of which nothing is known.
    pub open spec fn unknown() -> Usage {
        Usage {
            input_tokens: None,
            output_tokens: None,
            total_tokens: None,
            reasoning_tokens: None,
            cache_read_tokens: None,
            cache_write_tokens: None,
        }
    }
}

impl Default for Usage {
    fn default() -> (r: Usage)
        ensures
            r == Usage::unknown(),
    {
        Usage {
            input_tokens: None,
            output_tokens: None,
            total_tokens: None,
            reasoning_tokens: None,
            cache_read_tokens: None,
            cache_write_tokens: None,
        }
    }
}

/// What a runtime tool takes.
#[derive(Debug, Clone, PartialEq, Eq)]
pub enum InputSpec {
    Structured(Json),
    Freeform(Option<Json>),
}

pub enum InputSpecView {
    Structured(JsonView),
    Freeform(Option<JsonView>),
}

impl View for InputSpec {
    type V = InputSpecView;

    open spec fn view(&self) -> InputSpecView {
        match self {
            InputSpec::Structured(schema) => InputSpecView::Structured(schema@),
            InputSpec::Freeform(format) => InputSpecView::Freeform(format.deep_view()),
        }
    }
}

/// A tool that the host runs.
#[derive(Debug, Clone, PartialEq, Eq)]
pub struct RuntimeToolSpec {
    pub name: String,
    pub description: String,
    pub input: InputSpec,
}

pub struct RuntimeToolSpecView {
    pub name: Seq<char>,
    pub description: Seq<char>,
    pub input: InputSpecView,
}

impl View for RuntimeToolSpec {
    type V = RuntimeToolSpecView;

    open spec fn view(&self) -> RuntimeToolSpecView {
        RuntimeToolSpecView {
            name: self.name@,
            description: self.description@,
            input: self.input@,
        }
    }
}

impl DeepView for RuntimeToolSpec {
    type V = RuntimeToolSpecView;

    open spec fn deep_view(&self) -> RuntimeToolSpecView {
        self@
    }
}

/// A tool that the provider runs.
#[derive(Debug, Clone, PartialEq, Eq)]
pub struct ProviderToolSpec {
    pub provider: String,
    pub name: String,
    pub options: Json,
}

pub struct ProviderToolSpecView {
    pub provider: Seq<char>,
    pub name: Seq<char>,
    pub options: JsonView,
}

impl View for ProviderToolSpec {
    type V = ProviderToolSpecView;

    open spec fn view(&self) -> ProviderToolSpecView {
        ProviderToolSpecView {
            provider: self.provider@,
            name: self.name@,
            options: self.options@,
        }
    }
}

impl DeepView for ProviderToolSpec {
    type V = ProviderToolSpecView;

    open spec fn deep_view(&self) -> ProviderToolSpecView {
        self@
    }
}

#[derive(Debug, Clone, PartialEq, Eq)]
pub enum ToolChoice {
    Auto,
    Forbidden,
    Required,
    RuntimeTool(String),
    ProviderTool { provider: String, name: String },
}

pub enum ToolChoiceView {
    Auto,
    Forbidden,
    Required,
    RuntimeTool(Seq<char>),
    ProviderTool { provider: Seq<char>, name: Seq<char> },
}

impl View for ToolChoice {
    type V = ToolChoiceView;

    open spec fn view(&self) -> ToolChoiceView {
        match self {
            ToolChoice::Auto => ToolChoiceView::Auto,
            ToolChoice::Forbidden => ToolChoiceView::Forbidden,
            ToolChoice::Required => ToolChoiceView::Required,
            ToolChoice::RuntimeTool(name) => ToolChoiceView::RuntimeTool(name@),
            ToolChoice::ProviderTool { provider, name } => ToolChoiceView::ProviderTool {
                provider: provider@,
                name: name@,
            },
        }
    }
}

#[derive(Debug, Clone, PartialEq, Eq)]
pub enum ResponseFormat {
    Json,
    Schema { name: String, schema: Json },
}

pub enum ResponseFormatView {
    Json,
    Schema { name: Seq<char>, schema: JsonView },
}

impl View for ResponseFormat {
    type V = ResponseFormatView;

    open spec fn view(&self) -> ResponseFormatView {
        match self {
            ResponseFormat::Json => ResponseFormatView::Json,
            ResponseFormat::Schema { name, schema } => ResponseFormatView::Schema {
                name: name@,
                schema: schema@,
            },
        }
    }
}

impl DeepView for ResponseFormat {
    type V = ResponseFormatView;

    open spec fn deep_view(&self) -> ResponseFormatView {
        self@
    }
}

/// How a model is to generate. The temperature is held as it is written on the wire.
/// `extensions` holds, per protocol, options that are added to the encoded request.
#[derive(Debug, Clone, PartialEq, Eq)]
pub struct Profile {
    pub temperature: Option<Json>,
    pub max_output_tokens: Option<u64>,
    pub seed: Option<u64>,
    pub parallel_runtime_tools: Option<bool>,
    pub extensions: Json,
}

pub struct ProfileView {
    pub temperature: Option<JsonView>,
    pub max_output_tokens: Option<u64>,
    pub seed: Option<u64>,
    pub parallel_runtime_tools: Option<bool>,
    pub extensions: JsonView,
}

impl View for Profile {
    type V = ProfileView;

    open spec fn view(&self) -> ProfileView {
        ProfileView {
            temperature: self.temperature.deep_view(),
            max_output_tokens: self.max_output_tokens,
            seed: self.seed,
            parallel_runtime_tools: self.parallel_runtime_tools,
            extensions: self.extensions@,
        }
    }
}

#[derive(Debug, Clone, PartialEq, Eq)]
pub struct ModelRequest {
    pub messages: Vec<Message>,
    pub runtime_tools: Vec<RuntimeToolSpec>,
    pub provider_tools: Vec<ProviderToolSpec>,
    pub tool_choice: ToolChoice,
    pub response_format: Option<ResponseFormat>,
    pub profile: Profile,
    pub stream: bool,
}

/// What a model answered in one turn.
#[derive(Debug, Clone, PartialEq, Eq)]
pub struct TurnOutput {
    pub output: Vec<Output>,
    pub usage: Usage,
    pub provider_turn_pending: bool,
    pub provider_data: Json,
    pub model_id: Option<String>,
    pub response_id: Option<String>,
    pub finish_reason: Option<String>,
}

pub struct TurnOutputView {
    pub output: Seq<OutputView>,
    pub usage: Usage,
    pub provider_turn_pending: bool,
    pub provider_data: JsonView,
    pub model_id: Option<Seq<char>>,
    pub response_id: Option<Seq<char>>,
    pub finish_reason: Option<Seq<char>>,
}

impl View for TurnOutput {
    type V = TurnOutputView;

    open spec fn view(&self) -> TurnOutputView {
        TurnOutputView {
            output: self.output.deep_view(),
            usage: self.usage,
            provider_turn_pending: self.provider_turn_pending,
            provider_data: self.provider_data@,
            model_id: self.model_id.deep_view(),
            response_id: self.response_id.deep_view(),
            finish_reason: self.finish_reason.deep_view(),
        }
    }
}

impl DeepView for TurnOutput {
    type V = TurnOutputView;

    open spec fn deep_view(&self) -> TurnOutputView {
        self@
    }
}

/// A piece of an answer while it is still coming in.
#[derive(Debug, Clone, PartialEq, Eq)]
#[allow(inconsistent_fields)]
pub enum ModelDelta {
    Text { output_index: u64, text: String },
    Reasoning { output_index: u64, text: String },
    RuntimeTool { output_index: u64, id: Option<String>, name: Option<String>, input: String },
    Usage(Usage),
    ProtocolEvent { output_index: u64, data: Json },
    ProviderToolProgress { provider: String, name: String, data: Json },
}

#[allow(inconsistent_fields)]
pub enum ModelDeltaView {
    Text { output_index: u64, text: Seq<char> },
    Reasoning { output_index: u64, text: Seq<char> },
    RuntimeTool {
        output_index: u64,
        id: Option<Seq<char>>,
        name: Option<Seq<char>>,
        input: Seq<char>,
    },
    Usage(Usage),
    ProtocolEvent { output_index: u64, data: JsonView },
    ProviderToolProgress { provider: Seq<char>, name: Seq<char>, data: JsonView },
}

impl View for ModelDelta {
    type V = ModelDeltaView;

    open spec fn view(&self) -> ModelDeltaView {
        match self {
            ModelDelta::Text { output_index, text } => ModelDeltaView::Text {
                output_index: *output_index,
                text: text@,
            },
            ModelDelta::Reasoning { output_index, text } => ModelDeltaView::Reasoning {
                output_index: *output_index,
                text: text@,
            },
            ModelDelta::RuntimeTool { output_index, id, name, input } => {
                ModelDeltaView::RuntimeTool {
                    output_index: *output_index,
                    id: id.deep_view(),
                    name: name.deep_view(),
                    input: input@,
                }
            },
            ModelDelta::Usage(usage) => ModelDeltaView::Usage(*usage),
            ModelDelta::ProtocolEvent { output_index, data } => ModelDeltaView::ProtocolEvent {
                output_index: *output_index,
                data: data@,
            },
            ModelDelta::ProviderToolProgress { provider, name, data } => {
                ModelDeltaView::ProviderToolProgress {
                    provider: provider@,
                    name: name@,
                    data: data@,
                }
            },
        }
    }
}

impl DeepView for ModelDelta {
    type V = ModelDeltaView;

    open spec fn deep_view(&self) -> ModelDeltaView {
        self@
    }
}

/// A protocol is told from every other by its name.
pub proof fn protocols_are_told_apart(one: Protocol, other: Protocol)
    ensures
        one.name() == other.name() ==> one == other,
        one.name() == "chat"@ <==> one == Protocol::Chat,
        one.name() == "responses"@ <==> one == Protocol::Responses,
        one.name() == "messages"@ <==> one == Protocol::Messages,
{
    reveal_strlit("chat");
    reveal_strlit("responses");
    reveal_strlit("messages");
    assert("chat"@.len() == 4 && "responses"@.len() == 9 && "messages"@.len() == 8);
}

} // verus!
