//! What a request asks a model for: that its settings, its tools and its conversation stand in
//! the encoded request, where the protocol looks for them.
use crate::codec::encode::{
    base_body, choice_json, encoded_messages, encoded_request, provider_tool_json,
    provider_tools_json, tool_json, tools_json, with_format, with_generation, with_tools, Answers,
    Encoded,
};
use crate::codec::merge::{controlled, extras_replace_nothing, kept, lookup_index};
use crate::error::{all_ok_each, ErrorView};
use crate::extension::{answer_at, AnswerView};
use crate::json::{set_get, JsonView};
use crate::model::{
    InputSpecView, ModelRequest, Protocol, ResponseFormatView, RuntimeToolSpecView, ToolChoiceView,
};
use vstd::prelude::*;

verus! {

proof fn settings_differ()
    ensures
        "model"@ != "stream"@,
        "model"@ != "messages"@,
        "model"@ != "input"@,
        "model"@ != "system"@,
        "model"@ != "max_tokens"@,
        "model"@ != "max_completion_tokens"@,
        "model"@ != "max_output_tokens"@,
        "model"@ != "stream_options"@,
        "model"@ != "temperature"@,
        "model"@ != "seed"@,
        "model"@ != "parallel_tool_calls"@,
        "model"@ != "tool_choice"@,
        "model"@ != "tools"@,
        "model"@ != "response_format"@,
        "model"@ != "text"@,
        "model"@ != "output_config"@,
        "stream"@ != "messages"@,
        "stream"@ != "input"@,
        "stream"@ != "system"@,
        "stream"@ != "max_tokens"@,
        "stream"@ != "max_completion_tokens"@,
        "stream"@ != "max_output_tokens"@,
        "stream"@ != "stream_options"@,
        "stream"@ != "temperature"@,
        "stream"@ != "seed"@,
        "stream"@ != "parallel_tool_calls"@,
        "stream"@ != "tool_choice"@,
        "stream"@ != "tools"@,
        "stream"@ != "response_format"@,
        "stream"@ != "text"@,
        "stream"@ != "output_config"@,
        "messages"@ != "input"@,
        "messages"@ != "system"@,
        "messages"@ != "max_tokens"@,
        "messages"@ != "max_completion_tokens"@,
        "messages"@ != "max_output_tokens"@,
        "messages"@ != "stream_options"@,
        "messages"@ != "temperature"@,
        "messages"@ != "seed"@,
        "messages"@ != "parallel_tool_calls"@,
        "messages"@ != "tool_choice"@,
        "messages"@ != "tools"@,
        "messages"@ != "response_format"@,
        "messages"@ != "text"@,
        "messages"@ != "output_config"@,
        "input"@ != "system"@,
        "input"@ != "max_tokens"@,
        "input"@ != "max_completion_tokens"@,
        "input"@ != "max_output_tokens"@,
        "input"@ != "stream_options"@,
        "input"@ != "temperature"@,
        "input"@ != "seed"@,
        "input"@ != "parallel_tool_calls"@,
        "input"@ != "tool_choice"@,
        "input"@ != "tools"@,
        "input"@ != "response_format"@,
        "input"@ != "text"@,
        "input"@ != "output_config"@,
        "system"@ != "max_tokens"@,
        "system"@ != "max_completion_tokens"@,
        "system"@ != "max_output_tokens"@,
        "system"@ != "stream_options"@,
        "system"@ != "temperature"@,
        "system"@ != "seed"@,
        "system"@ != "parallel_tool_calls"@,
        "system"@ != "tool_choice"@,
        "system"@ != "tools"@,
        "system"@ != "response_format"@,
        "system"@ != "text"@,
        "system"@ != "output_config"@,
        "max_tokens"@ != "max_completion_tokens"@,
        "max_tokens"@ != "max_output_tokens"@,
        "max_tokens"@ != "stream_options"@,
        "max_tokens"@ != "temperature"@,
        "max_tokens"@ != "seed"@,
        "max_tokens"@ != "parallel_tool_calls"@,
        "max_tokens"@ != "tool_choice"@,
        "max_tokens"@ != "tools"@,
        "max_tokens"@ != "response_format"@,
        "max_tokens"@ != "text"@,
        "max_tokens"@ != "output_config"@,
        "max_completion_tokens"@ != "max_output_tokens"@,
        "max_completion_tokens"@ != "stream_options"@,
        "max_completion_tokens"@ != "temperature"@,
        "max_completion_tokens"@ != "seed"@,
        "max_completion_tokens"@ != "parallel_tool_calls"@,
        "max_completion_tokens"@ != "tool_choice"@,
        "max_completion_tokens"@ != "tools"@,
        "max_completion_tokens"@ != "response_format"@,
        "max_completion_tokens"@ != "text"@,
        "max_completion_tokens"@ != "output_config"@,
        "max_output_tokens"@ != "stream_options"@,
        "max_output_tokens"@ != "temperature"@,
        "max_output_tokens"@ != "seed"@,
        "max_output_tokens"@ != "parallel_tool_calls"@,
        "max_output_tokens"@ != "tool_choice"@,
        "max_output_tokens"@ != "tools"@,
        "max_output_tokens"@ != "response_format"@,
        "max_output_tokens"@ != "text"@,
        "max_output_tokens"@ != "output_config"@,
        "stream_options"@ != "temperature"@,
        "stream_options"@ != "seed"@,
        "stream_options"@ != "parallel_tool_calls"@,
        "stream_options"@ != "tool_choice"@,
        "stream_options"@ != "tools"@,
        "stream_options"@ != "response_format"@,
        "stream_options"@ != "text"@,
        "stream_options"@ != "output_config"@,
        "temperature"@ != "seed"@,
        "temperature"@ != "parallel_tool_calls"@,
        "temperature"@ != "tool_choice"@,
        "temperature"@ != "tools"@,
        "temperature"@ != "response_format"@,
        "temperature"@ != "text"@,
        "temperature"@ != "output_config"@,
        "seed"@ != "parallel_tool_calls"@,
        "seed"@ != "tool_choice"@,
        "seed"@ != "tools"@,
        "seed"@ != "response_format"@,
        "seed"@ != "text"@,
        "seed"@ != "output_config"@,
        "parallel_tool_calls"@ != "tool_choice"@,
        "parallel_tool_calls"@ != "tools"@,
        "parallel_tool_calls"@ != "response_format"@,
        "parallel_tool_calls"@ != "text"@,
        "parallel_tool_calls"@ != "output_config"@,
        "tool_choice"@ != "tools"@,
        "tool_choice"@ != "response_format"@,
        "tool_choice"@ != "text"@,
        "tool_choice"@ != "output_config"@,
        "tools"@ != "response_format"@,
        "tools"@ != "text"@,
        "tools"@ != "output_config"@,
        "response_format"@ != "text"@,
        "response_format"@ != "output_config"@,
        "text"@ != "output_config"@,
{
    reveal_strlit("model");
    reveal_strlit("stream");
    reveal_strlit("messages");
    reveal_strlit("input");
    reveal_strlit("system");
    reveal_strlit("max_tokens");
    reveal_strlit("max_completion_tokens");
    reveal_strlit("max_output_tokens");
    reveal_strlit("stream_options");
    reveal_strlit("temperature");
    reveal_strlit("seed");
    reveal_strlit("parallel_tool_calls");
    reveal_strlit("tool_choice");
    reveal_strlit("tools");
    reveal_strlit("response_format");
    reveal_strlit("text");
    reveal_strlit("output_config");
    assert("model"@.len() == 5);
    assert("stream"@.len() == 6);
    assert("messages"@.len() == 8);
    assert("input"@.len() == 5);
    assert("system"@.len() == 6);
    assert("max_tokens"@.len() == 10);
    assert("max_completion_tokens"@.len() == 21);
    assert("max_output_tokens"@.len() == 17);
    assert("stream_options"@.len() == 14);
    assert("temperature"@.len() == 11);
    assert("seed"@.len() == 4);
    assert("parallel_tool_calls"@.len() == 19);
    assert("tool_choice"@.len() == 11);
    assert("tools"@.len() == 5);
    assert("response_format"@.len() == 15);
    assert("text"@.len() == 4);
    assert("output_config"@.len() == 13);
    assert("model"@[0] != "input"@[0]);
    assert("model"@[0] != "tools"@[0]);
    assert("stream"@[1] != "system"@[1]);
    assert("input"@[0] != "tools"@[0]);
    assert("temperature"@[1] != "tool_choice"@[1]);
    assert("seed"@[0] != "text"@[0]);
}

proof fn tool_keys_differ()
    ensures
        "type"@ != "name"@,
        "type"@ != "description"@,
        "type"@ != "parameters"@,
        "type"@ != "input_schema"@,
        "type"@ != "strict"@,
        "type"@ != "function"@,
        "type"@ != "schema"@,
        "type"@ != "format"@,
        "type"@ != "json_schema"@,
        "type"@ != "disable_parallel_tool_use"@,
        "name"@ != "description"@,
        "name"@ != "parameters"@,
        "name"@ != "input_schema"@,
        "name"@ != "strict"@,
        "name"@ != "function"@,
        "name"@ != "schema"@,
        "name"@ != "format"@,
        "name"@ != "json_schema"@,
        "name"@ != "disable_parallel_tool_use"@,
        "description"@ != "parameters"@,
        "description"@ != "input_schema"@,
        "description"@ != "strict"@,
        "description"@ != "function"@,
        "description"@ != "schema"@,
        "description"@ != "format"@,
        "description"@ != "json_schema"@,
        "description"@ != "disable_parallel_tool_use"@,
        "parameters"@ != "input_schema"@,
        "parameters"@ != "strict"@,
        "parameters"@ != "function"@,
        "parameters"@ != "schema"@,
        "parameters"@ != "format"@,
        "parameters"@ != "json_schema"@,
        "parameters"@ != "disable_parallel_tool_use"@,
        "input_schema"@ != "strict"@,
        "input_schema"@ != "function"@,
        "input_schema"@ != "schema"@,
        "input_schema"@ != "format"@,
        "input_schema"@ != "json_schema"@,
        "input_schema"@ != "disable_parallel_tool_use"@,
        "strict"@ != "function"@,
        "strict"@ != "schema"@,
        "strict"@ != "format"@,
        "strict"@ != "json_schema"@,
        "strict"@ != "disable_parallel_tool_use"@,
        "function"@ != "schema"@,
        "function"@ != "format"@,
        "function"@ != "json_schema"@,
        "function"@ != "disable_parallel_tool_use"@,
        "schema"@ != "format"@,
        "schema"@ != "json_schema"@,
        "schema"@ != "disable_parallel_tool_use"@,
        "format"@ != "json_schema"@,
        "format"@ != "disable_parallel_tool_use"@,
        "json_schema"@ != "disable_parallel_tool_use"@,
{
    reveal_strlit("type");
    reveal_strlit("name");
    reveal_strlit("description");
    reveal_strlit("parameters");
    reveal_strlit("input_schema");
    reveal_strlit("strict");
    reveal_strlit("function");
    reveal_strlit("schema");
    reveal_strlit("format");
    reveal_strlit("json_schema");
    reveal_strlit("disable_parallel_tool_use");
    assert("type"@.len() == 4);
    assert("name"@.len() == 4);
    assert("description"@.len() == 11);
    assert("parameters"@.len() == 10);
    assert("input_schema"@.len() == 12);
    assert("strict"@.len() == 6);
    assert("function"@.len() == 8);
    assert("schema"@.len() == 6);
    assert("format"@.len() == 6);
    assert("json_schema"@.len() == 11);
    assert("disable_parallel_tool_use"@.len() == 25);
    assert("type"@[0] != "name"@[0]);
    assert("description"@[0] != "json_schema"@[0]);
    assert("strict"@[1] != "schema"@[1]);
    assert("strict"@[0] != "format"@[0]);
    assert("schema"@[0] != "format"@[0]);
}

/// A field that was encoded is still there, and keeps what it holds.
proof fn field_kept(value: JsonView, extended: JsonView, key: Seq<char>)
    requires
        kept(value, extended),
        value.has(key),
    ensures
        extended.has(key),
        kept(value.field(key), extended.field(key)),
        !(value.field(key) is Object) ==> extended.get(key) == value.get(key),
{
    let fields = value->Object_0;
    lookup_index(fields, key);
    let j = choose|j: int|
        0 <= j < fields.len() && (#[trigger] fields[j]).0 == key && crate::json::lookup(fields, key)
            == Some(fields[j].1);
    assert(crate::json::lookup(fields, fields[j].0) == Some(fields[j].1));
}

/// The steps of an encoding, up to the options of the request.
struct Steps {
    encoded: Encoded,
    tools: Seq<JsonView>,
    formatted: JsonView,
    tooled: JsonView,
    complete: JsonView,
}

proof fn steps(
    protocol: Protocol,
    model: Seq<char>,
    request: ModelRequest,
    answers: Answers,
) -> (r: Steps)
    requires
        encoded_request(protocol, model, request, answers) is Ok,
    ensures
        encoded_messages(
            protocol,
            request.messages.deep_view(),
            answers.history.deep_view(),
        ) == Ok::<Encoded, ErrorView>(r.encoded),
        tools_json(protocol, request.runtime_tools.deep_view()) is Ok,
        provider_tools_json(
            request.provider_tools.deep_view(),
            answers.tools.deep_view(),
        ) is Ok,
        r.tools == tools_json(protocol, request.runtime_tools.deep_view())->Ok_0
            + provider_tools_json(
            request.provider_tools.deep_view(),
            answers.tools.deep_view(),
        )->Ok_0,
        with_format(
            protocol,
            base_body(protocol, model, request, r.encoded),
            request.response_format.deep_view(),
        ) == Ok::<JsonView, ErrorView>(r.formatted),
        with_tools(protocol, request, r.formatted, r.tools, answers.choice.deep_view()) == Ok::<
            JsonView,
            ErrorView,
        >(r.tooled),
        r.complete == with_generation(protocol, r.tooled, request.profile@),
        r.complete is Object,
        kept(r.complete, encoded_request(protocol, model, request, answers)->Ok_0),
        forall|key: Seq<char>|
            controlled(key) ==> #[trigger] encoded_request(
                protocol,
                model,
                request,
                answers,
            )->Ok_0.get(key) == r.complete.get(key),
{
    let encoded = encoded_messages(
        protocol,
        request.messages.deep_view(),
        answers.history.deep_view(),
    )->Ok_0;
    let tools = tools_json(protocol, request.runtime_tools.deep_view())->Ok_0
        + provider_tools_json(
        request.provider_tools.deep_view(),
        answers.tools.deep_view(),
    )->Ok_0;
    let formatted = with_format(
        protocol,
        base_body(protocol, model, request, encoded),
        request.response_format.deep_view(),
    )->Ok_0;
    let tooled = with_tools(
        protocol,
        request,
        formatted,
        tools,
        answers.choice.deep_view(),
    )->Ok_0;
    let complete = with_generation(protocol, tooled, request.profile@);
    extras_replace_nothing(complete, request.profile.extensions@, protocol);
    Steps { encoded, tools, formatted, tooled, complete }
}

/// The model, the way of answering, and the limits that were set stand in the request. The
/// Messages protocol always has a limit.
pub proof fn settings_are_sent(
    protocol: Protocol,
    model: Seq<char>,
    request: ModelRequest,
    answers: Answers,
    body: JsonView,
)
    requires
        encoded_request(protocol, model, request, answers) == Ok::<JsonView, ErrorView>(body),
    ensures
        body.get_str("model"@) == Some(model),
        body.get("stream"@) == Some(JsonView::Bool(request.stream)),
        request.profile.max_output_tokens matches Some(limit) ==> body.get_u64(
            match protocol {
                Protocol::Chat => "max_completion_tokens"@,
                Protocol::Responses => "max_output_tokens"@,
                Protocol::Messages => "max_tokens"@,
            },
        ) == Some(limit),
        request.profile.max_output_tokens is None && protocol == Protocol::Messages ==> body.get_u64(
            "max_tokens"@,
        ) == Some(4096u64),
        request.profile.seed matches Some(seed) ==> body.get_u64("seed"@) == Some(seed),
        request.profile@.temperature matches Some(value) ==> !(value is Object) ==> body.get(
            "temperature"@,
        ) == Some(value),
        protocol == Protocol::Chat && request.stream ==> body.field("stream_options"@).get(
            "include_usage"@,
        ) == Some(JsonView::Bool(true)),
        request.profile.parallel_runtime_tools matches Some(allowed) ==> protocol
            != Protocol::Messages ==> body.get("parallel_tool_calls"@) == Some(
            JsonView::Bool(allowed),
        ),
{
    broadcast use set_get;

    settings_differ();
    let steps = steps(protocol, model, request, answers);
    let complete = steps.complete;
    field_kept(complete, body, "model"@);
    field_kept(complete, body, "stream"@);
    if complete.has("max_completion_tokens"@) {
        field_kept(complete, body, "max_completion_tokens"@);
    }
    if complete.has("max_output_tokens"@) {
        field_kept(complete, body, "max_output_tokens"@);
    }
    if complete.has("max_tokens"@) {
        field_kept(complete, body, "max_tokens"@);
    }
    if complete.has("seed"@) {
        field_kept(complete, body, "seed"@);
    }
    if complete.has("temperature"@) {
        field_kept(complete, body, "temperature"@);
    }
    if complete.has("parallel_tool_calls"@) {
        field_kept(complete, body, "parallel_tool_calls"@);
    }
    if protocol == Protocol::Chat && request.stream {
        field_kept(complete, body, "stream_options"@);
        field_kept(complete.field("stream_options"@), body.field("stream_options"@), "include_usage"@);
    }
}

/// The encoded conversation stands in the request, and so does what the system said.
pub proof fn the_conversation_is_sent(
    protocol: Protocol,
    model: Seq<char>,
    request: ModelRequest,
    answers: Answers,
    body: JsonView,
)
    requires
        encoded_request(protocol, model, request, answers) == Ok::<JsonView, ErrorView>(body),
    ensures
        encoded_messages(
            protocol,
            request.messages.deep_view(),
            answers.history.deep_view(),
        ) matches Ok(encoded) && {
            &&& body.get_array(
                if protocol == Protocol::Responses {
                    "input"@
                } else {
                    "messages"@
                },
            ) == Some(encoded.messages)
            &&& protocol == Protocol::Messages ==> if encoded.system.len() > 0 {
                body.get_array("system"@) == Some(encoded.system)
            } else {
                !body.has("system"@)
            }
        },
{
    broadcast use set_get;

    settings_differ();
    let steps = steps(protocol, model, request, answers);
    assert(controlled("input"@) && controlled("messages"@) && controlled("system"@));
    assert(body.get("input"@) == steps.complete.get("input"@));
    assert(body.get("messages"@) == steps.complete.get("messages"@));
    assert(body.get("system"@) == steps.complete.get("system"@));
}

/// Whether a value declares a tool.
pub open spec fn declares(protocol: Protocol, value: JsonView, tool: RuntimeToolSpecView) -> bool {
    let holder = if protocol == Protocol::Chat {
        value.field("function"@)
    } else {
        value
    };
    &&& holder.get_str("name"@) == Some(tool.name)
    &&& holder.get_str("description"@) == Some(tool.description)
    &&& match tool.input {
        InputSpecView::Structured(schema) => {
            &&& holder.get(
                if protocol == Protocol::Messages {
                    "input_schema"@
                } else {
                    "parameters"@
                },
            ) == Some(schema)
            &&& protocol != Protocol::Messages ==> value.get_str("type"@) == Some("function"@)
        },
        InputSpecView::Freeform(format) => {
            &&& protocol == Protocol::Responses
            &&& value.get_str("type"@) == Some("custom"@)
            &&& value.get("format"@) == format
        },
    }
}

/// A tool is declared by its name, its description and its schema; one that takes freeform
/// input only in the Responses protocol.
pub proof fn a_tool_is_declared(protocol: Protocol, tool: RuntimeToolSpecView)
    ensures
        match tool_json(protocol, tool) {
            Ok(value) => declares(protocol, value, tool),
            Err(_) => tool.input is Freeform && protocol != Protocol::Responses,
        },
{
    broadcast use set_get;

    tool_keys_differ();
}

/// Whether a value asks for a choice among tools.
pub open spec fn asks_choice(
    protocol: Protocol,
    value: JsonView,
    choice: ToolChoiceView,
    tools: Seq<RuntimeToolSpecView>,
) -> bool {
    match choice {
        ToolChoiceView::Auto => word(protocol, value) == Some("auto"@),
        ToolChoiceView::Forbidden => word(protocol, value) == Some("none"@),
        ToolChoiceView::Required => word(protocol, value) == Some(
            if protocol == Protocol::Messages {
                "any"@
            } else {
                "required"@
            },
        ),
        ToolChoiceView::RuntimeTool(name) => match protocol {
            Protocol::Chat => value.get_str("type"@) == Some("function"@) && value.field(
                "function"@,
            ).get_str("name"@) == Some(name),
            Protocol::Responses => value.get_str("name"@) == Some(name) && (value.get_str("type"@)
                == Some("custom"@) <==> exists|i: int|
                0 <= i < tools.len() && (#[trigger] tools[i]).name == name
                    && tools[i].input is Freeform) && (value.get_str("type"@) == Some("custom"@)
                || value.get_str("type"@) == Some("function"@)),
            Protocol::Messages => value.get_str("type"@) == Some("tool"@) && value.get_str("name"@)
                == Some(name),
        },
        ToolChoiceView::ProviderTool { .. } => true,
    }
}

/// The word of a choice: the value itself, or its type in the Messages protocol.
pub open spec fn word(protocol: Protocol, value: JsonView) -> Option<Seq<char>> {
    if protocol == Protocol::Messages {
        value.get_str("type"@)
    } else {
        value.as_str()
    }
}

proof fn a_choice_is_asked(
    protocol: Protocol,
    choice: ToolChoiceView,
    tools: Seq<RuntimeToolSpecView>,
)
    requires
        !(choice is ProviderTool),
    ensures
        choice_json(protocol, choice, tools) matches Ok(value) && asks_choice(
            protocol,
            value,
            choice,
            tools,
        ) && (protocol == Protocol::Messages ==> value is Object),
{
    broadcast use set_get;

    tool_keys_differ();
    reveal_strlit("custom");
    reveal_strlit("function");
    assert("custom"@.len() != "function"@.len());
}

/// All tools are offered: those of the runtime as they are declared, in order, and behind them
/// those of providers as their adapters declare them. The choice among them is asked for as
/// it was made, unless the Messages protocol says more beside it; a provider's tool is
/// selected as its adapter says. Without tools there is nothing to choose.
pub proof fn tools_are_offered(
    protocol: Protocol,
    model: Seq<char>,
    request: ModelRequest,
    answers: Answers,
    body: JsonView,
)
    requires
        encoded_request(protocol, model, request, answers) == Ok::<JsonView, ErrorView>(body),
    ensures
        ({
            let own = request.runtime_tools.deep_view();
            let others = request.provider_tools.deep_view();
            let choice = request.tool_choice@;
            let plain = request.profile.parallel_runtime_tools is None || protocol
                != Protocol::Messages;
            if own.len() + others.len() == 0 {
                !body.has("tools"@) && !body.has("tool_choice"@)
            } else {
                &&& body.get_array("tools"@) matches Some(tools) && {
                    &&& tools.len() == own.len() + others.len()
                    &&& forall|i: int|
                        0 <= i < own.len() ==> declares(protocol, #[trigger] tools[i], own[i])
                    &&& forall|i: int|
                        #![trigger tools[own.len() + i]]
                        0 <= i < others.len() ==> answer_at(answers.tools.deep_view(), i)
                            == AnswerView::Claimed(tools[own.len() + i])
                }
                &&& body.has("tool_choice"@)
                &&& plain ==> asks_choice(protocol, body.field("tool_choice"@), choice, own)
                &&& plain && choice is ProviderTool ==> answers.choice.deep_view() == AnswerView::Claimed(
                    body.field("tool_choice"@),
                )
            }
        }),
{
    broadcast use set_get;

    settings_differ();
    let steps = steps(protocol, model, request, answers);
    let own = request.runtime_tools.deep_view();
    let others = request.provider_tools.deep_view();
    let choice = request.tool_choice@;
    assert(controlled("tools"@) && controlled("tool_choice"@));
    assert(body.get("tools"@) == steps.complete.get("tools"@));
    assert(body.get("tool_choice"@) == steps.complete.get("tool_choice"@));
    let results = own.map_values(|s: RuntimeToolSpecView| tool_json(protocol, s));
    let more = Seq::new(
        others.len(),
        |i: int| provider_tool_json(others[i], answer_at(answers.tools.deep_view(), i)),
    );
    all_ok_each(results);
    all_ok_each(more);
    let tools = steps.tools;
    assert(tools.len() == own.len() + others.len());
    assert forall|i: int| 0 <= i < own.len() implies declares(
        protocol,
        #[trigger] tools[i],
        own[i],
    ) by {
        assert(results[i] == Ok::<JsonView, ErrorView>(tools[i]));
        a_tool_is_declared(protocol, own[i]);
    }
    assert forall|i: int|
        #![trigger tools[own.len() + i]]
        0 <= i < others.len() implies answer_at(answers.tools.deep_view(), i)
        == AnswerView::Claimed(tools[own.len() + i]) by {
        assert(more[i] == Ok::<JsonView, ErrorView>(tools[own.len() + i]));
    }
    if !(choice is ProviderTool) {
        a_choice_is_asked(protocol, choice, own);
    }
    if tools.len() > 0 {
        assert(steps.tooled.get("tools"@) == Some(JsonView::Array(tools)));
    }
}

/// Whether tools may be called in parallel is said beside the choice in the Messages protocol,
/// as the opposite.
pub proof fn parallel_calls_are_settled(
    model: Seq<char>,
    request: ModelRequest,
    answers: Answers,
    body: JsonView,
    allowed: bool,
)
    requires
        encoded_request(Protocol::Messages, model, request, answers) == Ok::<JsonView, ErrorView>(
            body,
        ),
        request.profile.parallel_runtime_tools == Some(allowed),
        !(request.tool_choice@ is ProviderTool),
    ensures
        body.has("tools"@) ==> {
            &&& body.field("tool_choice"@).get("disable_parallel_tool_use"@) == Some(
                JsonView::Bool(!allowed),
            )
            &&& asks_choice(
                Protocol::Messages,
                body.field("tool_choice"@),
                request.tool_choice@,
                request.runtime_tools.deep_view(),
            )
        },
{
    broadcast use set_get;

    settings_differ();
    tool_keys_differ();
    let steps = steps(Protocol::Messages, model, request, answers);
    assert(controlled("tools"@) && controlled("tool_choice"@));
    assert(body.get("tools"@) == steps.complete.get("tools"@));
    assert(body.get("tool_choice"@) == steps.complete.get("tool_choice"@));
    a_choice_is_asked(
        Protocol::Messages,
        request.tool_choice@,
        request.runtime_tools.deep_view(),
    );
}

/// Whether a value asks for a schema.
pub open spec fn asks_schema(value: JsonView, name: Seq<char>, schema: JsonView) -> bool {
    &&& value.get_str("name"@) == Some(name)
    &&& value.get("schema"@) == Some(schema)
    &&& value.get("strict"@) == Some(JsonView::Bool(true))
}

/// The format of the answer is asked for where the protocol looks for it: any JSON, or JSON
/// of a schema. The Messages protocol takes no JSON without a schema.
pub proof fn a_format_is_asked_for(
    protocol: Protocol,
    model: Seq<char>,
    request: ModelRequest,
    encoded: Encoded,
    format: ResponseFormatView,
)
    ensures
        match with_format(protocol, base_body(protocol, model, request, encoded), Some(format)) {
            Ok(body) => match (protocol, format) {
                (Protocol::Chat, ResponseFormatView::Json) => body.field(
                    "response_format"@,
                ).get_str("type"@) == Some("json_object"@),
                (Protocol::Responses, ResponseFormatView::Json) => body.field("text"@).field(
                    "format"@,
                ).get_str("type"@) == Some("json_object"@),
                (Protocol::Messages, ResponseFormatView::Json) => false,
                (Protocol::Chat, ResponseFormatView::Schema { name, schema }) => body.field(
                    "response_format"@,
                ).get_str("type"@) == Some("json_schema"@) && asks_schema(
                    body.field("response_format"@).field("json_schema"@),
                    name,
                    schema,
                ),
                (Protocol::Responses, ResponseFormatView::Schema { name, schema }) => body.field(
                    "text"@,
                ).field("format"@).get_str("type"@) == Some("json_schema"@) && asks_schema(
                    body.field("text"@).field("format"@),
                    name,
                    schema,
                ),
                (Protocol::Messages, ResponseFormatView::Schema { name, schema }) => body.field(
                    "output_config"@,
                ).field("format"@).get_str("type"@) == Some("json_schema"@) && body.field(
                    "output_config"@,
                ).field("format"@).get("schema"@) == Some(schema),
            },
            Err(_) => protocol == Protocol::Messages && format is Json,
        },
{
    broadcast use set_get;

    settings_differ();
    tool_keys_differ();
}

/// The format that was asked for is part of the request.
pub proof fn the_format_is_sent(
    protocol: Protocol,
    model: Seq<char>,
    request: ModelRequest,
    answers: Answers,
    body: JsonView,
)
    requires
        encoded_request(protocol, model, request, answers) == Ok::<JsonView, ErrorView>(body),
        request.response_format.deep_view() is Some,
    ensures
        ({
            let key = match protocol {
                Protocol::Chat => "response_format"@,
                Protocol::Responses => "text"@,
                Protocol::Messages => "output_config"@,
            };
            exists|encoded: Encoded|
                kept(
                    (#[trigger] with_format(
                        protocol,
                        base_body(protocol, model, request, encoded),
                        request.response_format.deep_view(),
                    ))->Ok_0.field(key),
                    body.field(key),
                )
        }),
{
    broadcast use set_get;

    settings_differ();
    let steps = steps(protocol, model, request, answers);
    let key = match protocol {
        Protocol::Chat => "response_format"@,
        Protocol::Responses => "text"@,
        Protocol::Messages => "output_config"@,
    };
    assert(steps.formatted.has(key));
    assert(steps.tooled.get(key) == steps.formatted.get(key));
    assert(steps.complete.get(key) == steps.tooled.get(key));
    field_kept(steps.complete, body, key);
    let formatted = with_format(
        protocol,
        base_body(protocol, model, request, steps.encoded),
        request.response_format.deep_view(),
    );
    assert(kept(formatted->Ok_0.field(key), body.field(key)));
}

/// A provider's tool is selected only where it is offered.
pub proof fn only_offered_tools_are_selected(
    protocol: Protocol,
    model: Seq<char>,
    request: ModelRequest,
    answers: Answers,
    body: JsonView,
    provider: Seq<char>,
    name: Seq<char>,
)
    requires
        encoded_request(protocol, model, request, answers) == Ok::<JsonView, ErrorView>(body),
        request.tool_choice@ == (ToolChoiceView::ProviderTool { provider, name }),
        body.has("tools"@),
    ensures
        ({
            let tools = request.provider_tools.deep_view();
            exists|i: int|
                0 <= i < tools.len() && (#[trigger] tools[i]).provider == provider && tools[i].name
                    == name
        }),
{
    broadcast use set_get;

    settings_differ();
    let steps = steps(protocol, model, request, answers);
    assert(controlled("tools"@));
    assert(body.get("tools"@) == steps.complete.get("tools"@));
    if steps.tools.len() == 0 {
        assert(!steps.formatted.has("tools"@));
        assert(!steps.complete.has("tools"@));
    }
}

} // verus!
