//! Encoding of requests.
use crate::codec::content::{
    call_input, call_text, content, content_json, outcome_content, outcome_parts, part, parts,
    parts_json, result_content, result_json, make_part,
};
use crate::codec::merge::{add_extras, with_extras};
use crate::codec::replay::{
    assistant_replay, assistant_replayed, extend, history, holds, provider_history,
};
use crate::error::{
    all_ok, all_ok_step, fold_ok, fold_ok_step, invalid, seen, Error, ErrorView,
};
use crate::extension::{answer_at, Answer, AnswerView};
use crate::json::{Json, JsonView};
use crate::message::{
    Message, MessageView, Output, OutputView, RuntimeToolCall, RuntimeToolCallView,
    RuntimeToolInput, RuntimeToolInputView, RuntimeToolOutcome, RuntimeToolOutcomeView,
};
use crate::model::{
    InputSpec, InputSpecView, ModelRequest, ProfileView, Protocol, ProviderToolSpec,
    ProviderToolSpecView, ResponseFormat, ResponseFormatView, RuntimeToolSpec, RuntimeToolSpecView,
    ToolChoice, ToolChoiceView,
};
use crate::text::{join4, same};
use vstd::prelude::*;

verus! {

/// What the extension of an exchange answered while its request was encoded: of each
/// provider tool, of the selected one, and, per message, of each provider call in the order
/// in which it is encoded. What is missing was not claimed.
#[derive(Debug, PartialEq, Eq)]
pub struct Answers {
    pub tools: Vec<Answer<Json>>,
    pub choice: Answer<Json>,
    pub history: Vec<Vec<Answer<Vec<Json>>>>,
}

pub type History = Seq<AnswerView<Seq<JsonView>>>;

/// The answers of one message.
pub open spec fn history_at(history: Seq<History>, i: int) -> History {
    if 0 <= i < history.len() {
        history[i]
    } else {
        Seq::empty()
    }
}

// ---------------------------------------------------------------------------------------
// Assistant messages
// ---------------------------------------------------------------------------------------
/// An assistant message while it is assembled. `asked` counts the answers that were used.
pub struct Assembled {
    pub values: Seq<JsonView>,
    pub contents: Seq<JsonView>,
    pub calls: Seq<JsonView>,
    pub asked: nat,
}

pub open spec fn function_object(name: Seq<char>, arguments: Seq<char>) -> JsonView {
    JsonView::empty().set("name"@, JsonView::text(name)).set(
        "arguments"@,
        JsonView::text(arguments),
    )
}

/// A call in a Chat message.
pub open spec fn chat_call_json(call: RuntimeToolCallView) -> JsonView {
    part("function"@, "id"@, JsonView::text(call.id)).set(
        "function"@,
        function_object(call.name, call_text(call)),
    )
}

/// A call as an item of a Responses input.
pub open spec fn responses_call_json(call: RuntimeToolCallView) -> JsonView {
    match call.input {
        RuntimeToolInputView::Structured(_) => part(
            "function_call"@,
            "call_id"@,
            JsonView::text(call.id),
        ).set("name"@, JsonView::text(call.name)).set(
            "arguments"@,
            JsonView::text(call_text(call)),
        ),
        RuntimeToolInputView::Freeform(input) => part(
            "custom_tool_call"@,
            "call_id"@,
            JsonView::text(call.id),
        ).set("name"@, JsonView::text(call.name)).set("input"@, JsonView::text(input)),
    }
}

/// A call as an item of a Messages content.
pub open spec fn tool_use_json(call: RuntimeToolCallView, input: JsonView) -> JsonView {
    part("tool_use"@, "id"@, JsonView::text(call.id)).set("name"@, JsonView::text(call.name)).set(
        "input"@,
        input,
    )
}

/// A content part as a message of its own in a Responses input.
pub open spec fn responses_message(value: JsonView) -> JsonView {
    part("message"@, "role"@, JsonView::text("assistant"@)).set(
        "content"@,
        JsonView::Array(seq![value]),
    )
}

pub open spec fn with_value(state: Assembled, value: JsonView) -> Assembled {
    Assembled { values: state.values.push(value), ..state }
}

pub open spec fn assembled_call(
    protocol: Protocol,
    state: Assembled,
    call: RuntimeToolCallView,
) -> Result<Assembled, ErrorView> {
    match protocol {
        Protocol::Chat => Ok(
            Assembled { calls: state.calls.push(chat_call_json(call)), ..state },
        ),
        Protocol::Responses => Ok(with_value(state, responses_call_json(call))),
        Protocol::Messages => match call.input {
            RuntimeToolInputView::Structured(input) => Ok(
                with_value(state, tool_use_json(call, input)),
            ),
            RuntimeToolInputView::Freeform(_) => Err(
                ErrorView::Invalid("Anthropic requires structured tools"@),
            ),
        },
    }
}

pub open spec fn assembled_item(
    protocol: Protocol,
    answers: History,
    state: Assembled,
    item: OutputView,
) -> Result<Assembled, ErrorView> {
    match item {
        OutputView::Content(c) => match content_json(protocol, c, true) {
            Err(e) => Err(e),
            Ok(value) => Ok(
                match protocol {
                    Protocol::Chat => Assembled { contents: state.contents.push(value), ..state },
                    Protocol::Responses => with_value(state, responses_message(value)),
                    Protocol::Messages => with_value(state, value),
                },
            ),
        },
        OutputView::RuntimeToolCall(call) => assembled_call(protocol, state, call),
        OutputView::ProviderToolCall(call) => match history(
            call,
            answer_at(answers, state.asked as int),
        ) {
            Err(e) => Err(e),
            Ok(more) => Ok(
                Assembled { values: state.values + more, asked: state.asked + 1, ..state },
            ),
        },
        OutputView::Delegation { .. } => Err(
            ErrorView::Invalid("protocol does not accept delegation calls"@),
        ),
    }
}

pub open spec fn assembled_step(protocol: Protocol, answers: History) -> spec_fn(
    Assembled,
    OutputView,
) -> Result<Assembled, ErrorView> {
    |state: Assembled, item: OutputView| assembled_item(protocol, answers, state, item)
}

pub open spec fn nothing_assembled() -> Assembled {
    Assembled {
        values: Seq::empty(),
        contents: Seq::empty(),
        calls: Seq::empty(),
        asked: 0,
    }
}

/// The message of a Chat request that holds content and calls.
pub open spec fn chat_message(contents: Seq<JsonView>, calls: Seq<JsonView>) -> JsonView {
    let message = JsonView::empty().set("role"@, JsonView::text("assistant"@)).set(
        "content"@,
        JsonView::Array(contents),
    );
    if calls.len() == 0 {
        message
    } else {
        message.set("tool_calls"@, JsonView::Array(calls))
    }
}

/// An assistant message that is not replayed.
pub open spec fn assistant_json(
    protocol: Protocol,
    output: Seq<OutputView>,
    answers: History,
) -> Result<Seq<JsonView>, ErrorView> {
    match fold_ok(output, nothing_assembled(), assembled_step(protocol, answers)) {
        Err(e) => Err(e),
        Ok(state) => Ok(
            match protocol {
                Protocol::Chat => state.values.push(chat_message(state.contents, state.calls)),
                _ => state.values,
            },
        ),
    }
}

/// An assistant message: replayed where its data allows it, else assembled.
pub open spec fn assistant_values(
    protocol: Protocol,
    output: Seq<OutputView>,
    data: JsonView,
    answers: History,
) -> Result<Seq<JsonView>, ErrorView> {
    match assistant_replayed(protocol, output, data, answers) {
        Err(e) => Err(e),
        Ok(Some(values)) => Ok(values),
        Ok(None) => assistant_json(protocol, output, answers),
    }
}

fn call_json(call: &RuntimeToolCall) -> (r: Json)
    ensures
        r@ == chat_call_json(call@),
{
    let arguments = call_input(call);
    let function = Json::empty().with_text("name", call.name.as_str()).with_text(
        "arguments",
        arguments.as_str(),
    );
    make_part("function", "id", Json::text(call.id.as_str())).with("function", function)
}

fn call_item(call: &RuntimeToolCall) -> (r: Json)
    ensures
        r@ == responses_call_json(call@),
{
    match &call.input {
        RuntimeToolInput::Structured(_) => {
            let arguments = call_input(call);
            make_part("function_call", "call_id", Json::text(call.id.as_str())).with_text(
                "name",
                call.name.as_str(),
            ).with_text("arguments", arguments.as_str())
        },
        RuntimeToolInput::Freeform(input) => make_part(
            "custom_tool_call",
            "call_id",
            Json::text(call.id.as_str()),
        ).with_text("name", call.name.as_str()).with_text("input", input.as_str()),
    }
}

fn singleton(value: Json) -> (r: Json)
    ensures
        r@ == JsonView::Array(seq![value@]),
{
    let mut items: Vec<Json> = Vec::new();
    items.push(value);
    assert(items.deep_view() =~= seq![value@]);
    Json::array(items)
}

/// An assistant message while it is assembled.
pub(crate) struct Assembly {
    values: Vec<Json>,
    contents: Vec<Json>,
    calls: Vec<Json>,
    asked: usize,
}

impl View for Assembly {
    type V = Assembled;

    closed spec fn view(&self) -> Assembled {
        Assembled {
            values: self.values.deep_view(),
            contents: self.contents.deep_view(),
            calls: self.calls.deep_view(),
            asked: self.asked as nat,
        }
    }
}

fn push_value(values: &mut Vec<Json>, value: Json)
    ensures
        final(values).deep_view() == old(values).deep_view().push(value@),
{
    let ghost before = values.deep_view();
    values.push(value);
    assert(values.deep_view() =~= before.push(value@));
}

impl Assembly {
    pub(crate) fn new() -> (r: Assembly)
        ensures
            r@ == nothing_assembled(),
    {
        let r = Assembly {
            values: Vec::new(),
            contents: Vec::new(),
            calls: Vec::new(),
            asked: 0,
        };
        assert(r@.values =~= Seq::empty());
        assert(r@.contents =~= Seq::empty());
        assert(r@.calls =~= Seq::empty());
        r
    }

    /// Adds one output item.
    pub(crate) fn add_item(
        &mut self,
        protocol: Protocol,
        item: &Output,
        answers: &Vec<Answer<Vec<Json>>>,
    ) -> (r: Result<(), Error>)
        requires
            old(self)@.asked < usize::MAX,
        ensures
            match assembled_item(protocol, answers.deep_view(), old(self)@, item@) {
                Ok(state) => r is Ok && final(self)@ == state,
                Err(e) => r is Err && r->Err_0@ == e,
            },
    {
        match item {
            Output::Content(c) => {
                let value = content(protocol, c, true)?;
                match protocol {
                    Protocol::Chat => push_value(&mut self.contents, value),
                    Protocol::Responses => {
                        let message = make_part("message", "role", Json::text("assistant")).with(
                            "content",
                            singleton(value),
                        );
                        push_value(&mut self.values, message);
                    },
                    Protocol::Messages => push_value(&mut self.values, value),
                }
            },
            Output::RuntimeToolCall(call) => match protocol {
                Protocol::Chat => push_value(&mut self.calls, call_json(call)),
                Protocol::Responses => push_value(&mut self.values, call_item(call)),
                Protocol::Messages => match &call.input {
                    RuntimeToolInput::Structured(input) => {
                        let item = make_part(
                            "tool_use",
                            "id",
                            Json::text(call.id.as_str()),
                        ).with_text("name", call.name.as_str()).with("input", input.clone());
                        push_value(&mut self.values, item);
                    },
                    RuntimeToolInput::Freeform(_) => {
                        return Err(invalid("Anthropic requires structured tools"));
                    },
                },
            },
            Output::ProviderToolCall(call) => {
                provider_history(call, answers, self.asked, &mut self.values)?;
                self.asked += 1;
            },
            Output::Delegation { .. } => {
                return Err(invalid("protocol does not accept delegation calls"));
            },
        }
        Ok(())
    }
}

/// Encodes an assistant message that is not replayed.
pub fn assistant(protocol: Protocol, output: &Vec<Output>, answers: &Vec<Answer<Vec<Json>>>) -> (r:
    Result<Vec<Json>, Error>)
    ensures
        seen(r) == assistant_json(protocol, output.deep_view(), answers.deep_view()),
{
    let ghost all = output.deep_view();
    let ghost step = assembled_step(protocol, answers.deep_view());
    let ghost start = nothing_assembled();
    let mut state = Assembly::new();
    let mut i: usize = 0;
    assert(all.take(0) =~= Seq::empty());
    while i < output.len()
        invariant
            i <= output@.len(),
            state@.asked <= i,
            all == output.deep_view(),
            start == nothing_assembled(),
            step == assembled_step(protocol, answers.deep_view()),
            fold_ok(all.take(i as int), start, step) == Ok::<Assembled, ErrorView>(state@),
        decreases output@.len() - i,
    {
        proof {
            fold_ok_step(all, start, step, i as int);
            assert(all[i as int] == output@[i as int]@);
            assert(step(state@, all[i as int]) == assembled_item(
                protocol,
                answers.deep_view(),
                state@,
                all[i as int],
            ));
        }
        state.add_item(protocol, &output[i], answers)?;
        i += 1;
    }
    assert(all.take(all.len() as int) =~= all);
    let Assembly { mut values, contents, calls, asked: _ } = state;
    match protocol {
        Protocol::Chat => {
            assert(calls.deep_view().len() == calls@.len());
            let mut message = Json::empty().with_text("role", "assistant").with(
                "content",
                Json::array(contents),
            );
            if calls.len() > 0 {
                message = message.with("tool_calls", Json::array(calls));
            }
            push_value(&mut values, message);
        },
        _ => {},
    }
    Ok(values)
}

// ---------------------------------------------------------------------------------------
// Messages
// ---------------------------------------------------------------------------------------
/// A request while its messages are encoded: the messages, tool results that wait to be
/// grouped, the system parts, and the ids of freeform calls.
pub struct Encoded {
    pub messages: Seq<JsonView>,
    pub results: Seq<JsonView>,
    pub system: Seq<JsonView>,
    pub freeform: Seq<Seq<char>>,
}

pub open spec fn role_message(role: Seq<char>, values: Seq<JsonView>) -> JsonView {
    JsonView::empty().set("role"@, JsonView::text(role)).set("content"@, JsonView::Array(values))
}

/// The tool results that wait become one user message.
pub open spec fn flushed(state: Encoded) -> Encoded {
    if state.results.len() == 0 {
        state
    } else {
        Encoded {
            messages: state.messages.push(role_message("user"@, state.results)),
            results: Seq::empty(),
            ..state
        }
    }
}

/// The ids of the freeform calls of an output, in order.
pub open spec fn freeform_ids(output: Seq<OutputView>) -> Seq<Seq<char>>
    decreases output.len(),
{
    if output.len() == 0 {
        Seq::empty()
    } else {
        match output.last() {
            OutputView::RuntimeToolCall(call) => if call.input is Freeform {
                freeform_ids(output.drop_last()).push(call.id)
            } else {
                freeform_ids(output.drop_last())
            },
            _ => freeform_ids(output.drop_last()),
        }
    }
}

/// A tool result of the Messages protocol.
pub open spec fn tool_result(
    call_id: Seq<char>,
    values: Seq<JsonView>,
    outcome: RuntimeToolOutcomeView,
) -> JsonView {
    part("tool_result"@, "tool_use_id"@, JsonView::text(call_id)).set(
        "content"@,
        JsonView::Array(values),
    ).set("is_error"@, JsonView::Bool(outcome is Failure))
}

pub open spec fn encoded_result(
    protocol: Protocol,
    state: Encoded,
    call_id: Seq<char>,
    outcome: RuntimeToolOutcomeView,
) -> Result<Encoded, ErrorView> {
    match protocol {
        Protocol::Messages => match parts_json(protocol, outcome_content(outcome), false) {
            Err(e) => Err(e),
            Ok(values) => Ok(
                Encoded {
                    results: state.results.push(tool_result(call_id, values, outcome)),
                    ..state
                },
            ),
        },
        Protocol::Chat => match result_json(protocol, outcome) {
            Err(e) => Err(e),
            Ok(value) => Ok(
                Encoded {
                    messages: state.messages.push(
                        JsonView::empty().set("role"@, JsonView::text("tool"@)).set(
                            "tool_call_id"@,
                            JsonView::text(call_id),
                        ).set("content"@, value),
                    ),
                    ..state
                },
            ),
        },
        Protocol::Responses => match result_json(protocol, outcome) {
            Err(e) => Err(e),
            Ok(value) => Ok(
                Encoded {
                    messages: state.messages.push(
                        part(
                            if state.freeform.contains(call_id) {
                                "custom_tool_call_output"@
                            } else {
                                "function_call_output"@
                            },
                            "call_id"@,
                            JsonView::text(call_id),
                        ).set("output"@, value),
                    ),
                    ..state
                },
            ),
        },
    }
}

pub open spec fn encoded_role(
    protocol: Protocol,
    state: Encoded,
    role: Seq<char>,
    contents: Seq<crate::message::ContentView>,
) -> Result<Encoded, ErrorView> {
    match parts_json(protocol, contents, false) {
        Err(e) => Err(e),
        Ok(values) => Ok(
            Encoded { messages: state.messages.push(role_message(role, values)), ..state },
        ),
    }
}

/// Encodes one message.
pub open spec fn encoded_message(
    protocol: Protocol,
    state: Encoded,
    message: MessageView,
    answers: History,
) -> Result<Encoded, ErrorView> {
    let ready = if message is RuntimeTool {
        state
    } else {
        flushed(state)
    };
    match message {
        MessageView::DelegationResult { .. } => Err(
            ErrorView::Invalid("protocol does not accept delegation history"@),
        ),
        MessageView::System(contents) => if protocol == Protocol::Messages {
            match parts_json(protocol, contents, false) {
                Err(e) => Err(e),
                Ok(values) => Ok(Encoded { system: ready.system + values, ..ready }),
            }
        } else {
            encoded_role(protocol, ready, "system"@, contents)
        },
        MessageView::User(contents) => encoded_role(protocol, ready, "user"@, contents),
        MessageView::External(contents) => encoded_role(protocol, ready, "user"@, contents),
        MessageView::Assistant { output, provider_data } => match assistant_values(
            protocol,
            output,
            provider_data,
            answers,
        ) {
            Err(e) => Err(e),
            Ok(values) => Ok(
                Encoded {
                    messages: if protocol == Protocol::Messages {
                        ready.messages.push(role_message("assistant"@, values))
                    } else {
                        ready.messages + values
                    },
                    freeform: ready.freeform + freeform_ids(output),
                    ..ready
                },
            ),
        },
        MessageView::RuntimeTool { call_id, outcome } => encoded_result(
            protocol,
            ready,
            call_id,
            outcome,
        ),
    }
}

pub open spec fn encoded_step(protocol: Protocol) -> spec_fn(
    Encoded,
    (MessageView, History),
) -> Result<Encoded, ErrorView> {
    |state: Encoded, item: (MessageView, History)|
        encoded_message(protocol, state, item.0, item.1)
}

pub open spec fn with_history(messages: Seq<MessageView>, history: Seq<History>) -> Seq<
    (MessageView, History),
> {
    Seq::new(messages.len(), |i: int| (messages[i], history_at(history, i)))
}

pub open spec fn nothing_encoded() -> Encoded {
    Encoded {
        messages: Seq::empty(),
        results: Seq::empty(),
        system: Seq::empty(),
        freeform: Seq::empty(),
    }
}

/// Encodes all messages; no tool result is left waiting.
pub open spec fn encoded_messages(
    protocol: Protocol,
    messages: Seq<MessageView>,
    history: Seq<History>,
) -> Result<Encoded, ErrorView> {
    match fold_ok(with_history(messages, history), nothing_encoded(), encoded_step(protocol)) {
        Err(e) => Err(e),
        Ok(state) => Ok(flushed(state)),
    }
}

/// A request while its messages are encoded.
pub(crate) struct Writer {
    messages: Vec<Json>,
    results: Vec<Json>,
    system: Vec<Json>,
    freeform: Vec<String>,
}

impl View for Writer {
    type V = Encoded;

    closed spec fn view(&self) -> Encoded {
        Encoded {
            messages: self.messages.deep_view(),
            results: self.results.deep_view(),
            system: self.system.deep_view(),
            freeform: self.freeform.deep_view(),
        }
    }
}

fn make_role_message(role: &str, values: Vec<Json>) -> (r: Json)
    ensures
        r@ == role_message(role@, values.deep_view()),
{
    Json::empty().with_text("role", role).with("content", Json::array(values))
}

/// Turns the tool results that wait into one user message.
pub fn flush_results(messages: &mut Vec<Json>, results: &mut Vec<Json>)
    ensures
        final(results)@.len() == 0,
        final(messages).deep_view() == (if old(results)@.len() == 0 {
            old(messages).deep_view()
        } else {
            old(messages).deep_view().push(role_message("user"@, old(results).deep_view()))
        }),
{
    if results.len() > 0 {
        let mut taken: Vec<Json> = Vec::new();
        std::mem::swap(&mut taken, results);
        push_value(messages, make_role_message("user", taken));
    }
}

fn note_freeform(output: &Vec<Output>, freeform: &mut Vec<String>)
    ensures
        final(freeform).deep_view() == old(freeform).deep_view() + freeform_ids(
            output.deep_view(),
        ),
{
    let ghost all = output.deep_view();
    let ghost start = freeform.deep_view();
    let mut i: usize = 0;
    assert(all.take(0) =~= Seq::empty());
    assert(start + freeform_ids(all.take(0)) =~= start);
    while i < output.len()
        invariant
            i <= output@.len(),
            all == output.deep_view(),
            freeform.deep_view() == start + freeform_ids(all.take(i as int)),
        decreases output@.len() - i,
    {
        proof {
            assert(all.take(i + 1).drop_last() =~= all.take(i as int));
            assert(all.take(i + 1).last() == output@[i as int]@);
        }
        let ghost before = freeform.deep_view();
        match &output[i] {
            Output::RuntimeToolCall(call) => match &call.input {
                RuntimeToolInput::Freeform(_) => {
                    freeform.push(call.id.clone());
                    assert(freeform.deep_view() =~= before.push(call.id@));
                    assert(freeform.deep_view() =~= start + freeform_ids(all.take(i + 1)));
                },
                _ => {},
            },
            _ => {},
        }
        i += 1;
    }
    assert(all.take(all.len() as int) =~= all);
}

impl Writer {
    pub(crate) fn new() -> (r: Writer)
        ensures
            r@ == nothing_encoded(),
    {
        let r = Writer {
            messages: Vec::new(),
            results: Vec::new(),
            system: Vec::new(),
            freeform: Vec::new(),
        };
        assert(r@.messages =~= Seq::empty());
        assert(r@.results =~= Seq::empty());
        assert(r@.system =~= Seq::empty());
        assert(r@.freeform =~= Seq::empty());
        r
    }

    fn role(&mut self, protocol: Protocol, role: &str, contents: &Vec<crate::message::Content>) -> (r:
        Result<(), Error>)
        ensures
            match encoded_role(protocol, old(self)@, role@, contents.deep_view()) {
                Ok(state) => r is Ok && final(self)@ == state,
                Err(e) => r is Err && r->Err_0@ == e,
            },
    {
        let values = parts(protocol, contents, false)?;
        push_value(&mut self.messages, make_role_message(role, values));
        Ok(())
    }

    fn result(&mut self, protocol: Protocol, call_id: &str, outcome: &RuntimeToolOutcome) -> (r:
        Result<(), Error>)
        ensures
            match encoded_result(protocol, old(self)@, call_id@, outcome@) {
                Ok(state) => r is Ok && final(self)@ == state,
                Err(e) => r is Err && r->Err_0@ == e,
            },
    {
        match protocol {
            Protocol::Messages => {
                let values = outcome_parts(protocol, outcome)?;
                let failed = match outcome {
                    RuntimeToolOutcome::Failure { .. } => true,
                    _ => false,
                };
                let item = make_part("tool_result", "tool_use_id", Json::text(call_id)).with(
                    "content",
                    Json::array(values),
                ).with("is_error", Json::Bool(failed));
                push_value(&mut self.results, item);
            },
            Protocol::Chat => {
                let value = result_content(protocol, outcome)?;
                let item = Json::empty().with_text("role", "tool").with_text(
                    "tool_call_id",
                    call_id,
                ).with("content", value);
                push_value(&mut self.messages, item);
            },
            Protocol::Responses => {
                let value = result_content(protocol, outcome)?;
                let kind = if holds(&self.freeform, call_id) {
                    "custom_tool_call_output"
                } else {
                    "function_call_output"
                };
                let item = make_part(kind, "call_id", Json::text(call_id)).with("output", value);
                push_value(&mut self.messages, item);
            },
        }
        Ok(())
    }

    fn flush(&mut self)
        ensures
            final(self)@ == flushed(old(self)@),
    {
        assert(self.results.deep_view().len() == self.results@.len());
        flush_results(&mut self.messages, &mut self.results);
        assert(self.results.deep_view() =~= Seq::empty());
        assert(old(self).results@.len() == 0 ==> old(self).results.deep_view() =~= Seq::empty());
    }

    pub(crate) fn message(
        &mut self,
        protocol: Protocol,
        message: &Message,
        answers: &Vec<Answer<Vec<Json>>>,
    ) -> (r: Result<(), Error>)
        ensures
            match encoded_message(protocol, old(self)@, message@, answers.deep_view()) {
                Ok(state) => r is Ok && final(self)@ == state,
                Err(e) => r is Err && r->Err_0@ == e,
            },
    {
        match message {
            Message::RuntimeTool { call_id, outcome } => {
                return self.result(protocol, call_id.as_str(), outcome);
            },
            _ => {},
        }
        self.flush();
        match message {
            Message::DelegationResult { .. } => Err(
                invalid("protocol does not accept delegation history"),
            ),
            Message::System(contents) => match protocol {
                Protocol::Messages => {
                    let values = parts(protocol, contents, false)?;
                    extend(&mut self.system, &values);
                    Ok(())
                },
                _ => self.role(protocol, "system", contents),
            },
            Message::User(contents) => self.role(protocol, "user", contents),
            Message::External(contents) => self.role(protocol, "user", contents),
            Message::Assistant { output, provider_data } => {
                let values = match assistant_replay(protocol, output, provider_data, answers)? {
                    Some(values) => values,
                    None => assistant(protocol, output, answers)?,
                };
                note_freeform(output, &mut self.freeform);
                match protocol {
                    Protocol::Messages => push_value(
                        &mut self.messages,
                        make_role_message("assistant", values),
                    ),
                    _ => extend(&mut self.messages, &values),
                }
                Ok(())
            },
            Message::RuntimeTool { .. } => Ok(()),
        }
    }
}

fn encode_messages(
    protocol: Protocol,
    messages: &Vec<Message>,
    history: &Vec<Vec<Answer<Vec<Json>>>>,
) -> (r: Result<Writer, Error>)
    ensures
        match encoded_messages(protocol, messages.deep_view(), history.deep_view()) {
            Ok(state) => r is Ok && r->Ok_0@ == state,
            Err(e) => r is Err && r->Err_0@ == e,
        },
{
    let ghost all = with_history(messages.deep_view(), history.deep_view());
    let ghost step = encoded_step(protocol);
    let ghost start = nothing_encoded();
    let nothing: Vec<Answer<Vec<Json>>> = Vec::new();
    let mut writer = Writer::new();
    assert(all.take(0) =~= Seq::empty());
    assert(nothing.deep_view() =~= Seq::empty());
    let mut i: usize = 0;
    while i < messages.len()
        invariant
            i <= messages@.len(),
            all == with_history(messages.deep_view(), history.deep_view()),
            start == nothing_encoded(),
            step == encoded_step(protocol),
            nothing.deep_view() == Seq::<AnswerView<Seq<JsonView>>>::empty(),
            fold_ok(all.take(i as int), start, step) == Ok::<Encoded, ErrorView>(writer@),
        decreases messages@.len() - i,
    {
        let answers = if i < history.len() {
            &history[i]
        } else {
            &nothing
        };
        proof {
            fold_ok_step(all, start, step, i as int);
            assert(answers.deep_view() == history_at(history.deep_view(), i as int));
            assert(all[i as int] == (messages@[i as int]@, answers.deep_view()));
            assert(step(writer@, all[i as int]) == encoded_message(
                protocol,
                writer@,
                messages@[i as int]@,
                answers.deep_view(),
            ));
        }
        writer.message(protocol, &messages[i], answers)?;
        i += 1;
    }
    assert(all.take(all.len() as int) =~= all);
    writer.flush();
    Ok(writer)
}

// ---------------------------------------------------------------------------------------
// Tools
// ---------------------------------------------------------------------------------------
/// A runtime tool as the protocol declares it.
pub open spec fn tool_json(protocol: Protocol, spec_: RuntimeToolSpecView) -> Result<
    JsonView,
    ErrorView,
> {
    match spec_.input {
        InputSpecView::Structured(schema) => Ok(
            match protocol {
                Protocol::Chat => part(
                    "function"@,
                    "function"@,
                    JsonView::empty().set("name"@, JsonView::text(spec_.name)).set(
                        "description"@,
                        JsonView::text(spec_.description),
                    ).set("parameters"@, schema),
                ),
                Protocol::Responses => part("function"@, "name"@, JsonView::text(spec_.name)).set(
                    "description"@,
                    JsonView::text(spec_.description),
                ).set("parameters"@, schema).set("strict"@, JsonView::Bool(false)),
                Protocol::Messages => JsonView::empty().set(
                    "name"@,
                    JsonView::text(spec_.name),
                ).set("description"@, JsonView::text(spec_.description)).set(
                    "input_schema"@,
                    schema,
                ),
            },
        ),
        InputSpecView::Freeform(format) => if protocol == Protocol::Responses {
            let value = part("custom"@, "name"@, JsonView::text(spec_.name)).set(
                "description"@,
                JsonView::text(spec_.description),
            );
            Ok(
                match format {
                    Some(format) => value.set("format"@, format),
                    None => value,
                },
            )
        } else {
            Err(ErrorView::Invalid("freeform tool unsupported by protocol"@))
        },
    }
}

pub open spec fn tools_json(protocol: Protocol, specs: Seq<RuntimeToolSpecView>) -> Result<
    Seq<JsonView>,
    ErrorView,
> {
    all_ok(specs.map_values(|s: RuntimeToolSpecView| tool_json(protocol, s)))
}

/// A provider tool as its adapter declares it.
pub open spec fn provider_tool_json(
    tool: ProviderToolSpecView,
    answer: AnswerView<JsonView>,
) -> Result<JsonView, ErrorView> {
    match answer {
        AnswerView::Failed(e) => Err(e),
        AnswerView::Unclaimed => Err(
            ErrorView::Invalid("no provider adapter for "@ + tool.provider + "/"@ + tool.name),
        ),
        AnswerView::Claimed(value) => if value is Object {
            Ok(value)
        } else {
            Err(ErrorView::Invalid("provider declaration must be an object"@))
        },
    }
}

pub open spec fn provider_tools_json(
    tools: Seq<ProviderToolSpecView>,
    answers: Seq<AnswerView<JsonView>>,
) -> Result<Seq<JsonView>, ErrorView> {
    all_ok(
        Seq::new(tools.len(), |i: int| provider_tool_json(tools[i], answer_at(answers, i))),
    )
}

/// Whether a runtime tool of that name takes freeform input.
pub open spec fn takes_freeform(tools: Seq<RuntimeToolSpecView>, name: Seq<char>) -> bool {
    exists|i: int|
        0 <= i < tools.len() && (#[trigger] tools[i]).name == name && tools[i].input is Freeform
}

/// Which tool a model is to call.
pub open spec fn choice_json(
    protocol: Protocol,
    choice: ToolChoiceView,
    tools: Seq<RuntimeToolSpecView>,
) -> Result<JsonView, ErrorView> {
    let kind = |name: Seq<char>| JsonView::empty().set("type"@, JsonView::text(name));
    match (protocol, choice) {
        (Protocol::Messages, ToolChoiceView::Auto) => Ok(kind("auto"@)),
        (Protocol::Messages, ToolChoiceView::Forbidden) => Ok(kind("none"@)),
        (Protocol::Messages, ToolChoiceView::Required) => Ok(kind("any"@)),
        (Protocol::Messages, ToolChoiceView::RuntimeTool(name)) => Ok(
            kind("tool"@).set("name"@, JsonView::text(name)),
        ),
        (_, ToolChoiceView::Auto) => Ok(JsonView::text("auto"@)),
        (_, ToolChoiceView::Forbidden) => Ok(JsonView::text("none"@)),
        (_, ToolChoiceView::Required) => Ok(JsonView::text("required"@)),
        (Protocol::Chat, ToolChoiceView::RuntimeTool(name)) => Ok(
            kind("function"@).set(
                "function"@,
                JsonView::empty().set("name"@, JsonView::text(name)),
            ),
        ),
        (Protocol::Responses, ToolChoiceView::RuntimeTool(name)) => Ok(
            kind(
                if takes_freeform(tools, name) {
                    "custom"@
                } else {
                    "function"@
                },
            ).set("name"@, JsonView::text(name)),
        ),
        (_, ToolChoiceView::ProviderTool { .. }) => Err(
            ErrorView::Invalid("unsupported tool selection"@),
        ),
    }
}

pub open spec fn has_provider_tool(
    tools: Seq<ProviderToolSpecView>,
    provider: Seq<char>,
    name: Seq<char>,
) -> bool {
    exists|i: int|
        0 <= i < tools.len() && (#[trigger] tools[i]).provider == provider && tools[i].name
            == name
}

/// The tool choice of a request. A provider tool is selected as its adapter answers.
pub open spec fn tool_choice_json(
    protocol: Protocol,
    request: ModelRequest,
    answer: AnswerView<JsonView>,
) -> Result<JsonView, ErrorView> {
    match request.tool_choice@ {
        ToolChoiceView::ProviderTool { provider, name } => if !has_provider_tool(
            request.provider_tools.deep_view(),
            provider,
            name,
        ) {
            Err(ErrorView::Invalid("selected provider tool is unavailable"@))
        } else {
            match answer {
                AnswerView::Failed(e) => Err(e),
                AnswerView::Unclaimed => Err(
                    ErrorView::Invalid("provider adapter does not encode explicit selection"@),
                ),
                AnswerView::Claimed(value) => Ok(value),
            }
        },
        choice => choice_json(protocol, choice, request.runtime_tools.deep_view()),
    }
}

fn tool(protocol: Protocol, spec_: &RuntimeToolSpec) -> (r: Result<Json, Error>)
    ensures
        seen(r) == tool_json(protocol, spec_@),
{
    let name = spec_.name.as_str();
    let description = spec_.description.as_str();
    match &spec_.input {
        InputSpec::Structured(schema) => Ok(
            match protocol {
                Protocol::Chat => {
                    let function = Json::empty().with_text("name", name).with_text(
                        "description",
                        description,
                    ).with("parameters", schema.clone());
                    make_part("function", "function", function)
                },
                Protocol::Responses => make_part("function", "name", Json::text(name)).with_text(
                    "description",
                    description,
                ).with("parameters", schema.clone()).with("strict", Json::Bool(false)),
                Protocol::Messages => Json::empty().with_text("name", name).with_text(
                    "description",
                    description,
                ).with("input_schema", schema.clone()),
            },
        ),
        InputSpec::Freeform(format) => match protocol {
            Protocol::Responses => {
                let value = make_part("custom", "name", Json::text(name)).with_text(
                    "description",
                    description,
                );
                match format {
                    Some(format) => Ok(value.with("format", format.clone())),
                    None => Ok(value),
                }
            },
            _ => Err(invalid("freeform tool unsupported by protocol")),
        },
    }
}

pub(crate) fn runtime_tools(protocol: Protocol, specs: &Vec<RuntimeToolSpec>) -> (r: Result<
    Vec<Json>,
    Error,
>)
    ensures
        seen(r) == tools_json(protocol, specs.deep_view()),
{
    let ghost results = specs.deep_view().map_values(
        |s: RuntimeToolSpecView| tool_json(protocol, s),
    );
    let mut out: Vec<Json> = Vec::new();
    let mut i: usize = 0;
    assert(results.take(0) =~= Seq::empty());
    assert(out.deep_view() =~= Seq::empty());
    while i < specs.len()
        invariant
            i <= specs@.len(),
            results == specs.deep_view().map_values(
                |s: RuntimeToolSpecView| tool_json(protocol, s),
            ),
            all_ok(results.take(i as int)) == Ok::<Seq<JsonView>, ErrorView>(out.deep_view()),
        decreases specs@.len() - i,
    {
        proof {
            all_ok_step(results, i as int);
            assert(results[i as int] == tool_json(protocol, specs@[i as int]@));
        }
        let value = tool(protocol, &specs[i])?;
        push_value(&mut out, value);
        i += 1;
    }
    assert(results.take(results.len() as int) =~= results);
    Ok(out)
}

pub(crate) fn provider_tool(
    tool: &ProviderToolSpec,
    answers: &Vec<Answer<Json>>,
    index: usize,
) -> (r: Result<Json, Error>)
    ensures
        seen(r) == provider_tool_json(tool@, answer_at(answers.deep_view(), index as int)),
{
    if index < answers.len() {
        assert(answers.deep_view()[index as int] == answers@[index as int].deep_view());
        match &answers[index] {
            Answer::Failed(error) => {
                return Err(error.clone());
            },
            Answer::Claimed(value) => {
                if value.is_object() {
                    return Ok(value.clone());
                }
                return Err(invalid("provider declaration must be an object"));
            },
            Answer::Unclaimed => {},
        }
    }
    Err(
        Error::Invalid(
            join4(
                "no provider adapter for ",
                tool.provider.as_str(),
                "/",
                tool.name.as_str(),
            ),
        ),
    )
}

/// Appends the declarations of the provider tools.
fn append_provider_tools(
    tools: &Vec<ProviderToolSpec>,
    answers: &Vec<Answer<Json>>,
    values: &mut Vec<Json>,
) -> (r: Result<(), Error>)
    ensures
        match provider_tools_json(tools.deep_view(), answers.deep_view()) {
            Ok(more) => r is Ok && final(values).deep_view() == old(values).deep_view() + more,
            Err(e) => r is Err && r->Err_0@ == e,
        },
{
    let ghost views = tools.deep_view();
    let ghost results = Seq::new(
        views.len(),
        |i: int| provider_tool_json(views[i], answer_at(answers.deep_view(), i)),
    );
    let ghost start = values.deep_view();
    let ghost mut more: Seq<JsonView> = Seq::empty();
    let mut i: usize = 0;
    assert(results.take(0) =~= Seq::empty());
    assert(start + more =~= start);
    while i < tools.len()
        invariant
            i <= tools@.len(),
            views == tools.deep_view(),
            results == Seq::new(
                views.len(),
                |i: int| provider_tool_json(views[i], answer_at(answers.deep_view(), i)),
            ),
            all_ok(results.take(i as int)) == Ok::<Seq<JsonView>, ErrorView>(more),
            values.deep_view() == start + more,
        decreases tools@.len() - i,
    {
        proof {
            all_ok_step(results, i as int);
            assert(results[i as int] == provider_tool_json(
                tools@[i as int]@,
                answer_at(answers.deep_view(), i as int),
            ));
        }
        let value = provider_tool(&tools[i], answers, i)?;
        push_value(values, value);
        proof {
            assert((start + more).push(value@) =~= start + more.push(value@));
            more = more.push(value@);
        }
        i += 1;
    }
    assert(results.take(results.len() as int) =~= results);
    Ok(())
}

fn is_freeform_tool(tools: &Vec<RuntimeToolSpec>, name: &str) -> (r: bool)
    ensures
        r == takes_freeform(tools.deep_view(), name@),
{
    let mut i: usize = 0;
    while i < tools.len()
        invariant
            i <= tools@.len(),
            forall|j: int|
                0 <= j < i ==> !((#[trigger] tools.deep_view()[j]).name == name@
                    && tools.deep_view()[j].input is Freeform),
        decreases tools@.len() - i,
    {
        assert(tools.deep_view()[i as int] == tools@[i as int]@);
        let freeform = match &tools[i].input {
            InputSpec::Freeform(_) => true,
            InputSpec::Structured(_) => false,
        };
        if freeform && same(tools[i].name.as_str(), name) {
            return true;
        }
        i += 1;
    }
    false
}

fn kind_object(kind: &str) -> (r: Json)
    ensures
        r@ == JsonView::empty().set("type"@, JsonView::text(kind@)),
{
    Json::empty().with_text("type", kind)
}

/// Encodes which tool a model is to call.
pub fn choice(protocol: Protocol, wanted: &ToolChoice, tools: &Vec<RuntimeToolSpec>) -> (r: Result<
    Json,
    Error,
>)
    ensures
        seen(r) == choice_json(protocol, wanted@, tools.deep_view()),
{
    match (protocol, wanted) {
        (_, ToolChoice::ProviderTool { .. }) => Err(invalid("unsupported tool selection")),
        (Protocol::Messages, ToolChoice::Auto) => Ok(kind_object("auto")),
        (Protocol::Messages, ToolChoice::Forbidden) => Ok(kind_object("none")),
        (Protocol::Messages, ToolChoice::Required) => Ok(kind_object("any")),
        (Protocol::Messages, ToolChoice::RuntimeTool(name)) => Ok(
            kind_object("tool").with_text("name", name.as_str()),
        ),
        (_, ToolChoice::Auto) => Ok(Json::text("auto")),
        (_, ToolChoice::Forbidden) => Ok(Json::text("none")),
        (_, ToolChoice::Required) => Ok(Json::text("required")),
        (Protocol::Chat, ToolChoice::RuntimeTool(name)) => Ok(
            kind_object("function").with(
                "function",
                Json::empty().with_text("name", name.as_str()),
            ),
        ),
        (Protocol::Responses, ToolChoice::RuntimeTool(name)) => {
            let kind = if is_freeform_tool(tools, name.as_str()) {
                "custom"
            } else {
                "function"
            };
            Ok(kind_object(kind).with_text("name", name.as_str()))
        },
    }
}

fn offers_provider_tool(tools: &Vec<ProviderToolSpec>, provider: &str, name: &str) -> (r: bool)
    ensures
        r == has_provider_tool(tools.deep_view(), provider@, name@),
{
    let mut i: usize = 0;
    while i < tools.len()
        invariant
            i <= tools@.len(),
            forall|j: int|
                0 <= j < i ==> !((#[trigger] tools.deep_view()[j]).provider == provider@
                    && tools.deep_view()[j].name == name@),
        decreases tools@.len() - i,
    {
        assert(tools.deep_view()[i as int] == tools@[i as int]@);
        if same(tools[i].provider.as_str(), provider) && same(tools[i].name.as_str(), name) {
            return true;
        }
        i += 1;
    }
    false
}

fn tool_choice(protocol: Protocol, request: &ModelRequest, answer: &Answer<Json>) -> (r: Result<
    Json,
    Error,
>)
    ensures
        seen(r) == tool_choice_json(protocol, *request, answer.deep_view()),
{
    match &request.tool_choice {
        ToolChoice::ProviderTool { provider, name } => {
            if !offers_provider_tool(&request.provider_tools, provider.as_str(), name.as_str()) {
                return Err(invalid("selected provider tool is unavailable"));
            }
            match answer {
                Answer::Failed(error) => Err(error.clone()),
                Answer::Unclaimed => Err(
                    invalid("provider adapter does not encode explicit selection"),
                ),
                Answer::Claimed(value) => Ok(value.clone()),
            }
        },
        _ => choice(protocol, &request.tool_choice, &request.runtime_tools),
    }
}

// ---------------------------------------------------------------------------------------
// Requests
// ---------------------------------------------------------------------------------------
pub open spec fn set_u64(body: JsonView, key: Seq<char>, value: Option<u64>) -> JsonView {
    match value {
        Some(n) => body.set(key, JsonView::uint(n)),
        None => body,
    }
}

pub open spec fn schema_format(name: Seq<char>, schema: JsonView) -> JsonView {
    JsonView::empty().set("name"@, JsonView::text(name)).set("schema"@, schema).set(
        "strict"@,
        JsonView::Bool(true),
    )
}

/// A request with its response format.
pub open spec fn with_format(
    protocol: Protocol,
    body: JsonView,
    format: Option<ResponseFormatView>,
) -> Result<JsonView, ErrorView> {
    match format {
        None => Ok(body),
        Some(ResponseFormatView::Json) => match protocol {
            Protocol::Chat => Ok(
                body.set(
                    "response_format"@,
                    JsonView::empty().set("type"@, JsonView::text("json_object"@)),
                ),
            ),
            Protocol::Responses => Ok(
                body.set(
                    "text"@,
                    JsonView::empty().set(
                        "format"@,
                        JsonView::empty().set("type"@, JsonView::text("json_object"@)),
                    ),
                ),
            ),
            Protocol::Messages => Err(ErrorView::Invalid("JSON mode not available"@)),
        },
        Some(ResponseFormatView::Schema { name, schema }) => Ok(
            match protocol {
                Protocol::Chat => body.set(
                    "response_format"@,
                    part("json_schema"@, "json_schema"@, schema_format(name, schema)),
                ),
                Protocol::Responses => body.set(
                    "text"@,
                    JsonView::empty().set(
                        "format"@,
                        schema_format(name, schema).set("type"@, JsonView::text("json_schema"@)),
                    ),
                ),
                Protocol::Messages => body.set(
                    "output_config"@,
                    JsonView::empty().set(
                        "format"@,
                        part("json_schema"@, "schema"@, schema),
                    ),
                ),
            },
        ),
    }
}

/// A request before tools and options.
pub open spec fn base_body(
    protocol: Protocol,
    model: Seq<char>,
    request: ModelRequest,
    encoded: Encoded,
) -> JsonView {
    let body = JsonView::empty().set("model"@, JsonView::text(model)).set(
        "stream"@,
        JsonView::Bool(request.stream),
    );
    let limit = request.profile.max_output_tokens;
    match protocol {
        Protocol::Chat => {
            let listed = body.set("messages"@, JsonView::Array(encoded.messages));
            let streamed = if request.stream {
                listed.set(
                    "stream_options"@,
                    JsonView::empty().set("include_usage"@, JsonView::Bool(true)),
                )
            } else {
                listed
            };
            set_u64(streamed, "max_completion_tokens"@, limit)
        },
        Protocol::Responses => set_u64(
            body.set("input"@, JsonView::Array(encoded.messages)),
            "max_output_tokens"@,
            limit,
        ),
        Protocol::Messages => {
            let listed = body.set("messages"@, JsonView::Array(encoded.messages)).set(
                "max_tokens"@,
                JsonView::uint(
                    match limit {
                        Some(n) => n,
                        None => 4096,
                    },
                ),
            );
            if encoded.system.len() == 0 {
                listed
            } else {
                listed.set("system"@, JsonView::Array(encoded.system))
            }
        },
    }
}

/// A request with the tools that it offers and the choice among them.
pub open spec fn with_tools(
    protocol: Protocol,
    request: ModelRequest,
    body: JsonView,
    tools: Seq<JsonView>,
    choice: AnswerView<JsonView>,
) -> Result<JsonView, ErrorView> {
    if tools.len() == 0 {
        Ok(body)
    } else {
        match tool_choice_json(protocol, request, choice) {
            Err(e) => Err(e),
            Ok(value) => Ok(
                body.set("tools"@, JsonView::Array(tools)).set("tool_choice"@, value),
            ),
        }
    }
}

/// A request with the setting whether tools may be called in parallel.
pub open spec fn with_parallel(
    protocol: Protocol,
    body: JsonView,
    parallel: Option<bool>,
) -> JsonView {
    match parallel {
        None => body,
        Some(allowed) => if protocol == Protocol::Messages {
            match body.get("tool_choice"@) {
                None => body,
                Some(choice) => body.set(
                    "tool_choice"@,
                    choice.set("disable_parallel_tool_use"@, JsonView::Bool(!allowed)),
                ),
            }
        } else {
            body.set("parallel_tool_calls"@, JsonView::Bool(allowed))
        },
    }
}

pub open spec fn with_generation(protocol: Protocol, body: JsonView, profile: ProfileView) -> JsonView {
    let warmed = match profile.temperature {
        Some(value) => body.set("temperature"@, value),
        None => body,
    };
    with_parallel(
        protocol,
        set_u64(warmed, "seed"@, profile.seed),
        profile.parallel_runtime_tools,
    )
}

/// The request on the wire.
pub open spec fn encoded_request(
    protocol: Protocol,
    model: Seq<char>,
    request: ModelRequest,
    answers: Answers,
) -> Result<JsonView, ErrorView> {
    match encoded_messages(
        protocol,
        request.messages.deep_view(),
        answers.history.deep_view(),
    ) {
        Err(e) => Err(e),
        Ok(encoded) => match tools_json(protocol, request.runtime_tools.deep_view()) {
            Err(e) => Err(e),
            Ok(tools) => match with_format(
                protocol,
                base_body(protocol, model, request, encoded),
                request.response_format.deep_view(),
            ) {
                Err(e) => Err(e),
                Ok(body) => match provider_tools_json(
                    request.provider_tools.deep_view(),
                    answers.tools.deep_view(),
                ) {
                    Err(e) => Err(e),
                    Ok(more) => match with_tools(
                        protocol,
                        request,
                        body,
                        tools + more,
                        answers.choice.deep_view(),
                    ) {
                        Err(e) => Err(e),
                        Ok(body) => with_extras(
                            with_generation(protocol, body, request.profile@),
                            request.profile.extensions@,
                            protocol,
                        ),
                    },
                },
            },
        },
    }
}

/// Whether a setting can be written into the tool choice: an adapter's choice is an object
/// where the Messages protocol adds its setting for parallel calls.
pub open spec fn choice_is_settable(
    protocol: Protocol,
    request: ModelRequest,
    answers: Answers,
) -> bool {
    protocol == Protocol::Messages && request.tool_choice is ProviderTool
        && request.profile.parallel_runtime_tools is Some ==> (answers.choice matches Answer::Claimed(
        value,
    ) ==> value@.assignable())
}

fn set_number(body: &mut Json, key: &str, value: Option<u64>)
    requires
        old(body)@ is Object,
    ensures
        final(body)@ == set_u64(old(body)@, key@, value),
        final(body)@ is Object,
{
    match value {
        Some(n) => body.set(key, Json::uint(n)),
        None => {},
    }
}

fn make_schema_format(name: &str, schema: &Json) -> (r: Json)
    ensures
        r@ == schema_format(name@, schema@),
{
    Json::empty().with_text("name", name).with("schema", schema.clone()).with(
        "strict",
        Json::Bool(true),
    )
}

pub(crate) fn set_format(
    protocol: Protocol,
    body: &mut Json,
    format: &Option<ResponseFormat>,
) -> (r: Result<(), Error>)
    requires
        old(body)@ is Object,
    ensures
        match with_format(protocol, old(body)@, format.deep_view()) {
            Ok(value) => r is Ok && final(body)@ == value && value is Object,
            Err(e) => r is Err && r->Err_0@ == e,
        },
{
    match format {
        None => {},
        Some(ResponseFormat::Json) => match protocol {
            Protocol::Chat => body.set("response_format", kind_object("json_object")),
            Protocol::Responses => body.set(
                "text",
                Json::empty().with("format", kind_object("json_object")),
            ),
            Protocol::Messages => {
                return Err(invalid("JSON mode not available"));
            },
        },
        Some(ResponseFormat::Schema { name, schema }) => match protocol {
            Protocol::Chat => body.set(
                "response_format",
                make_part(
                    "json_schema",
                    "json_schema",
                    make_schema_format(name.as_str(), schema),
                ),
            ),
            Protocol::Responses => body.set(
                "text",
                Json::empty().with(
                    "format",
                    make_schema_format(name.as_str(), schema).with_text("type", "json_schema"),
                ),
            ),
            Protocol::Messages => body.set(
                "output_config",
                Json::empty().with(
                    "format",
                    make_part("json_schema", "schema", schema.clone()),
                ),
            ),
        },
    }
    Ok(())
}

fn make_base_body(protocol: Protocol, model: &str, request: &ModelRequest, encoded: Writer) -> (r:
    Json)
    ensures
        r@ == base_body(protocol, model@, *request, encoded@),
        r@ is Object,
{
    let mut body = Json::empty().with_text("model", model).with(
        "stream",
        Json::Bool(request.stream),
    );
    let limit = request.profile.max_output_tokens;
    match protocol {
        Protocol::Chat => {
            body.set("messages", Json::array(encoded.messages));
            if request.stream {
                body.set("stream_options", Json::empty().with("include_usage", Json::Bool(true)));
            }
            set_number(&mut body, "max_completion_tokens", limit);
        },
        Protocol::Responses => {
            body.set("input", Json::array(encoded.messages));
            set_number(&mut body, "max_output_tokens", limit);
        },
        Protocol::Messages => {
            body.set("messages", Json::array(encoded.messages));
            let tokens: u64 = match limit {
                Some(n) => n,
                None => 4096,
            };
            body.set("max_tokens", Json::uint(tokens));
            assert(encoded.system.deep_view().len() == encoded.system@.len());
            if encoded.system.len() > 0 {
                body.set("system", Json::array(encoded.system));
            }
        },
    }
    body
}

fn set_parallel(protocol: Protocol, body: &mut Json, parallel: Option<bool>)
    requires
        old(body)@ is Object,
        protocol == Protocol::Messages && parallel is Some ==> (old(body)@.get(
            "tool_choice"@,
        ) matches Some(choice) ==> choice.assignable()),
    ensures
        final(body)@ == with_parallel(protocol, old(body)@, parallel),
        final(body)@ is Object,
{
    match parallel {
        None => {},
        Some(allowed) => match protocol {
            Protocol::Messages => match body.get_mut("tool_choice") {
                Some(choice) => {
                    choice.set("disable_parallel_tool_use", Json::Bool(!allowed));
                },
                None => {},
            },
            _ => body.set("parallel_tool_calls", Json::Bool(allowed)),
        },
    }
}

proof fn set_other(value: JsonView, key: Seq<char>, new: JsonView, other: Seq<char>)
    requires
        value is Object,
        key != other,
    ensures
        value.set(key, new) is Object,
        value.set(key, new).get(other) == value.get(other),
{
    crate::json::insert_lookup(value->Object_0, key, new, other);
}

/// Before tools are listed, a Messages request holds no tool choice.
proof fn no_choice_yet(protocol: Protocol, model: Seq<char>, request: ModelRequest, encoded: Encoded)
    ensures
        protocol == Protocol::Messages ==> (with_format(
            protocol,
            base_body(protocol, model, request, encoded),
            request.response_format.deep_view(),
        ) matches Ok(body) ==> body.get("tool_choice"@) is None),
{
    if protocol == Protocol::Messages {
        reveal_strlit("tool_choice");
        reveal_strlit("model");
        reveal_strlit("stream");
        reveal_strlit("messages");
        reveal_strlit("max_tokens");
        reveal_strlit("system");
        reveal_strlit("output_config");
        let other = "tool_choice"@;
        let a = JsonView::empty();
        assert(a.get(other) is None);
        let b = a.set("model"@, JsonView::text(model));
        set_other(a, "model"@, JsonView::text(model), other);
        let c = b.set("stream"@, JsonView::Bool(request.stream));
        set_other(b, "stream"@, JsonView::Bool(request.stream), other);
        let d = c.set("messages"@, JsonView::Array(encoded.messages));
        set_other(c, "messages"@, JsonView::Array(encoded.messages), other);
        let limit = JsonView::uint(
            match request.profile.max_output_tokens {
                Some(n) => n,
                None => 4096,
            },
        );
        set_other(d, "max_tokens"@, limit, other);
        let e = d.set("max_tokens"@, limit);
        set_other(e, "system"@, JsonView::Array(encoded.system), other);
        let body = base_body(protocol, model, request, encoded);
        assert(body.get(other) is None && body is Object);
        match request.response_format.deep_view() {
            Some(ResponseFormatView::Schema { name, schema }) => {
                set_other(
                    body,
                    "output_config"@,
                    JsonView::empty().set("format"@, part("json_schema"@, "schema"@, schema)),
                    other,
                );
            },
            _ => {},
        }
    }
}

/// Encodes a request. `answers` holds what the extension of the exchange answered.
pub fn encode(protocol: Protocol, model: &str, request: &ModelRequest, answers: &Answers) -> (r:
    Result<Json, Error>)
    requires
        choice_is_settable(protocol, *request, *answers),
    ensures
        seen(r) == encoded_request(protocol, model@, *request, *answers),
        r is Ok ==> r->Ok_0@ is Object,
{
    let encoded = encode_messages(protocol, &request.messages, &answers.history)?;
    let mut tools = runtime_tools(protocol, &request.runtime_tools)?;
    let ghost sent = encoded@;
    let mut body = make_base_body(protocol, model, request, encoded);
    set_format(protocol, &mut body, &request.response_format)?;
    append_provider_tools(&request.provider_tools, &answers.tools, &mut tools)?;
    assert(tools.deep_view().len() == tools@.len());
    let ghost plain = body@;
    if tools.len() > 0 {
        let choice = tool_choice(protocol, request, &answers.choice)?;
        body.set("tools", Json::array(tools));
        let ghost listed = body@;
        body.set("tool_choice", choice);
        proof {
            crate::json::insert_lookup(
                listed->Object_0,
                "tool_choice"@,
                choice@,
                "tool_choice"@,
            );
        }
    } else {
        proof {
            no_choice_yet(protocol, model@, *request, sent);
        }
    }
    let ghost offered = body@;
    match &request.profile.temperature {
        Some(value) => {
            body.set("temperature", value.clone());
            proof {
                reveal_strlit("temperature");
                reveal_strlit("tool_choice");
                crate::json::insert_lookup(
                    offered->Object_0,
                    "temperature"@,
                    value@,
                    "tool_choice"@,
                );
                assert("temperature"@[1] != "tool_choice"@[1]);
            }
        },
        None => {},
    }
    let ghost warmed = body@;
    set_number(&mut body, "seed", request.profile.seed);
    proof {
        if request.profile.seed is Some {
            reveal_strlit("seed");
            reveal_strlit("tool_choice");
            crate::json::insert_lookup(
                warmed->Object_0,
                "seed"@,
                JsonView::uint(request.profile.seed->0),
                "tool_choice"@,
            );
            assert("seed"@[0] != "tool_choice"@[0]);
        }
    }
    assert(body@.get("tool_choice"@) == offered.get("tool_choice"@));
    set_parallel(protocol, &mut body, request.profile.parallel_runtime_tools);
    add_extras(body, &request.profile.extensions, protocol)
}

} // verus!
