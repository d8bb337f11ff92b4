//! Decoding of responses.
use crate::codec::adapter::{finish_reason, finish_value, usage, usage_of};
use crate::codec::replay::position_key;
use crate::error::{all_ok, all_ok_step, protocol, seen, Error, ErrorView};
use crate::extension::{answer_at, Answer, AnswerView};
use crate::json::{json_text, printed, Json, JsonView};
use crate::message::{
    Content, ContentView, Output, OutputView, ProviderToolCallView, ProviderToolStatus,
    RuntimeToolCall, RuntimeToolCallView, RuntimeToolInput, RuntimeToolInputView,
};
use crate::model::{Protocol, TurnOutput, TurnOutputView};
use crate::text::{ends_with, has_suffix, join, same};
use vstd::prelude::*;

verus! {

// ---------------------------------------------------------------------------------------
// Model
// ---------------------------------------------------------------------------------------
/// A text field that must be there.
pub open spec fn text_field(value: JsonView, key: Seq<char>) -> Result<Seq<char>, ErrorView> {
    match value.get_str(key) {
        Some(s) => Ok(s),
        None => Err(ErrorView::Protocol("missing "@ + key)),
    }
}

pub open spec fn opaque(provider: Seq<char>, data: JsonView) -> OutputView {
    OutputView::Content(ContentView::Opaque { provider, data })
}

/// A content part: a text, a refusal, or one that only its provider reads.
pub open spec fn parsed_content(provider: Seq<char>, value: JsonView) -> Result<
    OutputView,
    ErrorView,
> {
    let kind = value.str_or_empty("type"@);
    if kind == "text"@ || kind == "output_text"@ {
        match text_field(value, "text"@) {
            Ok(text) => Ok(OutputView::text(text)),
            Err(e) => Err(e),
        }
    } else if kind == "refusal"@ {
        match text_field(value, "refusal"@) {
            Ok(text) => Ok(OutputView::text(text)),
            Err(e) => Err(e),
        }
    } else {
        Ok(opaque(provider, value))
    }
}

pub open spec fn parsed_contents(provider: Seq<char>, values: Seq<JsonView>) -> Result<
    Seq<OutputView>,
    ErrorView,
> {
    all_ok(values.map_values(|v: JsonView| parsed_content(provider, v)))
}

/// A call whose arguments were read from text.
pub open spec fn structured(
    id: Seq<char>,
    name: Seq<char>,
    arguments: Result<JsonView, Seq<char>>,
) -> Result<OutputView, ErrorView> {
    match arguments {
        Ok(value) => Ok(
            OutputView::RuntimeToolCall(
                RuntimeToolCallView { id, name, input: RuntimeToolInputView::Structured(value) },
            ),
        ),
        Err(message) => Err(ErrorView::Protocol(message)),
    }
}

/// A call that is named in one object and identified in another, its arguments as text.
pub open spec fn call_output(holder: JsonView, id_key: Seq<char>, function: JsonView) -> Result<
    OutputView,
    ErrorView,
> {
    match text_field(holder, id_key) {
        Err(e) => Err(e),
        Ok(id) => match text_field(function, "name"@) {
            Err(e) => Err(e),
            Ok(name) => match text_field(function, "arguments"@) {
                Err(e) => Err(e),
                Ok(arguments) => structured(id, name, json_text(arguments)),
            },
        },
    }
}

/// A tool call of a Chat message.
pub open spec fn chat_call(call: JsonView) -> Result<OutputView, ErrorView> {
    match call.get("function"@) {
        None => Err(ErrorView::Protocol("missing function"@)),
        Some(function) => call_output(call, "id"@, function),
    }
}

pub open spec fn chat_reasoning(message: JsonView) -> Seq<OutputView> {
    match message.get_str("reasoning_content"@) {
        Some(text) => seq![
            opaque(
                "openai"@,
                JsonView::empty().set("type"@, JsonView::text("reasoning"@)).set(
                    "text"@,
                    JsonView::text(text),
                ),
            ),
        ],
        None => Seq::empty(),
    }
}

pub open spec fn chat_content(message: JsonView) -> Result<Seq<OutputView>, ErrorView> {
    match message.get("content"@) {
        Some(JsonView::Text(text)) => Ok(seq![OutputView::text(text)]),
        Some(JsonView::Array(values)) => parsed_contents("openai"@, values),
        _ => Ok(Seq::empty()),
    }
}

pub open spec fn chat_calls(message: JsonView) -> Result<Seq<OutputView>, ErrorView> {
    match message.get_array("tool_calls"@) {
        Some(calls) => all_ok(calls.map_values(|c: JsonView| chat_call(c))),
        None => Ok(Seq::empty()),
    }
}

/// The output of a Chat response: reasoning, content, calls.
pub open spec fn chat_output(response: JsonView) -> Result<Seq<OutputView>, ErrorView> {
    match response.pointer("/choices/0/message"@) {
        None => Err(ErrorView::Protocol("missing chat message"@)),
        Some(message) => match chat_content(message) {
            Err(e) => Err(e),
            Ok(content) => match chat_calls(message) {
                Err(e) => Err(e),
                Ok(calls) => Ok(chat_reasoning(message) + content + calls),
            },
        },
    }
}

/// One native item of a Responses output.
pub open spec fn responses_item(item: JsonView) -> Result<Seq<OutputView>, ErrorView> {
    match text_field(item, "type"@) {
        Err(e) => Err(e),
        Ok(kind) => if kind == "message"@ {
            match item.get_array("content"@) {
                None => Err(ErrorView::Protocol("missing message content"@)),
                Some(values) => parsed_contents("openai"@, values),
            }
        } else if kind == "function_call"@ {
            single(call_output(item, "call_id"@, item))
        } else if kind == "custom_tool_call"@ {
            single(freeform(item))
        } else if kind == "reasoning"@ || kind == "compaction"@ {
            Ok(seq![opaque("openai"@, item)])
        } else {
            Err(ErrorView::Protocol("unmapped execution or output item: "@ + kind))
        },
    }
}

pub open spec fn freeform(item: JsonView) -> Result<OutputView, ErrorView> {
    match text_field(item, "call_id"@) {
        Err(e) => Err(e),
        Ok(id) => match text_field(item, "name"@) {
            Err(e) => Err(e),
            Ok(name) => match text_field(item, "input"@) {
                Err(e) => Err(e),
                Ok(input) => Ok(
                    OutputView::RuntimeToolCall(
                        RuntimeToolCallView {
                            id,
                            name,
                            input: RuntimeToolInputView::Freeform(input),
                        },
                    ),
                ),
            },
        },
    }
}

pub open spec fn single(output: Result<OutputView, ErrorView>) -> Result<
    Seq<OutputView>,
    ErrorView,
> {
    match output {
        Ok(output) => Ok(seq![output]),
        Err(e) => Err(e),
    }
}

pub open spec fn tool_use(item: JsonView) -> Result<OutputView, ErrorView> {
    match text_field(item, "id"@) {
        Err(e) => Err(e),
        Ok(id) => match text_field(item, "name"@) {
            Err(e) => Err(e),
            Ok(name) => match item.get("input"@) {
                None => Err(ErrorView::Protocol("missing tool input"@)),
                Some(input) => structured(id, name, Ok(input)),
            },
        },
    }
}

/// One native item of a Messages content.
pub open spec fn messages_item(item: JsonView) -> Result<Seq<OutputView>, ErrorView> {
    let kind = item.str_or_empty("type"@);
    if kind == "tool_use"@ {
        single(tool_use(item))
    } else if kind == "text"@ || kind == "thinking"@ || kind == "redacted_thinking"@ || kind
        == "image"@ || kind == "document"@ {
        single(parsed_content("anthropic"@, item))
    } else if kind == "server_tool_use"@ || has_suffix(kind, "_tool_result"@) {
        Err(ErrorView::Protocol("unmapped execution item: "@ + kind))
    } else {
        Err(ErrorView::Protocol("unmapped execution or content item: "@ + kind))
    }
}

pub open spec fn native_item(protocol: Protocol, item: JsonView) -> Result<
    Seq<OutputView>,
    ErrorView,
> {
    match protocol {
        Protocol::Messages => messages_item(item),
        _ => responses_item(item),
    }
}

/// The ids of the provider calls of an output, in order.
pub open spec fn provider_ids(output: Seq<OutputView>) -> Seq<JsonView>
    decreases output.len(),
{
    if output.len() == 0 {
        Seq::empty()
    } else {
        match output.last() {
            OutputView::ProviderToolCall(call) => provider_ids(output.drop_last()).push(
                JsonView::text(call.id),
            ),
            _ => provider_ids(output.drop_last()),
        }
    }
}

/// What is kept for replay of an item that an extension claimed: the item, or a position of
/// the provider calls that it stands for.
pub open spec fn marked(output: Seq<OutputView>, item: JsonView) -> Result<JsonView, ErrorView> {
    let ids = provider_ids(output);
    if ids.len() == 0 && output.len() > 0 {
        Ok(item)
    } else if ids.len() != output.len() {
        Err(
            ErrorView::Protocol(
                "one native item cannot mix provider and other output ownership"@,
            ),
        )
    } else {
        Ok(JsonView::empty().set(position_key(), JsonView::Array(ids)))
    }
}

/// One native item: its output, and what is kept of it for replay.
pub open spec fn decoded_item(
    protocol: Protocol,
    item: JsonView,
    answer: AnswerView<Seq<OutputView>>,
) -> Result<(Seq<OutputView>, JsonView), ErrorView> {
    if protocol == Protocol::Responses && text_field(item, "type"@) is Err {
        Err(text_field(item, "type"@)->Err_0)
    } else {
        match answer {
            AnswerView::Failed(e) => Err(e),
            AnswerView::Claimed(output) => match marked(output, item) {
                Ok(mark) => Ok((output, mark)),
                Err(e) => Err(e),
            },
            AnswerView::Unclaimed => match native_item(protocol, item) {
                Ok(output) => Ok((output, item)),
                Err(e) => Err(e),
            },
        }
    }
}

pub open spec fn decoded_items(
    protocol: Protocol,
    items: Seq<JsonView>,
    answers: Seq<AnswerView<Seq<OutputView>>>,
) -> Seq<Result<(Seq<OutputView>, JsonView), ErrorView>> {
    Seq::new(
        items.len(),
        |i: int| decoded_item(protocol, items[i], answer_at(answers, i)),
    )
}

/// The outputs of decoded items, one behind the other.
pub open spec fn outputs(decoded: Seq<(Seq<OutputView>, JsonView)>) -> Seq<OutputView>
    decreases decoded.len(),
{
    if decoded.len() == 0 {
        Seq::empty()
    } else {
        outputs(decoded.drop_last()) + decoded.last().0
    }
}

pub open spec fn marks(decoded: Seq<(Seq<OutputView>, JsonView)>) -> Seq<JsonView> {
    decoded.map_values(|d: (Seq<OutputView>, JsonView)| d.1)
}

/// Where a response keeps its native items.
pub open spec fn items_key(protocol: Protocol) -> Seq<char> {
    match protocol {
        Protocol::Messages => "content"@,
        _ => "output"@,
    }
}

/// A decoded response: its output, and the response as it is kept for replay.
pub open spec fn decoded_response(
    protocol: Protocol,
    response: JsonView,
    answers: Seq<AnswerView<Seq<OutputView>>>,
) -> Result<(Seq<OutputView>, JsonView), ErrorView> {
    if protocol == Protocol::Chat {
        match chat_output(response) {
            Ok(output) => Ok((output, response)),
            Err(e) => Err(e),
        }
    } else {
        match response.get_array(items_key(protocol)) {
            None => Err(ErrorView::Protocol("missing "@ + items_key(protocol))),
            Some(items) => match all_ok(decoded_items(protocol, items, answers)) {
                Err(e) => Err(e),
                Ok(decoded) => Ok(
                    (
                        outputs(decoded),
                        response.set(items_key(protocol), JsonView::Array(marks(decoded))),
                    ),
                ),
            },
        }
    }
}

pub open spec fn unfinished(call: ProviderToolCallView) -> bool {
    call.status == ProviderToolStatus::Pending || call.status == ProviderToolStatus::Running
}

/// Whether the provider still works on the turn.
pub open spec fn turn_pending(
    protocol: Protocol,
    response: JsonView,
    output: Seq<OutputView>,
) -> bool {
    ||| protocol == Protocol::Messages && response.get_str("stop_reason"@) == Some("pause_turn"@)
    ||| exists|i: int|
        0 <= i < output.len() && ((#[trigger] output[i]) matches OutputView::ProviderToolCall(
            call,
        ) && unfinished(call))
}

pub open spec fn replay_data(protocol: Protocol, response: JsonView) -> JsonView {
    JsonView::empty().set("protocol"@, JsonView::text(protocol.name())).set("response"@, response)
}

/// The turn that a response tells of. `answers` holds what the extension answered of each
/// native item.
pub open spec fn turn(
    protocol: Protocol,
    response: JsonView,
    answers: Seq<AnswerView<Seq<OutputView>>>,
) -> Result<TurnOutputView, ErrorView> {
    match response.present("error"@) {
        Some(error) => Err(ErrorView::Protocol(printed(error))),
        None => match decoded_response(protocol, response, answers) {
            Err(e) => Err(e),
            Ok(decoded) => Ok(turn_of(protocol, response, decoded)),
        },
    }
}

// ---------------------------------------------------------------------------------------
// Code
// ---------------------------------------------------------------------------------------
/// Reads a text field that must be there.
pub fn text(value: &Json, key: &str) -> (r: Result<String, Error>)
    ensures
        seen(r) == text_field(value@, key@),
{
    match value.get_str(key) {
        Some(s) => Ok(s.to_owned()),
        None => Err(Error::Protocol(join("missing ", key))),
    }
}

fn make_opaque(provider: &str, data: Json) -> (r: Output)
    ensures
        r@ == opaque(provider@, data@),
{
    Output::Content(Content::Opaque { provider: provider.to_owned(), data })
}

/// Reads a content part.
pub fn parse_content(provider: &str, value: &Json) -> (r: Result<Output, Error>)
    ensures
        seen(r) == parsed_content(provider@, value@),
{
    let kind = value.str_or_empty("type");
    if same(kind, "text") || same(kind, "output_text") {
        let s = text(value, "text")?;
        Ok(Output::text(s.as_str()))
    } else if same(kind, "refusal") {
        let s = text(value, "refusal")?;
        Ok(Output::text(s.as_str()))
    } else {
        Ok(make_opaque(provider, value.clone()))
    }
}

fn parse_contents(provider: &str, values: &Vec<Json>, output: &mut Vec<Output>) -> (r: Result<
    (),
    Error,
>)
    ensures
        match parsed_contents(provider@, values.deep_view()) {
            Ok(more) => r is Ok && final(output).deep_view() == old(output).deep_view() + more,
            Err(e) => r is Err && r->Err_0@ == e,
        },
{
    let ghost results = values.deep_view().map_values(
        |v: JsonView| parsed_content(provider@, v),
    );
    let ghost start = output.deep_view();
    let ghost mut more: Seq<OutputView> = Seq::empty();
    let mut i: usize = 0;
    assert(results.take(0) =~= Seq::empty());
    assert(start + more =~= start);
    while i < values.len()
        invariant
            i <= values@.len(),
            results == values.deep_view().map_values(|v: JsonView| parsed_content(provider@, v)),
            all_ok(results.take(i as int)) == Ok::<Seq<OutputView>, ErrorView>(more),
            output.deep_view() == start + more,
        decreases values@.len() - i,
    {
        proof {
            all_ok_step(results, i as int);
            assert(results[i as int] == parsed_content(provider@, values@[i as int]@));
        }
        let ghost before = output.deep_view();
        let value = parse_content(provider, &values[i])?;
        output.push(value);
        proof {
            assert(output.deep_view() =~= before.push(value@));
            more = more.push(value@);
            assert(output.deep_view() =~= start + more);
        }
        i += 1;
    }
    assert(results.take(results.len() as int) =~= results);
    Ok(())
}

/// Builds a call from arguments that were read from text.
pub fn structured_call(id: String, name: String, arguments: Result<Json, String>) -> (r: Result<
    Output,
    Error,
>)
    ensures
        seen(r) == structured(
            id@,
            name@,
            match arguments {
                Ok(value) => Ok(value@),
                Err(message) => Err(message@),
            },
        ),
{
    match arguments {
        Ok(value) => Ok(
            Output::RuntimeToolCall(
                RuntimeToolCall { id, name, input: RuntimeToolInput::Structured(value) },
            ),
        ),
        Err(message) => Err(Error::Protocol(message)),
    }
}

fn make_call(holder: &Json, id_key: &str, function: &Json) -> (r: Result<Output, Error>)
    ensures
        seen(r) == call_output(holder@, id_key@, function@),
{
    let id = text(holder, id_key)?;
    let name = text(function, "name")?;
    let arguments = text(function, "arguments")?;
    structured_call(id, name, Json::parse(arguments.as_str()))
}

fn decode_chat_calls(calls: &Vec<Json>, output: &mut Vec<Output>) -> (r: Result<(), Error>)
    ensures
        match all_ok(calls.deep_view().map_values(|c: JsonView| chat_call(c))) {
            Ok(more) => r is Ok && final(output).deep_view() == old(output).deep_view() + more,
            Err(e) => r is Err && r->Err_0@ == e,
        },
{
    let ghost results = calls.deep_view().map_values(|c: JsonView| chat_call(c));
    let ghost start = output.deep_view();
    let ghost mut more: Seq<OutputView> = Seq::empty();
    let mut i: usize = 0;
    assert(results.take(0) =~= Seq::empty());
    assert(start + more =~= start);
    while i < calls.len()
        invariant
            i <= calls@.len(),
            results == calls.deep_view().map_values(|c: JsonView| chat_call(c)),
            all_ok(results.take(i as int)) == Ok::<Seq<OutputView>, ErrorView>(more),
            output.deep_view() == start + more,
        decreases calls@.len() - i,
    {
        proof {
            all_ok_step(results, i as int);
            assert(results[i as int] == chat_call(calls@[i as int]@));
        }
        let ghost before = output.deep_view();
        let call = match calls[i].get("function") {
            None => return Err(protocol("missing function")),
            Some(function) => make_call(&calls[i], "id", function)?,
        };
        output.push(call);
        proof {
            assert(output.deep_view() =~= before.push(call@));
            more = more.push(call@);
            assert(output.deep_view() =~= start + more);
        }
        i += 1;
    }
    assert(results.take(results.len() as int) =~= results);
    Ok(())
}

/// Decodes the message of a Chat response.
pub fn decode_chat(response: &Json) -> (r: Result<Vec<Output>, Error>)
    ensures
        seen(r) == chat_output(response@),
{
    let message = match response.pointer("/choices/0/message") {
        Some(message) => message,
        None => return Err(protocol("missing chat message")),
    };
    let mut output: Vec<Output> = Vec::new();
    match message.get_str("reasoning_content") {
        Some(reasoning) => {
            let data = Json::empty().with_text("type", "reasoning").with_text("text", reasoning);
            output.push(make_opaque("openai", data));
        },
        None => {},
    }
    assert(output.deep_view() =~= chat_reasoning(message@));
    match message.get("content") {
        Some(content) => match content.as_str() {
            Some(s) => {
                output.push(Output::text(s));
                assert(output.deep_view() =~= chat_reasoning(message@) + seq![
                    OutputView::text(s@),
                ]);
            },
            None => match content.as_array() {
                Some(values) => {
                    parse_contents("openai", values, &mut output)?;
                },
                None => {},
            },
        },
        None => {},
    }
    proof {
        assert(chat_content(message@) is Ok);
        assert(output.deep_view() =~= chat_reasoning(message@) + chat_content(message@)->Ok_0);
    }
    match message.get_array("tool_calls") {
        Some(calls) => {
            decode_chat_calls(calls, &mut output)?;
        },
        None => {},
    }
    assert(output.deep_view() =~= chat_reasoning(message@) + chat_content(message@)->Ok_0
        + chat_calls(message@)->Ok_0);
    Ok(output)
}

fn one(output: Output) -> (r: Vec<Output>)
    ensures
        r.deep_view() == seq![output@],
{
    let mut out: Vec<Output> = Vec::new();
    out.push(output);
    assert(out.deep_view() =~= seq![output@]);
    out
}

/// Decodes one native item of a Responses output.
pub fn decode_responses_item(item: &Json) -> (r: Result<Vec<Output>, Error>)
    ensures
        seen(r) == responses_item(item@),
{
    let kind = text(item, "type")?;
    if same(kind.as_str(), "message") {
        match item.get_array("content") {
            None => Err(protocol("missing message content")),
            Some(values) => {
                let mut out: Vec<Output> = Vec::new();
                parse_contents("openai", values, &mut out)?;
                assert(out.deep_view() =~= parsed_contents("openai"@, values.deep_view())->Ok_0);
                Ok(out)
            },
        }
    } else if same(kind.as_str(), "function_call") {
        let call = make_call(item, "call_id", item)?;
        Ok(one(call))
    } else if same(kind.as_str(), "custom_tool_call") {
        let id = text(item, "call_id")?;
        let name = text(item, "name")?;
        let input = text(item, "input")?;
        Ok(
            one(
                Output::RuntimeToolCall(
                    RuntimeToolCall { id, name, input: RuntimeToolInput::Freeform(input) },
                ),
            ),
        )
    } else if same(kind.as_str(), "reasoning") || same(kind.as_str(), "compaction") {
        Ok(one(make_opaque("openai", item.clone())))
    } else {
        Err(Error::Protocol(join("unmapped execution or output item: ", kind.as_str())))
    }
}

/// Decodes one native item of a Messages content.
pub fn decode_messages_item(item: &Json) -> (r: Result<Vec<Output>, Error>)
    ensures
        seen(r) == messages_item(item@),
{
    let kind = item.str_or_empty("type");
    if same(kind, "tool_use") {
        let id = text(item, "id")?;
        let name = text(item, "name")?;
        let input = match item.get("input") {
            Some(input) => input.clone(),
            None => return Err(protocol("missing tool input")),
        };
        let call = structured_call(id, name, Ok(input))?;
        Ok(one(call))
    } else if same(kind, "text") || same(kind, "thinking") || same(kind, "redacted_thinking")
        || same(kind, "image") || same(kind, "document") {
        let output = parse_content("anthropic", item)?;
        Ok(one(output))
    } else if same(kind, "server_tool_use") || ends_with(kind, "_tool_result") {
        Err(Error::Protocol(join("unmapped execution item: ", kind)))
    } else {
        Err(Error::Protocol(join("unmapped execution or content item: ", kind)))
    }
}

/// Decodes one native item that no extension claimed.
pub fn decode_item(protocol: Protocol, item: &Json) -> (r: Result<Vec<Output>, Error>)
    ensures
        seen(r) == native_item(protocol, item@),
{
    match protocol {
        Protocol::Messages => decode_messages_item(item),
        _ => decode_responses_item(item),
    }
}

fn collect_provider_ids(output: &Vec<Output>) -> (r: Vec<Json>)
    ensures
        r.deep_view() == provider_ids(output.deep_view()),
{
    let ghost all = output.deep_view();
    let mut ids: Vec<Json> = Vec::new();
    let mut i: usize = 0;
    assert(all.take(0) =~= Seq::empty());
    assert(ids.deep_view() =~= provider_ids(all.take(0)));
    while i < output.len()
        invariant
            i <= output@.len(),
            all == output.deep_view(),
            ids.deep_view() == provider_ids(all.take(i as int)),
        decreases output@.len() - i,
    {
        proof {
            assert(all.take(i + 1).drop_last() =~= all.take(i as int));
            assert(all.take(i + 1).last() == output@[i as int]@);
        }
        let ghost before = ids.deep_view();
        match &output[i] {
            Output::ProviderToolCall(call) => {
                ids.push(Json::text(call.id.as_str()));
                assert(ids.deep_view() =~= before.push(JsonView::text(call.id@)));
            },
            _ => {},
        }
        i += 1;
    }
    assert(all.take(all.len() as int) =~= all);
    ids
}

/// What is kept for replay of an item that an extension claimed for this output.
pub fn mark_position(output: &Vec<Output>, item: &Json) -> (r: Result<Json, Error>)
    ensures
        seen(r) == marked(output.deep_view(), item@),
{
    let ids = collect_provider_ids(output);
    assert(ids.deep_view().len() == ids@.len());
    assert(output.deep_view().len() == output@.len());
    if ids.len() == 0 && output.len() > 0 {
        return Ok(item.clone());
    }
    if ids.len() != output.len() {
        return Err(protocol("one native item cannot mix provider and other output ownership"));
    }
    Ok(Json::empty().with("$zhir_provider_calls", Json::array(ids)))
}

fn append_outputs(output: &mut Vec<Output>, more: &Vec<Output>)
    ensures
        final(output).deep_view() == old(output).deep_view() + more.deep_view(),
{
    let ghost start = output.deep_view();
    let mut i: usize = 0;
    assert(start + more.deep_view().take(0) =~= start);
    while i < more.len()
        invariant
            i <= more@.len(),
            output.deep_view() == start + more.deep_view().take(i as int),
        decreases more@.len() - i,
    {
        let ghost before = output.deep_view();
        let item = more[i].clone();
        output.push(item);
        assert(output.deep_view() =~= before.push(item@));
        assert(output.deep_view() =~= start + more.deep_view().take(i + 1));
        i += 1;
    }
    assert(more.deep_view().take(more@.len() as int) =~= more.deep_view());
}

/// Decodes one item: appends its output and hands back what is kept of it for replay.
pub fn decode_one(
    protocol: Protocol,
    item: &Json,
    answer: &Answer<Vec<Output>>,
    output: &mut Vec<Output>,
) -> (r: Result<Json, Error>)
    ensures
        match decoded_item(protocol, item@, answer.deep_view()) {
            Ok(decoded) => r is Ok && r->Ok_0@ == decoded.1 && final(output).deep_view() == old(
                output,
            ).deep_view() + decoded.0,
            Err(e) => r is Err && r->Err_0@ == e,
        },
{
    match protocol {
        Protocol::Responses => {
            text(item, "type")?;
        },
        _ => {},
    }
    match answer {
        Answer::Failed(error) => Err(error.clone()),
        Answer::Claimed(mapped) => {
            let mark = mark_position(mapped, item)?;
            append_outputs(output, mapped);
            Ok(mark)
        },
        Answer::Unclaimed => {
            let native = decode_item(protocol, item)?;
            append_outputs(output, &native);
            Ok(item.clone())
        },
    }
}

/// Decodes the native items of a response.
fn decode_items(
    protocol: Protocol,
    items: &Vec<Json>,
    answers: &Vec<Answer<Vec<Output>>>,
) -> (r: Result<(Vec<Output>, Vec<Json>), Error>)
    ensures
        match all_ok(decoded_items(protocol, items.deep_view(), answers.deep_view())) {
            Ok(decoded) => r is Ok && r->Ok_0.0.deep_view() == outputs(decoded)
                && r->Ok_0.1.deep_view() == marks(decoded),
            Err(e) => r is Err && r->Err_0@ == e,
        },
{
    let ghost results = decoded_items(protocol, items.deep_view(), answers.deep_view());
    let ghost mut decoded: Seq<(Seq<OutputView>, JsonView)> = Seq::empty();
    let mut output: Vec<Output> = Vec::new();
    let mut kept: Vec<Json> = Vec::new();
    let unclaimed: Answer<Vec<Output>> = Answer::Unclaimed;
    let mut i: usize = 0;
    assert(results.take(0) =~= Seq::empty());
    assert(output.deep_view() =~= outputs(decoded));
    assert(kept.deep_view() =~= marks(decoded));
    while i < items.len()
        invariant
            i <= items@.len(),
            unclaimed is Unclaimed,
            results == decoded_items(protocol, items.deep_view(), answers.deep_view()),
            all_ok(results.take(i as int)) == Ok::<Seq<(Seq<OutputView>, JsonView)>, ErrorView>(
                decoded,
            ),
            output.deep_view() == outputs(decoded),
            kept.deep_view() == marks(decoded),
        decreases items@.len() - i,
    {
        proof {
            all_ok_step(results, i as int);
            assert(results[i as int] == decoded_item(
                protocol,
                items@[i as int]@,
                answer_at(answers.deep_view(), i as int),
            ));
        }
        let ghost before = kept.deep_view();
        let answer = if i < answers.len() {
            &answers[i]
        } else {
            &unclaimed
        };
        assert(answer.deep_view() == answer_at(answers.deep_view(), i as int));
        let mark = decode_one(protocol, &items[i], answer, &mut output)?;
        kept.push(mark);
        proof {
            let next = results[i as int]->Ok_0;
            assert(decoded.push(next).drop_last() =~= decoded);
            decoded = decoded.push(next);
            assert(kept.deep_view() =~= before.push(mark@));
            assert(kept.deep_view() =~= marks(decoded));
        }
        i += 1;
    }
    assert(results.take(results.len() as int) =~= results);
    Ok((output, kept))
}

fn any_unfinished(output: &Vec<Output>) -> (r: bool)
    ensures
        r == exists|i: int|
            0 <= i < output.deep_view().len() && ((
            #[trigger] output.deep_view()[i]) matches OutputView::ProviderToolCall(call)
                && unfinished(call)),
{
    let mut i: usize = 0;
    while i < output.len()
        invariant
            i <= output@.len(),
            forall|j: int|
                0 <= j < i ==> !((
                #[trigger] output.deep_view()[j]) matches OutputView::ProviderToolCall(call)
                    && unfinished(call)),
        decreases output@.len() - i,
    {
        assert(output.deep_view()[i as int] == output@[i as int]@);
        match &output[i] {
            Output::ProviderToolCall(call) => match call.status {
                ProviderToolStatus::Pending => {
                    return true;
                },
                ProviderToolStatus::Running => {
                    return true;
                },
                _ => {},
            },
            _ => {},
        }
        i += 1;
    }
    false
}

fn get_text(value: &Json, key: &str) -> (r: Option<String>)
    ensures
        r.deep_view() == value@.get_str(key@),
{
    match value.get_str(key) {
        Some(s) => Some(s.to_owned()),
        None => None,
    }
}

/// The turn that decoded items make.
pub open spec fn turn_of(
    protocol: Protocol,
    response: JsonView,
    decoded: (Seq<OutputView>, JsonView),
) -> TurnOutputView {
    TurnOutputView {
        output: decoded.0,
        usage: usage_of(protocol, response.field("usage"@)),
        provider_turn_pending: turn_pending(protocol, response, decoded.0),
        provider_data: replay_data(protocol, decoded.1),
        model_id: response.get_str("model"@),
        response_id: response.get_str("id"@),
        finish_reason: match finish_value(protocol, response) {
            Some(v) => v.as_str(),
            None => None,
        },
    }
}

/// Makes a turn of decoded items and of what is kept of the response for replay.
pub fn make_turn(protocol: Protocol, response: &Json, output: Vec<Output>, kept: Json) -> (r:
    TurnOutput)
    ensures
        r@ == turn_of(protocol, response@, (output.deep_view(), kept@)),
{
    let paused = match protocol {
        Protocol::Messages => match response.get_str("stop_reason") {
            Some(reason) => same(reason, "pause_turn"),
            None => false,
        },
        _ => false,
    };
    let pending = paused || any_unfinished(&output);
    let usage = match response.get("usage") {
        Some(value) => usage(protocol, value),
        None => usage(protocol, &Json::Null),
    };
    let reason = match finish_reason(protocol, response) {
        Some(value) => match value.as_str() {
            Some(s) => Some(s.to_owned()),
            None => None,
        },
        None => None,
    };
    TurnOutput {
        output,
        usage,
        provider_turn_pending: pending,
        provider_data: Json::empty().with_text("protocol", protocol.key()).with("response", kept),
        model_id: get_text(response, "model"),
        response_id: get_text(response, "id"),
        finish_reason: reason,
    }
}

/// The native items of a response, where its protocol has them.
pub fn item_list<'a>(protocol: Protocol, response: &'a Json) -> (r: Result<&'a Vec<Json>, Error>)
    requires
        protocol != Protocol::Chat,
    ensures
        match response@.get_array(items_key(protocol)) {
            Some(items) => r is Ok && r->Ok_0.deep_view() == items,
            None => r is Err && r->Err_0@ == ErrorView::Protocol(
                "missing "@ + items_key(protocol),
            ),
        },
        r is Ok ==> response@ is Object,
{
    let key = match protocol {
        Protocol::Messages => "content",
        _ => "output",
    };
    match response.get_array(key) {
        Some(items) => Ok(items),
        None => Err(Error::Protocol(join("missing ", key))),
    }
}

/// A response with what is kept of its native items.
pub fn with_marks(protocol: Protocol, response: &Json, kept: Vec<Json>) -> (r: Json)
    requires
        response@ is Object,
    ensures
        r@ == response@.set(items_key(protocol), JsonView::Array(kept.deep_view())),
{
    let key = match protocol {
        Protocol::Messages => "content",
        _ => "output",
    };
    response.clone().with(key, Json::array(kept))
}

/// Decodes a response. `answers` holds what the extension answered of each native item, in
/// order; an item past its end is decoded here.
pub fn decode(protocol: Protocol, response: &Json, answers: &Vec<Answer<Vec<Output>>>) -> (r:
    Result<TurnOutput, Error>)
    ensures
        seen(r) == turn(protocol, response@, answers.deep_view()),
{
    match response.present("error") {
        Some(error) => {
            return Err(Error::Protocol(error.print()));
        },
        None => {},
    }
    match protocol {
        Protocol::Chat => {
            let output = decode_chat(response)?;
            Ok(make_turn(protocol, response, output, response.clone()))
        },
        _ => {
            let items = item_list(protocol, response)?;
            let (output, kept) = decode_items(protocol, items, answers)?;
            let replay = with_marks(protocol, response, kept);
            Ok(make_turn(protocol, response, output, replay))
        },
    }
}

} // verus!
