//! What is heard of a model: that everything a response says stands in the turn that it is
//! decoded to, in the order of the response.
use crate::codec::adapter::path_u64;
use crate::codec::content::content_json;
use crate::codec::decode::{
    chat_call, chat_calls, chat_content, chat_reasoning, decoded_item, decoded_items, native_item,
    outputs, parsed_content, parsed_contents, provider_ids, responses_item, turn,
};
use crate::codec::encode::responses_message;
use crate::codec::replay::position_key;
use crate::codec::told::{message_words_differ, text_parts_hold_their_text};
use crate::error::{all_ok, all_ok_each, all_ok_from, ErrorView};
use crate::extension::{answer_at, AnswerView};
use crate::json::{json_text, set_get, JsonView};
use crate::message::{
    ContentView, OutputView, ProviderToolStatus, RuntimeToolCallView, RuntimeToolInputView,
};
use crate::model::Protocol;
use vstd::prelude::*;

verus! {

// ---------------------------------------------------------------------------------------
// Parts
// ---------------------------------------------------------------------------------------
proof fn kinds_differ()
    ensures
        "type"@ != "text"@,
        "text"@.len() == 4,
        "output_text"@.len() == 11,
        "refusal"@.len() == 7,
        "message"@.len() == 7,
        "function_call"@.len() == 13,
        "custom_tool_call"@.len() == 16,
        "reasoning"@.len() == 9,
        "compaction"@.len() == 10,
        "tool_use"@.len() == 8,
        "thinking"@.len() == 8,
        "redacted_thinking"@.len() == 17,
        "image"@.len() == 5,
        "document"@.len() == 8,
        "server_tool_use"@.len() == 15,
        "text"@ != "output_text"@,
        "text"@ != "refusal"@,
        "text"@ != "message"@,
        "text"@ != "function_call"@,
        "text"@ != "custom_tool_call"@,
        "text"@ != "reasoning"@,
        "text"@ != "compaction"@,
        "text"@ != "tool_use"@,
        "text"@ != "thinking"@,
        "text"@ != "redacted_thinking"@,
        "text"@ != "image"@,
        "text"@ != "document"@,
        "text"@ != "server_tool_use"@,
        "output_text"@ != "refusal"@,
        "output_text"@ != "message"@,
        "output_text"@ != "function_call"@,
        "output_text"@ != "custom_tool_call"@,
        "output_text"@ != "reasoning"@,
        "output_text"@ != "compaction"@,
        "output_text"@ != "tool_use"@,
        "output_text"@ != "thinking"@,
        "output_text"@ != "redacted_thinking"@,
        "output_text"@ != "image"@,
        "output_text"@ != "document"@,
        "output_text"@ != "server_tool_use"@,
        "refusal"@ != "message"@,
        "refusal"@ != "function_call"@,
        "refusal"@ != "custom_tool_call"@,
        "refusal"@ != "reasoning"@,
        "refusal"@ != "compaction"@,
        "refusal"@ != "tool_use"@,
        "refusal"@ != "thinking"@,
        "refusal"@ != "redacted_thinking"@,
        "refusal"@ != "image"@,
        "refusal"@ != "document"@,
        "refusal"@ != "server_tool_use"@,
        "message"@ != "function_call"@,
        "message"@ != "custom_tool_call"@,
        "message"@ != "reasoning"@,
        "message"@ != "compaction"@,
        "message"@ != "tool_use"@,
        "message"@ != "thinking"@,
        "message"@ != "redacted_thinking"@,
        "message"@ != "image"@,
        "message"@ != "document"@,
        "message"@ != "server_tool_use"@,
        "function_call"@ != "custom_tool_call"@,
        "function_call"@ != "reasoning"@,
        "function_call"@ != "compaction"@,
        "function_call"@ != "tool_use"@,
        "function_call"@ != "thinking"@,
        "function_call"@ != "redacted_thinking"@,
        "function_call"@ != "image"@,
        "function_call"@ != "document"@,
        "function_call"@ != "server_tool_use"@,
        "custom_tool_call"@ != "reasoning"@,
        "custom_tool_call"@ != "compaction"@,
        "custom_tool_call"@ != "tool_use"@,
        "custom_tool_call"@ != "thinking"@,
        "custom_tool_call"@ != "redacted_thinking"@,
        "custom_tool_call"@ != "image"@,
        "custom_tool_call"@ != "document"@,
        "custom_tool_call"@ != "server_tool_use"@,
        "reasoning"@ != "compaction"@,
        "reasoning"@ != "tool_use"@,
        "reasoning"@ != "thinking"@,
        "reasoning"@ != "redacted_thinking"@,
        "reasoning"@ != "image"@,
        "reasoning"@ != "document"@,
        "reasoning"@ != "server_tool_use"@,
        "compaction"@ != "tool_use"@,
        "compaction"@ != "thinking"@,
        "compaction"@ != "redacted_thinking"@,
        "compaction"@ != "image"@,
        "compaction"@ != "document"@,
        "compaction"@ != "server_tool_use"@,
        "tool_use"@ != "thinking"@,
        "tool_use"@ != "redacted_thinking"@,
        "tool_use"@ != "image"@,
        "tool_use"@ != "document"@,
        "tool_use"@ != "server_tool_use"@,
        "thinking"@ != "redacted_thinking"@,
        "thinking"@ != "image"@,
        "thinking"@ != "document"@,
        "thinking"@ != "server_tool_use"@,
        "redacted_thinking"@ != "image"@,
        "redacted_thinking"@ != "document"@,
        "redacted_thinking"@ != "server_tool_use"@,
        "image"@ != "document"@,
        "image"@ != "server_tool_use"@,
        "document"@ != "server_tool_use"@,
{
    reveal_strlit("type");
    reveal_strlit("text");
    reveal_strlit("output_text");
    reveal_strlit("refusal");
    reveal_strlit("message");
    reveal_strlit("function_call");
    reveal_strlit("custom_tool_call");
    reveal_strlit("reasoning");
    reveal_strlit("compaction");
    reveal_strlit("tool_use");
    reveal_strlit("thinking");
    reveal_strlit("redacted_thinking");
    reveal_strlit("image");
    reveal_strlit("document");
    reveal_strlit("server_tool_use");
    assert("text"@.len() == 4);
    assert("type"@[1] != "text"@[1]);
    assert("output_text"@.len() == 11);
    assert("refusal"@.len() == 7);
    assert("message"@.len() == 7);
    assert("function_call"@.len() == 13);
    assert("custom_tool_call"@.len() == 16);
    assert("reasoning"@.len() == 9);
    assert("compaction"@.len() == 10);
    assert("tool_use"@.len() == 8);
    assert("thinking"@.len() == 8);
    assert("redacted_thinking"@.len() == 17);
    assert("image"@.len() == 5);
    assert("document"@.len() == 8);
    assert("server_tool_use"@.len() == 15);
    assert("refusal"@[0] != "message"@[0]);
    assert("tool_use"@[1] != "thinking"@[1]);
    assert("tool_use"@[0] != "document"@[0]);
    assert("thinking"@[0] != "document"@[0]);
}

/// The text that a part says, if it is a text or a refusal.
pub open spec fn part_text(part: JsonView) -> Option<Seq<char>> {
    match part.get_str("type"@) {
        Some(kind) => if kind == "text"@ || kind == "output_text"@ {
            part.get_str("text"@)
        } else if kind == "refusal"@ {
            part.get_str("refusal"@)
        } else {
            None
        },
        None => None,
    }
}

/// A text part is heard as its text, and so is a refusal. A text part without a text is an
/// error, and any other part is kept as it came.
pub proof fn text_parts_are_heard(provider: Seq<char>, part: JsonView)
    ensures
        part.get_str("type"@) == Some("text"@) || part.get_str("type"@) == Some("output_text"@)
            ==> match part.get_str("text"@) {
            Some(text) => parsed_content(provider, part) == Ok::<OutputView, ErrorView>(
                OutputView::Content(ContentView::Text(text)),
            ),
            None => parsed_content(provider, part) is Err,
        },
        part.get_str("type"@) == Some("refusal"@) ==> match part.get_str("refusal"@) {
            Some(text) => parsed_content(provider, part) == Ok::<OutputView, ErrorView>(
                OutputView::Content(ContentView::Text(text)),
            ),
            None => parsed_content(provider, part) is Err,
        },
        part.get_str("type"@) != Some("text"@) && part.get_str("type"@) != Some("output_text"@)
            && part.get_str("type"@) != Some("refusal"@) ==> parsed_content(provider, part) == Ok::<
            OutputView,
            ErrorView,
        >(OutputView::Content(ContentView::Opaque { provider, data: part })),
{
    kinds_differ();
}

/// A text that the assistant said is heard again as the same text, in every protocol.
pub proof fn texts_come_back(protocol: Protocol, provider: Seq<char>, text: Seq<char>)
    ensures
        content_json(protocol, ContentView::Text(text), true) matches Ok(part) && parsed_content(
            provider,
            part,
        ) == Ok::<OutputView, ErrorView>(OutputView::Content(ContentView::Text(text))) && (protocol
            == Protocol::Responses ==> responses_item(responses_message(part)) == Ok::<
            Seq<OutputView>,
            ErrorView,
        >(seq![OutputView::Content(ContentView::Text(text))])) && (protocol == Protocol::Messages
            ==> native_item(protocol, part) == Ok::<Seq<OutputView>, ErrorView>(
            seq![OutputView::Content(ContentView::Text(text))],
        )),
{
    broadcast use set_get;

    kinds_differ();
    text_parts_hold_their_text(protocol, text, true);
    let part = content_json(protocol, ContentView::Text(text), true)->Ok_0;
    text_parts_are_heard(provider, part);
    text_parts_are_heard("openai"@, part);
    text_parts_are_heard("anthropic"@, part);
    let message = responses_message(part);
    message_words_differ();
    assert(message.get_array("content"@) == Some(seq![part]));
    assert(message.get_str("type"@) == Some("message"@));
    let results = seq![part].map_values(|v: JsonView| parsed_content("openai"@, v));
    assert(results =~= seq![parsed_content("openai"@, part)]);
    assert(results.drop_last() =~= Seq::empty());
    assert(all_ok(results.drop_last()) == Ok::<Seq<OutputView>, ErrorView>(Seq::empty()));
    if let Ok(outputs) = all_ok(results) {
        assert(outputs =~= seq![OutputView::Content(ContentView::Text(text))]);
    }
}

/// The parts of a message are heard one by one, in order.
pub proof fn parts_are_heard(provider: Seq<char>, parts: Seq<JsonView>)
    ensures
        parsed_contents(provider, parts) matches Ok(output) ==> output.len() == parts.len()
            && forall|i: int|
            0 <= i < parts.len() ==> Ok::<OutputView, ErrorView>(#[trigger] output[i])
                == parsed_content(provider, parts[i]),
{
    let results = parts.map_values(|v: JsonView| parsed_content(provider, v));
    if let Ok(output) = parsed_contents(provider, parts) {
        all_ok_each(results);
        assert forall|i: int| 0 <= i < parts.len() implies Ok::<OutputView, ErrorView>(
            #[trigger] output[i],
        ) == parsed_content(provider, parts[i]) by {
            assert(results[i] == Ok::<OutputView, ErrorView>(output[i]));
        }
    }
}

// ---------------------------------------------------------------------------------------
// What an output says and calls, and what a response does
// ---------------------------------------------------------------------------------------
/// The texts of an output, in order.
pub open spec fn said(output: Seq<OutputView>) -> Seq<Seq<char>>
    decreases output.len(),
{
    if output.len() == 0 {
        Seq::empty()
    } else {
        match output.last() {
            OutputView::Content(ContentView::Text(text)) => said(output.drop_last()).push(text),
            _ => said(output.drop_last()),
        }
    }
}

/// The calls of an output, in order.
pub open spec fn called(output: Seq<OutputView>) -> Seq<RuntimeToolCallView>
    decreases output.len(),
{
    if output.len() == 0 {
        Seq::empty()
    } else {
        match output.last() {
            OutputView::RuntimeToolCall(call) => called(output.drop_last()).push(call),
            _ => called(output.drop_last()),
        }
    }
}

/// The texts of parts, in order.
pub open spec fn parts_say(parts: Seq<JsonView>) -> Seq<Seq<char>>
    decreases parts.len(),
{
    if parts.len() == 0 {
        Seq::empty()
    } else {
        match part_text(parts.last()) {
            Some(text) => parts_say(parts.drop_last()).push(text),
            None => parts_say(parts.drop_last()),
        }
    }
}

/// The texts of one item of a response.
pub open spec fn item_says(protocol: Protocol, item: JsonView) -> Seq<Seq<char>> {
    if protocol == Protocol::Messages {
        match item.get_str("text"@) {
            Some(text) => if item.get_str("type"@) == Some("text"@) {
                seq![text]
            } else {
                Seq::empty()
            },
            None => Seq::empty(),
        }
    } else {
        match item.get_array("content"@) {
            Some(parts) => if item.get_str("type"@) == Some("message"@) {
                parts_say(parts)
            } else {
                Seq::empty()
            },
            None => Seq::empty(),
        }
    }
}

/// The texts of the items of a response, in order.
pub open spec fn items_say(protocol: Protocol, items: Seq<JsonView>) -> Seq<Seq<char>>
    decreases items.len(),
{
    if items.len() == 0 {
        Seq::empty()
    } else {
        items_say(protocol, items.drop_last()) + item_says(protocol, items.last())
    }
}

/// Whether an item of a response states a call.
pub open spec fn is_call(protocol: Protocol, item: JsonView) -> bool {
    match protocol {
        Protocol::Chat => true,
        Protocol::Responses => item.get_str("type"@) == Some("function_call"@) || item.get_str(
            "type"@,
        ) == Some("custom_tool_call"@),
        Protocol::Messages => item.get_str("type"@) == Some("tool_use"@),
    }
}

/// Whether a call is the one that an item of a response states.
pub open spec fn states(protocol: Protocol, item: JsonView, call: RuntimeToolCallView) -> bool {
    match protocol {
        Protocol::Chat => {
            let function = item.field("function"@);
            &&& item.get_str("id"@) == Some(call.id)
            &&& function.get_str("name"@) == Some(call.name)
            &&& function.get_str("arguments"@) matches Some(arguments) && call.input
                matches RuntimeToolInputView::Structured(input) && json_text(arguments) == Ok::<
                JsonView,
                Seq<char>,
            >(input)
        },
        Protocol::Responses => {
            &&& item.get_str("call_id"@) == Some(call.id)
            &&& item.get_str("name"@) == Some(call.name)
            &&& if item.get_str("type"@) == Some("custom_tool_call"@) {
                call.input matches RuntimeToolInputView::Freeform(input) && item.get_str("input"@)
                    == Some(input)
            } else {
                item.get_str("arguments"@) matches Some(arguments) && call.input
                    matches RuntimeToolInputView::Structured(input) && json_text(arguments) == Ok::<
                    JsonView,
                    Seq<char>,
                >(input)
            }
        },
        Protocol::Messages => {
            &&& item.get_str("id"@) == Some(call.id)
            &&& item.get_str("name"@) == Some(call.name)
            &&& call.input matches RuntimeToolInputView::Structured(input) && item.get("input"@)
                == Some(input)
        },
    }
}

/// The items of a response that state calls, in order.
pub open spec fn call_items(protocol: Protocol, items: Seq<JsonView>) -> Seq<JsonView>
    decreases items.len(),
{
    if items.len() == 0 {
        Seq::empty()
    } else if is_call(protocol, items.last()) {
        call_items(protocol, items.drop_last()).push(items.last())
    } else {
        call_items(protocol, items.drop_last())
    }
}

/// Whether calls are those that items of a response state, one by one.
pub open spec fn state_all(
    protocol: Protocol,
    items: Seq<JsonView>,
    calls: Seq<RuntimeToolCallView>,
) -> bool {
    &&& items.len() == calls.len()
    &&& forall|i: int| 0 <= i < items.len() ==> states(protocol, #[trigger] items[i], calls[i])
}

proof fn joined_outputs(a: Seq<OutputView>, b: Seq<OutputView>)
    ensures
        said(a + b) == said(a) + said(b),
        called(a + b) == called(a) + called(b),
    decreases b.len(),
{
    if b.len() == 0 {
        assert(a + b =~= a);
        assert(said(a) + said(b) =~= said(a));
        assert(called(a) + called(b) =~= called(a));
    } else {
        joined_outputs(a, b.drop_last());
        assert((a + b).drop_last() =~= a + b.drop_last());
        assert((a + b).last() == b.last());
        assert(said(a + b) =~= said(a) + said(b));
        assert(called(a + b) =~= called(a) + called(b));
    }
}

proof fn one_output(output: OutputView)
    ensures
        said(seq![output]) == (match output {
            OutputView::Content(ContentView::Text(text)) => seq![text],
            _ => Seq::empty(),
        }),
        called(seq![output]) == (match output {
            OutputView::RuntimeToolCall(call) => seq![call],
            _ => Seq::empty(),
        }),
{
    assert(seq![output].drop_last() =~= Seq::empty());
    assert(said(Seq::empty()) =~= Seq::empty());
    assert(called(Seq::empty()) =~= Seq::empty());
    assert(said(seq![output]) =~= (match output {
        OutputView::Content(ContentView::Text(text)) => seq![text],
        _ => Seq::empty(),
    }));
    assert(called(seq![output]) =~= (match output {
        OutputView::RuntimeToolCall(call) => seq![call],
        _ => Seq::empty(),
    }));
}

proof fn parts_say_what_they_hold(provider: Seq<char>, parts: Seq<JsonView>)
    ensures
        parsed_contents(provider, parts) matches Ok(output) ==> said(output) == parts_say(parts)
            && called(output) == Seq::<RuntimeToolCallView>::empty(),
    decreases parts.len(),
{
    let results = parts.map_values(|v: JsonView| parsed_content(provider, v));
    if parts.len() > 0 {
        let front = parts.drop_last();
        parts_say_what_they_hold(provider, front);
        assert(results.drop_last() =~= front.map_values(
            |v: JsonView| parsed_content(provider, v),
        ));
        assert(results.last() == parsed_content(provider, parts.last()));
        text_parts_are_heard(provider, parts.last());
        kinds_differ();
        if let Ok(output) = parsed_contents(provider, parts) {
            assert(output.drop_last() =~= parsed_contents(provider, front)->Ok_0);
        }
    }
}

/// An item of a response is heard as it says: its texts, or its call.
pub proof fn an_item_is_heard(protocol: Protocol, item: JsonView)
    requires
        protocol != Protocol::Chat,
    ensures
        native_item(protocol, item) matches Ok(output) ==> said(output) == item_says(protocol, item)
            && if is_call(protocol, item) {
            called(output).len() == 1 && states(protocol, item, called(output)[0])
        } else {
            called(output).len() == 0
        },
{
    kinds_differ();
    if let Ok(output) = native_item(protocol, item) {
        if protocol == Protocol::Messages {
            text_parts_are_heard("anthropic"@, item);
            assert(output.len() == 1);
            assert(output =~= seq![output[0]]);
            one_output(output[0]);
        } else {
            if item.get_str("type"@) == Some("message"@) {
                parts_say_what_they_hold("openai"@, item.get_array("content"@)->0);
            } else {
                assert(output.len() == 1);
                assert(output =~= seq![output[0]]);
                one_output(output[0]);
            }
        }
    }
}

proof fn items_say_what_they_hold(
    protocol: Protocol,
    items: Seq<JsonView>,
    answers: Seq<AnswerView<Seq<OutputView>>>,
)
    requires
        protocol != Protocol::Chat,
        forall|i: int|
            0 <= i < items.len() ==> #[trigger] answer_at(answers, i) == AnswerView::<
                Seq<OutputView>,
            >::Unclaimed,
    ensures
        all_ok(decoded_items(protocol, items, answers)) matches Ok(decoded) ==> said(
            outputs(decoded),
        ) == items_say(protocol, items) && state_all(
            protocol,
            call_items(protocol, items),
            called(outputs(decoded)),
        ),
    decreases items.len(),
{
    let results = decoded_items(protocol, items, answers);
    if items.len() > 0 {
        let front = items.drop_last();
        let n = items.len() - 1;
        items_say_what_they_hold(protocol, front, answers);
        assert(results.drop_last() =~= decoded_items(protocol, front, answers));
        assert(answer_at(answers, n) == AnswerView::<Seq<OutputView>>::Unclaimed);
        assert(results.last() == decoded_item(protocol, items[n], answer_at(answers, n)));
        an_item_is_heard(protocol, items[n]);
        if let Ok(decoded) = all_ok(results) {
            let before = all_ok(results.drop_last())->Ok_0;
            assert(decoded.drop_last() =~= before);
            joined_outputs(outputs(before), decoded.last().0);
            let calls = called(outputs(before)) + called(decoded.last().0);
            let stated = call_items(protocol, items);
            assert forall|i: int| 0 <= i < stated.len() implies states(
                protocol,
                #[trigger] stated[i],
                calls[i],
            ) by {
                if i < call_items(protocol, front).len() {
                    assert(stated[i] == call_items(protocol, front)[i]);
                }
            }
        }
    }
}

/// The items of a response.
pub open spec fn response_items(protocol: Protocol, response: JsonView) -> Option<Seq<JsonView>> {
    response.get_array(
        if protocol == Protocol::Messages {
            "content"@
        } else {
            "output"@
        },
    )
}

/// A turn says what its response says, text by text, and makes the calls that it states, call
/// by call, where no extension claims an item.
pub proof fn a_response_is_heard(
    protocol: Protocol,
    response: JsonView,
    answers: Seq<AnswerView<Seq<OutputView>>>,
)
    requires
        protocol != Protocol::Chat,
        turn(protocol, response, answers) is Ok,
        response_items(protocol, response) matches Some(items) ==> forall|i: int|
            0 <= i < items.len() ==> #[trigger] answer_at(answers, i) == AnswerView::<
                Seq<OutputView>,
            >::Unclaimed,
    ensures
        ({
            let output = turn(protocol, response, answers)->Ok_0.output;
            response_items(protocol, response) matches Some(items) && {
                &&& said(output) == items_say(protocol, items)
                &&& state_all(protocol, call_items(protocol, items), called(output))
            }
        }),
{
    items_say_what_they_hold(protocol, response_items(protocol, response)->0, answers);
}

/// The texts of a Chat message.
pub open spec fn chat_says(message: JsonView) -> Seq<Seq<char>> {
    match message.get("content"@) {
        Some(JsonView::Text(text)) => seq![text],
        Some(JsonView::Array(parts)) => parts_say(parts),
        _ => Seq::empty(),
    }
}

/// The calls of a Chat message.
pub open spec fn chat_states(message: JsonView) -> Seq<JsonView> {
    match message.get_array("tool_calls"@) {
        Some(calls) => calls,
        None => Seq::empty(),
    }
}

/// A turn says what the message of a Chat response says, text by text, and makes its calls,
/// call by call. Its reasoning comes first, and is no text of the turn.
pub proof fn a_chat_message_is_heard(
    response: JsonView,
    answers: Seq<AnswerView<Seq<OutputView>>>,
)
    requires
        turn(Protocol::Chat, response, answers) is Ok,
    ensures
        ({
            let output = turn(Protocol::Chat, response, answers)->Ok_0.output;
            response.pointer("/choices/0/message"@) matches Some(message) && {
                &&& said(output) == chat_says(message)
                &&& state_all(Protocol::Chat, chat_states(message), called(output))
                &&& message.get_str("reasoning_content"@) matches Some(reasoning) ==> output.len()
                    > 0 && (output[0] matches OutputView::Content(
                    ContentView::Opaque { provider, data },
                ) && provider == "openai"@ && data.get_str("type"@) == Some("reasoning"@)
                    && data.get_str("text"@) == Some(reasoning))
            }
        }),
{
    broadcast use set_get;

    kinds_differ();
    let message = response.pointer("/choices/0/message"@)->0;
    let reasoning = chat_reasoning(message);
    let content = chat_content(message)->Ok_0;
    let calls = chat_calls(message)->Ok_0;
    let empty = Seq::<OutputView>::empty();
    assert(said(empty) =~= Seq::empty());
    assert(called(empty) =~= Seq::empty());
    if reasoning.len() > 0 {
        one_output(reasoning[0]);
        assert(reasoning =~= seq![reasoning[0]]);
    } else {
        assert(reasoning =~= empty);
    }
    assert(said(reasoning) =~= Seq::empty());
    assert(called(reasoning) =~= Seq::empty());
    match message.get("content"@) {
        Some(JsonView::Text(text)) => {
            one_output(OutputView::text(text));
        },
        Some(JsonView::Array(parts)) => {
            parts_say_what_they_hold("openai"@, parts);
        },
        _ => {},
    }
    chat_calls_are_heard(message);
    joined_outputs(reasoning + content, calls);
    joined_outputs(reasoning, content);
    assert(said(reasoning) + said(content) + said(calls) =~= said(content));
    assert(called(reasoning) + called(content) + called(calls) =~= called(calls));
}

proof fn chat_calls_are_heard(message: JsonView)
    requires
        chat_calls(message) is Ok,
    ensures
        said(chat_calls(message)->Ok_0) == Seq::<Seq<char>>::empty(),
        state_all(Protocol::Chat, chat_states(message), called(chat_calls(message)->Ok_0)),
{
    match message.get_array("tool_calls"@) {
        Some(calls) => {
            each_call_is_heard(calls);
        },
        None => {},
    }
}

proof fn each_call_is_heard(calls: Seq<JsonView>)
    ensures
        all_ok(calls.map_values(|c: JsonView| chat_call(c))) matches Ok(output) ==> said(output)
            == Seq::<Seq<char>>::empty() && state_all(Protocol::Chat, calls, called(output)),
    decreases calls.len(),
{
    let results = calls.map_values(|c: JsonView| chat_call(c));
    if calls.len() > 0 {
        let front = calls.drop_last();
        each_call_is_heard(front);
        assert(results.drop_last() =~= front.map_values(|c: JsonView| chat_call(c)));
        assert(results.last() == chat_call(calls.last()));
        if let Ok(output) = all_ok(results) {
            let before = all_ok(results.drop_last())->Ok_0;
            assert(output.drop_last() =~= before);
            assert forall|i: int| 0 <= i < calls.len() implies states(
                Protocol::Chat,
                #[trigger] calls[i],
                called(output)[i],
            ) by {
                if i < front.len() {
                    assert(calls[i] == front[i]);
                }
            }
        }
    }
}

/// The reasoning that a response holds is kept in its place, as it came.
pub proof fn reasoning_is_kept(protocol: Protocol, item: JsonView)
    requires
        protocol != Protocol::Chat,
    ensures
        protocol == Protocol::Responses && (item.get_str("type"@) == Some("reasoning"@)
            || item.get_str("type"@) == Some("compaction"@)) ==> native_item(protocol, item) == Ok::<
            Seq<OutputView>,
            ErrorView,
        >(seq![OutputView::Content(ContentView::Opaque { provider: "openai"@, data: item })]),
        protocol == Protocol::Messages && (item.get_str("type"@) == Some("thinking"@)
            || item.get_str("type"@) == Some("redacted_thinking"@)) ==> native_item(protocol, item)
            == Ok::<Seq<OutputView>, ErrorView>(
            seq![OutputView::Content(ContentView::Opaque { provider: "anthropic"@, data: item })],
        ),
{
    kinds_differ();
    text_parts_are_heard("anthropic"@, item);
}

// ---------------------------------------------------------------------------------------
// What is told of a turn
// ---------------------------------------------------------------------------------------
/// A turn names the model and the response, tells why it ended where the protocol says so,
/// and is pending where the provider paused it or a call of the provider is not done.
pub proof fn a_turn_is_described(
    protocol: Protocol,
    response: JsonView,
    answers: Seq<AnswerView<Seq<OutputView>>>,
)
    requires
        turn(protocol, response, answers) is Ok,
    ensures
        ({
            let made = turn(protocol, response, answers)->Ok_0;
            &&& response.present("error"@) is None
            &&& made.model_id == response.get_str("model"@)
            &&& made.response_id == response.get_str("id"@)
            &&& made.finish_reason == (match protocol {
                Protocol::Chat => match response.pointer("/choices/0/finish_reason"@) {
                    Some(reason) => reason.as_str(),
                    None => None,
                },
                Protocol::Responses => response.get_str("status"@),
                Protocol::Messages => response.get_str("stop_reason"@),
            })
            &&& made.provider_turn_pending <==> {
                ||| protocol == Protocol::Messages && response.get_str("stop_reason"@) == Some(
                    "pause_turn"@,
                )
                ||| exists|i: int|
                    0 <= i < made.output.len() && ((
                    #[trigger] made.output[i]) matches OutputView::ProviderToolCall(call) && (
                    call.status == ProviderToolStatus::Pending || call.status
                        == ProviderToolStatus::Running))
            }
            &&& made.provider_data.get_str("protocol"@) == Some(protocol.name())
            &&& made.provider_data.has("response"@)
        }),
{
    broadcast use set_get;

    reveal_strlit("protocol");
    reveal_strlit("response");
    assert("protocol"@[0] != "response"@[0]);
}

/// A response that reports an error makes no turn.
pub proof fn an_error_makes_no_turn(
    protocol: Protocol,
    response: JsonView,
    answers: Seq<AnswerView<Seq<OutputView>>>,
)
    ensures
        response.has("error"@) && !(response.field("error"@) is Null) ==> turn(
            protocol,
            response,
            answers,
        ) is Err,
{
}

/// The counts of a turn are those that its response reports. The input of a Messages response
/// is counted together with what was read from the cache and written to it, and a total that
/// is not reported is the sum of input and output.
pub proof fn usage_is_counted(
    protocol: Protocol,
    response: JsonView,
    answers: Seq<AnswerView<Seq<OutputView>>>,
)
    requires
        turn(protocol, response, answers) is Ok,
    ensures
        ({
            let usage = turn(protocol, response, answers)->Ok_0.usage;
            let reported = response.field("usage"@);
            let read = reported.get_u64("cache_read_input_tokens"@);
            let written = reported.get_u64("cache_creation_input_tokens"@);
            &&& match protocol {
                Protocol::Chat => {
                    &&& usage.input_tokens == reported.get_u64("prompt_tokens"@)
                    &&& usage.output_tokens == reported.get_u64("completion_tokens"@)
                    &&& usage.reasoning_tokens == path_u64(
                        reported,
                        "/completion_tokens_details/reasoning_tokens"@,
                    )
                    &&& read is None ==> usage.cache_read_tokens == path_u64(
                        reported,
                        "/prompt_tokens_details/cached_tokens"@,
                    )
                },
                _ => {
                    &&& usage.output_tokens == reported.get_u64("output_tokens"@)
                    &&& usage.reasoning_tokens == path_u64(
                        reported,
                        "/output_tokens_details/reasoning_tokens"@,
                    )
                    &&& read is None ==> usage.cache_read_tokens == path_u64(
                        reported,
                        "/input_tokens_details/cached_tokens"@,
                    )
                },
            }
            &&& protocol == Protocol::Responses ==> usage.input_tokens == reported.get_u64(
                "input_tokens"@,
            )
            &&& protocol == Protocol::Messages ==> match reported.get_u64("input_tokens"@) {
                None => usage.input_tokens is None,
                Some(n) => usage.input_tokens matches Some(all) && {
                    let cached: int = (match read {
                        Some(n) => n as int,
                        None => 0,
                    }) + (match written {
                        Some(n) => n as int,
                        None => 0,
                    });
                    if n + cached <= u64::MAX {
                        all == n + cached
                    } else {
                        all == u64::MAX
                    }
                },
            }
            &&& read is Some ==> usage.cache_read_tokens == read
            &&& usage.cache_write_tokens == written
            &&& match reported.get_u64("total_tokens"@) {
                Some(n) => usage.total_tokens == Some(n),
                None => match (usage.input_tokens, usage.output_tokens) {
                    (Some(a), Some(b)) => usage.total_tokens matches Some(sum) && if a + b
                        <= u64::MAX {
                        sum == a + b
                    } else {
                        sum == u64::MAX
                    },
                    _ => usage.total_tokens is None,
                },
            }
        }),
{
}

// ---------------------------------------------------------------------------------------
// What can be heard
// ---------------------------------------------------------------------------------------
/// An item that holds what its type asks for is heard: a text, a call with its identity, its
/// name and its input, and reasoning. An item of any other type is not, unless an extension
/// claims it: what a provider ran is never passed over.
pub proof fn items_of_known_types_are_heard(protocol: Protocol, item: JsonView, kind: Seq<char>)
    requires
        protocol != Protocol::Chat,
        item.get_str("type"@) == Some(kind),
    ensures
        protocol == Protocol::Messages ==> {
            &&& kind == "text"@ && item.get_str("text"@) is Some ==> native_item(protocol, item)
                is Ok
            &&& kind == "tool_use"@ && item.get_str("id"@) is Some && item.get_str("name"@) is Some
                && item.has("input"@) ==> native_item(protocol, item) is Ok
            &&& kind == "thinking"@ || kind == "redacted_thinking"@ || kind == "image"@ || kind
                == "document"@ ==> native_item(protocol, item) is Ok
            &&& kind != "text"@ && kind != "tool_use"@ && kind != "thinking"@ && kind
                != "redacted_thinking"@ && kind != "image"@ && kind != "document"@ ==> native_item(
                protocol,
                item,
            ) is Err
        },
        protocol == Protocol::Responses ==> {
            &&& kind == "function_call"@ && item.get_str("call_id"@) is Some && item.get_str(
                "name"@,
            ) is Some && (item.get_str("arguments"@) matches Some(arguments) && json_text(arguments)
                is Ok) ==> native_item(protocol, item) is Ok
            &&& kind == "custom_tool_call"@ && item.get_str("call_id"@) is Some && item.get_str(
                "name"@,
            ) is Some && item.get_str("input"@) is Some ==> native_item(protocol, item) is Ok
            &&& kind == "reasoning"@ || kind == "compaction"@ ==> native_item(protocol, item) is Ok
            &&& kind != "message"@ && kind != "function_call"@ && kind != "custom_tool_call"@
                && kind != "reasoning"@ && kind != "compaction"@ ==> native_item(protocol, item)
                is Err
        },
{
    kinds_differ();
    text_parts_are_heard("anthropic"@, item);
}

/// A message of a Responses output is heard where each of its texts is one.
pub proof fn messages_are_heard(item: JsonView, parts: Seq<JsonView>)
    requires
        item.get_str("type"@) == Some("message"@),
        item.get_array("content"@) == Some(parts),
        forall|i: int|
            0 <= i < parts.len() ==> parsed_content("openai"@, #[trigger] parts[i]) is Ok,
    ensures
        native_item(Protocol::Responses, item) is Ok,
{
    kinds_differ();
    let results = parts.map_values(|v: JsonView| parsed_content("openai"@, v));
    let values = Seq::new(parts.len(), |i: int| parsed_content("openai"@, parts[i])->Ok_0);
    assert forall|i: int| 0 <= i < results.len() implies #[trigger] results[i] == Ok::<
        OutputView,
        ErrorView,
    >(values[i]) by {
        assert(parsed_content("openai"@, parts[i]) is Ok);
    }
    all_ok_from(results, values);
}

/// A response that reports no error makes a turn where each of its items is heard.
pub proof fn a_readable_response_makes_a_turn(
    protocol: Protocol,
    response: JsonView,
    items: Seq<JsonView>,
    answers: Seq<AnswerView<Seq<OutputView>>>,
)
    requires
        protocol != Protocol::Chat,
        !response.has("error"@),
        response_items(protocol, response) == Some(items),
        forall|i: int|
            0 <= i < items.len() ==> #[trigger] answer_at(answers, i) == AnswerView::<
                Seq<OutputView>,
            >::Unclaimed && native_item(protocol, items[i]) is Ok,
    ensures
        turn(protocol, response, answers) is Ok,
{
    let results = decoded_items(protocol, items, answers);
    let values = Seq::new(
        items.len(),
        |i: int| (native_item(protocol, items[i])->Ok_0, items[i]),
    );
    assert forall|i: int| 0 <= i < results.len() implies #[trigger] results[i] == Ok::<
        (Seq<OutputView>, JsonView),
        ErrorView,
    >(values[i]) by {
        assert(answer_at(answers, i) == AnswerView::<Seq<OutputView>>::Unclaimed);
        assert(results[i] == decoded_item(protocol, items[i], answer_at(answers, i)));
    }
    all_ok_from(results, values);
}

/// What an extension claims of an item is what is heard of it. The item itself is kept for
/// replay, unless it stands for calls of a provider: their identities are kept in its place.
pub proof fn a_claim_is_heard(
    protocol: Protocol,
    item: JsonView,
    output: Seq<OutputView>,
    i: int,
)
    requires
        protocol == Protocol::Messages || item.get_str("type"@) is Some,
        0 <= i < output.len(),
    ensures
        match decoded_item(protocol, item, AnswerView::Claimed(output)) {
            Ok((heard, mark)) => {
                &&& heard == output
                &&& !(output[i] is ProviderToolCall) ==> mark == item
                &&& output[i] matches OutputView::ProviderToolCall(call) ==> (mark.get_array(
                    position_key(),
                ) matches Some(ids) && ids.len() == output.len() && ids[i] == JsonView::Text(
                    call.id,
                ))
            },
            Err(_) => exists|j: int|
                0 <= j < output.len() && (#[trigger] output[j]) is ProviderToolCall != (output[i]
                    is ProviderToolCall),
        },
        decoded_item(protocol, item, AnswerView::Claimed(Seq::empty())) matches Ok((heard, _))
            && heard.len() == 0,
{
    broadcast use set_get;

    ids_are_counted(output);
    ids_are_counted(Seq::empty());
    if output[i] is ProviderToolCall {
        if forall|j: int| 0 <= j < output.len() ==> (#[trigger] output[j]) is ProviderToolCall {
            ids_are_those_of_calls(output, i);
        }
    }
}

proof fn ids_are_counted(output: Seq<OutputView>)
    ensures
        provider_ids(output).len() <= output.len(),
        provider_ids(output).len() == output.len() <==> forall|j: int|
            0 <= j < output.len() ==> (#[trigger] output[j]) is ProviderToolCall,
        provider_ids(output).len() == 0 <==> forall|j: int|
            0 <= j < output.len() ==> !((#[trigger] output[j]) is ProviderToolCall),
    decreases output.len(),
{
    if output.len() > 0 {
        let front = output.drop_last();
        ids_are_counted(front);
        assert(output[output.len() - 1] == output.last());
        assert forall|j: int| 0 <= j < front.len() implies front[j] == #[trigger] output[j] by {}
        if forall|j: int| 0 <= j < output.len() ==> (#[trigger] output[j]) is ProviderToolCall {
            assert forall|j: int| 0 <= j < front.len() implies (#[trigger] front[j])
                is ProviderToolCall by {
                assert(output[j] is ProviderToolCall);
            }
        }
        if forall|j: int| 0 <= j < output.len() ==> !((#[trigger] output[j]) is ProviderToolCall) {
            assert forall|j: int| 0 <= j < front.len() implies !((#[trigger] front[j])
                is ProviderToolCall) by {
                assert(!(output[j] is ProviderToolCall));
            }
        }
        if provider_ids(output).len() == output.len() {
            assert forall|j: int| 0 <= j < output.len() implies (#[trigger] output[j])
                is ProviderToolCall by {
                if j < front.len() {
                    assert(front[j] is ProviderToolCall);
                }
            }
        }
        if provider_ids(output).len() == 0 {
            assert forall|j: int| 0 <= j < output.len() implies !((#[trigger] output[j])
                is ProviderToolCall) by {
                if j < front.len() {
                    assert(!(front[j] is ProviderToolCall));
                }
            }
        }
    }
}

proof fn ids_are_those_of_calls(output: Seq<OutputView>, i: int)
    requires
        forall|j: int| 0 <= j < output.len() ==> (#[trigger] output[j]) is ProviderToolCall,
        0 <= i < output.len(),
    ensures
        provider_ids(output).len() == output.len(),
        provider_ids(output)[i] == JsonView::Text(output[i]->ProviderToolCall_0.id),
    decreases output.len(),
{
    let front = output.drop_last();
    assert(output[output.len() - 1] is ProviderToolCall);
    assert forall|j: int| 0 <= j < front.len() implies (#[trigger] front[j])
        is ProviderToolCall by {
        assert(output[j] is ProviderToolCall);
    }
    ids_are_counted(front);
    if i < front.len() {
        ids_are_those_of_calls(front, i);
    }
}

} // verus!
