//! What holds between encoding and decoding.
use crate::codec::content::call_text;
use crate::codec::decode::{
    chat_call, chat_calls, chat_content, chat_reasoning, decoded_item, decoded_items, items_key, marks, messages_item, native_item, outputs,
    parsed_content, parsed_contents, provider_ids, replay_data, responses_item, structured, tool_use,
    turn,
};
use crate::codec::encode::{
    chat_call_json, function_object, responses_call_json, tool_use_json,
};
use crate::codec::replay::{
    all_emitted, assistant_replayed, call_by_id, native_items, nothing_replayed, position_key,
    replay_id, replay_id_step, replay_item, replay_item_step, replayed, Replayed,
};
use crate::error::{all_ok, all_ok_each, fold_ok, ErrorView};
use crate::extension::{answer_at, AnswerView};
use crate::json::{json_text, set_get, JsonView};
use crate::message::{OutputView, RuntimeToolCallView, RuntimeToolInputView};
use crate::model::Protocol;
use vstd::prelude::*;

verus! {

// ---------------------------------------------------------------------------------------
// Calls
// ---------------------------------------------------------------------------------------
proof fn call_keys_differ()
    ensures
        "type"@ != "call_id"@,
        "type"@ != "id"@,
        "type"@ != "name"@,
        "type"@ != "input"@,
        "type"@ != "arguments"@,
        "type"@ != "function"@,
        "id"@ != "name"@,
        "id"@ != "input"@,
        "id"@ != "function"@,
        "call_id"@ != "name"@,
        "call_id"@ != "input"@,
        "call_id"@ != "arguments"@,
        "name"@ != "input"@,
        "name"@ != "arguments"@,
        "function_call"@ != "message"@,
        "custom_tool_call"@ != "message"@,
        "custom_tool_call"@ != "function_call"@,
{
    reveal_strlit("type");
    reveal_strlit("call_id");
    reveal_strlit("id");
    reveal_strlit("name");
    reveal_strlit("input");
    reveal_strlit("arguments");
    reveal_strlit("function");
    reveal_strlit("function_call");
    reveal_strlit("custom_tool_call");
    reveal_strlit("message");
    assert("type"@.len() == 4 && "type"@[0] == 't' && "name"@.len() == 4 && "name"@[0] == 'n');
    assert("id"@.len() == 2 && "call_id"@.len() == 7 && "input"@.len() == 5);
    assert("arguments"@.len() == 9 && "function"@.len() == 8);
    assert("function_call"@.len() == 13 && "custom_tool_call"@.len() == 16);
    assert("message"@.len() == 7);
}

/// A call that was encoded for the Responses protocol is decoded to the same call. A
/// structured input comes back wherever its text reads as the input, which holds of every
/// plain value that is not nested too deep.
pub proof fn responses_calls_come_back(call: RuntimeToolCallView)
    requires
        call.input matches RuntimeToolInputView::Structured(input) ==> json_text(call_text(call))
            == Ok::<JsonView, Seq<char>>(input),
    ensures
        responses_item(responses_call_json(call)) == Ok::<Seq<OutputView>, ErrorView>(
            seq![OutputView::RuntimeToolCall(call)],
        ),
{
    broadcast use set_get;

    call_keys_differ();
    let item = responses_call_json(call);
    assert(item.get_str("call_id"@) == Some(call.id));
    assert(item.get_str("name"@) == Some(call.name));
}

/// A structured call that was encoded for the Messages protocol is decoded to the same call.
pub proof fn messages_calls_come_back(call: RuntimeToolCallView, input: JsonView)
    requires
        call.input == RuntimeToolInputView::Structured(input),
    ensures
        messages_item(tool_use_json(call, input)) == Ok::<Seq<OutputView>, ErrorView>(
            seq![OutputView::RuntimeToolCall(call)],
        ),
{
    broadcast use set_get;

    call_keys_differ();
    let item = tool_use_json(call, input);
    assert(item.get_str("type"@) == Some("tool_use"@));
    assert(item.get_str("id"@) == Some(call.id));
    assert(item.get_str("name"@) == Some(call.name));
    assert(item.get("input"@) == Some(input));
}

/// A structured call that was encoded for the Chat protocol is decoded to the same call
/// wherever its text reads as the input.
pub proof fn chat_calls_come_back(call: RuntimeToolCallView, input: JsonView)
    requires
        call.input == RuntimeToolInputView::Structured(input),
        json_text(call_text(call)) == Ok::<JsonView, Seq<char>>(input),
    ensures
        chat_call(chat_call_json(call)) == Ok::<OutputView, ErrorView>(
            OutputView::RuntimeToolCall(call),
        ),
{
    broadcast use set_get;

    call_keys_differ();
    let item = chat_call_json(call);
    let function = function_object(call.name, call_text(call));
    assert(item.get("function"@) == Some(function));
    assert(item.get_str("id"@) == Some(call.id));
    assert(function.get_str("name"@) == Some(call.name));
    assert(function.get_str("arguments"@) == Some(call_text(call)));
}

// ---------------------------------------------------------------------------------------
// Replay
// ---------------------------------------------------------------------------------------
/// The ids that positions list, in order.
pub open spec fn listed_ids(items: Seq<JsonView>) -> Seq<JsonView>
    decreases items.len(),
{
    if items.len() == 0 {
        Seq::empty()
    } else {
        match items.last().get_array(position_key()) {
            Some(ids) => listed_ids(items.drop_last()) + ids,
            None => listed_ids(items.drop_last()),
        }
    }
}

pub open spec fn as_texts(ids: Seq<Seq<char>>) -> Seq<JsonView> {
    ids.map_values(|id: Seq<char>| JsonView::text(id))
}

proof fn replayed_ids(
    ids: Seq<JsonView>,
    output: Seq<OutputView>,
    answers: Seq<AnswerView<Seq<JsonView>>>,
    start: Replayed,
)
    requires
        start.emitted.no_duplicates(),
        forall|i: int|
            0 <= i < start.emitted.len() ==> call_by_id(output, #[trigger] start.emitted[i]) is Some,
    ensures
        fold_ok(ids, start, replay_id_step(output, answers)) matches Ok(done) ==> {
            &&& as_texts(done.emitted) == as_texts(start.emitted) + ids
            &&& done.emitted.no_duplicates()
            &&& forall|i: int|
                0 <= i < done.emitted.len() ==> call_by_id(
                    output,
                    #[trigger] done.emitted[i],
                ) is Some
        },
    decreases ids.len(),
{
    if ids.len() == 0 {
        assert(as_texts(start.emitted) + ids =~= as_texts(start.emitted));
    } else {
        replayed_ids(ids.drop_last(), output, answers, start);
        match fold_ok(ids.drop_last(), start, replay_id_step(output, answers)) {
            Ok(before) => {
                let id = ids.last();
                assert(replay_id_step(output, answers)(before, id) == replay_id(
                    output,
                    answers,
                    before,
                    id,
                ));
                match replay_id(output, answers, before, id) {
                    Ok(done) => {
                        assert(done.emitted == before.emitted.push(id->Text_0));
                        assert(as_texts(done.emitted) =~= as_texts(before.emitted).push(id));
                        assert(as_texts(start.emitted) + ids.drop_last().push(id)
                            =~= as_texts(start.emitted) + ids);
                        assert(as_texts(done.emitted) =~= as_texts(start.emitted) + ids);
                    },
                    Err(_) => {},
                }
            },
            Err(_) => {},
        }
    }
}

pub(crate) proof fn replayed_items(
    items: Seq<JsonView>,
    output: Seq<OutputView>,
    answers: Seq<AnswerView<Seq<JsonView>>>,
)
    ensures
        fold_ok(items, nothing_replayed(), replay_item_step(output, answers)) matches Ok(done)
            ==> {
            &&& as_texts(done.emitted) == listed_ids(items)
            &&& done.emitted.no_duplicates()
            &&& forall|i: int|
                0 <= i < done.emitted.len() ==> call_by_id(
                    output,
                    #[trigger] done.emitted[i],
                ) is Some
        },
    decreases items.len(),
{
    if items.len() == 0 {
        assert(as_texts(nothing_replayed().emitted) =~= Seq::empty());
    } else {
        replayed_items(items.drop_last(), output, answers);
        match fold_ok(items.drop_last(), nothing_replayed(), replay_item_step(output, answers)) {
            Ok(before) => {
                let item = items.last();
                assert(replay_item_step(output, answers)(before, item) == replay_item(
                    output,
                    answers,
                    before,
                    item,
                ));
                match item.get(position_key()) {
                    Some(ids) => match ids.as_array() {
                        Some(ids) => {
                            replayed_ids(ids, output, answers, before);
                        },
                        None => {},
                    },
                    None => {},
                }
            },
            Err(_) => {},
        }
    }
}

/// A replay that succeeds encodes each provider call of the output exactly once, in the
/// order of the positions: the listed ids are those of the calls, without a repetition.
pub proof fn each_call_is_replayed_once(
    items: Seq<JsonView>,
    output: Seq<OutputView>,
    answers: Seq<AnswerView<Seq<JsonView>>>,
)
    requires
        replayed(items, output, answers) is Ok,
    ensures
        listed_ids(items).no_duplicates(),
        forall|i: int|
            0 <= i < output.len() ==> ((#[trigger] output[i]) matches OutputView::ProviderToolCall(
                call,
            ) ==> listed_ids(items).contains(JsonView::text(call.id))),
        forall|i: int|
            0 <= i < listed_ids(items).len() ==> (#[trigger] listed_ids(items)[i]) is Text
                && call_by_id(output, listed_ids(items)[i]->Text_0) is Some,
{
    replayed_items(items, output, answers);
    let done = fold_ok(items, nothing_replayed(), replay_item_step(output, answers))->Ok_0;
    let ids = listed_ids(items);
    assert(ids == as_texts(done.emitted));
    assert forall|i: int|
        0 <= i < output.len() implies ((
    #[trigger] output[i]) matches OutputView::ProviderToolCall(call) ==> ids.contains(
        JsonView::text(call.id),
    )) by {
        match output[i] {
            OutputView::ProviderToolCall(call) => {
                let j = choose|j: int|
                    0 <= j < done.emitted.len() && done.emitted[j] == call.id;
                assert(ids[j] == JsonView::text(call.id));
            },
            _ => {},
        }
    }
    assert forall|i: int, j: int|
        0 <= i < ids.len() && 0 <= j < ids.len() && i != j implies ids[i] != ids[j] by {
        assert(done.emitted[i] != done.emitted[j]);
    }
    assert forall|i: int| 0 <= i < ids.len() implies (#[trigger] ids[i]) is Text && call_by_id(
        output,
        ids[i]->Text_0,
    ) is Some by {
        assert(call_by_id(output, done.emitted[i]) is Some);
    }
}

pub open spec fn no_provider_calls(output: Seq<OutputView>) -> bool {
    forall|i: int| 0 <= i < output.len() ==> !((#[trigger] output[i]) is ProviderToolCall)
}

proof fn contents_hold_no_provider_calls(provider: Seq<char>, values: Seq<JsonView>)
    ensures
        parsed_contents(provider, values) matches Ok(output) ==> no_provider_calls(output),
    decreases values.len(),
{
    let results = values.map_values(|v: JsonView| parsed_content(provider, v));
    if values.len() > 0 {
        contents_hold_no_provider_calls(provider, values.drop_last());
        assert(results.drop_last() =~= values.drop_last().map_values(
            |v: JsonView| parsed_content(provider, v),
        ));
        assert(results.last() == parsed_content(provider, values.last()));
    }
}

/// What is decoded here is never a call that the provider runs: only an extension maps those.
pub proof fn native_items_hold_no_provider_calls(protocol: Protocol, item: JsonView)
    ensures
        native_item(protocol, item) matches Ok(output) ==> no_provider_calls(output),
{
    match item.get_array("content"@) {
        Some(values) => {
            contents_hold_no_provider_calls("openai"@, values);
        },
        None => {},
    }
}

proof fn unclaimed_items(
    protocol: Protocol,
    items: Seq<JsonView>,
    answers: Seq<AnswerView<Seq<OutputView>>>,
)
    requires
        forall|i: int|
            0 <= i < items.len() ==> #[trigger] answer_at(answers, i) == AnswerView::<
                Seq<OutputView>,
            >::Unclaimed,
    ensures
        all_ok(decoded_items(protocol, items, answers)) matches Ok(decoded) ==> {
            &&& marks(decoded) == items
            &&& no_provider_calls(outputs(decoded))
        },
    decreases items.len(),
{
    let results = decoded_items(protocol, items, answers);
    if items.len() > 0 {
        unclaimed_items(protocol, items.drop_last(), answers);
        assert(results.drop_last() =~= decoded_items(protocol, items.drop_last(), answers));
        match all_ok(results) {
            Ok(decoded) => {
                let n = items.len() - 1;
                assert(answer_at(answers, n) == AnswerView::<Seq<OutputView>>::Unclaimed);
                assert(results.last() == decoded_item(
                    protocol,
                    items[n],
                    answer_at(answers, n),
                ));
                native_items_hold_no_provider_calls(protocol, items[n]);
                let before = all_ok(results.drop_last())->Ok_0;
                let last = results.last()->Ok_0;
                assert(decoded == before.push(last));
                assert(decoded.drop_last() =~= before);
                assert(marks(decoded) =~= marks(before).push(items[n]));
                assert(items.drop_last().push(items[n]) =~= items);
            },
            Err(_) => {},
        }
    } else {
        assert(results =~= Seq::empty());
        match all_ok(results) {
            Ok(decoded) => {
                assert(marks(decoded) =~= items);
            },
            Err(_) => {},
        }
    }
}

proof fn plain_items_replay(
    items: Seq<JsonView>,
    output: Seq<OutputView>,
    answers: Seq<AnswerView<Seq<JsonView>>>,
)
    requires
        forall|i: int| 0 <= i < items.len() ==> !(#[trigger] items[i]).has(position_key()),
    ensures
        fold_ok(items, nothing_replayed(), replay_item_step(output, answers)) == Ok::<
            Replayed,
            ErrorView,
        >(Replayed { values: items, emitted: Seq::empty() }),
    decreases items.len(),
{
    if items.len() > 0 {
        let rest = items.drop_last();
        assert forall|i: int| 0 <= i < rest.len() implies !(#[trigger] rest[i]).has(
            position_key(),
        ) by {
            assert(rest[i] == items[i]);
        }
        plain_items_replay(rest, output, answers);
        let before = Replayed { values: rest, emitted: Seq::empty() };
        assert(replay_item_step(output, answers)(before, items.last()) == replay_item(
            output,
            answers,
            before,
            items.last(),
        ));
        assert(!items[items.len() - 1].has(position_key()));
        assert(rest.push(items.last()) =~= items);
    } else {
        assert(items =~= Seq::empty());
    }
}

/// A response that no extension claimed is replayed on the next turn item by item, in its
/// own words and in its order.
pub proof fn native_items_are_replayed_verbatim(
    protocol: Protocol,
    response: JsonView,
    items: Seq<JsonView>,
    decoding: Seq<AnswerView<Seq<OutputView>>>,
    encoding: Seq<AnswerView<Seq<JsonView>>>,
)
    requires
        protocol != Protocol::Chat,
        response.get_array(items_key(protocol)) == Some(items),
        forall|i: int| 0 <= i < items.len() ==> !(#[trigger] items[i]).has(position_key()),
        forall|i: int|
            0 <= i < items.len() ==> #[trigger] answer_at(decoding, i) == AnswerView::<
                Seq<OutputView>,
            >::Unclaimed,
    ensures
        turn(protocol, response, decoding) matches Ok(decoded) ==> assistant_replayed(
            protocol,
            decoded.output,
            decoded.provider_data,
            encoding,
        ) == Ok::<Option<Seq<JsonView>>, ErrorView>(Some(items)),
{
    broadcast use set_get;

    match turn(protocol, response, decoding) {
        Ok(decoded) => {
            unclaimed_items(protocol, items, decoding);
            let kept = response.set(items_key(protocol), JsonView::Array(items));
            assert(decoded.provider_data == replay_data(protocol, kept));
            reveal_strlit("protocol");
            reveal_strlit("response");
            assert("protocol"@[0] != "response"@[0]);
            assert(decoded.provider_data.get("protocol"@) == Some(
                JsonView::text(protocol.name()),
            ));
            assert(decoded.provider_data.get("response"@) == Some(kept));
            assert(kept.get(items_key(protocol)) == Some(JsonView::Array(items)));
            assert(native_items(protocol, kept) == Some(items));
            plain_items_replay(items, decoded.output, encoding);
            assert(all_emitted(decoded.output, Seq::empty()));
        },
        Err(_) => {},
    }
}

// ---------------------------------------------------------------------------------------
// Claimed items
// ---------------------------------------------------------------------------------------
/// Whether an extension claimed an item for provider calls, and for nothing else.
pub open spec fn claimed_for_calls(answer: AnswerView<Seq<OutputView>>) -> bool {
    answer matches AnswerView::Claimed(output) && provider_ids(output).len() == output.len()
}

/// What adapters gave for calls, from one on, one behind the other.
pub open spec fn given_items(
    answers: Seq<AnswerView<Seq<JsonView>>>,
    from: nat,
    count: nat,
) -> Seq<JsonView>
    decreases count,
{
    if count == 0 {
        Seq::empty()
    } else {
        given_items(answers, from, (count - 1) as nat) + answers[from + count - 1]->Claimed_0
    }
}

/// The calls that items were claimed for.
pub open spec fn claimed_calls(decoding: Seq<AnswerView<Seq<OutputView>>>, n: nat) -> nat
    decreases n,
{
    if n == 0 {
        0
    } else {
        let before = claimed_calls(decoding, (n - 1) as nat);
        match answer_at(decoding, n - 1) {
            AnswerView::Claimed(output) => before + provider_ids(output).len(),
            _ => before,
        }
    }
}

/// Items as they are sent back: each in its place, and in the place of one that was claimed
/// for calls what the adapters gave for those.
pub open spec fn sent_back(
    items: Seq<JsonView>,
    decoding: Seq<AnswerView<Seq<OutputView>>>,
    encoding: Seq<AnswerView<Seq<JsonView>>>,
) -> Seq<JsonView>
    decreases items.len(),
{
    if items.len() == 0 {
        Seq::empty()
    } else {
        let n = (items.len() - 1) as nat;
        let before = sent_back(items.drop_last(), decoding, encoding);
        let answer = answer_at(decoding, n as int);
        if claimed_for_calls(answer) {
            before + given_items(
                encoding,
                claimed_calls(decoding, n),
                provider_ids(answer->Claimed_0).len(),
            )
        } else {
            before.push(items.last())
        }
    }
}

spec fn id_texts(ids: Seq<JsonView>) -> Seq<Seq<char>> {
    ids.map_values(|id: JsonView| id->Text_0)
}

proof fn provider_ids_join(first: Seq<OutputView>, second: Seq<OutputView>)
    ensures
        provider_ids(first + second) == provider_ids(first) + provider_ids(second),
    decreases second.len(),
{
    if second.len() == 0 {
        assert(first + second =~= first);
        assert(provider_ids(first) + provider_ids(second) =~= provider_ids(first));
    } else {
        assert((first + second).drop_last() =~= first + second.drop_last());
        provider_ids_join(first, second.drop_last());
        assert(provider_ids(first + second) =~= provider_ids(first) + provider_ids(second));
    }
}

proof fn no_ids_without_calls(output: Seq<OutputView>)
    requires
        no_provider_calls(output),
    ensures
        provider_ids(output) == Seq::<JsonView>::empty(),
    decreases output.len(),
{
    if output.len() > 0 {
        let rest = output.drop_last();
        assert forall|i: int| 0 <= i < rest.len() implies !((#[trigger] rest[i])
            is ProviderToolCall) by {
            assert(rest[i] == output[i]);
        }
        no_ids_without_calls(rest);
        assert(!(output[output.len() - 1] is ProviderToolCall));
    }
}

/// The ids of an output are those of its calls.
proof fn ids_are_of_calls(output: Seq<OutputView>)
    ensures
        forall|i: int|
            0 <= i < provider_ids(output).len() ==> (#[trigger] provider_ids(output)[i]) is Text
                && call_by_id(output, provider_ids(output)[i]->Text_0) is Some,
        forall|i: int|
            0 <= i < output.len() ==> ((#[trigger] output[i]) matches OutputView::ProviderToolCall(
                call,
            ) ==> provider_ids(output).contains(JsonView::text(call.id))),
    decreases output.len(),
{
    if output.len() > 0 {
        let rest = output.drop_last();
        let ids = provider_ids(output);
        let before = provider_ids(rest);
        ids_are_of_calls(rest);
        assert forall|i: int| 0 <= i < ids.len() implies (#[trigger] ids[i]) is Text
            && call_by_id(output, ids[i]->Text_0) is Some by {
            if i < before.len() {
                assert(ids[i] == before[i]);
            }
        }
        assert forall|i: int| 0 <= i < output.len() implies ((
        #[trigger] output[i]) matches OutputView::ProviderToolCall(call) ==> ids.contains(
            JsonView::text(call.id),
        )) by {
            match output[i] {
                OutputView::ProviderToolCall(call) => {
                    if i < rest.len() {
                        assert(rest[i] == output[i]);
                        assert(before.contains(JsonView::text(call.id)));
                        let j = choose|j: int|
                            0 <= j < before.len() && before[j] == JsonView::text(call.id);
                        assert(ids[j] == before[j]);
                    } else {
                        assert(ids[before.len() as int] == JsonView::text(call.id));
                    }
                },
                _ => {},
            }
        }
    }
}

/// The ids of a position are replayed, each by what its adapter gave.
proof fn position_replays(
    ids: Seq<JsonView>,
    output: Seq<OutputView>,
    answers: Seq<AnswerView<Seq<JsonView>>>,
    start: Replayed,
)
    requires
        forall|i: int|
            0 <= i < ids.len() ==> (#[trigger] ids[i]) is Text && call_by_id(
                output,
                ids[i]->Text_0,
            ) is Some,
        (start.emitted + id_texts(ids)).no_duplicates(),
        start.emitted.len() + ids.len() <= answers.len(),
        forall|i: int| 0 <= i < answers.len() ==> (#[trigger] answers[i]) is Claimed,
    ensures
        fold_ok(ids, start, replay_id_step(output, answers)) == Ok::<Replayed, ErrorView>(
            Replayed {
                values: start.values + given_items(answers, start.emitted.len(), ids.len()),
                emitted: start.emitted + id_texts(ids),
            },
        ),
    decreases ids.len(),
{
    let emitted = start.emitted + id_texts(ids);
    if ids.len() == 0 {
        assert(start.values + Seq::<JsonView>::empty() =~= start.values);
        assert(emitted =~= start.emitted);
    } else {
        let rest = ids.drop_last();
        let id = ids.last();
        let shorter = start.emitted + id_texts(rest);
        assert(shorter =~= emitted.drop_last());
        assert forall|i: int, j: int|
            0 <= i < shorter.len() && 0 <= j < shorter.len() && i != j implies shorter[i]
            != shorter[j] by {
            assert(emitted[i] != emitted[j]);
        }
        assert forall|i: int| 0 <= i < rest.len() implies (#[trigger] rest[i]) is Text
            && call_by_id(output, rest[i]->Text_0) is Some by {
            assert(rest[i] == ids[i]);
        }
        position_replays(rest, output, answers, start);
        let done = fold_ok(rest, start, replay_id_step(output, answers))->Ok_0;
        assert(ids[ids.len() - 1] is Text);
        assert(emitted.last() == id->Text_0);
        assert(!done.emitted.contains(id->Text_0)) by {
            if done.emitted.contains(id->Text_0) {
                let i = choose|i: int|
                    0 <= i < done.emitted.len() && done.emitted[i] == id->Text_0;
                assert(emitted[i] == emitted[emitted.len() - 1]);
            }
        }
        let n = done.emitted.len() as int;
        assert(answers[n] is Claimed);
        assert(replay_id_step(output, answers)(done, id) == replay_id(output, answers, done, id));
        assert(done.emitted.push(id->Text_0) =~= emitted);
        assert(done.values + answers[n]->Claimed_0 =~= start.values + given_items(
            answers,
            start.emitted.len(),
            ids.len(),
        ));
    }
}

/// What was decoded of items so far, and how it is sent back.
proof fn decoded_items_replay(
    protocol: Protocol,
    items: Seq<JsonView>,
    decoding: Seq<AnswerView<Seq<OutputView>>>,
    encoding: Seq<AnswerView<Seq<JsonView>>>,
    output: Seq<OutputView>,
    decoded: Seq<(Seq<OutputView>, JsonView)>,
)
    requires
        all_ok(decoded_items(protocol, items, decoding)) == Ok::<
            Seq<(Seq<OutputView>, JsonView)>,
            ErrorView,
        >(decoded),
        forall|i: int| 0 <= i < items.len() ==> !(#[trigger] items[i]).has(position_key()),
        provider_ids(outputs(decoded)).no_duplicates(),
        forall|i: int|
            0 <= i < provider_ids(outputs(decoded)).len() ==> (#[trigger] provider_ids(
                outputs(decoded),
            )[i]) is Text && call_by_id(output, provider_ids(outputs(decoded))[i]->Text_0) is Some,
        provider_ids(outputs(decoded)).len() <= encoding.len(),
        forall|i: int| 0 <= i < encoding.len() ==> (#[trigger] encoding[i]) is Claimed,
    ensures
        fold_ok(marks(decoded), nothing_replayed(), replay_item_step(output, encoding)) == Ok::<
            Replayed,
            ErrorView,
        >(
            Replayed {
                values: sent_back(items, decoding, encoding),
                emitted: id_texts(provider_ids(outputs(decoded))),
            },
        ),
        claimed_calls(decoding, items.len()) == provider_ids(outputs(decoded)).len(),
    decreases items.len(),
{
    broadcast use set_get;

    let results = decoded_items(protocol, items, decoding);
    if items.len() == 0 {
        assert(results =~= Seq::empty());
        assert(decoded =~= Seq::empty());
        assert(marks(decoded) =~= Seq::empty());
        assert(id_texts(provider_ids(outputs(decoded))) =~= Seq::empty());
    } else {
        let n = items.len() - 1;
        let before = all_ok(results.drop_last())->Ok_0;
        let last = results.last()->Ok_0;
        let rest = items.drop_last();
        let answer = answer_at(decoding, n);
        assert(results.drop_last() =~= decoded_items(protocol, rest, decoding));
        assert(results.last() == decoded_item(protocol, items[n], answer));
        assert(decoded == before.push(last));
        assert(decoded.drop_last() =~= before);
        assert(outputs(decoded) == outputs(before) + last.0);
        provider_ids_join(outputs(before), last.0);
        let all = provider_ids(outputs(decoded));
        let front = provider_ids(outputs(before));
        let ids = provider_ids(last.0);
        assert(all == front + ids);
        assert forall|i: int| 0 <= i < front.len() implies (#[trigger] front[i]) is Text
            && call_by_id(output, front[i]->Text_0) is Some by {
            assert(all[i] == front[i]);
        }
        assert forall|i: int| 0 <= i < ids.len() implies (#[trigger] ids[i]) is Text
            && call_by_id(output, ids[i]->Text_0) is Some by {
            assert(all[front.len() + i] == ids[i]);
        }
        assert forall|i: int, j: int|
            0 <= i < front.len() && 0 <= j < front.len() && i != j implies front[i] != front[j] by {
            assert(all[i] != all[j]);
        }
        assert forall|i: int| 0 <= i < rest.len() implies !(#[trigger] rest[i]).has(
            position_key(),
        ) by {
            assert(rest[i] == items[i]);
        }
        decoded_items_replay(protocol, rest, decoding, encoding, output, before);
        let done = Replayed {
            values: sent_back(rest, decoding, encoding),
            emitted: id_texts(front),
        };
        assert(marks(decoded).drop_last() =~= marks(before));
        assert(marks(decoded).last() == last.1);
        assert(replay_item_step(output, encoding)(done, last.1) == replay_item(
            output,
            encoding,
            done,
            last.1,
        ));
        assert(!items[n].has(position_key()));
        native_items_hold_no_provider_calls(protocol, items[n]);
        if claimed_for_calls(answer) {
            let position = JsonView::empty().set(position_key(), JsonView::Array(ids));
            assert(last.0 == answer->Claimed_0);
            assert(last.1 == position);
            assert(position.get(position_key()) == Some(JsonView::Array(ids)));
            assert(position.as_object()->0.len() == 1);
            assert(id_texts(front) + id_texts(ids) =~= id_texts(all));
            assert forall|i: int, j: int|
                0 <= i < all.len() && 0 <= j < all.len() && i != j implies id_texts(all)[i]
                != id_texts(all)[j] by {
                assert(all[i] != all[j]);
                assert(all[i] is Text && all[j] is Text);
            }
            position_replays(ids, output, encoding, done);
        } else {
            assert(ids == Seq::<JsonView>::empty()) by {
                match answer {
                    AnswerView::Claimed(claimed) => {},
                    _ => {
                        no_ids_without_calls(last.0);
                    },
                }
            }
            assert(last.1 == items[n]);
            assert(id_texts(all) =~= id_texts(front));
        }
    }
}

/// A native item is sent back in its place on the next turn, also one that an extension
/// claimed for provider calls: there stands what the adapters give for those calls. It takes
/// that the ids of the calls differ, and that each is given its items.
pub proof fn claimed_items_are_replayed_in_place(
    protocol: Protocol,
    response: JsonView,
    items: Seq<JsonView>,
    decoding: Seq<AnswerView<Seq<OutputView>>>,
    encoding: Seq<AnswerView<Seq<JsonView>>>,
)
    requires
        protocol != Protocol::Chat,
        response.get_array(items_key(protocol)) == Some(items),
        forall|i: int| 0 <= i < items.len() ==> !(#[trigger] items[i]).has(position_key()),
        turn(protocol, response, decoding) is Ok,
        provider_ids(turn(protocol, response, decoding)->Ok_0.output).no_duplicates(),
        encoding.len() == provider_ids(turn(protocol, response, decoding)->Ok_0.output).len(),
        forall|i: int| 0 <= i < encoding.len() ==> (#[trigger] encoding[i]) is Claimed,
    ensures
        ({
            let decoded = turn(protocol, response, decoding)->Ok_0;
            assistant_replayed(protocol, decoded.output, decoded.provider_data, encoding) == Ok::<
                Option<Seq<JsonView>>,
                ErrorView,
            >(Some(sent_back(items, decoding, encoding)))
        }),
{
    broadcast use set_get;

    let decoded = turn(protocol, response, decoding)->Ok_0;
    let results = all_ok(decoded_items(protocol, items, decoding))->Ok_0;
    let kept = response.set(items_key(protocol), JsonView::Array(marks(results)));
    assert(decoded.output == outputs(results));
    assert(decoded.provider_data == replay_data(protocol, kept));
    reveal_strlit("protocol");
    reveal_strlit("response");
    assert("protocol"@[0] != "response"@[0]);
    assert(decoded.provider_data.get("protocol"@) == Some(JsonView::text(protocol.name())));
    assert(decoded.provider_data.get("response"@) == Some(kept));
    assert(kept.get(items_key(protocol)) == Some(JsonView::Array(marks(results))));
    assert(native_items(protocol, kept) == Some(marks(results)));
    ids_are_of_calls(decoded.output);
    decoded_items_replay(protocol, items, decoding, encoding, decoded.output, results);
    let ids = provider_ids(decoded.output);
    assert forall|i: int| 0 <= i < decoded.output.len() implies ((
    #[trigger] decoded.output[i]) matches OutputView::ProviderToolCall(call) ==> id_texts(
        ids,
    ).contains(call.id)) by {
        match decoded.output[i] {
            OutputView::ProviderToolCall(call) => {
                let j = choose|j: int| 0 <= j < ids.len() && ids[j] == JsonView::text(call.id);
                assert(id_texts(ids)[j] == call.id);
            },
            _ => {},
        }
    }
    assert(all_emitted(decoded.output, id_texts(ids)));
}

/// The message of a Chat response is sent back on the next turn as it came.
pub proof fn chat_messages_are_replayed_verbatim(
    response: JsonView,
    message: JsonView,
    decoding: Seq<AnswerView<Seq<OutputView>>>,
    encoding: Seq<AnswerView<Seq<JsonView>>>,
)
    requires
        response.pointer("/choices/0/message"@) == Some(message),
        !message.has(position_key()),
    ensures
        turn(Protocol::Chat, response, decoding) matches Ok(decoded) ==> assistant_replayed(
            Protocol::Chat,
            decoded.output,
            decoded.provider_data,
            encoding,
        ) == Ok::<Option<Seq<JsonView>>, ErrorView>(Some(seq![message])),
{
    broadcast use set_get;

    match turn(Protocol::Chat, response, decoding) {
        Ok(decoded) => {
            let protocol = Protocol::Chat;
            assert(decoded.provider_data == replay_data(protocol, response));
            reveal_strlit("protocol");
            reveal_strlit("response");
            assert("protocol"@[0] != "response"@[0]);
            assert(decoded.provider_data.get("protocol"@) == Some(JsonView::text(protocol.name())));
            assert(decoded.provider_data.get("response"@) == Some(response));
            assert(native_items(protocol, response) == Some(seq![message]));
            plain_items_replay(seq![message], decoded.output, encoding);
            chat_output_holds_no_provider_calls(message);
            let output = decoded.output;
            assert forall|i: int| 0 <= i < output.len() implies !((#[trigger] output[i])
                is ProviderToolCall) by {
                let reasoning = chat_reasoning(message);
                let content = chat_content(message)->Ok_0;
                let calls = chat_calls(message)->Ok_0;
                assert(output == reasoning + content + calls);
                if i < reasoning.len() {
                    assert(output[i] == reasoning[i]);
                } else if i < reasoning.len() + content.len() {
                    assert(output[i] == content[i - reasoning.len()]);
                } else {
                    assert(output[i] == calls[i - reasoning.len() - content.len()]);
                }
            }
            assert(all_emitted(decoded.output, Seq::empty()));
        },
        Err(_) => {},
    }
}

proof fn chat_output_holds_no_provider_calls(message: JsonView)
    ensures
        no_provider_calls(chat_reasoning(message)),
        chat_content(message) matches Ok(content) ==> no_provider_calls(content),
        chat_calls(message) matches Ok(calls) ==> no_provider_calls(calls),
{
    match message.get("content"@) {
        Some(JsonView::Array(values)) => {
            contents_hold_no_provider_calls("openai"@, values);
        },
        _ => {},
    }
    if let Some(calls) = message.get_array("tool_calls"@) {
        let results = calls.map_values(|c: JsonView| chat_call(c));
        if let Ok(output) = all_ok(results) {
            all_ok_each(results);
            assert forall|i: int| 0 <= i < output.len() implies !((#[trigger] output[i])
                is ProviderToolCall) by {
                assert(results[i] == Ok::<OutputView, ErrorView>(output[i]));
            }
        }
    }
}

} // verus!
