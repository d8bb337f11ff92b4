//! What holds of stored and resolved media.
use crate::artifacts::replay::{bindings_of, holds_payload, located};
use crate::artifacts::resolve::{
    loaded, resolved_content, resolved_contents, resolved_fields, resolved_items, resolved_message,
    resolved_messages, resolved_output, resolved_outputs, resolved_value, source_of, with_values,
};
use crate::artifacts::save::{
    inline_payload, kept_part, leaks, reference_for, save_item, save_part, saved, saved_item,
    saved_items, ItemsView, LedgerView, PartsView,
};
use crate::artifacts::{
    find, marker, ARTIFACT_KEY, ArtifactContentView, ArtifactRefView, Contents, References,
    StopView,
};
use crate::error::{
    all_ok, all_ok_culprit, all_ok_each, all_ok_from, fold_ok, fold_ok_culprit,
};
use crate::json::{
    first_field, index_token, insert, lookup, next_slash, next_slash_bound, same_keys, unescape,
    JsonView,
};
use crate::markers::{addressed_text_is_held, clear_of, holds_text, unmarked, unmarked_is_clear};
use crate::message::{
    ContentView, MediaSourceView, MessageView, OutputView, ProviderToolCallView,
    RuntimeToolOutcomeView,
};
use crate::model::TurnOutputView;
use vstd::prelude::*;

verus! {

// ---------------------------------------------------------------------------------------
// The store is asked once
// ---------------------------------------------------------------------------------------
/// Whether a stop asks for nothing that is known.
pub open spec fn asks_anew(stop: StopView, contents: Contents) -> bool {
    stop matches StopView::Fetch(reference) ==> find(contents, reference.id) is None
}

proof fn value_asks_anew(value: JsonView, contents: Contents)
    requires
        resolved_value(value, contents) is Err,
    ensures
        asks_anew(resolved_value(value, contents)->Err_0, contents),
    decreases value,
{
    match value {
        JsonView::Object(fields) => {
            if lookup(fields, ARTIFACT_KEY@) is None {
                let i = all_ok_culprit(resolved_fields(fields, contents));
                value_asks_anew(fields[i].1, contents);
            }
        },
        JsonView::Array(items) => {
            let i = all_ok_culprit(resolved_items(items, contents));
            value_asks_anew(items[i], contents);
        },
        _ => {},
    }
}

proof fn contents_ask_anew(parts: Seq<ContentView>, contents: Contents)
    requires
        resolved_contents(parts, contents) is Err,
    ensures
        asks_anew(resolved_contents(parts, contents)->Err_0, contents),
{
    let i = all_ok_culprit(parts.map_values(|c: ContentView| resolved_content(c, contents)));
}

proof fn output_asks_anew(output: OutputView, contents: Contents)
    requires
        resolved_output(output, contents) is Err,
    ensures
        asks_anew(resolved_output(output, contents)->Err_0, contents),
{
    match output {
        OutputView::ProviderToolCall(call) => {
            if resolved_contents(call.output, contents) is Err {
                contents_ask_anew(call.output, contents);
            } else {
                value_asks_anew(call.data, contents);
            }
        },
        _ => {},
    }
}

proof fn message_asks_anew(message: MessageView, contents: Contents)
    requires
        resolved_message(message, contents) is Err,
    ensures
        asks_anew(resolved_message(message, contents)->Err_0, contents),
{
    match message {
        MessageView::System(parts) => {
            contents_ask_anew(parts, contents);
        },
        MessageView::User(parts) => {
            contents_ask_anew(parts, contents);
        },
        MessageView::External(parts) => {
            contents_ask_anew(parts, contents);
        },
        MessageView::Assistant { output, provider_data } => {
            if resolved_outputs(output, contents) is Err {
                let i = all_ok_culprit(
                    output.map_values(|o: OutputView| resolved_output(o, contents)),
                );
                output_asks_anew(output[i], contents);
            } else {
                value_asks_anew(provider_data, contents);
            }
        },
        MessageView::RuntimeTool { outcome, .. } => match outcome {
            RuntimeToolOutcomeView::Success(parts) => {
                contents_ask_anew(parts, contents);
            },
            RuntimeToolOutcomeView::Accepted(parts) => {
                contents_ask_anew(parts, contents);
            },
            RuntimeToolOutcomeView::Waiting(parts) => {
                contents_ask_anew(parts, contents);
            },
            _ => {},
        },
        _ => {},
    }
}

/// An artifact is fetched once: what is known is not asked for again.
pub proof fn known_artifacts_are_not_fetched(
    messages: Seq<MessageView>,
    contents: Contents,
    reference: ArtifactRefView,
)
    requires
        resolved_messages(messages, contents) == Err::<Seq<MessageView>, StopView>(
            StopView::Fetch(reference),
        ),
    ensures
        find(contents, reference.id) is None,
{
    let i = all_ok_culprit(messages.map_values(|m: MessageView| resolved_message(m, contents)));
    message_asks_anew(messages[i], contents);
}

/// Whether a stop asks to store nothing that is known.
pub open spec fn stores_anew(stop: StopView, references: References) -> bool {
    stop matches StopView::Store { key, .. } ==> find(references, key) is None
}

proof fn item_stores_anew(
    item: OutputView,
    ledger: LedgerView,
    index: usize,
    run_id: Seq<char>,
    references: References,
)
    requires
        saved_item(item, ledger, index, run_id, references) is Err,
    ensures
        stores_anew(saved_item(item, ledger, index, run_id, references)->Err_0, references),
{
    match item {
        OutputView::ProviderToolCall(call) => {
            let (parts, i) = fold_ok_culprit(
                call.output,
                PartsView { output: Seq::empty(), data: call.data, ledger },
                save_part(index, run_id, references),
            );
        },
        _ => {},
    }
}

/// A payload is stored once: what is known is not stored again.
pub proof fn known_payloads_are_not_stored(
    response: TurnOutputView,
    run_id: Seq<char>,
    references: References,
    key: Seq<char>,
    content: ArtifactContentView,
)
    requires
        saved(response, run_id, references) == Err::<TurnOutputView, StopView>(
            StopView::Store { key, content },
        ),
    ensures
        find(references, key) is None,
{
    let locations = bindings_of(response.output)->Ok_0;
    let (items, i) = fold_ok_culprit(
        response.output,
        ItemsView {
            output: Seq::empty(),
            ledger: LedgerView { locations, claimed: Seq::empty(), payloads: Seq::empty() },
        },
        save_item(run_id, references),
    );
    item_stores_anew(
        response.output[i],
        items.ledger,
        items.output.len() as usize,
        run_id,
        references,
    );
}

// ---------------------------------------------------------------------------------------
// Nothing is left unresolved
// ---------------------------------------------------------------------------------------
/// Whether a part holds no reference.
pub open spec fn settled_content(content: ContentView) -> bool {
    !(source_of(content) matches Some(MediaSourceView::Artifact { .. }))
}

pub open spec fn settled_contents(parts: Seq<ContentView>) -> bool {
    forall|i: int| 0 <= i < parts.len() ==> settled_content(#[trigger] parts[i])
}

pub open spec fn settled_output(output: OutputView) -> bool {
    match output {
        OutputView::Content(content) => settled_content(content),
        OutputView::ProviderToolCall(call) => settled_contents(call.output) && unmarked(call.data, ARTIFACT_KEY@),
        _ => true,
    }
}

pub open spec fn settled_outputs(outputs: Seq<OutputView>) -> bool {
    forall|i: int| 0 <= i < outputs.len() ==> settled_output(#[trigger] outputs[i])
}

/// Whether a message holds no reference where references are resolved.
pub open spec fn settled_message(message: MessageView) -> bool {
    match message {
        MessageView::System(parts) => settled_contents(parts),
        MessageView::User(parts) => settled_contents(parts),
        MessageView::External(parts) => settled_contents(parts),
        MessageView::Assistant { output, provider_data } => settled_outputs(output) && unmarked(provider_data, ARTIFACT_KEY@),
        MessageView::RuntimeTool { outcome, .. } => match outcome {
            RuntimeToolOutcomeView::Success(parts) => settled_contents(parts),
            RuntimeToolOutcomeView::Accepted(parts) => settled_contents(parts),
            RuntimeToolOutcomeView::Waiting(parts) => settled_contents(parts),
            RuntimeToolOutcomeView::Failure { .. } => true,
        },
        MessageView::DelegationResult { .. } => true,
    }
}

proof fn resolved_value_is_unmarked(value: JsonView, contents: Contents)
    requires
        resolved_value(value, contents) is Ok,
    ensures
        unmarked(resolved_value(value, contents)->Ok_0, ARTIFACT_KEY@),
    decreases value,
{
    match value {
        JsonView::Object(fields) => {
            if lookup(fields, ARTIFACT_KEY@) is None {
                let results = resolved_fields(fields, contents);
                all_ok_each(results);
                let values = all_ok(results)->Ok_0;
                let after = with_values(fields, values);
                same_keys(after, fields, ARTIFACT_KEY@);
                assert forall|i: int| 0 <= i < after.len() implies unmarked((#[trigger] after[i]).1, ARTIFACT_KEY@) by {
                    assert(results[i] == Ok::<JsonView, StopView>(values[i]));
                    resolved_value_is_unmarked(fields[i].1, contents);
                }
                assert(unmarked(JsonView::Object(after), ARTIFACT_KEY@));
            }
        },
        JsonView::Array(items) => {
            let results = resolved_items(items, contents);
            all_ok_each(results);
            let values = all_ok(results)->Ok_0;
            assert forall|i: int| 0 <= i < values.len() implies unmarked(#[trigger] values[i], ARTIFACT_KEY@) by {
                assert(results[i] == Ok::<JsonView, StopView>(values[i]));
                resolved_value_is_unmarked(items[i], contents);
            }
            assert(unmarked(JsonView::Array(values), ARTIFACT_KEY@));
        },
        _ => {},
    }
}

proof fn unmarked_value_stays(value: JsonView, contents: Contents)
    requires
        unmarked(value, ARTIFACT_KEY@),
    ensures
        resolved_value(value, contents) == Ok::<JsonView, StopView>(value),
    decreases value,
{
    match value {
        JsonView::Object(fields) => {
            let results = resolved_fields(fields, contents);
            let values = Seq::new(fields.len(), |i: int| fields[i].1);
            assert forall|i: int| 0 <= i < results.len() implies #[trigger] results[i] == Ok::<
                JsonView,
                StopView,
            >(values[i]) by {
                unmarked_value_stays(fields[i].1, contents);
            }
            all_ok_from(results, values);
            assert(with_values(fields, values) =~= fields);
        },
        JsonView::Array(items) => {
            let results = resolved_items(items, contents);
            assert forall|i: int| 0 <= i < results.len() implies #[trigger] results[i] == Ok::<
                JsonView,
                StopView,
            >(items[i]) by {
                unmarked_value_stays(items[i], contents);
            }
            all_ok_from(results, items);
        },
        _ => {},
    }
}

proof fn resolved_contents_are_settled(parts: Seq<ContentView>, contents: Contents)
    requires
        resolved_contents(parts, contents) is Ok,
    ensures
        settled_contents(resolved_contents(parts, contents)->Ok_0),
{
    let results = parts.map_values(|c: ContentView| resolved_content(c, contents));
    all_ok_each(results);
    let after = all_ok(results)->Ok_0;
    assert forall|i: int| 0 <= i < after.len() implies settled_content(#[trigger] after[i]) by {
        assert(results[i] == Ok::<ContentView, StopView>(after[i]));
        assert(results[i] == resolved_content(parts[i], contents));
    }
}

proof fn settled_contents_stay(parts: Seq<ContentView>, contents: Contents)
    requires
        settled_contents(parts),
    ensures
        resolved_contents(parts, contents) == Ok::<Seq<ContentView>, StopView>(parts),
{
    let results = parts.map_values(|c: ContentView| resolved_content(c, contents));
    assert forall|i: int| 0 <= i < results.len() implies #[trigger] results[i] == Ok::<
        ContentView,
        StopView,
    >(parts[i]) by {
        assert(settled_content(parts[i]));
    }
    all_ok_from(results, parts);
}

proof fn resolved_output_is_settled(output: OutputView, contents: Contents)
    requires
        resolved_output(output, contents) is Ok,
    ensures
        settled_output(resolved_output(output, contents)->Ok_0),
{
    match output {
        OutputView::ProviderToolCall(call) => {
            resolved_contents_are_settled(call.output, contents);
            resolved_value_is_unmarked(call.data, contents);
        },
        _ => {},
    }
}

proof fn settled_output_stays(output: OutputView, contents: Contents)
    requires
        settled_output(output),
    ensures
        resolved_output(output, contents) == Ok::<OutputView, StopView>(output),
{
    match output {
        OutputView::ProviderToolCall(call) => {
            settled_contents_stay(call.output, contents);
            unmarked_value_stays(call.data, contents);
        },
        _ => {},
    }
}

/// What was resolved holds no reference: no part of a resolved message names an artifact,
/// and no native data holds a marker.
pub proof fn resolved_messages_hold_no_references(message: MessageView, contents: Contents)
    requires
        resolved_message(message, contents) is Ok,
    ensures
        settled_message(resolved_message(message, contents)->Ok_0),
{
    match message {
        MessageView::System(parts) => {
            resolved_contents_are_settled(parts, contents);
        },
        MessageView::User(parts) => {
            resolved_contents_are_settled(parts, contents);
        },
        MessageView::External(parts) => {
            resolved_contents_are_settled(parts, contents);
        },
        MessageView::Assistant { output, provider_data } => {
            let results = output.map_values(|o: OutputView| resolved_output(o, contents));
            all_ok_each(results);
            let after = all_ok(results)->Ok_0;
            assert forall|i: int| 0 <= i < after.len() implies settled_output(
                #[trigger] after[i],
            ) by {
                assert(results[i] == Ok::<OutputView, StopView>(after[i]));
                resolved_output_is_settled(output[i], contents);
            }
            resolved_value_is_unmarked(provider_data, contents);
        },
        MessageView::RuntimeTool { outcome, .. } => match outcome {
            RuntimeToolOutcomeView::Success(parts) => {
                resolved_contents_are_settled(parts, contents);
            },
            RuntimeToolOutcomeView::Accepted(parts) => {
                resolved_contents_are_settled(parts, contents);
            },
            RuntimeToolOutcomeView::Waiting(parts) => {
                resolved_contents_are_settled(parts, contents);
            },
            _ => {},
        },
        _ => {},
    }
}

/// A message without references is left as it is, and the store is not asked.
pub proof fn settled_messages_stay(message: MessageView, contents: Contents)
    requires
        settled_message(message),
    ensures
        resolved_message(message, contents) == Ok::<MessageView, StopView>(message),
{
    match message {
        MessageView::System(parts) => {
            settled_contents_stay(parts, contents);
        },
        MessageView::User(parts) => {
            settled_contents_stay(parts, contents);
        },
        MessageView::External(parts) => {
            settled_contents_stay(parts, contents);
        },
        MessageView::Assistant { output, provider_data } => {
            let results = output.map_values(|o: OutputView| resolved_output(o, contents));
            assert forall|i: int| 0 <= i < results.len() implies #[trigger] results[i] == Ok::<
                OutputView,
                StopView,
            >(output[i]) by {
                settled_output_stays(output[i], contents);
            }
            all_ok_from(results, output);
            unmarked_value_stays(provider_data, contents);
        },
        MessageView::RuntimeTool { outcome, .. } => match outcome {
            RuntimeToolOutcomeView::Success(parts) => {
                settled_contents_stay(parts, contents);
            },
            RuntimeToolOutcomeView::Accepted(parts) => {
                settled_contents_stay(parts, contents);
            },
            RuntimeToolOutcomeView::Waiting(parts) => {
                settled_contents_stay(parts, contents);
            },
            _ => {},
        },
        _ => {},
    }
}

// ---------------------------------------------------------------------------------------
// Nothing stays inline
// ---------------------------------------------------------------------------------------
/// Whether an output item holds no inline media.
pub open spec fn durable(output: OutputView) -> bool {
    match output {
        OutputView::Content(content) => inline_payload(content) is None,
        OutputView::ProviderToolCall(call) => forall|i: int|
            0 <= i < call.output.len() ==> inline_payload(#[trigger] call.output[i]) is None,
        _ => true,
    }
}

proof fn saved_parts_are_durable(
    parts: Seq<ContentView>,
    start: PartsView,
    index: usize,
    run_id: Seq<char>,
    references: References,
)
    requires
        fold_ok(parts, start, save_part(index, run_id, references)) is Ok,
        start.output.len() == 0,
    ensures
        fold_ok(parts, start, save_part(index, run_id, references))->Ok_0.output.len()
            == parts.len(),
        forall|i: int|
            0 <= i < parts.len() ==> inline_payload(
                #[trigger] fold_ok(
                    parts,
                    start,
                    save_part(index, run_id, references),
                )->Ok_0.output[i],
            ) is None,
    decreases parts.len(),
{
    if parts.len() > 0 {
        saved_parts_are_durable(parts.drop_last(), start, index, run_id, references);
    }
}

proof fn saved_item_is_durable(
    item: OutputView,
    ledger: LedgerView,
    index: usize,
    run_id: Seq<char>,
    references: References,
)
    requires
        saved_item(item, ledger, index, run_id, references) is Ok,
    ensures
        durable((saved_item(item, ledger, index, run_id, references)->Ok_0).0),
{
    match item {
        OutputView::ProviderToolCall(call) => {
            saved_parts_are_durable(
                call.output,
                PartsView { output: Seq::empty(), data: call.data, ledger },
                index,
                run_id,
                references,
            );
        },
        _ => {},
    }
}

/// Each item that was saved is what its original becomes, under some ledger.
proof fn saved_item_at(
    output: Seq<OutputView>,
    start: ItemsView,
    run_id: Seq<char>,
    references: References,
    i: int,
) -> (ledger: LedgerView)
    requires
        fold_ok(output, start, save_item(run_id, references)) is Ok,
        start.output.len() == 0,
        0 <= i < output.len(),
        output.len() <= usize::MAX,
    ensures
        fold_ok(output, start, save_item(run_id, references))->Ok_0.output.len() == output.len(),
        saved_item(output[i], ledger, i as usize, run_id, references) is Ok,
        (saved_item(output[i], ledger, i as usize, run_id, references)->Ok_0).0 == fold_ok(
            output,
            start,
            save_item(run_id, references),
        )->Ok_0.output[i],
    decreases output.len(),
{
    let before = fold_ok(output.drop_last(), start, save_item(run_id, references))->Ok_0;
    if output.len() > 1 {
        let _ = saved_item_at(output.drop_last(), start, run_id, references, 0);
    } else {
        assert(output.drop_last() =~= Seq::empty());
    }
    assert(before.output.len() == output.len() - 1);
    if i == output.len() - 1 {
        before.ledger
    } else {
        saved_item_at(output.drop_last(), start, run_id, references, i)
    }
}

/// A saved response holds no inline media, neither in its output nor, as a payload of that
/// media, in its native data.
pub proof fn saved_responses_are_durable(
    response: TurnOutputView,
    run_id: Seq<char>,
    references: References,
)
    requires
        saved(response, run_id, references) is Ok,
        response.output.len() <= usize::MAX,
    ensures
        saved(response, run_id, references)->Ok_0.output.len() == response.output.len(),
        forall|i: int|
            0 <= i < response.output.len() ==> durable(
                #[trigger] saved(response, run_id, references)->Ok_0.output[i],
            ),
        !holds_payload(
            response.provider_data,
            saved_items(response.output, run_id, references)->Ok_0.ledger.payloads,
        ),
        forall|i: int|
            0 <= i < response.output.len() ==> !leaks(
                #[trigger] saved(response, run_id, references)->Ok_0.output[i],
                saved_items(response.output, run_id, references)->Ok_0.ledger.payloads,
            ),
{
    let after = saved(response, run_id, references)->Ok_0.output;
    let start = ItemsView {
        output: Seq::empty(),
        ledger: LedgerView {
            locations: bindings_of(response.output)->Ok_0,
            claimed: Seq::empty(),
            payloads: Seq::empty(),
        },
    };
    if response.output.len() > 0 {
        let _ = saved_item_at(response.output, start, run_id, references, 0);
    } else {
        assert(response.output =~= Seq::empty());
    }
    assert forall|i: int| 0 <= i < response.output.len() implies durable(#[trigger] after[i]) by {
        let ledger = saved_item_at(response.output, start, run_id, references, i);
        saved_item_is_durable(response.output[i], ledger, i as usize, run_id, references);
    }
}

// ---------------------------------------------------------------------------------------
// What was saved resolves back
// ---------------------------------------------------------------------------------------
proof fn marker_resolves(reference: ArtifactRefView, contents: Contents)
    requires
        loaded(reference, contents) is Ok,
    ensures
        resolved_value(marker(reference), contents) == Ok::<JsonView, StopView>(
            JsonView::Text(loaded(reference, contents)->Ok_0.base64),
        ),
        forall|text: Seq<char>|
            text != reference.id && text != reference.mime_type ==> #[trigger] clear_of(
                marker(reference), ARTIFACT_KEY@,
                text,
            ),
{
    let inner = seq![
        ("id"@, JsonView::Text(reference.id)),
        ("mime_type"@, JsonView::Text(reference.mime_type)),
    ];
    let outer = seq![(ARTIFACT_KEY@, JsonView::Object(inner))];
    assert("id"@ != "mime_type"@) by {
        reveal_strlit("id");
        reveal_strlit("mime_type");
        assert("id"@.len() != "mime_type"@.len());
    }
    assert(inner.skip(1) =~= seq![("mime_type"@, JsonView::Text(reference.mime_type))]);
    assert(lookup(inner.skip(1), "mime_type"@) == Some(JsonView::Text(reference.mime_type)));
    assert(lookup(inner, "mime_type"@) == lookup(inner.skip(1), "mime_type"@));
    assert(lookup(outer, ARTIFACT_KEY@) == Some(JsonView::Object(inner)));
    assert(marker(reference)->Object_0 == outer);
    assert forall|text: Seq<char>|
        text != reference.id && text != reference.mime_type implies #[trigger] clear_of(
        marker(reference), ARTIFACT_KEY@,
        text,
    ) by {
        assert forall|i: int| 0 <= i < inner.len() implies !holds_text(
            (#[trigger] inner[i]).1,
            text,
        ) by {
            if i == 0 {
                assert(inner[0].1 == JsonView::Text(reference.id));
            } else {
                assert(inner[1].1 == JsonView::Text(reference.mime_type));
            }
        }
        assert(!holds_text(JsonView::Object(inner), text));
        assert forall|i: int| 0 <= i < outer.len() implies !holds_text(
            (#[trigger] outer[i]).1,
            text,
        ) by {
            assert(outer[0].1 == JsonView::Object(inner));
        }
        assert(!holds_text(JsonView::Object(outer), text));
    }
}

/// A payload that a marker replaces comes back: the value resolves to what it resolved to
/// before, as long as the path leads through no other marker.
proof fn marked_value_resolves(
    value: JsonView,
    path: Seq<char>,
    base64: Seq<char>,
    reference: ArtifactRefView,
    contents: Contents,
)
    requires
        resolved_value(value, contents) is Ok,
        value.pointer(path) == Some(JsonView::Text(base64)),
        clear_of(value, ARTIFACT_KEY@, base64),
        loaded(reference, contents) is Ok,
        loaded(reference, contents)->Ok_0.base64 == base64,
    ensures
        value.put(path, marker(reference)) is Some,
        resolved_value(value.put(path, marker(reference))->0, contents) == resolved_value(
            value,
            contents,
        ),
        forall|text: Seq<char>|
            clear_of(value, ARTIFACT_KEY@, text) && text != reference.id && text != reference.mime_type
                ==> #[trigger] clear_of(value.put(path, marker(reference))->0, ARTIFACT_KEY@, text),
    decreases path.len(),
{
    marker_resolves(reference, contents);
    if path.len() > 0 {
        let rest = path.skip(1);
        let n = next_slash(rest);
        next_slash_bound(rest);
        let token = unescape(rest.take(n as int));
        let next = value.step(token)->0;
        let tail = rest.skip(n as int);
        match value {
            JsonView::Object(fields) => {
                if lookup(fields, ARTIFACT_KEY@) is Some {
                    addressed_text_is_held(value, path, base64);
                    assert(false);
                }
                let k = first_field(fields, token);
                let results = resolved_fields(fields, contents);
                all_ok_each(results);
                let values = all_ok(results)->Ok_0;
                assert(results[k] == Ok::<JsonView, StopView>(values[k]));
                assert(clear_of(fields[k].1, ARTIFACT_KEY@, base64));
                marked_value_resolves(next, tail, base64, reference, contents);
                let changed = next.put(tail, marker(reference))->0;
                let after = insert(fields, token, changed);
                assert(after == fields.update(k, (token, changed)));
                assert(value.put(path, marker(reference)) == Some(JsonView::Object(after)));
                same_keys(after, fields, ARTIFACT_KEY@);
                assert(resolved_fields(after, contents) =~= results);
                assert(with_values(after, values) =~= with_values(fields, values));
                assert forall|text: Seq<char>|
                    clear_of(value, ARTIFACT_KEY@, text) && text != reference.id && text
                        != reference.mime_type implies #[trigger] clear_of(
                    value.put(path, marker(reference))->0, ARTIFACT_KEY@,
                    text,
                ) by {
                    assert forall|i: int| 0 <= i < after.len() implies clear_of(
                        (#[trigger] after[i]).1, ARTIFACT_KEY@,
                        text,
                    ) by {
                        assert(clear_of(fields[i].1, ARTIFACT_KEY@, text));
                        assert(clear_of(fields[k].1, ARTIFACT_KEY@, text));
                        assert(clear_of(changed, ARTIFACT_KEY@, text));
                    }
                    assert(clear_of(JsonView::Object(after), ARTIFACT_KEY@, text));
                }
            },
            JsonView::Array(items) => {
                let k = index_token(token)->0 as int;
                let results = resolved_items(items, contents);
                all_ok_each(results);
                let values = all_ok(results)->Ok_0;
                assert(results[k] == Ok::<JsonView, StopView>(values[k]));
                assert(clear_of(items[k], ARTIFACT_KEY@, base64));
                marked_value_resolves(next, tail, base64, reference, contents);
                let changed = next.put(tail, marker(reference))->0;
                let after = items.update(k, changed);
                assert(value.put(path, marker(reference)) == Some(JsonView::Array(after)));
                assert(resolved_items(after, contents) =~= results);
                assert forall|text: Seq<char>|
                    clear_of(value, ARTIFACT_KEY@, text) && text != reference.id && text
                        != reference.mime_type implies #[trigger] clear_of(
                    value.put(path, marker(reference))->0, ARTIFACT_KEY@,
                    text,
                ) by {
                    assert forall|i: int| 0 <= i < after.len() implies clear_of(
                        #[trigger] after[i], ARTIFACT_KEY@,
                        text,
                    ) by {
                        assert(clear_of(items[i], ARTIFACT_KEY@, text));
                        assert(clear_of(items[k], ARTIFACT_KEY@, text));
                        assert(clear_of(changed, ARTIFACT_KEY@, text));
                    }
                    assert(clear_of(JsonView::Array(after), ARTIFACT_KEY@, text));
                }
            },
            _ => {},
        }
    }
}

/// Whether the store gives back the payload of a part under the reference that it gave.
pub open spec fn given_back(
    content: ContentView,
    run_id: Seq<char>,
    references: References,
    contents: Contents,
) -> bool {
    match inline_payload(content) {
        Some((mime_type, base64)) => mime_type.len() > 0 && base64.len() > 0 && (reference_for(
            mime_type,
            base64,
            run_id,
            references,
        ) matches Ok(reference) ==> find(contents, reference.id) == Some(
            ArtifactContentView { mime_type, base64 },
        )),
        None => true,
    }
}

/// Whether the payload of one part is no field of the reference of another.
pub open spec fn told_apart(
    one: ContentView,
    other: ContentView,
    run_id: Seq<char>,
    references: References,
) -> bool {
    match (inline_payload(one), inline_payload(other)) {
        (Some((_, base64)), Some((mime_type, payload))) => reference_for(
            mime_type,
            payload,
            run_id,
            references,
        ) matches Ok(reference) ==> base64 != reference.id && base64 != reference.mime_type,
        _ => true,
    }
}

/// Whether an output item can be had back: it holds no references of its own, the store
/// gives back its payloads, and no payload is mistaken for a field of a reference.
pub open spec fn restorable(
    item: OutputView,
    run_id: Seq<char>,
    references: References,
    contents: Contents,
) -> bool {
    settled_output(item) && match item {
        OutputView::Content(content) => given_back(content, run_id, references, contents),
        OutputView::ProviderToolCall(call) => {
            &&& forall|i: int|
                0 <= i < call.output.len() ==> given_back(
                    #[trigger] call.output[i],
                    run_id,
                    references,
                    contents,
                )
            &&& forall|i: int, j: int|
                0 <= i < call.output.len() && 0 <= j < call.output.len() ==> told_apart(
                    #[trigger] call.output[i],
                    #[trigger] call.output[j],
                    run_id,
                    references,
                )
        },
        _ => true,
    }
}

proof fn kept_part_resolves_back(
    content: ContentView,
    run_id: Seq<char>,
    references: References,
    contents: Contents,
)
    requires
        settled_content(content),
        given_back(content, run_id, references, contents),
        kept_part(content, run_id, references) is Ok,
    ensures
        resolved_content((kept_part(content, run_id, references)->Ok_0).0, contents) == Ok::<
            ContentView,
            StopView,
        >(content),
        (kept_part(content, run_id, references)->Ok_0).1 matches Some(kept) ==> loaded(
            kept.reference,
            contents,
        ) == Ok::<ArtifactContentView, StopView>(
            ArtifactContentView {
                mime_type: kept.reference.mime_type,
                base64: kept.base64,
            },
        ),
{
}

/// Whether no marker in the data of a call holds a payload of its parts.
spec fn clear_of_parts(data: JsonView, parts: Seq<ContentView>) -> bool {
    forall|i: int|
        0 <= i < parts.len() ==> #[trigger] clear_of_part(data, parts[i])
}

spec fn clear_of_part(data: JsonView, content: ContentView) -> bool {
    inline_payload(content) matches Some((_, base64)) ==> clear_of(data, ARTIFACT_KEY@, base64)
}

proof fn saved_parts_resolve_back(
    call: ProviderToolCallView,
    n: int,
    ledger: LedgerView,
    index: usize,
    run_id: Seq<char>,
    references: References,
    contents: Contents,
)
    requires
        0 <= n <= call.output.len(),
        restorable(OutputView::ProviderToolCall(call), run_id, references, contents),
        fold_ok(
            call.output.take(n),
            PartsView { output: Seq::empty(), data: call.data, ledger },
            save_part(index, run_id, references),
        ) is Ok,
    ensures
        ({
            let parts = fold_ok(
                call.output.take(n),
                PartsView { output: Seq::empty(), data: call.data, ledger },
                save_part(index, run_id, references),
            )->Ok_0;
            &&& parts.output.len() == n
            &&& forall|i: int|
                0 <= i < n ==> resolved_content(#[trigger] parts.output[i], contents) == Ok::<
                    ContentView,
                    StopView,
                >(call.output[i])
            &&& resolved_value(parts.data, contents) == Ok::<JsonView, StopView>(call.data)
            &&& clear_of_parts(parts.data, call.output)
        }),
    decreases n,
{
    let start = PartsView { output: Seq::empty(), data: call.data, ledger };
    let step = save_part(index, run_id, references);
    if n == 0 {
        assert(call.output.take(0) =~= Seq::empty());
        unmarked_value_stays(call.data, contents);
        assert forall|i: int| 0 <= i < call.output.len() implies #[trigger] clear_of_part(
            call.data,
            call.output[i],
        ) by {
            if let Some((_, base64)) = inline_payload(call.output[i]) {
                unmarked_is_clear(call.data, ARTIFACT_KEY@, base64);
            }
        }
    } else {
        assert(call.output.take(n).drop_last() =~= call.output.take(n - 1));
        saved_parts_resolve_back(call, n - 1, ledger, index, run_id, references, contents);
        let before = fold_ok(call.output.take(n - 1), start, step)->Ok_0;
        let parts = fold_ok(call.output.take(n), start, step)->Ok_0;
        let content = call.output[n - 1];
        assert(call.output.take(n).last() == content);
        assert(settled_content(content));
        kept_part_resolves_back(content, run_id, references, contents);
        if let Some(kept) = (kept_part(content, run_id, references)->Ok_0).1 {
            if let Some(k) = located(before.ledger.locations, index, before.output.len() as usize) {
                let location = before.ledger.locations[k as int];
                assert(clear_of_part(before.data, content));
                marked_value_resolves(
                    before.data,
                    location.local(),
                    kept.base64,
                    kept.reference,
                    contents,
                );
                assert forall|i: int| 0 <= i < call.output.len() implies #[trigger] clear_of_part(
                    parts.data,
                    call.output[i],
                ) by {
                    assert(clear_of_part(before.data, call.output[i]));
                    assert(told_apart(call.output[i], content, run_id, references));
                }
            }
        }
        assert forall|i: int| 0 <= i < n implies resolved_content(
            #[trigger] parts.output[i],
            contents,
        ) == Ok::<ContentView, StopView>(call.output[i]) by {
            if i < n - 1 {
                assert(parts.output[i] == before.output[i]);
            }
        }
    }
}

proof fn saved_item_resolves_back(
    item: OutputView,
    ledger: LedgerView,
    index: usize,
    run_id: Seq<char>,
    references: References,
    contents: Contents,
)
    requires
        restorable(item, run_id, references, contents),
        saved_item(item, ledger, index, run_id, references) is Ok,
    ensures
        resolved_output(
            (saved_item(item, ledger, index, run_id, references)->Ok_0).0,
            contents,
        ) == Ok::<OutputView, StopView>(item),
{
    match item {
        OutputView::Content(content) => {
            kept_part_resolves_back(content, run_id, references, contents);
        },
        OutputView::ProviderToolCall(call) => {
            let n = call.output.len() as int;
            assert(call.output.take(n) =~= call.output);
            saved_parts_resolve_back(call, n, ledger, index, run_id, references, contents);
            let parts = fold_ok(
                call.output,
                PartsView { output: Seq::empty(), data: call.data, ledger },
                save_part(index, run_id, references),
            )->Ok_0;
            let results = parts.output.map_values(
                |c: ContentView| resolved_content(c, contents),
            );
            assert forall|i: int| 0 <= i < results.len() implies #[trigger] results[i] == Ok::<
                ContentView,
                StopView,
            >(call.output[i]) by {
                assert(resolved_content(parts.output[i], contents) == Ok::<ContentView, StopView>(
                    call.output[i],
                ));
            }
            all_ok_from(results, call.output);
        },
        _ => {},
    }
}

/// What was saved is had back: where the store gives back what it was given, resolving the
/// output of a saved response gives the output that the model answered with.
pub proof fn saved_output_resolves_back(
    response: TurnOutputView,
    run_id: Seq<char>,
    references: References,
    contents: Contents,
)
    requires
        saved(response, run_id, references) is Ok,
        response.output.len() <= usize::MAX,
        forall|i: int|
            0 <= i < response.output.len() ==> restorable(
                #[trigger] response.output[i],
                run_id,
                references,
                contents,
            ),
    ensures
        resolved_outputs(saved(response, run_id, references)->Ok_0.output, contents) == Ok::<
            Seq<OutputView>,
            StopView,
        >(response.output),
{
    let after = saved(response, run_id, references)->Ok_0.output;
    saved_responses_are_durable(response, run_id, references);
    let start = ItemsView {
        output: Seq::empty(),
        ledger: LedgerView {
            locations: bindings_of(response.output)->Ok_0,
            claimed: Seq::empty(),
            payloads: Seq::empty(),
        },
    };
    let results = after.map_values(|o: OutputView| resolved_output(o, contents));
    assert forall|i: int| 0 <= i < results.len() implies #[trigger] results[i] == Ok::<
        OutputView,
        StopView,
    >(response.output[i]) by {
        let ledger = saved_item_at(response.output, start, run_id, references, i);
        assert(restorable(response.output[i], run_id, references, contents));
        saved_item_resolves_back(
            response.output[i],
            ledger,
            i as usize,
            run_id,
            references,
            contents,
        );
    }
    all_ok_from(results, response.output);
}

} // verus!
