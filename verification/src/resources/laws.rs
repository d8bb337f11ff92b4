//! What holds of resolved and sealed resources.
use crate::encoding::base64_text;
use crate::error::fold_ok;
use crate::json::{
    first_field, index_token, insert, lookup, next_slash, next_slash_bound, same_keys, unescape,
    Fields, JsonView,
};
use crate::markers::{addressed_text_is_held, clear_of, holds_text, unmarked, unmarked_is_clear};
use crate::message::{
    ContentView, MessageView, OutputView, ProviderToolCallView, ResourceInputView,
    ResourceSourceView, RuntimeToolOutcomeView,
};
use crate::resources::resolve::{
    message_step, resolved_content, resolved_contents, resolved_fields, resolved_items,
    resolved_message, resolved_messages, resolved_output, resolved_outputs, resolved_value,
    PurseView,
};
use crate::resources::seal::{
    bound, call_bindings, chunks_of, field_path, inline_bytes, remains, seal_part, sealed_content,
    sealed_output, PartsView, SealedView,
};
use crate::resources::{marker, RESOURCE_KEY, ReferenceView};
use vstd::prelude::*;

verus! {

// ---------------------------------------------------------------------------------------
// The budget
// ---------------------------------------------------------------------------------------
/// The bytes that a part holds.
pub open spec fn content_size(content: ContentView) -> nat {
    match inline_bytes(content) {
        Some(bytes) => bytes.len(),
        None => 0,
    }
}

pub open spec fn contents_size(contents: Seq<ContentView>) -> nat
    decreases contents.len(),
{
    if contents.len() == 0 {
        0
    } else {
        contents_size(contents.drop_last()) + content_size(contents.last())
    }
}

pub open spec fn output_size(output: OutputView) -> nat {
    match output {
        OutputView::Content(content) => content_size(content),
        OutputView::ProviderToolCall(call) => contents_size(call.output),
        _ => 0,
    }
}

pub open spec fn outputs_size(outputs: Seq<OutputView>) -> nat
    decreases outputs.len(),
{
    if outputs.len() == 0 {
        0
    } else {
        outputs_size(outputs.drop_last()) + output_size(outputs.last())
    }
}

/// The bytes that a message holds where resources are resolved.
pub open spec fn message_size(message: MessageView) -> nat {
    match message {
        MessageView::System(content) => contents_size(content),
        MessageView::User(content) => contents_size(content),
        MessageView::External(content) => contents_size(content),
        MessageView::Assistant { output, .. } => outputs_size(output),
        MessageView::RuntimeTool { outcome: RuntimeToolOutcomeView::Success(content), .. } => {
            contents_size(content)
        },
        _ => 0,
    }
}

pub open spec fn messages_size(messages: Seq<MessageView>) -> nat
    decreases messages.len(),
{
    if messages.len() == 0 {
        0
    } else {
        messages_size(messages.drop_last()) + message_size(messages.last())
    }
}

proof fn value_costs(value: JsonView, purse: PurseView, loads: Seq<Seq<u8>>)
    requires
        resolved_value(value, purse, loads) is Ok,
    ensures
        (resolved_value(value, purse, loads)->Ok_0).1.left <= purse.left,
    decreases value, 1int,
{
    match value {
        JsonView::Object(fields) => {
            if lookup(fields, RESOURCE_KEY@) is None {
                fields_cost(fields, purse, loads);
            }
        },
        JsonView::Array(items) => {
            items_cost(items, purse, loads);
        },
        _ => {},
    }
}

proof fn items_cost(items: Seq<JsonView>, purse: PurseView, loads: Seq<Seq<u8>>)
    requires
        resolved_items(items, purse, loads) is Ok,
    ensures
        (resolved_items(items, purse, loads)->Ok_0).1.left <= purse.left,
    decreases items, 0int,
{
    if items.len() > 0 {
        items_cost(items.drop_last(), purse, loads);
        let between = (resolved_items(items.drop_last(), purse, loads)->Ok_0).1;
        value_costs(items.last(), between, loads);
    }
}

proof fn fields_cost(fields: Fields, purse: PurseView, loads: Seq<Seq<u8>>)
    requires
        resolved_fields(fields, purse, loads) is Ok,
    ensures
        (resolved_fields(fields, purse, loads)->Ok_0).1.left <= purse.left,
    decreases fields, 0int,
{
    if fields.len() > 0 {
        fields_cost(fields.drop_last(), purse, loads);
        let between = (resolved_fields(fields.drop_last(), purse, loads)->Ok_0).1;
        value_costs(fields.last().1, between, loads);
    }
}

proof fn contents_cost(contents: Seq<ContentView>, purse: PurseView, loads: Seq<Seq<u8>>)
    requires
        resolved_contents(contents, purse, loads) is Ok,
    ensures
        contents_size((resolved_contents(contents, purse, loads)->Ok_0).0) + (resolved_contents(
            contents,
            purse,
            loads,
        )->Ok_0).1.left == purse.left,
    decreases contents.len(),
{
    if contents.len() > 0 {
        contents_cost(contents.drop_last(), purse, loads);
        let (before, between) = resolved_contents(contents.drop_last(), purse, loads)->Ok_0;
        let (found, after) = resolved_content(contents.last(), between, loads)->Ok_0;
        assert(before.push(found).drop_last() =~= before);
    }
}

proof fn output_costs(output: OutputView, purse: PurseView, loads: Seq<Seq<u8>>)
    requires
        resolved_output(output, purse, loads) is Ok,
    ensures
        output_size((resolved_output(output, purse, loads)->Ok_0).0) + (resolved_output(
            output,
            purse,
            loads,
        )->Ok_0).1.left <= purse.left,
{
    match output {
        OutputView::ProviderToolCall(call) => {
            contents_cost(call.output, purse, loads);
            let between = (resolved_contents(call.output, purse, loads)->Ok_0).1;
            value_costs(call.data, between, loads);
        },
        _ => {},
    }
}

proof fn outputs_cost(outputs: Seq<OutputView>, purse: PurseView, loads: Seq<Seq<u8>>)
    requires
        resolved_outputs(outputs, purse, loads) is Ok,
    ensures
        outputs_size((resolved_outputs(outputs, purse, loads)->Ok_0).0) + (resolved_outputs(
            outputs,
            purse,
            loads,
        )->Ok_0).1.left <= purse.left,
    decreases outputs.len(),
{
    if outputs.len() > 0 {
        outputs_cost(outputs.drop_last(), purse, loads);
        let (before, between) = resolved_outputs(outputs.drop_last(), purse, loads)->Ok_0;
        output_costs(outputs.last(), between, loads);
        let (found, after) = resolved_output(outputs.last(), between, loads)->Ok_0;
        assert(before.push(found).drop_last() =~= before);
    }
}

proof fn message_costs(message: MessageView, purse: PurseView, loads: Seq<Seq<u8>>)
    requires
        resolved_message(message, purse, loads) is Ok,
    ensures
        message_size((resolved_message(message, purse, loads)->Ok_0).0) + (resolved_message(
            message,
            purse,
            loads,
        )->Ok_0).1.left <= purse.left,
{
    match message {
        MessageView::System(content) => {
            contents_cost(content, purse, loads);
        },
        MessageView::User(content) => {
            contents_cost(content, purse, loads);
        },
        MessageView::External(content) => {
            contents_cost(content, purse, loads);
        },
        MessageView::Assistant { output, provider_data } => {
            outputs_cost(output, purse, loads);
            let between = (resolved_outputs(output, purse, loads)->Ok_0).1;
            value_costs(provider_data, between, loads);
        },
        MessageView::RuntimeTool { outcome: RuntimeToolOutcomeView::Success(content), .. } => {
            contents_cost(content, purse, loads);
        },
        _ => {},
    }
}

proof fn messages_cost(messages: Seq<MessageView>, purse: PurseView, loads: Seq<Seq<u8>>)
    requires
        fold_ok(messages, (Seq::empty(), purse), message_step(loads)) is Ok,
    ensures
        messages_size(
            (fold_ok(messages, (Seq::empty(), purse), message_step(loads))->Ok_0).0,
        ) + (fold_ok(messages, (Seq::empty(), purse), message_step(loads))->Ok_0).1.left
            <= purse.left,
    decreases messages.len(),
{
    if messages.len() > 0 {
        messages_cost(messages.drop_last(), purse, loads);
        let (before, between) = fold_ok(
            messages.drop_last(),
            (Seq::empty(), purse),
            message_step(loads),
        )->Ok_0;
        message_costs(messages.last(), between, loads);
        let (found, after) = resolved_message(messages.last(), between, loads)->Ok_0;
        assert(before.push(found).drop_last() =~= before);
    }
}

/// The resources of a request stay within the limit, those that were inline before and
/// those that were taken from the store together.
pub proof fn inputs_stay_within_the_limit(
    messages: Seq<MessageView>,
    limit: usize,
    loads: Seq<Seq<u8>>,
)
    requires
        resolved_messages(messages, limit, loads) is Ok,
    ensures
        messages_size(resolved_messages(messages, limit, loads)->Ok_0) <= limit,
{
    messages_cost(messages, PurseView { left: limit as nat, used: 0 }, loads);
}

// ---------------------------------------------------------------------------------------
// Chunks
// ---------------------------------------------------------------------------------------
/// The bytes that chunks make up.
pub open spec fn joined(chunks: Seq<Seq<u8>>) -> Seq<u8>
    decreases chunks.len(),
{
    if chunks.len() == 0 {
        Seq::empty()
    } else {
        chunks[0] + joined(chunks.skip(1))
    }
}

/// The chunks in which bytes are written make up the bytes; none is empty, and all but the
/// last are full.
pub proof fn chunks_make_up_the_bytes(bytes: Seq<u8>, size: nat)
    requires
        size > 0,
    ensures
        joined(chunks_of(bytes, size)) == bytes,
        forall|i: int|
            0 <= i < chunks_of(bytes, size).len() ==> 0 < (#[trigger] chunks_of(bytes, size)[i]).len()
                <= size,
        forall|i: int|
            0 <= i < chunks_of(bytes, size).len() - 1 ==> (#[trigger] chunks_of(
                bytes,
                size,
            )[i]).len() == size,
    decreases bytes.len(),
{
    let chunks = chunks_of(bytes, size);
    if bytes.len() == 0 {
        assert(bytes =~= Seq::empty());
    } else if bytes.len() <= size {
        assert(chunks.skip(1) =~= Seq::empty());
        assert(joined(chunks.skip(1)) =~= Seq::empty());
        assert(chunks[0] + joined(chunks.skip(1)) =~= bytes);
    } else {
        let rest = bytes.skip(size as int);
        chunks_make_up_the_bytes(rest, size);
        assert(chunks.skip(1) =~= chunks_of(rest, size));
        assert(bytes.take(size as int) + rest =~= bytes);
        assert forall|i: int| 0 <= i < chunks.len() implies 0 < (#[trigger] chunks[i]).len()
            <= size by {
            if i > 0 {
                assert(chunks[i] == chunks_of(rest, size)[i - 1]);
            }
        }
        assert forall|i: int| 0 <= i < chunks.len() - 1 implies (#[trigger] chunks[i]).len()
            == size by {
            if i > 0 {
                assert(chunks[i] == chunks_of(rest, size)[i - 1]);
            }
        }
    }
}

// ---------------------------------------------------------------------------------------
// Nothing stays inline
// ---------------------------------------------------------------------------------------
/// How many of the parts hold a resource inline.
pub open spec fn inline_count(contents: Seq<ContentView>) -> nat
    decreases contents.len(),
{
    if contents.len() == 0 {
        0
    } else {
        inline_count(contents.drop_last()) + (if inline_bytes(contents.last()) is Some {
            1nat
        } else {
            0nat
        })
    }
}

/// The answer of the store by which a part is sealed: they are used in order.
pub open spec fn seal_of(contents: Seq<ContentView>, i: int, seals: Seq<SealedView>) -> SealedView {
    seals[inline_count(contents.take(i)) as int]
}

/// A part with the source that it has in the store.
pub open spec fn sealed_by(content: ContentView, seal: SealedView) -> ContentView {
    match content {
        ContentView::Resource(input) => if inline_bytes(content) is Some {
            ContentView::Resource(ResourceInputView { source: seal.source, ..input })
        } else {
            content
        },
        _ => content,
    }
}

proof fn sealed_parts(
    contents: Seq<ContentView>,
    n: int,
    start: PartsView,
    seals: Seq<SealedView>,
)
    requires
        0 <= n <= contents.len(),
        start.output.len() == 0,
        start.payloads.len() == 0,
        fold_ok(contents.take(n), start, seal_part(seals)) is Ok,
    ensures
        ({
            let parts = fold_ok(contents.take(n), start, seal_part(seals))->Ok_0;
            &&& parts.output.len() == n
            &&& parts.payloads.len() == inline_count(contents.take(n))
            &&& inline_count(contents.take(n)) <= seals.len()
            &&& forall|i: int|
                0 <= i < n ==> #[trigger] parts.output[i] == sealed_by(
                    contents[i],
                    seal_of(contents, i, seals),
                )
            &&& forall|i: int|
                0 <= i < n ==> inline_bytes(#[trigger] parts.output[i]) is None
            &&& forall|i: int|
                0 <= i < n && inline_bytes(#[trigger] contents[i]) is Some
                    ==> parts.payloads.contains(base64_text(inline_bytes(contents[i])->0))
        }),
    decreases n,
{
    assert(contents.take(0) =~= Seq::empty());
    if n > 0 {
        assert(contents.take(n).drop_last() =~= contents.take(n - 1));
        assert(contents.take(n).last() == contents[n - 1]);
        sealed_parts(contents, n - 1, start, seals);
        let before = fold_ok(contents.take(n - 1), start, seal_part(seals))->Ok_0;
        let parts = fold_ok(contents.take(n), start, seal_part(seals))->Ok_0;
        assert forall|i: int| 0 <= i < n implies #[trigger] parts.output[i] == sealed_by(
            contents[i],
            seal_of(contents, i, seals),
        ) && inline_bytes(parts.output[i]) is None by {
            if i < n - 1 {
                assert(parts.output[i] == before.output[i]);
            }
        }
        assert forall|i: int|
            0 <= i < n && inline_bytes(#[trigger] contents[i]) is Some implies parts.payloads.contains(
            base64_text(inline_bytes(contents[i])->0),
        ) by {
            let payload = base64_text(inline_bytes(contents[i])->0);
            if i < n - 1 {
                let k = choose|k: int| 0 <= k < before.payloads.len() && before.payloads[k] == payload;
                assert(parts.payloads[k] == payload);
            } else {
                assert(parts.payloads.last() == payload);
            }
        }
    }
}

/// A sealed output item holds no resource inline, and its native data no payload of those
/// that it held.
pub proof fn sealed_output_holds_nothing_inline(output: OutputView, seals: Seq<SealedView>)
    requires
        sealed_output(output, seals) is Ok,
    ensures
        match (output, sealed_output(output, seals)->Ok_0) {
            (OutputView::Content(_), OutputView::Content(found)) => inline_bytes(found) is None,
            (OutputView::ProviderToolCall(call), OutputView::ProviderToolCall(found)) => {
                &&& found.output.len() == call.output.len()
                &&& forall|i: int|
                    0 <= i < found.output.len() ==> inline_bytes(#[trigger] found.output[i]) is None
                &&& forall|i: int|
                    0 <= i < call.output.len() && inline_bytes(#[trigger] call.output[i]) is Some
                        && base64_text(inline_bytes(call.output[i])->0).len() > 0 ==> !holds_text(
                        found.data,
                        base64_text(inline_bytes(call.output[i])->0),
                    )
            },
            (_, found) => found == output,
        },
{
    match output {
        OutputView::ProviderToolCall(call) => {
            let start = PartsView {
                output: Seq::empty(),
                data: call.data,
                bindings: call_bindings(call)->Ok_0,
                payloads: Seq::empty(),
            };
            let n = call.output.len() as int;
            assert(call.output.take(n) =~= call.output);
            sealed_parts(call.output, n, start, seals);
            let parts = fold_ok(call.output, start, seal_part(seals))->Ok_0;
            assert forall|i: int|
                0 <= i < call.output.len() && inline_bytes(#[trigger] call.output[i]) is Some
                    && base64_text(inline_bytes(call.output[i])->0).len()
                    > 0 implies !holds_text(
                parts.data,
                base64_text(inline_bytes(call.output[i])->0),
            ) by {
                let payload = base64_text(inline_bytes(call.output[i])->0);
                let k = choose|k: int|
                    0 <= k < parts.payloads.len() && parts.payloads[k] == payload;
                assert(parts.payloads[k].len() > 0);
                assert(!remains(parts.data, parts.payloads));
            }
        },
        _ => {},
    }
}

// ---------------------------------------------------------------------------------------
// What was sealed is had back
// ---------------------------------------------------------------------------------------
/// What a store holds for references.
pub type Store = spec_fn(ReferenceView) -> Seq<u8>;

/// Native data with each marker replaced by what the store holds for it.
pub open spec fn restored_value(value: JsonView, store: Store) -> JsonView
    decreases value,
{
    match value {
        JsonView::Object(fields) => match lookup(fields, RESOURCE_KEY@) {
            Some(reference) => JsonView::Text(base64_text(store(ReferenceView::Marker(reference)))),
            None => JsonView::Object(restored_fields(fields, store)),
        },
        JsonView::Array(items) => JsonView::Array(restored_items(items, store)),
        _ => value,
    }
}

pub open spec fn restored_items(items: Seq<JsonView>, store: Store) -> Seq<JsonView>
    decreases items,
{
    Seq::new(
        items.len(),
        |i: int|
            if 0 <= i < items.len() {
                restored_value(items[i], store)
            } else {
                JsonView::Null
            },
    )
}

pub open spec fn restored_fields(fields: Fields, store: Store) -> Fields
    decreases fields,
{
    Seq::new(
        fields.len(),
        |i: int|
            if 0 <= i < fields.len() {
                (fields[i].0, restored_value(fields[i].1, store))
            } else {
                (Seq::empty(), JsonView::Null)
            },
    )
}

/// What is asked of the store for native data, in order.
pub open spec fn asked_value(value: JsonView) -> Seq<ReferenceView>
    decreases value,
{
    match value {
        JsonView::Object(fields) => match lookup(fields, RESOURCE_KEY@) {
            Some(reference) => seq![ReferenceView::Marker(reference)],
            None => asked_fields(fields),
        },
        JsonView::Array(items) => asked_items(items),
        _ => Seq::empty(),
    }
}

pub open spec fn asked_items(items: Seq<JsonView>) -> Seq<ReferenceView>
    decreases items,
{
    if items.len() == 0 {
        Seq::empty()
    } else {
        asked_items(items.drop_last()) + asked_value(items.last())
    }
}

pub open spec fn asked_fields(fields: Fields) -> Seq<ReferenceView>
    decreases fields,
{
    if fields.len() == 0 {
        Seq::empty()
    } else {
        asked_fields(fields.drop_last()) + asked_value(fields.last().1)
    }
}

/// Whether a part is taken from the store.
pub open spec fn is_stored(content: ContentView) -> bool {
    content matches ContentView::Resource(input) && input.source is Stored
}

/// A part with what the store holds for it.
pub open spec fn restored_content(content: ContentView, store: Store) -> ContentView {
    match content {
        ContentView::Resource(input) => if input.source is Stored {
            ContentView::Resource(
                ResourceInputView {
                    source: ResourceSourceView::Inline(store(ReferenceView::Part(input))),
                    ..input
                },
            )
        } else {
            content
        },
        _ => content,
    }
}

/// What is asked of the store for parts, in order.
pub open spec fn asked_contents(contents: Seq<ContentView>) -> Seq<ReferenceView>
    decreases contents.len(),
{
    if contents.len() == 0 {
        Seq::empty()
    } else {
        let before = asked_contents(contents.drop_last());
        match contents.last() {
            ContentView::Resource(input) => if input.source is Stored {
                before.push(ReferenceView::Part(input))
            } else {
                before
            },
            _ => before,
        }
    }
}

/// What is asked of the store for an output item, in order.
pub open spec fn asked_output(output: OutputView) -> Seq<ReferenceView> {
    match output {
        OutputView::Content(content) => asked_contents(seq![content]),
        OutputView::ProviderToolCall(call) => asked_contents(call.output) + asked_value(call.data),
        _ => Seq::empty(),
    }
}

/// Whether the answers from a place on are what the store holds for what was asked.
pub open spec fn answers(
    loads: Seq<Seq<u8>>,
    from: nat,
    asked: Seq<ReferenceView>,
    store: Store,
) -> bool {
    forall|k: int| 0 <= k < asked.len() ==> loads[from + k] == store(#[trigger] asked[k])
}

proof fn answers_split(
    loads: Seq<Seq<u8>>,
    from: nat,
    first: Seq<ReferenceView>,
    second: Seq<ReferenceView>,
    store: Store,
)
    requires
        answers(loads, from, first + second, store),
    ensures
        answers(loads, from, first, store),
        answers(loads, (from + first.len()) as nat, second, store),
{
    let all = first + second;
    assert forall|k: int| 0 <= k < first.len() implies loads[from + k] == store(
        #[trigger] first[k],
    ) by {
        assert(all[k] == first[k]);
    }
    assert forall|k: int| 0 <= k < second.len() implies loads[(from + first.len()) as nat + k]
        == store(#[trigger] second[k]) by {
        assert(all[first.len() + k] == second[k]);
    }
}

proof fn value_is_restored(value: JsonView, purse: PurseView, loads: Seq<Seq<u8>>, store: Store)
    requires
        resolved_value(value, purse, loads) is Ok,
        answers(loads, purse.used, asked_value(value), store),
    ensures
        (resolved_value(value, purse, loads)->Ok_0).0 == restored_value(value, store),
        (resolved_value(value, purse, loads)->Ok_0).1.used == purse.used + asked_value(value).len(),
    decreases value, 1int,
{
    match value {
        JsonView::Object(fields) => match lookup(fields, RESOURCE_KEY@) {
            Some(reference) => {
                assert(asked_value(value)[0] == ReferenceView::Marker(reference));
            },
            None => {
                fields_are_restored(fields, purse, loads, store);
            },
        },
        JsonView::Array(items) => {
            items_are_restored(items, purse, loads, store);
        },
        _ => {},
    }
}

proof fn items_are_restored(
    items: Seq<JsonView>,
    purse: PurseView,
    loads: Seq<Seq<u8>>,
    store: Store,
)
    requires
        resolved_items(items, purse, loads) is Ok,
        answers(loads, purse.used, asked_items(items), store),
    ensures
        (resolved_items(items, purse, loads)->Ok_0).0 == restored_items(items, store),
        (resolved_items(items, purse, loads)->Ok_0).1.used == purse.used + asked_items(items).len(),
    decreases items, 0int,
{
    if items.len() == 0 {
        assert(restored_items(items, store) =~= Seq::empty());
    } else {
        let before = items.drop_last();
        answers_split(
            loads,
            purse.used,
            asked_items(before),
            asked_value(items.last()),
            store,
        );
        items_are_restored(before, purse, loads, store);
        let between = (resolved_items(before, purse, loads)->Ok_0).1;
        value_is_restored(items.last(), between, loads, store);
        assert(restored_items(items, store) =~= restored_items(before, store).push(
            restored_value(items.last(), store),
        ));
    }
}

proof fn fields_are_restored(fields: Fields, purse: PurseView, loads: Seq<Seq<u8>>, store: Store)
    requires
        resolved_fields(fields, purse, loads) is Ok,
        answers(loads, purse.used, asked_fields(fields), store),
    ensures
        (resolved_fields(fields, purse, loads)->Ok_0).0 == restored_fields(fields, store),
        (resolved_fields(fields, purse, loads)->Ok_0).1.used == purse.used + asked_fields(
            fields,
        ).len(),
    decreases fields, 0int,
{
    if fields.len() == 0 {
        assert(restored_fields(fields, store) =~= Seq::empty());
    } else {
        let before = fields.drop_last();
        answers_split(
            loads,
            purse.used,
            asked_fields(before),
            asked_value(fields.last().1),
            store,
        );
        fields_are_restored(before, purse, loads, store);
        let between = (resolved_fields(before, purse, loads)->Ok_0).1;
        value_is_restored(fields.last().1, between, loads, store);
        assert(restored_fields(fields, store) =~= restored_fields(before, store).push(
            (fields.last().0, restored_value(fields.last().1, store)),
        ));
    }
}

proof fn contents_are_restored(
    contents: Seq<ContentView>,
    purse: PurseView,
    loads: Seq<Seq<u8>>,
    store: Store,
)
    requires
        resolved_contents(contents, purse, loads) is Ok,
        answers(loads, purse.used, asked_contents(contents), store),
    ensures
        (resolved_contents(contents, purse, loads)->Ok_0).0 == contents.map_values(
            |c: ContentView| restored_content(c, store),
        ),
        (resolved_contents(contents, purse, loads)->Ok_0).1.used == purse.used + asked_contents(
            contents,
        ).len(),
    decreases contents.len(),
{
    let restored = contents.map_values(|c: ContentView| restored_content(c, store));
    if contents.len() == 0 {
        assert(restored =~= Seq::empty());
    } else {
        let before = contents.drop_last();
        let last = contents.last();
        let asked = if is_stored(last) {
            seq![ReferenceView::Part(last->Resource_0)]
        } else {
            Seq::empty()
        };
        assert(asked_contents(contents) =~= asked_contents(before) + asked);
        answers_split(loads, purse.used, asked_contents(before), asked, store);
        contents_are_restored(before, purse, loads, store);
        if is_stored(last) {
            assert(asked[0] == ReferenceView::Part(last->Resource_0));
        }
        assert(restored =~= before.map_values(
            |c: ContentView| restored_content(c, store),
        ).push(restored_content(last, store)));
    }
}

proof fn unmarked_value_stays(value: JsonView, store: Store)
    requires
        unmarked(value, RESOURCE_KEY@),
    ensures
        restored_value(value, store) == value,
    decreases value,
{
    match value {
        JsonView::Object(fields) => {
            assert forall|i: int| 0 <= i < fields.len() implies restored_value(
                (#[trigger] fields[i]).1,
                store,
            ) == fields[i].1 by {
                unmarked_value_stays(fields[i].1, store);
            }
            assert(restored_fields(fields, store) =~= fields);
        },
        JsonView::Array(items) => {
            assert forall|i: int| 0 <= i < items.len() implies restored_value(
                #[trigger] items[i],
                store,
            ) == items[i] by {
                unmarked_value_stays(items[i], store);
            }
            assert(restored_items(items, store) =~= items);
        },
        _ => {},
    }
}

proof fn marker_is_clear(reference: JsonView, text: Seq<char>)
    requires
        !holds_text(reference, text),
    ensures
        clear_of(marker(reference), RESOURCE_KEY@, text),
{
    let fields = seq![(RESOURCE_KEY@, reference)];
    assert(lookup(fields, RESOURCE_KEY@) == Some(reference));
    assert forall|i: int| 0 <= i < fields.len() implies !holds_text(
        (#[trigger] fields[i]).1,
        text,
    ) by {
        assert(fields[0].1 == reference);
    }
    assert(!holds_text(JsonView::Object(fields), text));
}

/// A payload that a marker replaces comes back, as long as its path leads through no other
/// marker.
proof fn marked_value_is_restored(
    value: JsonView,
    path: Seq<char>,
    reference: JsonView,
    store: Store,
)
    requires
        value.pointer(path) == Some(
            JsonView::Text(base64_text(store(ReferenceView::Marker(reference)))),
        ),
        clear_of(value, RESOURCE_KEY@, base64_text(store(ReferenceView::Marker(reference)))),
    ensures
        value.put(path, marker(reference)) is Some,
        restored_value(value.put(path, marker(reference))->0, store) == restored_value(
            value,
            store,
        ),
        forall|text: Seq<char>|
            clear_of(value, RESOURCE_KEY@, text) && !holds_text(reference, text)
                ==> #[trigger] clear_of(
                value.put(path, marker(reference))->0,
                RESOURCE_KEY@,
                text,
            ),
    decreases path.len(),
{
    let payload = base64_text(store(ReferenceView::Marker(reference)));
    assert forall|text: Seq<char>| !holds_text(reference, text) implies #[trigger] clear_of(
        marker(reference),
        RESOURCE_KEY@,
        text,
    ) by {
        marker_is_clear(reference, text);
    }
    if path.len() == 0 {
        let fields = seq![(RESOURCE_KEY@, reference)];
        assert(lookup(fields, RESOURCE_KEY@) == Some(reference));
    } else {
        let rest = path.skip(1);
        let n = next_slash(rest);
        next_slash_bound(rest);
        let token = unescape(rest.take(n as int));
        let next = value.step(token)->0;
        let tail = rest.skip(n as int);
        match value {
            JsonView::Object(fields) => {
                if lookup(fields, RESOURCE_KEY@) is Some {
                    addressed_text_is_held(value, path, payload);
                    assert(false);
                }
                let k = first_field(fields, token);
                assert(clear_of(fields[k].1, RESOURCE_KEY@, payload));
                marked_value_is_restored(next, tail, reference, store);
                let changed = next.put(tail, marker(reference))->0;
                let after = insert(fields, token, changed);
                assert(after == fields.update(k, (token, changed)));
                assert(value.put(path, marker(reference)) == Some(JsonView::Object(after)));
                same_keys(after, fields, RESOURCE_KEY@);
                assert(restored_fields(after, store) =~= restored_fields(fields, store));
                assert forall|text: Seq<char>|
                    clear_of(value, RESOURCE_KEY@, text) && !holds_text(
                        reference,
                        text,
                    ) implies #[trigger] clear_of(
                    value.put(path, marker(reference))->0,
                    RESOURCE_KEY@,
                    text,
                ) by {
                    assert forall|i: int| 0 <= i < after.len() implies clear_of(
                        (#[trigger] after[i]).1,
                        RESOURCE_KEY@,
                        text,
                    ) by {
                        assert(clear_of(fields[i].1, RESOURCE_KEY@, text));
                        assert(clear_of(fields[k].1, RESOURCE_KEY@, text));
                        assert(clear_of(changed, RESOURCE_KEY@, text));
                    }
                    assert(clear_of(JsonView::Object(after), RESOURCE_KEY@, text));
                }
            },
            JsonView::Array(items) => {
                let k = index_token(token)->0 as int;
                assert(clear_of(items[k], RESOURCE_KEY@, payload));
                marked_value_is_restored(next, tail, reference, store);
                let changed = next.put(tail, marker(reference))->0;
                let after = items.update(k, changed);
                assert(value.put(path, marker(reference)) == Some(JsonView::Array(after)));
                assert(restored_items(after, store) =~= restored_items(items, store));
                assert forall|text: Seq<char>|
                    clear_of(value, RESOURCE_KEY@, text) && !holds_text(
                        reference,
                        text,
                    ) implies #[trigger] clear_of(
                    value.put(path, marker(reference))->0,
                    RESOURCE_KEY@,
                    text,
                ) by {
                    assert forall|i: int| 0 <= i < after.len() implies clear_of(
                        #[trigger] after[i],
                        RESOURCE_KEY@,
                        text,
                    ) by {
                        assert(clear_of(items[i], RESOURCE_KEY@, text));
                        assert(clear_of(items[k], RESOURCE_KEY@, text));
                        assert(clear_of(changed, RESOURCE_KEY@, text));
                    }
                    assert(clear_of(JsonView::Array(after), RESOURCE_KEY@, text));
                }
            },
            _ => {},
        }
    }
}

/// Whether the store holds the bytes of a part, under the source and the reference that it
/// gave.
pub open spec fn given_back(content: ContentView, seal: SealedView, store: Store) -> bool {
    inline_bytes(content) matches Some(bytes) ==> {
        &&& seal.source is Stored
        &&& store(ReferenceView::Part(sealed_by(content, seal)->Resource_0)) == bytes
        &&& store(ReferenceView::Marker(seal.reference)) == bytes
    }
}

/// Whether an output item can be had back: it holds nothing stored of its own, the store
/// gives back its resources, and no reference holds the payload of one of them.
pub open spec fn restorable(output: OutputView, seals: Seq<SealedView>, store: Store) -> bool {
    match output {
        OutputView::Content(content) => !is_stored(content) && given_back(content, seals[0], store),
        OutputView::ProviderToolCall(call) => {
            &&& unmarked(call.data, RESOURCE_KEY@)
            &&& forall|i: int| 0 <= i < call.output.len() ==> !is_stored(#[trigger] call.output[i])
            &&& forall|i: int|
                0 <= i < call.output.len() ==> given_back(
                    #[trigger] call.output[i],
                    seal_of(call.output, i, seals),
                    store,
                )
            &&& forall|i: int, j: int|
                0 <= i < call.output.len() && 0 <= j < call.output.len() && inline_bytes(
                    #[trigger] call.output[i],
                ) is Some && inline_bytes(#[trigger] call.output[j]) is Some ==> !holds_text(
                    seal_of(call.output, j, seals).reference,
                    base64_text(inline_bytes(call.output[i])->0),
                )
        },
        _ => true,
    }
}

spec fn clear_of_part(data: JsonView, content: ContentView) -> bool {
    inline_bytes(content) matches Some(bytes) ==> clear_of(data, RESOURCE_KEY@, base64_text(bytes))
}

proof fn sealed_data_is_restored(
    call: ProviderToolCallView,
    n: int,
    start: PartsView,
    seals: Seq<SealedView>,
    store: Store,
)
    requires
        0 <= n <= call.output.len(),
        start.output.len() == 0,
        start.payloads.len() == 0,
        start.data == call.data,
        restorable(OutputView::ProviderToolCall(call), seals, store),
        fold_ok(call.output.take(n), start, seal_part(seals)) is Ok,
    ensures
        restored_value(
            fold_ok(call.output.take(n), start, seal_part(seals))->Ok_0.data,
            store,
        ) == call.data,
        forall|i: int|
            0 <= i < call.output.len() ==> #[trigger] clear_of_part(
                fold_ok(call.output.take(n), start, seal_part(seals))->Ok_0.data,
                call.output[i],
            ),
    decreases n,
{
    if n == 0 {
        assert(call.output.take(0) =~= Seq::empty());
        unmarked_value_stays(call.data, store);
        assert forall|i: int| 0 <= i < call.output.len() implies #[trigger] clear_of_part(
            call.data,
            call.output[i],
        ) by {
            if let Some(bytes) = inline_bytes(call.output[i]) {
                unmarked_is_clear(call.data, RESOURCE_KEY@, base64_text(bytes));
            }
        }
    } else {
        let contents = call.output;
        assert(contents.take(n).drop_last() =~= contents.take(n - 1));
        assert(contents.take(n).last() == contents[n - 1]);
        sealed_data_is_restored(call, n - 1, start, seals, store);
        sealed_parts(contents, n - 1, start, seals);
        let before = fold_ok(contents.take(n - 1), start, seal_part(seals))->Ok_0;
        let parts = fold_ok(contents.take(n), start, seal_part(seals))->Ok_0;
        let content = contents[n - 1];
        let seal = seal_of(contents, n - 1, seals);
        if let Some(bytes) = inline_bytes(content) {
            assert(given_back(content, seal, store));
            assert(seals[before.payloads.len() as int] == seal);
            if let Some(k) = bound(before.bindings, before.output.len() as usize) {
                let path = field_path(before.bindings[k as int].pointer);
                assert(clear_of_part(before.data, content));
                marked_value_is_restored(before.data, path, seal.reference, store);
                assert forall|i: int| 0 <= i < contents.len() implies #[trigger] clear_of_part(
                    parts.data,
                    contents[i],
                ) by {
                    assert(clear_of_part(before.data, contents[i]));
                    assert(inline_bytes(contents[n - 1]) is Some);
                }
            }
        }
    }
}

/// What was sealed is had back: where the answers are what the store holds, and it holds
/// what it was given, resolving a sealed output item gives the item that the model answered
/// with.
pub proof fn sealed_output_is_had_back(
    output: OutputView,
    seals: Seq<SealedView>,
    store: Store,
    purse: PurseView,
    loads: Seq<Seq<u8>>,
)
    requires
        sealed_output(output, seals) is Ok,
        restorable(output, seals, store),
        answers(
            loads,
            purse.used,
            asked_output(sealed_output(output, seals)->Ok_0),
            store,
        ),
        resolved_output(sealed_output(output, seals)->Ok_0, purse, loads) is Ok,
    ensures
        (resolved_output(sealed_output(output, seals)->Ok_0, purse, loads)->Ok_0).0 == output,
{
    match output {
        OutputView::Content(content) => {
            let found = (sealed_content(content, 0, seals)->Ok_0).0;
            let asked = asked_contents(seq![found]);
            assert(seq![found].drop_last() =~= Seq::empty());
            assert(asked_contents(seq![found].drop_last()) =~= Seq::empty());
            assert(seq![found].last() == found);
            if is_stored(found) {
                assert(asked[0] == ReferenceView::Part(found->Resource_0));
                assert(found == sealed_by(content, seals[0]));
            }
        },
        OutputView::ProviderToolCall(call) => {
            let start = PartsView {
                output: Seq::empty(),
                data: call.data,
                bindings: call_bindings(call)->Ok_0,
                payloads: Seq::empty(),
            };
            let n = call.output.len() as int;
            assert(call.output.take(n) =~= call.output);
            sealed_parts(call.output, n, start, seals);
            sealed_data_is_restored(call, n, start, seals, store);
            let parts = fold_ok(call.output, start, seal_part(seals))->Ok_0;
            answers_split(
                loads,
                purse.used,
                asked_contents(parts.output),
                asked_value(parts.data),
                store,
            );
            contents_are_restored(parts.output, purse, loads, store);
            let between = (resolved_contents(parts.output, purse, loads)->Ok_0).1;
            value_is_restored(parts.data, between, loads, store);
            let restored = parts.output.map_values(|c: ContentView| restored_content(c, store));
            assert forall|i: int| 0 <= i < n implies #[trigger] restored[i] == call.output[i] by {
                assert(parts.output[i] == sealed_by(
                    call.output[i],
                    seal_of(call.output, i, seals),
                ));
                assert(given_back(call.output[i], seal_of(call.output, i, seals), store));
                assert(!is_stored(call.output[i]));
            }
            assert(restored =~= call.output);
        },
        _ => {},
    }
}

} // verus!
