//! What an assembled response holds of the deltas that were handed out on the way.
use crate::error::ErrorView;
use crate::json::{json_text, lookup, set_get, Fields, JsonView};
use crate::model::{ModelDeltaView, Protocol};
use crate::slots::{slot_get, slot_put, slot_put_ascends, slot_put_get, slot_values, slots_ascend};
use crate::streaming::accumulator::AccumulatorView;
use crate::streaming::chat::{
    call_delta, extended_choice, or_empty, text_deltas, usage_deltas, with_calls, with_fragment,
    with_text, with_texts, CallPartsView, ChatView,
};
use crate::streaming::fields::{appended, copied, fields_of};
use vstd::prelude::*;

verus! {

/// A response after the data of frames, with all deltas that were handed out. There is none
/// where a frame was refused.
pub open spec fn streamed(state: AccumulatorView, frames: Seq<Seq<char>>) -> Option<
    (AccumulatorView, Seq<ModelDeltaView>),
>
    decreases frames.len(),
{
    if frames.len() == 0 {
        Some((state, Seq::empty()))
    } else {
        match streamed(state, frames.drop_last()) {
            None => None,
            Some((before, deltas)) => match before.pushed(frames.last()) {
                Some((next, Ok(more))) => Some((next, deltas + more)),
                _ => None,
            },
        }
    }
}

/// The text of all text deltas, one behind the other.
pub open spec fn spoken(deltas: Seq<ModelDeltaView>) -> Seq<char>
    decreases deltas.len(),
{
    if deltas.len() == 0 {
        Seq::empty()
    } else {
        match deltas.last() {
            ModelDeltaView::Text { text, .. } => spoken(deltas.drop_last()) + text,
            _ => spoken(deltas.drop_last()),
        }
    }
}

/// Whether a delta is of the call at that index.
pub open spec fn calls_at(delta: ModelDeltaView, index: u64) -> bool {
    delta matches ModelDeltaView::RuntimeTool { output_index, .. } && output_index == index
}

/// Whether some delta is of the call at that index.
pub open spec fn called(deltas: Seq<ModelDeltaView>, index: u64) -> bool {
    exists|i: int| 0 <= i < deltas.len() && #[trigger] calls_at(deltas[i], index)
}

/// Whether some delta is of a call.
pub open spec fn calls_any(deltas: Seq<ModelDeltaView>) -> bool {
    exists|i: int| 0 <= i < deltas.len() && (#[trigger] deltas[i]) is RuntimeTool
}

/// The input of all deltas of the call at that index, one behind the other.
pub open spec fn input_of(deltas: Seq<ModelDeltaView>, index: u64) -> Seq<char>
    decreases deltas.len(),
{
    if deltas.len() == 0 {
        Seq::empty()
    } else {
        match deltas.last() {
            ModelDeltaView::RuntimeTool { output_index, input, .. } => if output_index == index {
                input_of(deltas.drop_last(), index) + input
            } else {
                input_of(deltas.drop_last(), index)
            },
            _ => input_of(deltas.drop_last(), index),
        }
    }
}

/// Whether the data of a frame carries no whole message, only fragments of one.
pub open spec fn carries_fragments(data: Seq<char>) -> bool {
    json_text(data) matches Ok(event) ==> (event.pointer("/choices/0"@) matches Some(fragment)
        ==> fragment.get("message"@) is None)
}

// ---------------------------------------------------------------------------------------
// Deltas one behind the other
// ---------------------------------------------------------------------------------------
pub(crate) proof fn spoken_joins(first: Seq<ModelDeltaView>, second: Seq<ModelDeltaView>)
    ensures
        spoken(first + second) == spoken(first) + spoken(second),
    decreases second.len(),
{
    if second.len() == 0 {
        assert(first + second =~= first);
        assert(spoken(first) + spoken(second) =~= spoken(first));
    } else {
        assert((first + second).drop_last() =~= first + second.drop_last());
        spoken_joins(first, second.drop_last());
        assert(spoken(first + second) =~= spoken(first) + spoken(second));
    }
}

pub(crate) proof fn input_joins(first: Seq<ModelDeltaView>, second: Seq<ModelDeltaView>, index: u64)
    ensures
        input_of(first + second, index) == input_of(first, index) + input_of(second, index),
    decreases second.len(),
{
    if second.len() == 0 {
        assert(first + second =~= first);
        assert(input_of(first, index) + input_of(second, index) =~= input_of(first, index));
    } else {
        assert((first + second).drop_last() =~= first + second.drop_last());
        input_joins(first, second.drop_last(), index);
        assert(input_of(first + second, index) =~= input_of(first, index) + input_of(
            second,
            index,
        ));
    }
}

pub(crate) proof fn called_joins(first: Seq<ModelDeltaView>, second: Seq<ModelDeltaView>, index: u64)
    ensures
        called(first + second, index) <==> called(first, index) || called(second, index),
{
    let both = first + second;
    if called(first, index) {
        let i = choose|i: int| 0 <= i < first.len() && #[trigger] calls_at(first[i], index);
        assert(calls_at(both[i], index));
    }
    if called(second, index) {
        let i = choose|i: int| 0 <= i < second.len() && #[trigger] calls_at(second[i], index);
        assert(calls_at(both[first.len() + i], index));
    }
    if called(both, index) {
        let i = choose|i: int| 0 <= i < both.len() && #[trigger] calls_at(both[i], index);
        if i < first.len() {
            assert(calls_at(first[i], index));
        } else {
            assert(calls_at(second[i - first.len()], index));
        }
    }
}

/// Deltas without a call add to none.
proof fn no_calls(deltas: Seq<ModelDeltaView>, index: u64)
    requires
        forall|i: int| 0 <= i < deltas.len() ==> !((#[trigger] deltas[i]) is RuntimeTool),
    ensures
        !called(deltas, index),
        input_of(deltas, index) == Seq::<char>::empty(),
    decreases deltas.len(),
{
    if deltas.len() > 0 {
        let rest = deltas.drop_last();
        assert forall|i: int| 0 <= i < rest.len() implies !((#[trigger] rest[i])
            is RuntimeTool) by {
            assert(rest[i] == deltas[i]);
        }
        no_calls(rest, index);
        assert(!(deltas[deltas.len() - 1] is RuntimeTool));
    }
    if called(deltas, index) {
        let i = choose|i: int| 0 <= i < deltas.len() && #[trigger] calls_at(deltas[i], index);
        assert(deltas[i] is RuntimeTool);
    }
}

/// Deltas without a text say nothing.
pub(crate) proof fn no_texts(deltas: Seq<ModelDeltaView>)
    requires
        forall|i: int| 0 <= i < deltas.len() ==> !((#[trigger] deltas[i]) is Text),
    ensures
        spoken(deltas) == Seq::<char>::empty(),
    decreases deltas.len(),
{
    if deltas.len() > 0 {
        let rest = deltas.drop_last();
        assert forall|i: int| 0 <= i < rest.len() implies !((#[trigger] rest[i]) is Text) by {
            assert(rest[i] == deltas[i]);
        }
        no_texts(rest);
        assert(!(deltas[deltas.len() - 1] is Text));
    }
}

// ---------------------------------------------------------------------------------------
// The message of a Chat response
// ---------------------------------------------------------------------------------------
pub(crate) proof fn keys_differ()
    ensures
        "message"@ != "logprobs"@,
        "content"@ != "reasoning_content"@,
        "tool_calls"@ != "content"@,
        "tool_calls"@ != "reasoning_content"@,
        "tool_calls"@ != "role"@,
        "message"@ != "finish_reason"@,
{
    reveal_strlit("message");
    reveal_strlit("logprobs");
    reveal_strlit("content");
    reveal_strlit("reasoning_content");
    reveal_strlit("tool_calls");
    reveal_strlit("role");
    reveal_strlit("finish_reason");
    assert("message"@.len() == 7);
    assert("content"@.len() == 7);
    assert("reasoning_content"@.len() == 17);
    assert("tool_calls"@.len() == 10);
}

pub(crate) proof fn no_field(fields: Fields, key: Seq<char>, i: int)
    requires
        lookup(fields, key) is None,
        0 <= i < fields.len(),
    ensures
        fields[i].0 != key,
    decreases i,
{
    if i > 0 {
        no_field(fields.skip(1), key, i - 1);
    }
}

/// What is copied leaves a field alone that it does not hold.
proof fn copied_leaves(
    target: JsonView,
    fields: Fields,
    skip: Seq<char>,
    skip_too: Seq<char>,
    key: Seq<char>,
)
    requires
        target is Object,
        forall|i: int| 0 <= i < fields.len() ==> (#[trigger] fields[i]).0 != key,
    ensures
        copied(target, fields, skip, skip_too) is Object,
        copied(target, fields, skip, skip_too).get(key) == target.get(key),
    decreases fields.len(),
{
    broadcast use set_get;

    if fields.len() > 0 {
        let rest = fields.drop_last();
        assert forall|i: int| 0 <= i < rest.len() implies (#[trigger] rest[i]).0 != key by {
            assert(rest[i] == fields[i]);
        }
        copied_leaves(target, rest, skip, skip_too, key);
        assert(fields[fields.len() - 1].0 != key);
    }
}

/// Whether a message holds that text, and no calls.
pub open spec fn says(message: JsonView, text: Seq<char>) -> bool {
    &&& message is Object
    &&& message.get("content"@) == Some(JsonView::text(text))
    &&& message.get("tool_calls"@) is None
}

/// A fragment of a choice leaves the message alone.
pub(crate) proof fn extended_leaves(choice: JsonView, fragment: JsonView)
    requires
        choice is Object,
        fragment.get("message"@) is None,
    ensures
        extended_choice(choice, fragment) is Object,
        extended_choice(choice, fragment).get("message"@) == choice.get("message"@),
{
    broadcast use set_get;

    keys_differ();
    let fields = fields_of(fragment);
    assert forall|i: int| 0 <= i < fields.len() implies (#[trigger] fields[i]).0
        != "message"@ by {
        no_field(fields, "message"@, i);
    }
    copied_leaves(choice, fields, "delta"@, "logprobs"@, "message"@);
}

/// The texts of a fragment are appended to what the message says.
proof fn texts_are_appended(choice: JsonView, delta: JsonView, text: Seq<char>)
    requires
        choice is Object,
        says(choice.field("message"@), text),
    ensures
        with_texts(choice, delta) is Object,
        says(with_texts(choice, delta).field("message"@), text + spoken(text_deltas(delta))),
{
    broadcast use set_get;

    keys_differ();
    let content = or_empty(delta.get_str("content"@));
    let message = choice.field("message"@);
    let said = match delta.get_str("content"@) {
        Some(more) => with_text(choice, "content"@, more),
        None => choice,
    };
    assert(text + Seq::<char>::empty() =~= text);
    assert(message.str_or_empty("content"@) == text);
    assert(said is Object);
    assert(says(said.field("message"@), text + content));
    let first = match delta.get_str("content"@) {
        Some(text) => seq![ModelDeltaView::Text { output_index: 0, text }],
        None => Seq::empty(),
    };
    assert(spoken(first) =~= content) by {
        if first.len() > 0 {
            reveal_with_fuel(spoken, 2);
            assert(first.drop_last() =~= Seq::empty());
        }
    }
    match delta.get_str("reasoning_content"@) {
        Some(thought) => {
            let all = text_deltas(delta);
            assert(all.drop_last() =~= first);
            assert(spoken(all) == spoken(first));
            let last = with_text(said, "reasoning_content"@, thought);
            assert(last == with_texts(choice, delta));
            assert(says(last.field("message"@), text + content));
        },
        None => {},
    }
}

/// Whether calls are those of the deltas: there is one at each index that occurs, with the
/// input of its deltas.
pub open spec fn holds_calls(
    calls: Seq<(u64, CallPartsView)>,
    deltas: Seq<ModelDeltaView>,
) -> bool {
    &&& slots_ascend(calls)
    &&& forall|i: int| 0 <= i < calls.len() ==> (#[trigger] calls[i]).0 < u64::MAX
    &&& forall|k: u64|
        k < u64::MAX ==> match #[trigger] slot_get(calls, k) {
            Some(parts) => called(deltas, (k + 1) as u64) && parts.arguments == input_of(
                deltas,
                (k + 1) as u64,
            ),
            None => !called(deltas, (k + 1) as u64),
        }
    &&& !called(deltas, 0)
}

/// A delta that is of no call changes nothing of the calls.
proof fn other_deltas_leave_calls(
    calls: Seq<(u64, CallPartsView)>,
    deltas: Seq<ModelDeltaView>,
    more: Seq<ModelDeltaView>,
)
    requires
        holds_calls(calls, deltas),
        forall|i: int| 0 <= i < more.len() ==> !((#[trigger] more[i]) is RuntimeTool),
    ensures
        holds_calls(calls, deltas + more),
{
    assert forall|k: u64| true implies (called(deltas + more, k) <==> called(deltas, k))
        && #[trigger] input_of(deltas + more, k) == input_of(deltas, k) by {
        no_calls(more, k);
        called_joins(deltas, more, k);
        input_joins(deltas, more, k);
        assert(input_of(deltas, k) + Seq::<char>::empty() =~= input_of(deltas, k));
    }
    assert forall|k: u64| k < u64::MAX implies match #[trigger] slot_get(calls, k) {
        Some(parts) => called(deltas + more, (k + 1) as u64) && parts.arguments == input_of(
            deltas + more,
            (k + 1) as u64,
        ),
        None => !called(deltas + more, (k + 1) as u64),
    } by {
        assert(input_of(deltas + more, (k + 1) as u64) == input_of(deltas, (k + 1) as u64));
    }
    assert(input_of(deltas + more, 0) == input_of(deltas, 0));
}

/// One fragment of a call.
proof fn one_fragment(
    calls: Seq<(u64, CallPartsView)>,
    deltas: Seq<ModelDeltaView>,
    index: u64,
    fragment: JsonView,
)
    requires
        holds_calls(calls, deltas),
        index < u64::MAX,
    ensures
        ({
            let parts = match slot_get(calls, index) {
                Some(parts) => parts,
                None => CallPartsView::empty(),
            };
            holds_calls(
                slot_put(calls, index, with_fragment(parts, fragment)),
                deltas.push(call_delta(index, fragment)),
            )
        }),
{
    let parts = match slot_get(calls, index) {
        Some(parts) => parts,
        None => CallPartsView::empty(),
    };
    let delta = call_delta(index, fragment);
    let value = with_fragment(parts, fragment);
    let after = slot_put(calls, index, value);
    let all = deltas.push(delta);
    let one = seq![delta];
    assert(all =~= deltas + one);
    slot_put_ascends(calls, index, value);
    assert forall|i: int| 0 <= i < after.len() implies (#[trigger] after[i]).0 < u64::MAX by {
        if after[i].0 != index {
            let j = choose|j: int| 0 <= j < calls.len() && calls[j] == after[i];
            assert(calls[j].0 < u64::MAX);
        }
    }
    reveal_with_fuel(input_of, 2);
    assert(one.drop_last() =~= Seq::empty());
    assert forall|k: u64| k < u64::MAX implies match #[trigger] slot_get(after, k) {
        Some(parts) => called(all, (k + 1) as u64) && parts.arguments == input_of(
            all,
            (k + 1) as u64,
        ),
        None => !called(all, (k + 1) as u64),
    } by {
        let n = (k + 1) as u64;
        slot_put_get(calls, index, value, k);
        called_joins(deltas, one, n);
        input_joins(deltas, one, n);
        assert(slot_get(calls, k) is None ==> !called(deltas, n));
        assert(calls_at(one[0], n) <==> k == index);
        if k == index {
            assert(called(one, n));
            if slot_get(calls, k) is None {
                uncalled(deltas, n);
            }
            assert(Seq::<char>::empty() + delta->input =~= delta->input);
            assert(input_of(one, n) == delta->input);
        } else {
            assert(!called(one, n));
            assert(input_of(one, n) == Seq::<char>::empty());
            assert(input_of(deltas, n) + Seq::<char>::empty() =~= input_of(deltas, n));
        }
    }
    called_joins(deltas, one, 0);
    assert(!called(one, 0));
}

/// Where no delta is of a call, it has no input.
proof fn uncalled(deltas: Seq<ModelDeltaView>, index: u64)
    requires
        !called(deltas, index),
    ensures
        input_of(deltas, index) == Seq::<char>::empty(),
    decreases deltas.len(),
{
    if deltas.len() > 0 {
        let rest = deltas.drop_last();
        if called(rest, index) {
            let i = choose|i: int| 0 <= i < rest.len() && #[trigger] calls_at(rest[i], index);
            assert(calls_at(deltas[i], index));
        }
        uncalled(rest, index);
        assert(!calls_at(deltas[deltas.len() - 1], index));
    }
}

/// Fragments of calls are added to their calls.
proof fn fragments_are_added(
    calls: Seq<(u64, CallPartsView)>,
    fragments: Seq<JsonView>,
    deltas: Seq<ModelDeltaView>,
)
    requires
        holds_calls(calls, deltas),
    ensures
        with_calls(calls, fragments) matches Some(pushed) ==> (pushed.result matches Ok(more)
            ==> holds_calls(pushed.calls, deltas + more) && (forall|i: int|
            0 <= i < more.len() ==> (#[trigger] more[i]) is RuntimeTool)),
    decreases fragments.len(),
{
    if fragments.len() == 0 {
        assert(deltas + Seq::<ModelDeltaView>::empty() =~= deltas);
    } else {
        fragments_are_added(calls, fragments.drop_last(), deltas);
        match with_calls(calls, fragments.drop_last()) {
            Some(before) => match before.result {
                Ok(more) => {
                    let fragment = fragments.last();
                    match fragment.get_u64("index"@) {
                        Some(index) => if index < u64::MAX {
                            one_fragment(before.calls, deltas + more, index, fragment);
                            let delta = call_delta(index, fragment);
                            assert((deltas + more).push(delta) =~= deltas + more.push(delta));
                        },
                        None => {},
                    }
                },
                Err(_) => {},
            },
            None => {},
        }
    }
}

/// Whether a Chat response holds what the deltas say.
pub open spec fn holds_deltas(state: ChatView, deltas: Seq<ModelDeltaView>) -> bool {
    &&& state.fields is Object
    &&& state.choice is Object
    &&& says(state.choice.field("message"@), spoken(deltas))
    &&& holds_calls(state.calls, deltas)
}

proof fn nothing_held()
    ensures
        holds_deltas(ChatView::initial(), Seq::empty()),
{
    broadcast use set_get;

    keys_differ();
    reveal_strlit("");
    assert(""@ =~= Seq::empty());
    let message = JsonView::empty().set("role"@, JsonView::text("assistant"@)).set(
        "content"@,
        JsonView::text(""@),
    );
    assert(ChatView::initial().choice.get("message"@) == Some(message));
    assert(JsonView::empty().get("tool_calls"@) is None);
    assert(message.get("tool_calls"@) is None);
    assert(says(message, Seq::empty()));
}

/// The fields of a response remain fields.
pub(crate) proof fn copied_is_object(target: JsonView, fields: Fields, skip: Seq<char>, skip_too: Seq<char>)
    requires
        target is Object,
    ensures
        copied(target, fields, skip, skip_too) is Object,
    decreases fields.len(),
{
    if fields.len() > 0 {
        copied_is_object(target, fields.drop_last(), skip, skip_too);
    }
}

proof fn counted_leaves(event: JsonView)
    ensures
        spoken(usage_deltas(event)) == Seq::<char>::empty(),
        forall|i: int|
            0 <= i < usage_deltas(event).len() ==> !((#[trigger] usage_deltas(event)[i])
                is RuntimeTool),
{
    no_texts(usage_deltas(event));
}

/// An event keeps what the response holds in step with the deltas.
proof fn event_keeps(state: ChatView, event: JsonView, deltas: Seq<ModelDeltaView>)
    requires
        holds_deltas(state, deltas),
        event.pointer("/choices/0"@) matches Some(fragment) ==> fragment.get("message"@) is None,
    ensures
        state.pushed(event) matches Some((next, Ok(more))) ==> holds_deltas(next, deltas + more)
            && next.done == state.done,
{
    let counted = usage_deltas(event);
    let none = Seq::<char>::empty();
    counted_leaves(event);
    copied_is_object(state.fields, fields_of(event), "choices"@, "choices"@);
    spoken_joins(deltas, counted);
    assert(spoken(deltas) + none =~= spoken(deltas));
    other_deltas_leave_calls(state.calls, deltas, counted);
    match event.pointer("/choices/0"@) {
        None => {},
        Some(fragment) => {
            extended_leaves(state.choice, fragment);
            let choice = extended_choice(state.choice, fragment);
            match fragment.get("delta"@) {
                None => {},
                Some(delta) => {
                    let texts = text_deltas(delta);
                    let first = counted + texts;
                    texts_are_appended(choice, delta, spoken(deltas));
                    spoken_joins(counted, texts);
                    assert(none + spoken(texts) =~= spoken(texts));
                    spoken_joins(deltas, first);
                    assert forall|i: int| 0 <= i < first.len() implies !((#[trigger] first[i])
                        is RuntimeTool) by {
                        if i < counted.len() {
                            assert(first[i] == counted[i]);
                        } else {
                            assert(first[i] == texts[i - counted.len()]);
                        }
                    }
                    other_deltas_leave_calls(state.calls, deltas, first);
                    match delta.get_array("tool_calls"@) {
                        None => {},
                        Some(fragments) => {
                            fragments_are_added(state.calls, fragments, deltas + first);
                            match with_calls(state.calls, fragments) {
                                Some(pushed) => match pushed.result {
                                    Ok(more) => {
                                        assert((deltas + first) + more =~= deltas + (first + more));
                                        no_texts(more);
                                        spoken_joins(deltas + first, more);
                                        assert(spoken(deltas + first) + none =~= spoken(
                                            deltas + first,
                                        ));
                                    },
                                    Err(_) => {},
                                },
                                None => {},
                            }
                        },
                    }
                },
            }
        },
    }
}

proof fn frame_keeps(state: ChatView, data: Seq<char>, deltas: Seq<ModelDeltaView>)
    requires
        holds_deltas(state, deltas),
        carries_fragments(data),
    ensures
        AccumulatorView::Chat(state).pushed(data) matches Some((next, Ok(more))) ==> (next
            matches AccumulatorView::Chat(after) && holds_deltas(after, deltas + more)),
{
    if data == "[DONE]"@ {
        assert(deltas + Seq::<ModelDeltaView>::empty() =~= deltas);
    } else {
        match json_text(data) {
            Ok(event) => {
                event_keeps(state, event, deltas);
            },
            Err(_) => {},
        }
    }
}

proof fn frames_keep(frames: Seq<Seq<char>>)
    requires
        forall|i: int| 0 <= i < frames.len() ==> carries_fragments(#[trigger] frames[i]),
    ensures
        streamed(AccumulatorView::initial(Protocol::Chat), frames) matches Some((state, deltas))
            ==> (state matches AccumulatorView::Chat(after) && holds_deltas(after, deltas)),
    decreases frames.len(),
{
    if frames.len() == 0 {
        nothing_held();
    } else {
        let rest = frames.drop_last();
        assert forall|i: int| 0 <= i < rest.len() implies carries_fragments(
            #[trigger] rest[i],
        ) by {
            assert(rest[i] == frames[i]);
        }
        frames_keep(rest);
        assert(carries_fragments(frames[frames.len() - 1]));
        match streamed(AccumulatorView::initial(Protocol::Chat), rest) {
            Some((AccumulatorView::Chat(state), deltas)) => {
                frame_keeps(state, frames.last(), deltas);
            },
            _ => {},
        }
    }
}

pub(crate) proof fn found<V>(slots: Seq<(u64, V)>, i: int)
    requires
        slots_ascend(slots),
        0 <= i < slots.len(),
    ensures
        slot_get(slots, slots[i].0) == Some(slots[i].1),
    decreases slots.len(),
{
    if i > 0 {
        let rest = slots.skip(1);
        assert forall|a: int, b: int| 0 <= a < b < rest.len() implies (#[trigger] rest[a]).0 < (
        #[trigger] rest[b]).0 by {
            assert(slots[a + 1].0 < slots[b + 1].0);
        }
        found(rest, i - 1);
        assert(slots[0].0 < slots[i].0);
    }
}

pub(crate) proof fn stands_somewhere<V>(slots: Seq<(u64, V)>, key: u64) -> (i: int)
    requires
        slot_get(slots, key) is Some,
    ensures
        0 <= i < slots.len(),
        slots[i].0 == key,
    decreases slots.len(),
{
    if slots[0].0 == key {
        0
    } else {
        1 + stands_somewhere(slots.skip(1), key)
    }
}

/// Whether calls stand for the indexes: one for each, with the input of its deltas.
pub open spec fn calls_stand(
    calls: Seq<JsonView>,
    indexes: Seq<u64>,
    deltas: Seq<ModelDeltaView>,
) -> bool {
    &&& calls.len() == indexes.len()
    &&& forall|i: int, j: int|
        0 <= i < j < indexes.len() ==> #[trigger] indexes[i] < #[trigger] indexes[j]
    &&& forall|index: u64| #[trigger] called(deltas, index) <==> indexes.contains(index)
    &&& forall|i: int|
        0 <= i < calls.len() ==> (#[trigger] calls[i]).field("function"@).get("arguments"@) == Some(
            JsonView::text(input_of(deltas, indexes[i])),
        )
}

/// The message of the one choice of a response.
pub open spec fn message_of(response: JsonView) -> Option<JsonView> {
    match response.get_array("choices"@) {
        Some(choices) => if choices.len() == 1 {
            Some(choices[0].field("message"@))
        } else {
            None
        },
        None => None,
    }
}

/// Whether a message holds what the deltas say: their text, and their calls where there are
/// any.
pub open spec fn message_holds(message: JsonView, deltas: Seq<ModelDeltaView>) -> bool {
    &&& message.get("content"@) == Some(JsonView::text(spoken(deltas)))
    &&& message.get("tool_calls"@) is Some <==> calls_any(deltas)
    &&& message.get("tool_calls"@) is Some ==> message.get_array("tool_calls"@) is Some
        && exists|indexes: Seq<u64>| #[trigger]
        calls_stand(message.get_array("tool_calls"@)->0, indexes, deltas)
}

/// The message of a Chat response is what its deltas said. After any run of frames that were
/// taken, of which none carried a whole message, the content is the text of all deltas, one
/// behind the other. There are calls where a delta is of one: one call for each index that
/// occurs, in ascending order however they came in, each with the input of its deltas.
pub proof fn chat_message_holds_the_deltas(
    frames: Seq<Seq<char>>,
    state: AccumulatorView,
    deltas: Seq<ModelDeltaView>,
    response: JsonView,
)
    requires
        streamed(AccumulatorView::initial(Protocol::Chat), frames) == Some((state, deltas)),
        state.finished() == Some(Ok::<JsonView, ErrorView>(response)),
        forall|i: int| 0 <= i < frames.len() ==> carries_fragments(#[trigger] frames[i]),
    ensures
        message_of(response) is Some,
        message_holds(message_of(response)->0, deltas),
{
    broadcast use set_get;

    keys_differ();
    frames_keep(frames);
    let chat = state->Chat_0;
    let calls = chat.calls;
    let choice = chat.finished_choice();
    let message = chat.choice.field("message"@);
    assert(response.get_array("choices"@) == Some(seq![choice]));
    assert(says(message, spoken(deltas)));
    if calls_any(deltas) {
        let i = choose|i: int| 0 <= i < deltas.len() && (#[trigger] deltas[i]) is RuntimeTool;
        let index = deltas[i]->RuntimeTool_output_index;
        assert(calls_at(deltas[i], index));
        assert(called(deltas, index));
        let k = (index - 1) as u64;
        assert(slot_get(calls, k) is Some);
    }
    if calls.len() > 0 {
        found(calls, 0);
        let n = (calls[0].0 + 1) as u64;
        assert(slot_get(calls, calls[0].0) is Some);
        assert(called(deltas, n));
        let i = choose|i: int| 0 <= i < deltas.len() && #[trigger] calls_at(deltas[i], n);
        assert(deltas[i] is RuntimeTool);
        let values = chat.call_values();
        let indexes = calls.map_values(|c: (u64, CallPartsView)| (c.0 + 1) as u64);
        assert(choice.field("message"@).get_array("tool_calls"@) == Some(values));
        assert forall|i: int, j: int| 0 <= i < j < indexes.len() implies #[trigger] indexes[i]
            < #[trigger] indexes[j] by {
            assert(calls[i].0 < calls[j].0);
        }
        assert forall|index: u64| #[trigger] called(deltas, index) <==> indexes.contains(
            index,
        ) by {
            if called(deltas, index) {
                let k = (index - 1) as u64;
                assert(slot_get(calls, k) is Some);
                let i = stands_somewhere(calls, k);
                assert(indexes[i] == index);
            }
            if indexes.contains(index) {
                let i = choose|i: int| 0 <= i < indexes.len() && indexes[i] == index;
                found(calls, i);
                assert(slot_get(calls, calls[i].0) is Some);
            }
        }
        assert forall|i: int| 0 <= i < values.len() implies (#[trigger] values[i]).field(
            "function"@,
        ).get("arguments"@) == Some(JsonView::text(input_of(deltas, indexes[i]))) by {
            found(calls, i);
            assert(slot_get(calls, calls[i].0) == Some(calls[i].1));
            assert(values[i] == slot_values(calls)[i].json());
            call_holds_arguments(calls[i].1);
        }
        assert(calls_stand(
            choice.field("message"@).get_array("tool_calls"@)->0,
            indexes,
            deltas,
        ));
        assert(calls_any(deltas));
    } else {
        assert(!calls_any(deltas));
        assert(choice == chat.choice);
    }
    let sent = choice.field("message"@);
    assert(sent.get("content"@) == Some(JsonView::text(spoken(deltas))));
    assert(sent.get("tool_calls"@) is Some <==> calls.len() > 0);
    assert(message_of(response) == Some(sent));
    assert(calls_any(deltas) <==> calls.len() > 0);
    assert(calls.len() > 0 ==> exists|indexes: Seq<u64>| #[trigger]
        calls_stand(sent.get_array("tool_calls"@)->0, indexes, deltas));
}

/// A call on the wire holds its arguments.
proof fn call_holds_arguments(parts: CallPartsView)
    ensures
        parts.json().field("function"@).get("arguments"@) == Some(
            JsonView::text(parts.arguments),
        ),
{
    broadcast use set_get;

    reveal_strlit("function");
    reveal_strlit("id");
    assert("function"@.len() == 8);
    assert("id"@.len() == 2);
}

} // verus!
