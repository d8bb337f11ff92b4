//! What the blocks of a Messages response hold of the fragments that came in and of the deltas
//! that were handed out on the way.
use crate::codec::adapter::usage_of;
use crate::error::ErrorView;
use crate::json::{json_text, set_get, JsonView};
use crate::model::{ModelDeltaView, Protocol};
use crate::slots::{
    slot_get, slot_put, slot_put_ascends, slot_put_get, slot_remove_get, slot_values, slots_ascend,
};
use crate::streaming::accumulator::AccumulatorView;
use crate::streaming::fields::{
    appended, assigned_fields_stand, overlaid, stands_nowhere, stands_once,
};
use crate::streaming::laws::{
    called, called_joins, calls_at, found, input_joins, input_of, no_field,
    stands_somewhere, streamed,
};
use crate::streaming::messages::MessagesView;
use vstd::prelude::*;

verus! {

proof fn events_differ()
    ensures
        "content_block_start"@.len() == 19,
        "content_block_delta"@.len() == 19,
        "content_block_stop"@.len() == 18,
        "message_start"@.len() == 13,
        "message_delta"@.len() == 13,
        "message_stop"@.len() == 12,
        "content_block_start"@ != "content_block_delta"@,
        "content_block_start"@ != "content_block_stop"@,
        "content_block_start"@ != "message_start"@,
        "content_block_start"@ != "message_delta"@,
        "content_block_start"@ != "message_stop"@,
        "content_block_delta"@ != "content_block_stop"@,
        "content_block_delta"@ != "message_start"@,
        "content_block_delta"@ != "message_delta"@,
        "content_block_delta"@ != "message_stop"@,
        "content_block_stop"@ != "message_start"@,
        "content_block_stop"@ != "message_delta"@,
        "content_block_stop"@ != "message_stop"@,
        "message_start"@ != "message_delta"@,
        "message_start"@ != "message_stop"@,
        "message_delta"@ != "message_stop"@,
{
    reveal_strlit("content_block_start");
    reveal_strlit("content_block_delta");
    reveal_strlit("content_block_stop");
    reveal_strlit("message_start");
    reveal_strlit("message_delta");
    reveal_strlit("message_stop");
    assert("content_block_start"@.len() == 19);
    assert("content_block_delta"@.len() == 19);
    assert("content_block_stop"@.len() == 18);
    assert("message_start"@.len() == 13);
    assert("message_delta"@.len() == 13);
    assert("message_stop"@.len() == 12);
    assert("content_block_start"@[14] != "content_block_delta"@[14]);
    assert("message_start"@[8] != "message_delta"@[8]);
}

proof fn fragments_differ()
    ensures
        "text_delta"@ != "thinking_delta"@,
        "text_delta"@ != "signature_delta"@,
        "text_delta"@ != "input_json_delta"@,
        "thinking_delta"@ != "signature_delta"@,
        "thinking_delta"@ != "input_json_delta"@,
        "signature_delta"@ != "input_json_delta"@,
{
    reveal_strlit("text_delta");
    reveal_strlit("thinking_delta");
    reveal_strlit("signature_delta");
    reveal_strlit("input_json_delta");
    assert("text_delta"@.len() == 10);
    assert("thinking_delta"@.len() == 14);
    assert("signature_delta"@.len() == 15);
    assert("input_json_delta"@.len() == 16);
}

proof fn block_keys_differ()
    ensures
        "text"@ != "thinking"@,
        "text"@ != "signature"@,
        "text"@ != "input"@,
        "text"@ != "type"@,
        "text"@ != "id"@,
        "text"@ != "name"@,
        "thinking"@ != "signature"@,
        "thinking"@ != "input"@,
        "thinking"@ != "type"@,
        "thinking"@ != "id"@,
        "thinking"@ != "name"@,
        "signature"@ != "input"@,
        "signature"@ != "type"@,
        "signature"@ != "id"@,
        "signature"@ != "name"@,
        "input"@ != "type"@,
        "input"@ != "id"@,
        "input"@ != "name"@,
        "type"@ != "id"@,
        "type"@ != "name"@,
        "id"@ != "name"@,
{
    reveal_strlit("text");
    reveal_strlit("thinking");
    reveal_strlit("signature");
    reveal_strlit("input");
    reveal_strlit("type");
    reveal_strlit("id");
    reveal_strlit("name");
    assert("text"@.len() == 4);
    assert("thinking"@.len() == 8);
    assert("signature"@.len() == 9);
    assert("input"@.len() == 5);
    assert("type"@.len() == 4);
    assert("id"@.len() == 2);
    assert("name"@.len() == 4);
    assert("text"@[1] != "type"@[1]);
    assert("text"@[0] != "name"@[0]);
    assert("type"@[0] != "name"@[0]);
}

// ---------------------------------------------------------------------------------------
// Fragments
// ---------------------------------------------------------------------------------------
/// Whether an event carries a fragment of the block at an index.
pub open spec fn carries(event: JsonView, index: u64, kind: Seq<char>) -> bool {
    &&& event.get_str("type"@) == Some("content_block_delta"@)
    &&& event.get_u64("index"@) == Some(index)
    &&& event.field("delta"@).get_str("type"@) == Some(kind)
}

/// A fragment is handed out as what it is: a text as text, thinking as reasoning, input as
/// input of the call that its block began with.
pub proof fn fragments_are_handed_out(state: MessagesView, event: JsonView, index: u64)
    ensures
        ({
            let delta = event.field("delta"@);
            state.pushed(event) matches Some((next, Ok(deltas))) ==> {
                &&& carries(event, index, "text_delta"@) ==> (delta.get_str("text"@) matches Some(
                    text,
                ) ==> deltas == seq![ModelDeltaView::Text { output_index: index, text }])
                &&& carries(event, index, "thinking_delta"@) ==> (delta.get_str("thinking"@)
                    matches Some(text) ==> deltas == seq![
                    ModelDeltaView::Reasoning { output_index: index, text },
                ])
                &&& carries(event, index, "input_json_delta"@) ==> (delta.get_str("partial_json"@)
                    matches Some(input) ==> deltas.len() == 1 && (deltas[0]
                    matches ModelDeltaView::RuntimeTool { output_index, id, name, input: given }
                    && output_index == index && given == input && (slot_get(state.blocks, index)
                    matches Some(block) && id == block.get_str("id"@) && name == block.get_str(
                    "name"@,
                ))))
                &&& carries(event, index, "signature_delta"@) ==> (delta.get_str("signature"@)
                    matches Some(text) ==> deltas.len() == 0 && (slot_get(next.blocks, index)
                    matches Some(block) && block.get_str("signature"@) == Some(
                    slot_get(state.blocks, index)->0.str_or_empty("signature"@) + text,
                )))
            }
        }),
{
    broadcast use set_get;

    events_differ();
    fragments_differ();
    let block = slot_get(state.blocks, index)->0;
    let text = event.field("delta"@).str_or_empty("signature"@);
    slot_put_get(state.blocks, index, appended(block, "signature"@, text), index);
}

/// A fragment is taken where its block began as an object.
pub proof fn fragments_are_taken(state: MessagesView, event: JsonView, index: u64)
    requires
        slot_get(state.blocks, index) matches Some(block) && block is Object,
        event.get_str("type"@) == Some("content_block_delta"@),
        event.get_u64("index"@) == Some(index),
    ensures
        state.pushed(event) matches Some((next, Ok(deltas))),
{
    events_differ();
}

/// The counts that come with the end of a message are handed out, those that came before
/// included.
pub proof fn counts_are_handed_out(state: MessagesView, event: JsonView)
    requires
        event.get_str("type"@) == Some("message_delta"@),
    ensures
        state.pushed(event) matches Some((next, Ok(deltas))) ==> if event.get_object("usage"@)
            is Some {
            deltas == seq![
                ModelDeltaView::Usage(usage_of(Protocol::Messages, next.value.field("usage"@))),
            ]
        } else {
            deltas.len() == 0
        },
{
    events_differ();
}

// ---------------------------------------------------------------------------------------
// Blocks
// ---------------------------------------------------------------------------------------
/// The text of all text deltas at an index, one behind the other.
pub open spec fn text_at(deltas: Seq<ModelDeltaView>, index: u64) -> Seq<char>
    decreases deltas.len(),
{
    if deltas.len() == 0 {
        Seq::empty()
    } else {
        match deltas.last() {
            ModelDeltaView::Text { output_index, text } => if output_index == index {
                text_at(deltas.drop_last(), index) + text
            } else {
                text_at(deltas.drop_last(), index)
            },
            _ => text_at(deltas.drop_last(), index),
        }
    }
}

/// The text of all reasoning deltas at an index, one behind the other.
pub open spec fn reasoning_at(deltas: Seq<ModelDeltaView>, index: u64) -> Seq<char>
    decreases deltas.len(),
{
    if deltas.len() == 0 {
        Seq::empty()
    } else {
        match deltas.last() {
            ModelDeltaView::Reasoning { output_index, text } => if output_index == index {
                reasoning_at(deltas.drop_last(), index) + text
            } else {
                reasoning_at(deltas.drop_last(), index)
            },
            _ => reasoning_at(deltas.drop_last(), index),
        }
    }
}

/// The event that the data of a frame holds, if it is of that type and index.
pub open spec fn event_at(data: Seq<char>, kind: Seq<char>, index: u64) -> Option<JsonView> {
    match json_text(data) {
        Ok(event) => {
            let at: u64 = match event.get_u64("index"@) {
                Some(n) => n,
                None => 0,
            };
            if data != "[DONE]"@ && event.get_str("type"@) == Some(kind) && at == index {
                Some(event)
            } else {
                None
            }
        },
        Err(_) => None,
    }
}

/// What the block at an index began with.
pub open spec fn opening(frames: Seq<Seq<char>>, index: u64) -> Option<JsonView>
    decreases frames.len(),
{
    if frames.len() == 0 {
        None
    } else {
        match opening(frames.drop_last(), index) {
            Some(block) => Some(block),
            None => match event_at(frames.last(), "content_block_start"@, index) {
                Some(event) => event.get("content_block"@),
                None => None,
            },
        }
    }
}

/// How often the block at an index ended.
pub open spec fn endings(frames: Seq<Seq<char>>, index: u64) -> nat
    decreases frames.len(),
{
    if frames.len() == 0 {
        0
    } else {
        endings(frames.drop_last(), index) + if event_at(
            frames.last(),
            "content_block_stop"@,
            index,
        ) is Some {
            1nat
        } else {
            0nat
        }
    }
}

/// Whether a block is what it began with, and what was handed out since.
pub open spec fn grown(
    block: JsonView,
    start: JsonView,
    deltas: Seq<ModelDeltaView>,
    index: u64,
) -> bool {
    &&& block.str_or_empty("text"@) == start.str_or_empty("text"@) + text_at(deltas, index)
    &&& block.str_or_empty("thinking"@) == start.str_or_empty("thinking"@) + reasoning_at(
        deltas,
        index,
    )
    &&& block.get("type"@) == start.get("type"@)
    &&& block.get("id"@) == start.get("id"@)
    &&& block.get("name"@) == start.get("name"@)
}

/// Whether the input of a block that has ended once is the one that was handed out.
pub open spec fn filled(
    block: JsonView,
    start: JsonView,
    deltas: Seq<ModelDeltaView>,
    index: u64,
) -> bool {
    if called(deltas, index) {
        json_text(input_of(deltas, index)) matches Ok(input) && block.get("input"@) == Some(input)
    } else {
        block.get("input"@) == start.get("input"@)
    }
}

/// What a state holds at an index after frames and deltas.
spec fn held(
    state: MessagesView,
    frames: Seq<Seq<char>>,
    deltas: Seq<ModelDeltaView>,
    index: u64,
) -> bool {
    let partial = slot_get(state.partial, index);
    match slot_get(state.blocks, index) {
        None => {
            &&& opening(frames, index) is None
            &&& text_at(deltas, index).len() == 0
            &&& reasoning_at(deltas, index).len() == 0
            &&& !called(deltas, index)
            &&& input_of(deltas, index).len() == 0
            &&& partial is None
        },
        Some(block) => opening(frames, index) matches Some(start) && {
            &&& grown(block, start, deltas, index)
            &&& endings(frames, index) == 0 ==> {
                &&& partial is Some <==> called(deltas, index)
                &&& partial is None ==> input_of(deltas, index).len() == 0
                &&& partial matches Some(text) ==> text == input_of(deltas, index)
                &&& block.get("input"@) == start.get("input"@)
            }
            &&& endings(frames, index) == 1 && partial is None ==> filled(
                block,
                start,
                deltas,
                index,
            )
        },
    }
}

proof fn one_delta(delta: ModelDeltaView, index: u64)
    ensures
        text_at(seq![delta], index) == (match delta {
            ModelDeltaView::Text { output_index, text } => if output_index == index {
                text
            } else {
                Seq::empty()
            },
            _ => Seq::empty(),
        }),
        reasoning_at(seq![delta], index) == (match delta {
            ModelDeltaView::Reasoning { output_index, text } => if output_index == index {
                text
            } else {
                Seq::empty()
            },
            _ => Seq::empty(),
        }),
        input_of(seq![delta], index) == (match delta {
            ModelDeltaView::RuntimeTool { output_index, input, .. } => if output_index == index {
                input
            } else {
                Seq::empty()
            },
            _ => Seq::empty(),
        }),
        called(seq![delta], index) <==> calls_at(delta, index),
{
    let one = seq![delta];
    assert(one.drop_last() =~= Seq::empty());
    no_deltas(index);
    let none = Seq::<char>::empty();
    assert(text_at(one, index) =~= (match delta {
        ModelDeltaView::Text { output_index, text } => if output_index == index {
            text
        } else {
            none
        },
        _ => none,
    }));
    assert(reasoning_at(one, index) =~= (match delta {
        ModelDeltaView::Reasoning { output_index, text } => if output_index == index {
            text
        } else {
            none
        },
        _ => none,
    }));
    assert(input_of(one, index) =~= (match delta {
        ModelDeltaView::RuntimeTool { output_index, input, .. } => if output_index == index {
            input
        } else {
            none
        },
        _ => none,
    }));
    if calls_at(delta, index) {
        assert(calls_at(one[0], index));
    }
}

proof fn no_deltas(index: u64)
    ensures
        text_at(Seq::empty(), index) == Seq::<char>::empty(),
        reasoning_at(Seq::empty(), index) == Seq::<char>::empty(),
        input_of(Seq::empty(), index) == Seq::<char>::empty(),
        !called(Seq::empty(), index),
{
}

proof fn deltas_join(first: Seq<ModelDeltaView>, second: Seq<ModelDeltaView>, index: u64)
    ensures
        text_at(first + second, index) == text_at(first, index) + text_at(second, index),
        reasoning_at(first + second, index) == reasoning_at(first, index) + reasoning_at(
            second,
            index,
        ),
        input_of(first + second, index) == input_of(first, index) + input_of(second, index),
        called(first + second, index) <==> called(first, index) || called(second, index),
    decreases second.len(),
{
    input_joins(first, second, index);
    called_joins(first, second, index);
    if second.len() == 0 {
        assert(first + second =~= first);
        assert(text_at(first, index) + text_at(second, index) =~= text_at(first, index));
        assert(reasoning_at(first, index) + reasoning_at(second, index) =~= reasoning_at(
            first,
            index,
        ));
    } else {
        assert((first + second).drop_last() =~= first + second.drop_last());
        deltas_join(first, second.drop_last(), index);
        assert(text_at(first + second, index) =~= text_at(first, index) + text_at(second, index));
        assert(reasoning_at(first + second, index) =~= reasoning_at(first, index) + reasoning_at(
            second,
            index,
        ));
    }
}

/// A fragment that is taken keeps what a state holds.
proof fn delta_keeps(
    state: MessagesView,
    frames: Seq<Seq<char>>,
    deltas: Seq<ModelDeltaView>,
    index: u64,
    next: MessagesView,
    more: Seq<ModelDeltaView>,
    event: JsonView,
)
    requires
        frames.len() > 0,
        held(state, frames.drop_last(), deltas, index),
        slots_ascend(state.partial),
        frames.last() != "[DONE]"@,
        json_text(frames.last()) == Ok::<JsonView, Seq<char>>(event),
        event.get_str("type"@) == Some("content_block_delta"@),
        state.pushed(event) == Some((next, Ok::<Seq<ModelDeltaView>, ErrorView>(more))),
    ensures
        held(next, frames, deltas + more, index),
        slots_ascend(next.partial),
{
    broadcast use set_get;

    events_differ();
    fragments_differ();
    block_keys_differ();
    let at: u64 = match event.get_u64("index"@) {
        Some(n) => n,
        None => 0,
    };
    let delta = event.field("delta"@);
    let kind = delta.str_or_empty("type"@);
    let block = slot_get(state.blocks, at)->0;
    deltas_join(deltas, more, index);
    no_deltas(index);
    if more.len() == 0 {
        assert(more =~= Seq::empty());
        assert(deltas + more =~= deltas);
    } else {
        assert(more =~= seq![more[0]]);
        one_delta(more[0], index);
    }
    assert(endings(frames, index) == endings(frames.drop_last(), index));
    assert(opening(frames, index) == opening(frames.drop_last(), index));
    if kind == "text_delta"@ || kind == "thinking_delta"@ || kind == "signature_delta"@ {
        let (key, text) = if kind == "text_delta"@ {
            ("text"@, delta.str_or_empty("text"@))
        } else if kind == "thinking_delta"@ {
            ("thinking"@, delta.str_or_empty("thinking"@))
        } else {
            ("signature"@, delta.str_or_empty("signature"@))
        };
        let longer = appended(block, key, text);
        assert(next.blocks == slot_put(state.blocks, at, longer));
        assert(next.partial == state.partial);
        slot_put_get(state.blocks, at, longer, index);
        if at == index {
            let start = opening(frames, index)->0;
            assert(longer.get("type"@) == block.get("type"@));
            assert(longer.get("id"@) == block.get("id"@));
            assert(longer.get("name"@) == block.get("name"@));
            assert(longer.get("input"@) == block.get("input"@));
            assert(longer.str_or_empty(key) == block.str_or_empty(key) + text);
            assert(longer.str_or_empty("text"@) =~= start.str_or_empty("text"@) + text_at(
                deltas + more,
                index,
            ));
            assert(longer.str_or_empty("thinking"@) =~= start.str_or_empty("thinking"@)
                + reasoning_at(deltas + more, index));
            assert(input_of(deltas + more, index) =~= input_of(deltas, index));
        } else {
            assert(text_at(deltas + more, index) =~= text_at(deltas, index));
            assert(reasoning_at(deltas + more, index) =~= reasoning_at(deltas, index));
            assert(input_of(deltas + more, index) =~= input_of(deltas, index));
        }
    } else {
        assert(text_at(deltas + more, index) =~= text_at(deltas, index));
        assert(reasoning_at(deltas + more, index) =~= reasoning_at(deltas, index));
        if kind == "input_json_delta"@ {
            let longer = state.partial_input(at) + delta.str_or_empty("partial_json"@);
            slot_put_get(state.partial, at, longer, index);
            slot_put_ascends(state.partial, at, longer);
            if at == index {
                assert(called(deltas + more, index));
                assert(slot_get(next.partial, index) == Some(longer));
                if endings(frames, index) == 0 {
                    assert(longer =~= input_of(deltas + more, index));
                }
            } else {
                assert(input_of(deltas + more, index) =~= input_of(deltas, index));
            }
        }
    }
}

/// A frame that is taken keeps what a state holds.
proof fn frame_keeps(
    state: MessagesView,
    frames: Seq<Seq<char>>,
    deltas: Seq<ModelDeltaView>,
    index: u64,
    next: MessagesView,
    more: Seq<ModelDeltaView>,
)
    requires
        frames.len() > 0,
        held(state, frames.drop_last(), deltas, index),
        slots_ascend(state.partial),
        AccumulatorView::Messages(state).pushed(frames.last()) == Some(
            (AccumulatorView::Messages(next), Ok::<Seq<ModelDeltaView>, ErrorView>(more)),
        ),
    ensures
        held(next, frames, deltas + more, index),
        slots_ascend(next.partial),
{
    broadcast use set_get;

    events_differ();
    fragments_differ();
    block_keys_differ();
    let data = frames.last();
    deltas_join(deltas, more, index);
    no_deltas(index);
    if data == "[DONE]"@ {
        assert(deltas + more =~= deltas);
    } else {
        let event = json_text(data)->Ok_0;
        let at: u64 = match event.get_u64("index"@) {
            Some(n) => n,
            None => 0,
        };
        if more.len() == 0 {
            assert(more =~= Seq::empty());
        } else {
            assert(more =~= seq![more[0]]);
            one_delta(more[0], index);
        }
        let kind = event.get_str("type"@);
        if kind == Some("content_block_start"@) {
            slot_put_get(state.blocks, at, event.field("content_block"@), index);
        } else if kind == Some("content_block_delta"@) {
            delta_keeps(state, frames, deltas, index, next, more, event);
        } else if kind == Some("content_block_stop"@) {
            slot_remove_get(state.partial, at, index);
            if let Some(text) = slot_get(state.partial, at) {
                let block = slot_get(state.blocks, at)->0;
                slot_put_get(state.blocks, at, block.set("input"@, json_text(text)->Ok_0), index);
            }
            assert(deltas + more =~= deltas);
        } else {
            assert(next.blocks == state.blocks);
            assert(next.partial == state.partial);
            assert(text_at(deltas + more, index) =~= text_at(deltas, index));
            assert(reasoning_at(deltas + more, index) =~= reasoning_at(deltas, index));
            assert(input_of(deltas + more, index) =~= input_of(deltas, index));
        }
    }
}

proof fn blocks_ascend(state: MessagesView, event: JsonView)
    requires
        slots_ascend(state.blocks),
    ensures
        state.pushed(event) matches Some((next, _)) ==> slots_ascend(next.blocks),
{
    let at: u64 = match event.get_u64("index"@) {
        Some(n) => n,
        None => 0,
    };
    let delta = event.field("delta"@);
    let block = slot_get(state.blocks, at)->0;
    slot_put_ascends(state.blocks, at, event.field("content_block"@));
    slot_put_ascends(state.blocks, at, appended(block, "text"@, delta.str_or_empty("text"@)));
    slot_put_ascends(
        state.blocks,
        at,
        appended(block, "thinking"@, delta.str_or_empty("thinking"@)),
    );
    slot_put_ascends(
        state.blocks,
        at,
        appended(block, "signature"@, delta.str_or_empty("signature"@)),
    );
    if let Some(text) = slot_get(state.partial, at) {
        slot_put_ascends(state.blocks, at, block.set("input"@, json_text(text)->Ok_0));
    }
}

proof fn run_keeps(frames: Seq<Seq<char>>, index: u64)
    ensures
        streamed(AccumulatorView::initial(Protocol::Messages), frames) matches Some((state, deltas))
            ==> state is Messages && held(state->Messages_0, frames, deltas, index)
            && slots_ascend(state->Messages_0.partial) && slots_ascend(state->Messages_0.blocks),
    decreases frames.len(),
{
    let start = AccumulatorView::initial(Protocol::Messages);
    if frames.len() == 0 {
        no_deltas(index);
    } else if let Some((state, deltas)) = streamed(start, frames) {
        run_keeps(frames.drop_last(), index);
        let (before, first) = streamed(start, frames.drop_last())->0;
        let (_, result) = before.pushed(frames.last())->0;
        let more = result->Ok_0;
        assert(deltas == first + more);
        frame_keeps(
            before->Messages_0,
            frames,
            first,
            index,
            state->Messages_0,
            more,
        );
        if frames.last() != "[DONE]"@ {
            blocks_ascend(before->Messages_0, json_text(frames.last())->Ok_0);
        }
    }
}

/// Whether blocks are those that began at indexes, in ascending order, each with all that was
/// handed out for it.
pub open spec fn blocks_stand(
    blocks: Seq<JsonView>,
    indexes: Seq<u64>,
    frames: Seq<Seq<char>>,
    deltas: Seq<ModelDeltaView>,
) -> bool {
    &&& blocks.len() == indexes.len()
    &&& forall|i: int, j: int|
        0 <= i < j < indexes.len() ==> #[trigger] indexes[i] < #[trigger] indexes[j]
    &&& forall|index: u64| #[trigger]
        opening(frames, index) is Some <==> indexes.contains(index)
    &&& forall|i: int|
        0 <= i < blocks.len() ==> grown(
            #[trigger] blocks[i],
            opening(frames, indexes[i])->0,
            deltas,
            indexes[i],
        )
    &&& forall|i: int|
        0 <= i < blocks.len() && endings(frames, indexes[i]) == 1 ==> filled(
            #[trigger] blocks[i],
            opening(frames, indexes[i])->0,
            deltas,
            indexes[i],
        )
}

/// The blocks of a Messages response are what its deltas said. After any run of frames that
/// were taken, there is one block for each index that began, in ascending order. The text of a
/// block is what it began with and the text of all text deltas at its index, its thinking what
/// it began with and the text of all reasoning deltas there. The input of a block that ended
/// once is what the input of its deltas reads as.
pub proof fn blocks_hold_the_deltas(
    frames: Seq<Seq<char>>,
    state: AccumulatorView,
    deltas: Seq<ModelDeltaView>,
    response: JsonView,
)
    requires
        streamed(AccumulatorView::initial(Protocol::Messages), frames) == Some((state, deltas)),
        state.finished() == Some(Ok::<JsonView, ErrorView>(response)),
    ensures
        response.get_array("content"@) matches Some(blocks) && exists|indexes: Seq<u64>| #[trigger]
            blocks_stand(blocks, indexes, frames, deltas),
{
    broadcast use set_get;

    run_keeps(frames, 0);
    let messages = state->Messages_0;
    let slots = messages.blocks;
    let blocks = slot_values(slots);
    let indexes = slots.map_values(|s: (u64, JsonView)| s.0);
    assert(response.get_array("content"@) == Some(blocks));
    assert forall|i: int, j: int| 0 <= i < j < indexes.len() implies #[trigger] indexes[i]
        < #[trigger] indexes[j] by {
        assert(slots[i].0 < slots[j].0);
    }
    assert forall|index: u64| #[trigger]
        opening(frames, index) is Some <==> indexes.contains(index) by {
        run_keeps(frames, index);
        if opening(frames, index) is Some {
            let i = stands_somewhere(slots, index);
            assert(indexes[i] == index);
        }
        if indexes.contains(index) {
            let i = choose|i: int| 0 <= i < indexes.len() && indexes[i] == index;
            found(slots, i);
        }
    }
    assert forall|i: int| 0 <= i < blocks.len() implies grown(
        #[trigger] blocks[i],
        opening(frames, indexes[i])->0,
        deltas,
        indexes[i],
    ) by {
        run_keeps(frames, indexes[i]);
        found(slots, i);
    }
    assert forall|i: int|
        0 <= i < blocks.len() && endings(frames, indexes[i]) == 1 implies filled(
        #[trigger] blocks[i],
        opening(frames, indexes[i])->0,
        deltas,
        indexes[i],
    ) by {
        run_keeps(frames, indexes[i]);
        found(slots, i);
        assert(slot_get(messages.partial, indexes[i]) is None);
    }
    assert(blocks_stand(response.get_array("content"@)->0, indexes, frames, deltas));
}

// ---------------------------------------------------------------------------------------
// The message around the blocks
// ---------------------------------------------------------------------------------------
/// A message begins as it was announced, and what its end says of it takes the place of what
/// was said before; what is not said again stays. The response is that message with the blocks
/// as its content.
pub proof fn what_is_said_of_a_message_stands(
    state: MessagesView,
    event: JsonView,
    next: MessagesView,
    deltas: Seq<ModelDeltaView>,
    key: Seq<char>,
    k: int,
)
    requires
        state.pushed(event) == Some((next, Ok::<Seq<ModelDeltaView>, ErrorView>(deltas))),
        state.value.assignable(),
    ensures
        event.get_str("type"@) == Some("message_start"@) ==> event.get("message"@) == Some(
            next.value,
        ),
        event.get_str("type"@) == Some("message_delta"@) && key != "usage"@ ==> (
        event.get_object("delta"@) matches Some(fields) ==> {
            &&& stands_once(fields, key, k) ==> next.value.get(key) == Some(fields[k].1)
            &&& stands_nowhere(fields, key) ==> next.value.get(key) == state.value.get(key)
        }),
        event.get_str("type"@) == Some("message_delta"@) && !event.field("delta"@).has("usage"@) ==> (
        event.get_object("usage"@) matches Some(fields) ==> {
            let before = state.value.field("usage"@);
            let after = next.value.field("usage"@);
            &&& stands_once(fields, key, k) ==> after.get(key) == Some(fields[k].1)
            &&& stands_nowhere(fields, key) ==> after.get(key) == before.get(key)
        }),
        next.finished() matches Some(Ok(response)) ==> key != "content"@ ==> response.get(key)
            == next.value.get(key),
{
    broadcast use set_get;

    events_differ();
    let first = match event.get_object("delta"@) {
        Some(fields) => fields,
        None => Seq::empty(),
    };
    assigned_fields_stand(state.value, first, key, k);
    if !event.field("delta"@).has("usage"@) {
        if let Some(fields) = event.get_object("delta"@) {
            assert forall|i: int| 0 <= i < fields.len() implies (#[trigger] fields[i]).0
                != "usage"@ by {
                no_field(fields, "usage"@, i);
            }
        }
        assigned_fields_stand(state.value, first, "usage"@, 0);
        assert(stands_nowhere(first, "usage"@));
    }
    if let Some(fields) = event.get_object("usage"@) {
        let value = overlaid(state.value, first);
        if value.field("usage"@).assignable() {
            assigned_fields_stand(value.field("usage"@), fields, key, k);
        }
    }
}

} // verus!
