//! What becomes of the fragments of a stream: each is handed out as what it is, and what was
//! handed out is what the assembled response holds.
use crate::codec::adapter::usage_of;
use crate::error::ErrorView;
use crate::json::{json_text, set_get, JsonView};
use crate::model::{ModelDeltaView, Protocol};
use crate::slots::{slot_get, slot_put_get};
use crate::streaming::accumulator::AccumulatorView;
use crate::streaming::chat::{
    extended_choice, or_empty, path_str, text_deltas, usage_deltas, with_calls, with_fragment,
    with_texts, CallPartsView, ChatView,
};
use crate::streaming::fields::{
    copied_fields_stand, fields_of, stands_nowhere, stands_once,
};
use crate::streaming::frame::{frame_delta, frame_payload};
use crate::streaming::laws::{
    carries_fragments, copied_is_object, extended_leaves, keys_differ, message_of, no_texts, spoken,
    spoken_joins, streamed,
};
use crate::streaming::responses::event_deltas;
use crate::transport::sse::SseEventView;
use vstd::prelude::*;

verus! {

proof fn kinds_differ()
    ensures
        "response.completed"@ != "response.incomplete"@,
        "response.completed"@ != "response.failed"@,
        "response.completed"@ != "response.output_text.delta"@,
        "response.completed"@ != "response.reasoning_text.delta"@,
        "response.completed"@ != "response.reasoning_summary_text.delta"@,
        "response.completed"@ != "response.function_call_arguments.delta"@,
        "response.completed"@ != "response.custom_tool_call_input.delta"@,
        "response.incomplete"@ != "response.failed"@,
        "response.incomplete"@ != "response.output_text.delta"@,
        "response.incomplete"@ != "response.reasoning_text.delta"@,
        "response.incomplete"@ != "response.reasoning_summary_text.delta"@,
        "response.incomplete"@ != "response.function_call_arguments.delta"@,
        "response.incomplete"@ != "response.custom_tool_call_input.delta"@,
        "response.failed"@ != "response.output_text.delta"@,
        "response.failed"@ != "response.reasoning_text.delta"@,
        "response.failed"@ != "response.reasoning_summary_text.delta"@,
        "response.failed"@ != "response.function_call_arguments.delta"@,
        "response.failed"@ != "response.custom_tool_call_input.delta"@,
        "response.output_text.delta"@ != "response.reasoning_text.delta"@,
        "response.output_text.delta"@ != "response.reasoning_summary_text.delta"@,
        "response.output_text.delta"@ != "response.function_call_arguments.delta"@,
        "response.output_text.delta"@ != "response.custom_tool_call_input.delta"@,
        "response.reasoning_text.delta"@ != "response.reasoning_summary_text.delta"@,
        "response.reasoning_text.delta"@ != "response.function_call_arguments.delta"@,
        "response.reasoning_text.delta"@ != "response.custom_tool_call_input.delta"@,
        "response.reasoning_summary_text.delta"@ != "response.function_call_arguments.delta"@,
        "response.reasoning_summary_text.delta"@ != "response.custom_tool_call_input.delta"@,
        "response.function_call_arguments.delta"@ != "response.custom_tool_call_input.delta"@,
{
    reveal_strlit("response.completed");
    reveal_strlit("response.incomplete");
    reveal_strlit("response.failed");
    reveal_strlit("response.output_text.delta");
    reveal_strlit("response.reasoning_text.delta");
    reveal_strlit("response.reasoning_summary_text.delta");
    reveal_strlit("response.function_call_arguments.delta");
    reveal_strlit("response.custom_tool_call_input.delta");
    assert("response.completed"@.len() == 18);
    assert("response.incomplete"@.len() == 19);
    assert("response.failed"@.len() == 15);
    assert("response.output_text.delta"@.len() == 26);
    assert("response.reasoning_text.delta"@.len() == 29);
    assert("response.reasoning_summary_text.delta"@.len() == 37);
    assert("response.function_call_arguments.delta"@.len() == 38);
    assert("response.custom_tool_call_input.delta"@.len() == 37);
    assert("response.reasoning_summary_text.delta"@[9] != "response.custom_tool_call_input.delta"@[9]);
}

// ---------------------------------------------------------------------------------------
// Responses
// ---------------------------------------------------------------------------------------
/// A fragment of a Responses stream is handed out as what it is, at its index: text as text,
/// reasoning and its summary as reasoning, arguments and freeform input as input of the call
/// that the item is.
pub proof fn response_fragments_are_handed_out(event: JsonView, index: u64, text: Seq<char>)
    requires
        event.get_u64("output_index"@) == Some(index),
        event.get_str("delta"@) == Some(text),
    ensures
        event.get_str("type"@) == Some("response.output_text.delta"@) ==> event_deltas(event)
            == Ok::<Seq<ModelDeltaView>, ErrorView>(
            seq![ModelDeltaView::Text { output_index: index, text }],
        ),
        event.get_str("type"@) == Some("response.reasoning_text.delta"@) || event.get_str("type"@)
            == Some("response.reasoning_summary_text.delta"@) ==> event_deltas(event) == Ok::<
            Seq<ModelDeltaView>,
            ErrorView,
        >(seq![ModelDeltaView::Reasoning { output_index: index, text }]),
        event.get_str("type"@) == Some("response.function_call_arguments.delta"@) || event.get_str(
            "type"@,
        ) == Some("response.custom_tool_call_input.delta"@) ==> event_deltas(event) == Ok::<
            Seq<ModelDeltaView>,
            ErrorView,
        >(
            seq![
                ModelDeltaView::RuntimeTool {
                    output_index: index,
                    id: event.get_str("item_id"@),
                    name: None,
                    input: text,
                },
            ],
        ),
{
    kinds_differ();
}

/// The response that ends a Responses stream is the one that was assembled, and its counts
/// are handed out. A failed response is an error, and any other event hands out nothing.
pub proof fn the_last_response_counts(completed: Option<JsonView>, event: JsonView)
    ensures
        ({
            let state = AccumulatorView::Responses(completed);
            let kind = event.get_str("type"@);
            let ended = kind == Some("response.completed"@) || kind == Some(
                "response.incomplete"@,
            );
            &&& ended && event.present("error"@) is None ==> match event.get("response"@) {
                Some(response) => state.accepted(event) matches Some((next, Ok(deltas))) && {
                    &&& next.finished() == Some(Ok::<JsonView, ErrorView>(response))
                    &&& deltas == seq![
                        ModelDeltaView::Usage(
                            usage_of(Protocol::Responses, response.field("usage"@)),
                        ),
                    ]
                },
                None => (state.accepted(event) matches Some((_, Err(_)))),
            }
            &&& kind == Some("response.failed"@) ==> (state.accepted(event) matches Some(
                (_, Err(_)),
            ))
            &&& !ended ==> (state.accepted(event) matches Some((next, _)) && next == state)
        }),
{
    kinds_differ();
    reveal_strlit("error");
    assert("error"@.len() == 5);
    reveal_strlit("response.completed");
    reveal_strlit("response.incomplete");
    reveal_strlit("response.failed");
    assert("response.completed"@.len() == 18);
    assert("response.incomplete"@.len() == 19);
    assert("response.failed"@.len() == 15);
}

// ---------------------------------------------------------------------------------------
// Chat
// ---------------------------------------------------------------------------------------
/// The text of all reasoning deltas, one behind the other.
pub open spec fn reasoned(deltas: Seq<ModelDeltaView>) -> Seq<char>
    decreases deltas.len(),
{
    if deltas.len() == 0 {
        Seq::empty()
    } else {
        match deltas.last() {
            ModelDeltaView::Reasoning { text, .. } => reasoned(deltas.drop_last()) + text,
            _ => reasoned(deltas.drop_last()),
        }
    }
}

/// The names in all deltas of the call at an index, one behind the other.
pub open spec fn name_of(deltas: Seq<ModelDeltaView>, index: u64) -> Seq<char>
    decreases deltas.len(),
{
    if deltas.len() == 0 {
        Seq::empty()
    } else {
        match deltas.last() {
            ModelDeltaView::RuntimeTool { output_index, name: Some(name), .. } => if output_index
                == index {
                name_of(deltas.drop_last(), index) + name
            } else {
                name_of(deltas.drop_last(), index)
            },
            _ => name_of(deltas.drop_last(), index),
        }
    }
}

proof fn reasoned_joins(first: Seq<ModelDeltaView>, second: Seq<ModelDeltaView>)
    ensures
        reasoned(first + second) == reasoned(first) + reasoned(second),
    decreases second.len(),
{
    if second.len() == 0 {
        assert(first + second =~= first);
        assert(reasoned(first) + reasoned(second) =~= reasoned(first));
    } else {
        assert((first + second).drop_last() =~= first + second.drop_last());
        reasoned_joins(first, second.drop_last());
        assert(reasoned(first + second) =~= reasoned(first) + reasoned(second));
    }
}

proof fn name_joins(first: Seq<ModelDeltaView>, second: Seq<ModelDeltaView>, index: u64)
    ensures
        name_of(first + second, index) == name_of(first, index) + name_of(second, index),
    decreases second.len(),
{
    if second.len() == 0 {
        assert(first + second =~= first);
        assert(name_of(first, index) + name_of(second, index) =~= name_of(first, index));
    } else {
        assert((first + second).drop_last() =~= first + second.drop_last());
        name_joins(first, second.drop_last(), index);
        assert(name_of(first + second, index) =~= name_of(first, index) + name_of(second, index));
    }
}

proof fn no_reasoning(deltas: Seq<ModelDeltaView>)
    requires
        forall|i: int| 0 <= i < deltas.len() ==> !((#[trigger] deltas[i]) is Reasoning),
    ensures
        reasoned(deltas) == Seq::<char>::empty(),
    decreases deltas.len(),
{
    if deltas.len() > 0 {
        let rest = deltas.drop_last();
        assert forall|i: int| 0 <= i < rest.len() implies !((#[trigger] rest[i])
            is Reasoning) by {
            assert(rest[i] == deltas[i]);
        }
        no_reasoning(rest);
        assert(!(deltas[deltas.len() - 1] is Reasoning));
    }
}

proof fn no_names(deltas: Seq<ModelDeltaView>, index: u64)
    requires
        forall|i: int| 0 <= i < deltas.len() ==> !((#[trigger] deltas[i]) is RuntimeTool),
    ensures
        name_of(deltas, index) == Seq::<char>::empty(),
    decreases deltas.len(),
{
    if deltas.len() > 0 {
        let rest = deltas.drop_last();
        assert forall|i: int| 0 <= i < rest.len() implies !((#[trigger] rest[i])
            is RuntimeTool) by {
            assert(rest[i] == deltas[i]);
        }
        no_names(rest, index);
        assert(!(deltas[deltas.len() - 1] is RuntimeTool));
    }
}

proof fn texts_of_a_fragment(delta: JsonView)
    ensures
        spoken(text_deltas(delta)) == or_empty(delta.get_str("content"@)),
        reasoned(text_deltas(delta)) == or_empty(delta.get_str("reasoning_content"@)),
        forall|i: int|
            0 <= i < text_deltas(delta).len() ==> (#[trigger] text_deltas(delta)[i]) is Text
                || text_deltas(delta)[i] is Reasoning,
{
    reveal_with_fuel(spoken, 3);
    reveal_with_fuel(reasoned, 3);
    let deltas = text_deltas(delta);
    let none = Seq::<char>::empty();
    if let Some(text) = delta.get_str("content"@) {
        assert(none + text =~= text);
    }
    if let Some(text) = delta.get_str("reasoning_content"@) {
        assert(none + text =~= text);
        assert(deltas.drop_last() =~= match delta.get_str("content"@) {
            Some(text) => seq![ModelDeltaView::Text { output_index: 0, text }],
            None => Seq::empty(),
        });
    }
    if delta.get_str("content"@) is Some {
        let first = seq![
            ModelDeltaView::Text { output_index: 0, text: delta.get_str("content"@)->0 },
        ];
        assert(first.drop_last() =~= Seq::empty());
    }
}

/// The deltas of the fragments of calls.
proof fn calls_of_a_fragment(calls: Seq<(u64, CallPartsView)>, fragments: Seq<JsonView>)
    ensures
        with_calls(calls, fragments) matches Some(pushed) ==> (pushed.result matches Ok(deltas) ==> {
            &&& deltas.len() == fragments.len()
            &&& forall|i: int|
                0 <= i < fragments.len() ==> (fragments[i].get_u64("index"@) matches Some(index)
                    && index < u64::MAX && #[trigger] deltas[i] == (ModelDeltaView::RuntimeTool {
                    output_index: (index + 1) as u64,
                    id: fragments[i].get_str("id"@),
                    name: path_str(fragments[i], "/function/name"@),
                    input: or_empty(path_str(fragments[i], "/function/arguments"@)),
                }))
        }),
    decreases fragments.len(),
{
    if fragments.len() > 0 {
        calls_of_a_fragment(calls, fragments.drop_last());
    }
}

/// Whether deltas are those of the fragments of calls, one by one.
pub open spec fn deltas_of_calls(deltas: Seq<ModelDeltaView>, fragments: Seq<JsonView>) -> bool {
    &&& deltas.len() == fragments.len()
    &&& forall|i: int|
        0 <= i < fragments.len() ==> ((#[trigger] deltas[i])
            matches ModelDeltaView::RuntimeTool { output_index, id, name, input }
            && fragments[i].get_u64("index"@) == Some((output_index - 1) as u64) && output_index > 0
            && id == fragments[i].get_str("id"@) && name == path_str(
            fragments[i],
            "/function/name"@,
        ) && input == or_empty(path_str(fragments[i], "/function/arguments"@)))
}

/// What an event of a Chat stream carries is handed out as what it is: its counts first, its
/// content as text, its reasoning as reasoning, and each fragment of a call as input of that
/// call, which is counted from one on.
pub proof fn chat_fragments_are_handed_out(
    state: ChatView,
    event: JsonView,
    next: ChatView,
    deltas: Seq<ModelDeltaView>,
)
    requires
        state.pushed(event) == Some((next, Ok::<Seq<ModelDeltaView>, ErrorView>(deltas))),
    ensures
        event.present("usage"@) matches Some(usage) ==> deltas.len() > 0 && deltas[0]
            == ModelDeltaView::Usage(usage_of(Protocol::Chat, usage)),
        event.pointer("/choices/0"@) matches Some(choice) ==> ({
            let delta = choice.field("delta"@);
            let fragments = match delta.get_array("tool_calls"@) {
                Some(fragments) => fragments,
                None => Seq::empty(),
            };
            &&& spoken(deltas) == or_empty(delta.get_str("content"@))
            &&& reasoned(deltas) == or_empty(delta.get_str("reasoning_content"@))
            &&& deltas.len() >= fragments.len()
            &&& deltas_of_calls(deltas.skip(deltas.len() - fragments.len()), fragments)
        }),
{
    let counted = usage_deltas(event);
    let none = Seq::<char>::empty();
    no_reasoning(counted);
    assert(spoken(counted) =~= none) by {
        reveal_with_fuel(spoken, 2);
    }
    match event.pointer("/choices/0"@) {
        None => {},
        Some(choice) => match choice.get("delta"@) {
            None => {
                assert(deltas.skip(deltas.len() as int) =~= Seq::empty());
            },
            Some(delta) => {
                let texts = text_deltas(delta);
                texts_of_a_fragment(delta);
                spoken_joins(counted, texts);
                reasoned_joins(counted, texts);
                assert(none + spoken(texts) =~= spoken(texts));
                assert(none + reasoned(texts) =~= reasoned(texts));
                match delta.get_array("tool_calls"@) {
                    None => {
                        assert(deltas.skip(deltas.len() as int) =~= Seq::empty());
                    },
                    Some(fragments) => {
                        calls_of_a_fragment(state.calls, fragments);
                        let more = with_calls(state.calls, fragments)->0.result->Ok_0;
                        assert forall|i: int| 0 <= i < more.len() implies (#[trigger] more[i])
                            is RuntimeTool by {
                            assert(fragments[i].get_u64("index"@) is Some);
                        }
                        no_reasoning(more);
                        no_texts(more);
                        spoken_joins(counted + texts, more);
                        reasoned_joins(counted + texts, more);
                        assert(spoken(texts) + none =~= spoken(texts));
                        assert(reasoned(texts) + none =~= reasoned(texts));
                        assert(deltas.skip(deltas.len() - fragments.len()) =~= more);
                        assert forall|i: int| 0 <= i < fragments.len() implies ((
                        #[trigger] more[i])
                            matches ModelDeltaView::RuntimeTool { output_index, id, name, input }
                            && fragments[i].get_u64("index"@) == Some((output_index - 1) as u64)
                            && output_index > 0 && id == fragments[i].get_str("id"@) && name
                            == path_str(fragments[i], "/function/name"@) && input == or_empty(
                            path_str(fragments[i], "/function/arguments"@),
                        )) by {
                            assert(fragments[i].get_u64("index"@) is Some);
                        }
                    },
                }
            },
        },
    }
}

/// Fragments of a call add up: to its name and to its arguments. The identity that came last
/// is that of the call.
pub proof fn fragments_of_a_call_add_up(parts: CallPartsView, fragment: JsonView)
    ensures
        ({
            let before = parts.json();
            let after = with_fragment(parts, fragment).json();
            &&& after.get_str("type"@) == Some("function"@)
            &&& after.field("function"@).get_str("name"@) == Some(
                before.field("function"@).str_or_empty("name"@) + or_empty(
                    path_str(fragment, "/function/name"@),
                ),
            )
            &&& after.field("function"@).get_str("arguments"@) == Some(
                before.field("function"@).str_or_empty("arguments"@) + or_empty(
                    path_str(fragment, "/function/arguments"@),
                ),
            )
            &&& after.get("id"@) == (match fragment.get("id"@) {
                Some(id) => Some(id),
                None => before.get("id"@),
            })
        }),
{
    broadcast use set_get;

    reveal_strlit("type");
    reveal_strlit("function");
    reveal_strlit("id");
    reveal_strlit("name");
    reveal_strlit("arguments");
    assert("type"@.len() == 4 && "function"@.len() == 8 && "id"@.len() == 2);
    assert("name"@.len() == 4 && "arguments"@.len() == 9);
}

/// Whether a state holds the reasoning and the names of the deltas.
spec fn holds_thoughts(state: ChatView, deltas: Seq<ModelDeltaView>, k: u64) -> bool {
    let message = state.choice.field("message"@);
    &&& state.fields is Object
    &&& state.choice is Object
    &&& message is Object
    &&& message.str_or_empty("reasoning_content"@) == reasoned(deltas)
    &&& reasoned(deltas).len() > 0 ==> message.get_str("reasoning_content"@) is Some
    &&& k < u64::MAX ==> match slot_get(state.calls, k) {
        Some(parts) => parts.name == name_of(deltas, (k + 1) as u64),
        None => name_of(deltas, (k + 1) as u64) == Seq::<char>::empty(),
    }
}

proof fn calls_keep_names(
    calls: Seq<(u64, CallPartsView)>,
    fragments: Seq<JsonView>,
    deltas: Seq<ModelDeltaView>,
    k: u64,
)
    requires
        k < u64::MAX,
        match slot_get(calls, k) {
            Some(parts) => parts.name == name_of(deltas, (k + 1) as u64),
            None => name_of(deltas, (k + 1) as u64) == Seq::<char>::empty(),
        },
    ensures
        with_calls(calls, fragments) matches Some(pushed) ==> (pushed.result matches Ok(more) ==> (
        match slot_get(pushed.calls, k) {
            Some(parts) => parts.name == name_of(deltas + more, (k + 1) as u64),
            None => name_of(deltas + more, (k + 1) as u64) == Seq::<char>::empty(),
        })),
    decreases fragments.len(),
{
    let at: u64 = (k + 1) as u64;
    if fragments.len() == 0 {
        assert(deltas + Seq::<ModelDeltaView>::empty() =~= deltas);
    } else {
        calls_keep_names(calls, fragments.drop_last(), deltas, k);
        if let Some(pushed) = with_calls(calls, fragments) {
            if let Ok(more) = pushed.result {
                let before = with_calls(calls, fragments.drop_last())->0;
                let first = before.result->Ok_0;
                let fragment = fragments.last();
                let index: u64 = fragment.get_u64("index"@)->0;
                let parts = match slot_get(before.calls, index) {
                    Some(parts) => parts,
                    None => CallPartsView::empty(),
                };
                slot_put_get(before.calls, index, with_fragment(parts, fragment), k);
                assert((deltas + more).drop_last() =~= deltas + first);
                assert((deltas + more).last() == more.last());
                let named = or_empty(path_str(fragment, "/function/name"@));
                assert(name_of(deltas + first, at) + Seq::<char>::empty() =~= name_of(
                    deltas + first,
                    at,
                ));
                assert(Seq::<char>::empty() + named =~= named);
            }
        }
    }
}

proof fn event_keeps_thoughts(
    state: ChatView,
    event: JsonView,
    deltas: Seq<ModelDeltaView>,
    k: u64,
    next: ChatView,
    more: Seq<ModelDeltaView>,
)
    requires
        holds_thoughts(state, deltas, k),
        event.pointer("/choices/0"@) matches Some(fragment) ==> fragment.get("message"@) is None,
        state.pushed(event) == Some((next, Ok::<Seq<ModelDeltaView>, ErrorView>(more))),
    ensures
        holds_thoughts(next, deltas + more, k),
{
    broadcast use set_get;

    keys_differ();
    let counted = usage_deltas(event);
    let none = Seq::<char>::empty();
    let at: u64 = (k + 1) as u64;
    copied_is_object(state.fields, fields_of(event), "choices"@, "choices"@);
    no_reasoning(counted);
    no_names(counted, at);
    reasoned_joins(deltas, counted);
    name_joins(deltas, counted, at);
    assert(reasoned(deltas) + none =~= reasoned(deltas));
    assert(name_of(deltas, at) + none =~= name_of(deltas, at));
    match event.pointer("/choices/0"@) {
        None => {},
        Some(fragment) => {
            extended_leaves(state.choice, fragment);
            let choice = extended_choice(state.choice, fragment);
            match fragment.get("delta"@) {
                None => {},
                Some(delta) => {
                    let texts = text_deltas(delta);
                    let first = counted + texts;
                    texts_of_a_fragment(delta);
                    reasoned_joins(counted, texts);
                    reasoned_joins(deltas, first);
                    assert(none + reasoned(texts) =~= reasoned(texts));
                    assert forall|i: int| 0 <= i < first.len() implies !((#[trigger] first[i])
                        is RuntimeTool) by {
                        if i < counted.len() {
                            assert(first[i] == counted[i]);
                        } else {
                            assert(first[i] == texts[i - counted.len()]);
                        }
                    }
                    no_names(first, at);
                    name_joins(deltas, first, at);
                    let after = with_texts(choice, delta);
                    assert(after is Object && after.field("message"@) is Object);
                    assert(after.field("message"@).str_or_empty("reasoning_content"@)
                        =~= reasoned(deltas) + or_empty(delta.get_str("reasoning_content"@)));
                    match delta.get_array("tool_calls"@) {
                        None => {},
                        Some(fragments) => {
                            let calls = with_calls(state.calls, fragments)->0;
                            let made = calls.result->Ok_0;
                            calls_of_a_fragment(state.calls, fragments);
                            assert forall|i: int| 0 <= i < made.len() implies !((
                            #[trigger] made[i]) is Reasoning) by {
                                assert(fragments[i].get_u64("index"@) is Some);
                            }
                            no_reasoning(made);
                            assert((deltas + first) + made =~= deltas + more);
                            reasoned_joins(deltas + first, made);
                            assert(reasoned(deltas + first) + none =~= reasoned(deltas + first));
                            if k < u64::MAX {
                                calls_keep_names(state.calls, fragments, deltas + first, k);
                            }
                        },
                    }
                },
            }
        },
    }
}

proof fn nothing_thought(k: u64)
    ensures
        holds_thoughts(ChatView::initial(), Seq::empty(), k),
{
    broadcast use set_get;

    keys_differ();
    reveal_strlit("role");
    reveal_strlit("reasoning_content");
    assert("role"@.len() == 4);
    assert("reasoning_content"@.len() == 17);
    let message = JsonView::empty().set("role"@, JsonView::text("assistant"@)).set(
        "content"@,
        JsonView::text(""@),
    );
    assert(ChatView::initial().choice.get("message"@) == Some(message));
    assert(JsonView::empty().get("reasoning_content"@) is None);
    assert(message.get("reasoning_content"@) is None);
}

proof fn frames_keep_thoughts(frames: Seq<Seq<char>>, k: u64)
    requires
        forall|i: int| 0 <= i < frames.len() ==> carries_fragments(#[trigger] frames[i]),
    ensures
        streamed(AccumulatorView::initial(Protocol::Chat), frames) matches Some((state, deltas))
            ==> (state matches AccumulatorView::Chat(after) && holds_thoughts(after, deltas, k)),
    decreases frames.len(),
{
    if frames.len() == 0 {
        nothing_thought(k);
    } else {
        let rest = frames.drop_last();
        assert forall|i: int| 0 <= i < rest.len() implies carries_fragments(
            #[trigger] rest[i],
        ) by {
            assert(rest[i] == frames[i]);
        }
        frames_keep_thoughts(rest, k);
        assert(carries_fragments(frames[frames.len() - 1]));
        let data = frames.last();
        match streamed(AccumulatorView::initial(Protocol::Chat), rest) {
            Some((AccumulatorView::Chat(state), deltas)) => {
                if data == "[DONE]"@ {
                    assert(deltas + Seq::<ModelDeltaView>::empty() =~= deltas);
                } else if let Some((AccumulatorView::Chat(next), Ok(more))) =
                    AccumulatorView::Chat(state).pushed(data) {
                    event_keeps_thoughts(state, json_text(data)->Ok_0, deltas, k, next, more);
                }
            },
            _ => {},
        }
    }
}

/// The message of a Chat response holds the reasoning of its deltas, one behind the other,
/// after any run of frames that were taken, of which none carried a whole message.
pub proof fn chat_message_holds_the_reasoning(
    frames: Seq<Seq<char>>,
    state: AccumulatorView,
    deltas: Seq<ModelDeltaView>,
    response: JsonView,
)
    requires
        streamed(AccumulatorView::initial(Protocol::Chat), frames) == Some((state, deltas)),
        state.finished() == Some(Ok::<JsonView, ErrorView>(response)),
        forall|i: int| 0 <= i < frames.len() ==> carries_fragments(#[trigger] frames[i]),
    ensures
        message_of(response) matches Some(message) && message.str_or_empty("reasoning_content"@)
            == reasoned(deltas),
{
    broadcast use set_get;

    keys_differ();
    frames_keep_thoughts(frames, 0);
    let chat = state->Chat_0;
    assert(response.get_array("choices"@) == Some(seq![chat.finished_choice()]));
}

/// A call of a Chat response is named as its deltas name it, one behind the other.
pub proof fn chat_calls_hold_the_names(
    frames: Seq<Seq<char>>,
    state: ChatView,
    deltas: Seq<ModelDeltaView>,
    index: u64,
    parts: CallPartsView,
)
    requires
        streamed(AccumulatorView::initial(Protocol::Chat), frames) == Some(
            (AccumulatorView::Chat(state), deltas),
        ),
        forall|i: int| 0 <= i < frames.len() ==> carries_fragments(#[trigger] frames[i]),
        slot_get(state.calls, index) == Some(parts),
        index < u64::MAX,
    ensures
        parts.json().field("function"@).get_str("name"@) == Some(
            name_of(deltas, (index + 1) as u64),
        ),
{
    broadcast use set_get;

    frames_keep_thoughts(frames, index);
    fragments_of_a_call_add_up(parts, JsonView::Null);
    reveal_strlit("type");
    reveal_strlit("function");
    reveal_strlit("id");
    reveal_strlit("name");
    reveal_strlit("arguments");
    assert("type"@.len() == 4 && "function"@.len() == 8 && "id"@.len() == 2);
    assert("name"@.len() == 4 && "arguments"@.len() == 9);
}

// ---------------------------------------------------------------------------------------
// Frames
// ---------------------------------------------------------------------------------------
/// A frame is handed out with all that it came with: its name, its identity, its wish when to
/// try again, and its data, read as JSON where it is JSON.
pub proof fn a_frame_is_handed_out_whole(event: SseEventView)
    ensures
        frame_delta(event, frame_payload(event.data)) matches ModelDeltaView::ProtocolEvent {
            output_index,
            data,
        } && {
            let payload = data.field("data"@);
            &&& data.get_str("event"@) == event.event
            &&& data.get_str("id"@) == event.id
            &&& data.get_u64("retry"@) == event.retry
            &&& data.has("data"@)
            &&& match json_text(event.data) {
                Ok(value) => payload == value,
                Err(_) => payload.as_str() == Some(event.data),
            }
            &&& payload.get_u64("output_index"@) matches Some(n) ==> output_index == n
            &&& !payload.has("output_index"@) ==> (payload.get_u64("index"@) matches Some(n)
                ==> output_index == n)
        },
{
    broadcast use set_get;

    reveal_strlit("event");
    reveal_strlit("id");
    reveal_strlit("retry");
    reveal_strlit("data");
    assert("event"@.len() == 5 && "id"@.len() == 2 && "data"@.len() == 4);
    assert("event"@[0] != "retry"@[0]);
    assert("retry"@.len() == 5);
}

/// What an event says of a Chat response stands in it, and so does the reason why its choice
/// ended. What comes back as null is not said, and the choices are put together on their own.
pub proof fn what_is_said_of_a_chat_stands(
    state: ChatView,
    event: JsonView,
    next: ChatView,
    deltas: Seq<ModelDeltaView>,
    key: Seq<char>,
    k: int,
)
    requires
        state.wf(),
        state.pushed(event) == Some((next, Ok::<Seq<ModelDeltaView>, ErrorView>(deltas))),
        key != "choices"@,
    ensures
        stands_once(fields_of(event), key, k) && !(fields_of(event)[k].1 is Null)
            ==> next.fields.get(key) == Some(fields_of(event)[k].1),
        stands_nowhere(fields_of(event), key) ==> next.fields.get(key) == state.fields.get(key),
        event.pointer("/choices/0"@) matches Some(choice) ==> {
            let said = fields_of(choice);
            &&& stands_once(said, "finish_reason"@, k) && !(said[k].1 is Null)
                ==> next.choice.get("finish_reason"@) == Some(said[k].1)
            &&& stands_nowhere(said, "finish_reason"@) ==> next.choice.get("finish_reason"@)
                == state.choice.get("finish_reason"@)
        },
        next.finished() matches Some(Ok(response)) ==> response.get(key) == next.fields.get(key)
            && (response.get_array("choices"@) matches Some(choices) && choices.len() == 1
            && choices[0].get("finish_reason"@) == next.choice.get("finish_reason"@)),
{
    broadcast use set_get;

    keys_differ();
    reasons_differ();
    copied_fields_stand(state.fields, fields_of(event), "choices"@, "choices"@, key, k);
    if let Some(choice) = event.pointer("/choices/0"@) {
        copied_fields_stand(
            state.choice,
            fields_of(choice),
            "delta"@,
            "logprobs"@,
            "finish_reason"@,
            k,
        );
        let extended = extended_choice(state.choice, choice);
        assert(extended is Object);
    }
}
proof fn reasons_differ()
    ensures
        "finish_reason"@ != "delta"@,
        "finish_reason"@ != "logprobs"@,
        "finish_reason"@ != "message"@,
        "delta"@ != "logprobs"@,
        "delta"@ != "message"@,
        "logprobs"@ != "message"@,
{
    reveal_strlit("finish_reason");
    reveal_strlit("delta");
    reveal_strlit("logprobs");
    reveal_strlit("message");
    assert("finish_reason"@.len() == 13);
    assert("delta"@.len() == 5);
    assert("logprobs"@.len() == 8);
    assert("message"@.len() == 7);
}

} // verus!
