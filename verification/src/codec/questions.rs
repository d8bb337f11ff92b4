//! What the encoding of a history asks of an extension: for the native items of each provider
//! call, once all that stands in front of the call was encoded.
use crate::codec::conversation::{
    conversation_begins, conversation_goes_on, conversations_join, conversed,
};
use crate::codec::encode::{
    assembled_item, assembled_step, nothing_assembled, Assembled, Assembly, History,
};
use crate::codec::laws::{as_texts, listed_ids, replayed_items};
use crate::codec::replay::{
    call_by_id, extend, find_call, holds, native_items, nothing_replayed, position_key, replay_id,
    replay_id_step, replay_item, replay_item_step, replayed, Replayed,
};
use crate::error::{fold_ok, ErrorView};
use crate::extension::{answer, ask_replay, Answer, Asked, ProtocolExtension};
use crate::json::{Json, JsonView};
use crate::message::{
    Message, MessageView, Output, OutputView, ProviderToolCall, ProviderToolCallView,
};
use crate::model::Protocol;
use crate::text::same;
use vstd::prelude::*;

verus! {

// ---------------------------------------------------------------------------------------
// The calls that encoding comes to
// ---------------------------------------------------------------------------------------
/// The call that an id of a position stands for, where it was not replayed before.
pub open spec fn next_call(output: Seq<OutputView>, done: Replayed, id: JsonView) -> Option<
    ProviderToolCallView,
> {
    match id.as_str() {
        Some(id) => if done.emitted.contains(id) {
            None
        } else {
            call_by_id(output, id)
        },
        None => None,
    }
}

/// The calls that the replay of a position comes to: of each id, unless one in front of it
/// could not be replayed.
pub open spec fn asked_ids(
    ids: Seq<JsonView>,
    output: Seq<OutputView>,
    answers: History,
    start: Replayed,
) -> Seq<ProviderToolCallView>
    decreases ids.len(),
{
    if ids.len() == 0 {
        Seq::empty()
    } else {
        let before = asked_ids(ids.drop_last(), output, answers, start);
        match fold_ok(ids.drop_last(), start, replay_id_step(output, answers)) {
            Err(_) => before,
            Ok(done) => match next_call(output, done, ids.last()) {
                Some(call) => before.push(call),
                None => before,
            },
        }
    }
}

/// The ids that a native item lists, where it is a position.
pub open spec fn position_ids(item: JsonView) -> Option<Seq<JsonView>> {
    match item.get(position_key()) {
        Some(ids) => if item.as_object()->0.len() == 1 {
            ids.as_array()
        } else {
            None
        },
        None => None,
    }
}

/// The calls that the replay of native items comes to.
pub open spec fn asked_items(
    items: Seq<JsonView>,
    output: Seq<OutputView>,
    answers: History,
) -> Seq<ProviderToolCallView>
    decreases items.len(),
{
    if items.len() == 0 {
        Seq::empty()
    } else {
        let before = asked_items(items.drop_last(), output, answers);
        match fold_ok(
            items.drop_last(),
            nothing_replayed(),
            replay_item_step(output, answers),
        ) {
            Err(_) => before,
            Ok(done) => match position_ids(items.last()) {
                Some(ids) => before + asked_ids(ids, output, answers, done),
                None => before,
            },
        }
    }
}

/// The calls that the encoding of an output comes to.
pub open spec fn asked_outputs(
    protocol: Protocol,
    output: Seq<OutputView>,
    answers: History,
) -> Seq<ProviderToolCallView>
    decreases output.len(),
{
    if output.len() == 0 {
        Seq::empty()
    } else {
        let before = asked_outputs(protocol, output.drop_last(), answers);
        match (
            fold_ok(
                output.drop_last(),
                nothing_assembled(),
                assembled_step(protocol, answers),
            ),
            output.last(),
        ) {
            (Ok(_), OutputView::ProviderToolCall(call)) => before.push(call),
            _ => before,
        }
    }
}

/// The native items by which a message is replayed, where its data is a response of this
/// protocol.
pub open spec fn replayed_from(protocol: Protocol, data: JsonView) -> Option<Seq<JsonView>> {
    if data.get_str("protocol"@) == Some(protocol.name()) {
        native_items(protocol, data.field("response"@))
    } else {
        None
    }
}

/// The provider calls that the encoding of a message comes to, given the answers: each whose
/// turn it is once all in front of it was encoded.
pub open spec fn asked(protocol: Protocol, message: MessageView, answers: History) -> Seq<
    ProviderToolCallView,
> {
    match message {
        MessageView::Assistant { output, provider_data } => match replayed_from(
            protocol,
            provider_data,
        ) {
            Some(items) => asked_items(items, output, answers),
            None => asked_outputs(protocol, output, answers),
        },
        _ => Seq::empty(),
    }
}

/// The questions of one message.
pub open spec fn call_log(calls: Seq<ProviderToolCallView>, answers: History) -> Seq<Asked> {
    Seq::new(answers.len(), |i: int| Asked::Replay(calls[i], answers[i]))
}

// ---------------------------------------------------------------------------------------
// Later answers change nothing
// ---------------------------------------------------------------------------------------
/// Whether answers begin with those.
pub open spec fn begins_with(answers: History, first: History) -> bool {
    first.len() <= answers.len() && forall|i: int|
        0 <= i < first.len() ==> #[trigger] answers[i] == first[i]
}

/// What was replayed of a position does not depend on answers that come later.
proof fn ids_stand(
    ids: Seq<JsonView>,
    output: Seq<OutputView>,
    first: History,
    answers: History,
    start: Replayed,
)
    requires
        begins_with(answers, first),
        fold_ok(ids, start, replay_id_step(output, first)) matches Ok(done) && done.emitted.len()
            <= first.len(),
    ensures
        fold_ok(ids, start, replay_id_step(output, answers)) == fold_ok(
            ids,
            start,
            replay_id_step(output, first),
        ),
        asked_ids(ids, output, answers, start) == asked_ids(ids, output, first, start),
        fold_ok(ids, start, replay_id_step(output, first))->Ok_0.emitted.len()
            == start.emitted.len() + asked_ids(ids, output, first, start).len(),
    decreases ids.len(),
{
    if ids.len() > 0 {
        let before = fold_ok(ids.drop_last(), start, replay_id_step(output, first));
        let id = ids.last();
        assert(before is Ok);
        let done = before->Ok_0;
        assert(replay_id_step(output, first)(done, id) == replay_id(output, first, done, id));
        assert(replay_id_step(output, answers)(done, id) == replay_id(output, answers, done, id));
        ids_stand(ids.drop_last(), output, first, answers, start);
    }
}

/// Past an id that cannot be replayed nothing is asked.
proof fn ids_ended(
    ids: Seq<JsonView>,
    output: Seq<OutputView>,
    answers: History,
    start: Replayed,
    n: int,
)
    requires
        0 <= n <= ids.len(),
        fold_ok(ids.take(n), start, replay_id_step(output, answers)) is Err,
    ensures
        asked_ids(ids, output, answers, start) == asked_ids(ids.take(n), output, answers, start),
        fold_ok(ids, start, replay_id_step(output, answers)) is Err,
    decreases ids.len() - n,
{
    if n < ids.len() {
        assert(ids.take(n + 1).drop_last() =~= ids.take(n));
        ids_ended(ids, output, answers, start, n + 1);
    } else {
        assert(ids.take(n) =~= ids);
    }
}

/// What was replayed of native items does not depend on answers that come later.
proof fn items_stand(
    items: Seq<JsonView>,
    output: Seq<OutputView>,
    first: History,
    answers: History,
)
    requires
        begins_with(answers, first),
        fold_ok(items, nothing_replayed(), replay_item_step(output, first)) matches Ok(done)
            && done.emitted.len() <= first.len(),
    ensures
        fold_ok(items, nothing_replayed(), replay_item_step(output, answers)) == fold_ok(
            items,
            nothing_replayed(),
            replay_item_step(output, first),
        ),
        asked_items(items, output, answers) == asked_items(items, output, first),
        fold_ok(items, nothing_replayed(), replay_item_step(output, first))->Ok_0.emitted.len()
            == asked_items(items, output, first).len(),
    decreases items.len(),
{
    if items.len() > 0 {
        let before = fold_ok(
            items.drop_last(),
            nothing_replayed(),
            replay_item_step(output, first),
        );
        let item = items.last();
        assert(before is Ok);
        let done = before->Ok_0;
        assert(replay_item_step(output, first)(done, item) == replay_item(
            output,
            first,
            done,
            item,
        ));
        assert(replay_item_step(output, answers)(done, item) == replay_item(
            output,
            answers,
            done,
            item,
        ));
        match position_ids(item) {
            Some(ids) => {
                ids_stand(ids, output, first, answers, done);
            },
            None => {},
        }
        items_stand(items.drop_last(), output, first, answers);
    }
}

/// Past an item that cannot be replayed nothing is asked.
proof fn items_ended(items: Seq<JsonView>, output: Seq<OutputView>, answers: History, n: int)
    requires
        0 <= n <= items.len(),
        fold_ok(items.take(n), nothing_replayed(), replay_item_step(output, answers)) is Err,
    ensures
        asked_items(items, output, answers) == asked_items(items.take(n), output, answers),
    decreases items.len() - n,
{
    if n < items.len() {
        assert(items.take(n + 1).drop_last() =~= items.take(n));
        items_ended(items, output, answers, n + 1);
    } else {
        assert(items.take(n) =~= items);
    }
}

/// What was assembled of an output does not depend on answers that come later.
proof fn outputs_stand(
    protocol: Protocol,
    output: Seq<OutputView>,
    first: History,
    answers: History,
)
    requires
        begins_with(answers, first),
        fold_ok(output, nothing_assembled(), assembled_step(protocol, first)) matches Ok(state)
            && state.asked <= first.len(),
    ensures
        fold_ok(output, nothing_assembled(), assembled_step(protocol, answers)) == fold_ok(
            output,
            nothing_assembled(),
            assembled_step(protocol, first),
        ),
        asked_outputs(protocol, output, answers) == asked_outputs(protocol, output, first),
        fold_ok(output, nothing_assembled(), assembled_step(protocol, first))->Ok_0.asked
            == asked_outputs(protocol, output, first).len(),
    decreases output.len(),
{
    if output.len() > 0 {
        let before = fold_ok(
            output.drop_last(),
            nothing_assembled(),
            assembled_step(protocol, first),
        );
        let item = output.last();
        assert(before is Ok);
        let state = before->Ok_0;
        assert(assembled_step(protocol, first)(state, item) == assembled_item(
            protocol,
            first,
            state,
            item,
        ));
        assert(assembled_step(protocol, answers)(state, item) == assembled_item(
            protocol,
            answers,
            state,
            item,
        ));
        outputs_stand(protocol, output.drop_last(), first, answers);
    }
}

/// Past an item that cannot be encoded nothing is asked.
proof fn outputs_ended(protocol: Protocol, output: Seq<OutputView>, answers: History, n: int)
    requires
        0 <= n <= output.len(),
        fold_ok(output.take(n), nothing_assembled(), assembled_step(protocol, answers)) is Err,
    ensures
        asked_outputs(protocol, output, answers) == asked_outputs(
            protocol,
            output.take(n),
            answers,
        ),
    decreases output.len() - n,
{
    if n < output.len() {
        assert(output.take(n + 1).drop_last() =~= output.take(n));
        outputs_ended(protocol, output, answers, n + 1);
    } else {
        assert(output.take(n) =~= output);
    }
}

// ---------------------------------------------------------------------------------------
// Asking
// ---------------------------------------------------------------------------------------
/// Asks for the calls of one position. The result is whether all of them were replayed.
fn ask_ids<E: ProtocolExtension + ?Sized>(
    extension: &mut E,
    protocol: Protocol,
    ids: &Vec<Json>,
    output: &Vec<Output>,
    answers: &mut Vec<Answer<Vec<Json>>>,
    emitted: &mut Vec<String>,
    start: Ghost<Replayed>,
) -> (r: bool)
    requires
        old(answers)@.len() == old(emitted)@.len(),
        start@.emitted == old(emitted).deep_view(),
    ensures
        begins_with(final(answers).deep_view(), old(answers).deep_view()),
        final(answers)@.len() == old(answers)@.len() + asked_ids(
            ids.deep_view(),
            output.deep_view(),
            final(answers).deep_view(),
            start@,
        ).len(),
        match fold_ok(
            ids.deep_view(),
            start@,
            replay_id_step(output.deep_view(), final(answers).deep_view()),
        ) {
            Ok(done) => r && done.emitted == final(emitted).deep_view()
                && final(emitted)@.len() == final(answers)@.len(),
            Err(_) => !r,
        },
        exists|xs: Seq<&mut E>, states: Seq<&E>|
            {
                &&& #[trigger] conversed(
                    xs,
                    states,
                    protocol,
                    call_log(
                        asked_ids(
                            ids.deep_view(),
                            output.deep_view(),
                            final(answers).deep_view(),
                            start@,
                        ),
                        final(answers).deep_view().skip(old(answers)@.len() as int),
                    ),
                )
                &&& states[0] == &*old(extension)
                &&& states.last() == &*final(extension)
                &&& forall|i: int| 0 <= i < xs.len() ==> &*final(#[trigger] xs[i]) == states[i + 1]
            },
{
    let ghost all = ids.deep_view();
    let ghost given = answers.deep_view();
    let ghost calls_of = output.deep_view();
    let ghost mut done: Replayed = start@;
    let mut i: usize = 0;
    proof {
        conversation_begins(&*extension, protocol);
        assert(all.take(0) =~= Seq::empty());
        assert(call_log(
            asked_ids(all.take(0), calls_of, given, start@),
            given.skip(given.len() as int),
        ) =~= Seq::empty());
    }
    while i < ids.len()
        invariant
            i <= ids@.len(),
            all == ids.deep_view(),
            given == old(answers).deep_view(),
            given.len() == old(answers)@.len(),
            calls_of == output.deep_view(),
            begins_with(answers.deep_view(), given),
            answers@.len() == emitted@.len(),
            answers@.len()
                == given.len() + asked_ids(
                all.take(i as int),
                calls_of,
                answers.deep_view(),
                start@,
            ).len(),
            done.emitted == emitted.deep_view(),
            fold_ok(
                all.take(i as int),
                start@,
                replay_id_step(calls_of, answers.deep_view()),
            ) == Ok::<Replayed, ErrorView>(done),
            exists|xs: Seq<&mut E>, states: Seq<&E>|
                {
                    &&& #[trigger] conversed(
                        xs,
                        states,
                        protocol,
                        call_log(
                            asked_ids(all.take(i as int), calls_of, answers.deep_view(), start@),
                            answers.deep_view().skip(given.len() as int),
                        ),
                    )
                    &&& states[0] == &*old(extension)
                    &&& states.last() == &*extension
                    &&& forall|i: int|
                        0 <= i < xs.len() ==> &*final(#[trigger] xs[i]) == states[i + 1]
                },
        decreases ids@.len() - i,
    {
        let ghost told = answers.deep_view();
        let ghost front = all.take(i as int);
        let ghost next = all.take(i + 1);
        let ghost before: &E = &*extension;
        let ghost calls = asked_ids(front, calls_of, told, start@);
        let ghost log = call_log(calls, told.skip(given.len() as int));
        proof {
            assert(next.drop_last() =~= front);
            assert(next.last() == ids@[i as int]@);
            assert(replay_id_step(calls_of, told)(done, next.last())
                == replay_id(calls_of, told, done, next.last()));
            assert(told.len() == answers@.len());
            assert(done.emitted.len() == emitted@.len());
        }
        let call = match ids[i].as_str() {
            Some(id) => if holds(emitted, id) {
                None
            } else {
                find_call(output, id)
            },
            None => None,
        };
        let call = match call {
            Some(call) => call,
            None => {
                proof {
                    assert(next_call(calls_of, done, next.last()) is None);
                    ids_ended(all, calls_of, told, start@, i + 1);
                }
                return false;
            },
        };
        let reply = answer(ask_replay(&mut *extension, protocol, call));
        let claimed = match &reply {
            Answer::Claimed(_) => true,
            _ => false,
        };
        let ghost said = reply.deep_view();
        answers.push(reply);
        proof {
            let heard = answers.deep_view();
            assert(heard =~= told.push(said));
            ids_stand(front, calls_of, told, heard, start@);
            assert(next_call(calls_of, done, next.last()) == Some(call@));
            assert(asked_ids(next, calls_of, heard, start@) == calls.push(call@));
            assert(replay_id_step(calls_of, heard)(done, next.last())
                == replay_id(calls_of, heard, done, next.last()));
            conversation_goes_on(
                &*old(extension),
                before,
                &*extension,
                protocol,
                log,
                Asked::Replay(call@, said),
            );
            assert(call_log(calls.push(call@), heard.skip(given.len() as int))
                =~= log.push(Asked::Replay(call@, said)));
        }
        if !claimed {
            proof {
                ids_ended(all, calls_of, answers.deep_view(), start@, i + 1);
            }
            return false;
        }
        match ids[i].as_str() {
            Some(id) => {
                let ghost shown = emitted.deep_view();
                emitted.push(id.to_owned());
                assert(emitted.deep_view() =~= shown.push(id@));
            },
            None => {},
        }
        proof {
            done = fold_ok(next, start@, replay_id_step(calls_of, answers.deep_view()))->Ok_0;
        }
        i += 1;
    }
    assert(all.take(all.len() as int) =~= all);
    assert(&*final(extension) == &*extension);
    true
}

/// Asks for the calls of a message that is replayed.
fn ask_items<E: ProtocolExtension + ?Sized>(
    extension: &mut E,
    protocol: Protocol,
    items: &Vec<Json>,
    output: &Vec<Output>,
) -> (r: Vec<Answer<Vec<Json>>>)
    ensures
        r@.len() == asked_items(items.deep_view(), output.deep_view(), r.deep_view()).len(),
        exists|xs: Seq<&mut E>, states: Seq<&E>|
            {
                &&& #[trigger] conversed(
                    xs,
                    states,
                    protocol,
                    call_log(
                        asked_items(items.deep_view(), output.deep_view(), r.deep_view()),
                        r.deep_view(),
                    ),
                )
                &&& states[0] == &*old(extension)
                &&& states.last() == &*final(extension)
                &&& forall|i: int| 0 <= i < xs.len() ==> &*final(#[trigger] xs[i]) == states[i + 1]
            },
{
    let ghost all = items.deep_view();
    let ghost calls_of = output.deep_view();
    let ghost mut done: Replayed = nothing_replayed();
    let mut answers: Vec<Answer<Vec<Json>>> = Vec::new();
    let mut emitted: Vec<String> = Vec::new();
    let mut i: usize = 0;
    proof {
        conversation_begins(&*extension, protocol);
        assert(all.take(0) =~= Seq::empty());
        assert(emitted.deep_view() =~= Seq::empty());
        assert(answers.deep_view() =~= Seq::empty());
        assert(call_log(
            asked_items(all.take(0), calls_of, answers.deep_view()),
            answers.deep_view(),
        ) =~= Seq::empty());
    }
    while i < items.len()
        invariant
            i <= items@.len(),
            all == items.deep_view(),
            calls_of == output.deep_view(),
            answers@.len() == emitted@.len(),
            answers@.len() == asked_items(all.take(i as int), calls_of, answers.deep_view()).len(),
            done.emitted == emitted.deep_view(),
            fold_ok(
                all.take(i as int),
                nothing_replayed(),
                replay_item_step(calls_of, answers.deep_view()),
            ) == Ok::<Replayed, ErrorView>(done),
            exists|xs: Seq<&mut E>, states: Seq<&E>|
                {
                    &&& #[trigger] conversed(
                        xs,
                        states,
                        protocol,
                        call_log(
                            asked_items(all.take(i as int), calls_of, answers.deep_view()),
                            answers.deep_view(),
                        ),
                    )
                    &&& states[0] == &*old(extension)
                    &&& states.last() == &*extension
                    &&& forall|i: int|
                        0 <= i < xs.len() ==> &*final(#[trigger] xs[i]) == states[i + 1]
                },
        decreases items@.len() - i,
    {
        let item = &items[i];
        let ghost told = answers.deep_view();
        let ghost front = all.take(i as int);
        let ghost next = all.take(i + 1);
        let ghost before: &E = &*extension;
        let ghost calls = asked_items(front, calls_of, told);
        proof {
            assert(next.drop_last() =~= front);
            assert(next.last() == item@);
            assert(replay_item_step(calls_of, told)(done, item@)
                == replay_item(calls_of, told, done, item@));
            assert(told.len() == answers@.len());
        }
        match item.get("$zhir_provider_calls") {
            None => {
                assert(position_ids(item@) is None);
                assert(asked_items(next, calls_of, told) == calls);
            },
            Some(ids) => {
                let single = match item.as_object() {
                    Some(fields) => fields.len() == 1,
                    None => false,
                };
                let ids = match ids.as_array() {
                    Some(ids) => if single {
                        Some(ids)
                    } else {
                        None
                    },
                    None => None,
                };
                let ids = match ids {
                    Some(ids) => ids,
                    None => {
                        proof {
                            assert(position_ids(item@) is None);
                            items_ended(all, calls_of, told, i + 1);
                        }
                        return answers;
                    },
                };
                assert(position_ids(item@) == Some(ids.deep_view()));
                let whole = ask_ids(
                    &mut *extension,
                    protocol,
                    ids,
                    output,
                    &mut answers,
                    &mut emitted,
                    Ghost(done),
                );
                proof {
                    let heard = answers.deep_view();
                    let more = asked_ids(ids.deep_view(), calls_of, heard, done);
                    assert(heard.len() == answers@.len());
                    items_stand(front, calls_of, told, heard);
                    assert(asked_items(next, calls_of, heard) == calls + more);
                    assert(replay_item_step(calls_of, heard)(done, item@)
                        == replay_item(calls_of, heard, done, item@));
                    conversations_join(
                        &*old(extension),
                        before,
                        &*extension,
                        protocol,
                        call_log(calls, told),
                        call_log(more, heard.skip(told.len() as int)),
                    );
                    assert(call_log(calls + more, heard)
                        =~= call_log(calls, told) + call_log(more, heard.skip(told.len() as int)));
                }
                if !whole {
                    proof {
                        items_ended(all, calls_of, answers.deep_view(), i + 1);
                    }
                    return answers;
                }
            },
        }
        proof {
            done = fold_ok(
                next,
                nothing_replayed(),
                replay_item_step(calls_of, answers.deep_view()),
            )->Ok_0;
        }
        i += 1;
    }
    assert(all.take(all.len() as int) =~= all);
    assert(&*final(extension) == &*extension);
    assert(exists|xs: Seq<&mut E>, states: Seq<&E>|
        {
            &&& #[trigger] conversed(
                xs,
                states,
                protocol,
                call_log(asked_items(all, calls_of, answers.deep_view()), answers.deep_view()),
            )
            &&& states[0] == &*old(extension)
            &&& states.last() == &*final(extension)
            &&& forall|i: int| 0 <= i < xs.len() ==> &*final(#[trigger] xs[i]) == states[i + 1]
        });
    answers
}

/// Asks for the calls of a message that is not replayed.
fn ask_outputs<E: ProtocolExtension + ?Sized>(
    extension: &mut E,
    protocol: Protocol,
    output: &Vec<Output>,
) -> (r: Vec<Answer<Vec<Json>>>)
    ensures
        r@.len() == asked_outputs(protocol, output.deep_view(), r.deep_view()).len(),
        exists|xs: Seq<&mut E>, states: Seq<&E>|
            {
                &&& #[trigger] conversed(
                    xs,
                    states,
                    protocol,
                    call_log(
                        asked_outputs(protocol, output.deep_view(), r.deep_view()),
                        r.deep_view(),
                    ),
                )
                &&& states[0] == &*old(extension)
                &&& states.last() == &*final(extension)
                &&& forall|i: int| 0 <= i < xs.len() ==> &*final(#[trigger] xs[i]) == states[i + 1]
            },
{
    let ghost all = output.deep_view();
    let mut answers: Vec<Answer<Vec<Json>>> = Vec::new();
    let mut state = Assembly::new();
    let mut i: usize = 0;
    proof {
        conversation_begins(&*extension, protocol);
        assert(all.take(0) =~= Seq::empty());
        assert(answers.deep_view() =~= Seq::empty());
        assert(call_log(
            asked_outputs(protocol, all.take(0), answers.deep_view()),
            answers.deep_view(),
        ) =~= Seq::empty());
    }
    while i < output.len()
        invariant
            i <= output@.len(),
            all == output.deep_view(),
            answers@.len() <= i,
            answers@.len() == state@.asked,
            answers@.len()
                == asked_outputs(protocol, all.take(i as int), answers.deep_view()).len(),
            fold_ok(
                all.take(i as int),
                nothing_assembled(),
                assembled_step(protocol, answers.deep_view()),
            ) == Ok::<Assembled, ErrorView>(state@),
            exists|xs: Seq<&mut E>, states: Seq<&E>|
                {
                    &&& #[trigger] conversed(
                        xs,
                        states,
                        protocol,
                        call_log(
                            asked_outputs(protocol, all.take(i as int), answers.deep_view()),
                            answers.deep_view(),
                        ),
                    )
                    &&& states[0] == &*old(extension)
                    &&& states.last() == &*extension
                    &&& forall|i: int|
                        0 <= i < xs.len() ==> &*final(#[trigger] xs[i]) == states[i + 1]
                },
        decreases output@.len() - i,
    {
        let ghost told = answers.deep_view();
        let ghost front = all.take(i as int);
        let ghost next = all.take(i + 1);
        let ghost before: &E = &*extension;
        let ghost calls = asked_outputs(protocol, front, told);
        proof {
            assert(next.drop_last() =~= front);
            assert(next.last() == output@[i as int]@);
            assert(told.len() == answers@.len());
        }
        match &output[i] {
            Output::ProviderToolCall(call) => {
                let reply = answer(ask_replay(&mut *extension, protocol, call));
                let ghost said = reply.deep_view();
                answers.push(reply);
                proof {
                    let heard = answers.deep_view();
                    assert(heard =~= told.push(said));
                    outputs_stand(protocol, front, told, heard);
                    assert(asked_outputs(protocol, next, heard) == calls.push(call@));
                    conversation_goes_on(
                        &*old(extension),
                        before,
                        &*extension,
                        protocol,
                        call_log(calls, told),
                        Asked::Replay(call@, said),
                    );
                    assert(call_log(calls.push(call@), heard)
                        =~= call_log(calls, told).push(Asked::Replay(call@, said)));
                }
            },
            _ => {
                assert(asked_outputs(protocol, next, told) == calls);
            },
        }
        proof {
            let heard = answers.deep_view();
            assert(assembled_step(protocol, heard)(state@, next.last())
                == assembled_item(protocol, heard, state@, next.last()));
        }
        let added = state.add_item(protocol, &output[i], &answers);
        if added.is_err() {
            proof {
                outputs_ended(protocol, all, answers.deep_view(), i + 1);
            }
            return answers;
        }
        i += 1;
    }
    assert(all.take(all.len() as int) =~= all);
    assert(&*final(extension) == &*extension);
    assert(exists|xs: Seq<&mut E>, states: Seq<&E>|
        {
            &&& #[trigger] conversed(
                xs,
                states,
                protocol,
                call_log(asked_outputs(protocol, all, answers.deep_view()), answers.deep_view()),
            )
            &&& states[0] == &*old(extension)
            &&& states.last() == &*final(extension)
            &&& forall|i: int| 0 <= i < xs.len() ==> &*final(#[trigger] xs[i]) == states[i + 1]
        });
    answers
}

fn items_to_replay(protocol: Protocol, data: &Json) -> (r: Option<Vec<Json>>)
    ensures
        r.deep_view() == replayed_from(protocol, data@),
{
    let own = match data.get_str("protocol") {
        Some(name) => same(name, protocol.key()),
        None => false,
    };
    if !own {
        return None;
    }
    let response = match data.get("response") {
        Some(response) => response,
        None => {
            proof {
                reveal_strlit("/choices/0/message");
                reveal_with_fuel(JsonView::pointer, 2);
            }
            return None;
        },
    };
    let mut items: Vec<Json> = Vec::new();
    assert(items.deep_view() =~= Seq::empty());
    match protocol {
        Protocol::Chat => match response.pointer("/choices/0/message") {
            Some(message) => {
                items.push(message.clone());
                assert(items.deep_view() =~= seq![message@]);
                Some(items)
            },
            None => None,
        },
        Protocol::Responses => match response.get_array("output") {
            Some(all) => {
                extend(&mut items, all);
                assert(items.deep_view() =~= all.deep_view());
                Some(items)
            },
            None => None,
        },
        Protocol::Messages => match response.get_array("content") {
            Some(all) => {
                extend(&mut items, all);
                assert(items.deep_view() =~= all.deep_view());
                Some(items)
            },
            None => None,
        },
    }
}

/// Asks an extension for the provider calls of a message, as far as its encoding comes.
pub(crate) fn ask_history<E: ProtocolExtension + ?Sized>(
    extension: &mut E,
    protocol: Protocol,
    message: &Message,
) -> (r: Vec<Answer<Vec<Json>>>)
    ensures
        r@.len() == asked(protocol, message@, r.deep_view()).len(),
        exists|xs: Seq<&mut E>, states: Seq<&E>|
            {
                &&& #[trigger] conversed(
                    xs,
                    states,
                    protocol,
                    call_log(asked(protocol, message@, r.deep_view()), r.deep_view()),
                )
                &&& states[0] == &*old(extension)
                &&& states.last() == &*final(extension)
                &&& forall|i: int| 0 <= i < xs.len() ==> &*final(#[trigger] xs[i]) == states[i + 1]
            },
{
    let (output, data) = match message {
        Message::Assistant { output, provider_data } => (output, provider_data),
        _ => {
            let none: Vec<Answer<Vec<Json>>> = Vec::new();
            proof {
                conversation_begins(&*extension, protocol);
                assert(none.deep_view() =~= Seq::empty());
                assert(call_log(asked(protocol, message@, none.deep_view()), none.deep_view())
                    =~= Seq::empty());
            }
            return none;
        },
    };
    let r = match items_to_replay(protocol, data) {
        Some(items) => {
            let r = ask_items(&mut *extension, protocol, &items, output);
            assert(asked(protocol, message@, r.deep_view()) == asked_items(
                items.deep_view(),
                output.deep_view(),
                r.deep_view(),
            ));
            r
        },
        None => {
            let r = ask_outputs(&mut *extension, protocol, output);
            assert(asked(protocol, message@, r.deep_view()) == asked_outputs(
                protocol,
                output.deep_view(),
                r.deep_view(),
            ));
            r
        },
    };
    assert(&*final(extension) == &*extension);
    assert(exists|xs: Seq<&mut E>, states: Seq<&E>|
        {
            &&& #[trigger] conversed(
                xs,
                states,
                protocol,
                call_log(asked(protocol, message@, r.deep_view()), r.deep_view()),
            )
            &&& states[0] == &*old(extension)
            &&& states.last() == &*final(extension)
            &&& forall|i: int| 0 <= i < xs.len() ==> &*final(#[trigger] xs[i]) == states[i + 1]
        });
    r
}

/// The calls of a replay are those of the ids that it emitted.
proof fn ids_name_their_calls(
    ids: Seq<JsonView>,
    output: Seq<OutputView>,
    answers: History,
    start: Replayed,
)
    requires
        fold_ok(ids, start, replay_id_step(output, answers)) is Ok,
    ensures
        ({
            let done = fold_ok(ids, start, replay_id_step(output, answers))->Ok_0;
            let calls = asked_ids(ids, output, answers, start);
            &&& done.emitted.len() == start.emitted.len() + calls.len()
            &&& forall|i: int|
                0 <= i < start.emitted.len() ==> #[trigger] done.emitted[i] == start.emitted[i]
            &&& forall|i: int|
                0 <= i < calls.len() ==> Some(#[trigger] calls[i]) == call_by_id(
                    output,
                    done.emitted[start.emitted.len() + i],
                )
        }),
    decreases ids.len(),
{
    if ids.len() > 0 {
        ids_name_their_calls(ids.drop_last(), output, answers, start);
        let before = fold_ok(ids.drop_last(), start, replay_id_step(output, answers))->Ok_0;
        assert(replay_id_step(output, answers)(before, ids.last())
            == replay_id(output, answers, before, ids.last()));
    }
}

proof fn items_name_their_calls(items: Seq<JsonView>, output: Seq<OutputView>, answers: History)
    requires
        fold_ok(items, nothing_replayed(), replay_item_step(output, answers)) is Ok,
    ensures
        ({
            let done = fold_ok(items, nothing_replayed(), replay_item_step(output, answers))->Ok_0;
            let calls = asked_items(items, output, answers);
            &&& done.emitted.len() == calls.len()
            &&& forall|i: int|
                0 <= i < calls.len() ==> Some(#[trigger] calls[i]) == call_by_id(
                    output,
                    done.emitted[i],
                )
        }),
    decreases items.len(),
{
    if items.len() > 0 {
        items_name_their_calls(items.drop_last(), output, answers);
        let before = fold_ok(
            items.drop_last(),
            nothing_replayed(),
            replay_item_step(output, answers),
        )->Ok_0;
        let item = items.last();
        assert(replay_item_step(output, answers)(before, item)
            == replay_item(output, answers, before, item));
        match position_ids(item) {
            Some(ids) => {
                ids_name_their_calls(ids, output, answers, before);
            },
            None => {},
        }
    }
}

/// An answer goes to the call that it was asked for: where a message is replayed, the calls
/// are asked for in the order of the listed ids, one for one.
pub proof fn answers_meet_their_calls(
    protocol: Protocol,
    output: Seq<OutputView>,
    data: JsonView,
    items: Seq<JsonView>,
    answers: History,
)
    requires
        replayed_from(protocol, data) == Some(items),
        replayed(items, output, answers) is Ok,
    ensures
        ({
            let calls = asked(
                protocol,
                MessageView::Assistant { output, provider_data: data },
                answers,
            );
            &&& calls.len() == listed_ids(items).len()
            &&& forall|i: int|
                0 <= i < calls.len() ==> Some(#[trigger] calls[i]) == call_by_id(
                    output,
                    listed_ids(items)[i]->Text_0,
                )
        }),
{
    replayed_items(items, output, answers);
    items_name_their_calls(items, output, answers);
    let done = fold_ok(items, nothing_replayed(), replay_item_step(output, answers))->Ok_0;
    assert(listed_ids(items) == as_texts(done.emitted));
}

} // verus!
