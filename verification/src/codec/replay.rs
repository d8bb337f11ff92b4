//! Replay of native items: what a provider said is sent back in its own words.
//!
//! A decoded response keeps its native items. Where an extension claimed one for provider
//! tool calls, a position that lists the ids of the calls takes the item's place; on the
//! next turn each listed call is encoded there by its adapter.
use crate::error::{fold_ok, fold_ok_step, protocol, seen, Error, ErrorView};
use crate::extension::{answer_at, Answer, AnswerView};
use crate::json::{Json, JsonView};
use crate::message::{Output, OutputView, ProviderToolCall, ProviderToolCallView};
use crate::model::Protocol;
use crate::text::{join4, same};
use vstd::prelude::*;

verus! {

/// The key of a replay position.
pub open spec fn position_key() -> Seq<char> {
    "$zhir_provider_calls"@
}

/// The provider tool call with that id; the last one where several have it.
pub open spec fn call_by_id(output: Seq<OutputView>, id: Seq<char>) -> Option<
    ProviderToolCallView,
>
    decreases output.len(),
{
    if output.len() == 0 {
        None
    } else {
        match output.last() {
            OutputView::ProviderToolCall(call) => if call.id == id {
                Some(call)
            } else {
                call_by_id(output.drop_last(), id)
            },
            _ => call_by_id(output.drop_last(), id),
        }
    }
}

/// What has been replayed so far. Each emitted call used one answer.
pub struct Replayed {
    pub values: Seq<JsonView>,
    pub emitted: Seq<Seq<char>>,
}

/// The native items of a provider call: what its adapter answered.
pub open spec fn history(
    call: ProviderToolCallView,
    answer: AnswerView<Seq<JsonView>>,
) -> Result<Seq<JsonView>, ErrorView> {
    match answer {
        AnswerView::Claimed(values) => Ok(values),
        AnswerView::Failed(error) => Err(error),
        AnswerView::Unclaimed => Err(
            ErrorView::Invalid("no replay adapter for "@ + call.provider + "/"@ + call.name),
        ),
    }
}

/// Replays one id of a position.
pub open spec fn replay_id(
    output: Seq<OutputView>,
    answers: Seq<AnswerView<Seq<JsonView>>>,
    done: Replayed,
    id: JsonView,
) -> Result<Replayed, ErrorView> {
    match id.as_str() {
        None => Err(ErrorView::Protocol("provider replay call id must be a string"@)),
        Some(id) => match call_by_id(output, id) {
            None => Err(
                ErrorView::Protocol("provider replay mapping references an absent call"@),
            ),
            Some(call) => if done.emitted.contains(id) {
                Err(ErrorView::Protocol("provider call has multiple native replay positions"@))
            } else {
                match history(call, answer_at(answers, done.emitted.len() as int)) {
                    Err(e) => Err(e),
                    Ok(values) => Ok(
                        Replayed {
                            values: done.values + values,
                            emitted: done.emitted.push(id),
                        },
                    ),
                }
            },
        },
    }
}

pub open spec fn replay_id_step(
    output: Seq<OutputView>,
    answers: Seq<AnswerView<Seq<JsonView>>>,
) -> spec_fn(Replayed, JsonView) -> Result<Replayed, ErrorView> {
    |done: Replayed, id: JsonView| replay_id(output, answers, done, id)
}

/// Replays one native item: itself, or the calls of a position.
pub open spec fn replay_item(
    output: Seq<OutputView>,
    answers: Seq<AnswerView<Seq<JsonView>>>,
    done: Replayed,
    item: JsonView,
) -> Result<Replayed, ErrorView> {
    match item.get(position_key()) {
        None => Ok(Replayed { values: done.values.push(item), emitted: done.emitted }),
        Some(ids) => if item.as_object()->0.len() != 1 {
            Err(ErrorView::Protocol("invalid provider replay position"@))
        } else {
            match ids.as_array() {
                None => Err(
                    ErrorView::Protocol("provider replay mapping must contain call ids"@),
                ),
                Some(ids) => fold_ok(ids, done, replay_id_step(output, answers)),
            }
        },
    }
}

pub open spec fn replay_item_step(
    output: Seq<OutputView>,
    answers: Seq<AnswerView<Seq<JsonView>>>,
) -> spec_fn(Replayed, JsonView) -> Result<Replayed, ErrorView> {
    |done: Replayed, item: JsonView| replay_item(output, answers, done, item)
}

/// Whether every provider call of the output is among the ids.
pub open spec fn all_emitted(output: Seq<OutputView>, emitted: Seq<Seq<char>>) -> bool {
    forall|i: int|
        0 <= i < output.len() ==> ((#[trigger] output[i]) matches OutputView::ProviderToolCall(
            call,
        ) ==> emitted.contains(call.id))
}

pub open spec fn nothing_replayed() -> Replayed {
    Replayed { values: Seq::empty(), emitted: Seq::empty() }
}

/// Replays native items: each in its place, and each provider call of the output once.
pub open spec fn replayed(
    items: Seq<JsonView>,
    output: Seq<OutputView>,
    answers: Seq<AnswerView<Seq<JsonView>>>,
) -> Result<Seq<JsonView>, ErrorView> {
    match fold_ok(items, nothing_replayed(), replay_item_step(output, answers)) {
        Err(e) => Err(e),
        Ok(done) => if all_emitted(output, done.emitted) {
            Ok(done.values)
        } else {
            Err(ErrorView::Protocol("provider call has no native replay position"@))
        },
    }
}

/// The native items that a response of the protocol holds.
pub open spec fn native_items(protocol: Protocol, response: JsonView) -> Option<Seq<JsonView>> {
    match protocol {
        Protocol::Chat => match response.pointer("/choices/0/message"@) {
            Some(message) => Some(seq![message]),
            None => None,
        },
        Protocol::Responses => response.get_array("output"@),
        Protocol::Messages => response.get_array("content"@),
    }
}

/// The replay of an assistant message, where its data is a response of this protocol.
pub open spec fn assistant_replayed(
    protocol: Protocol,
    output: Seq<OutputView>,
    data: JsonView,
    answers: Seq<AnswerView<Seq<JsonView>>>,
) -> Result<Option<Seq<JsonView>>, ErrorView> {
    if data.get_str("protocol"@) != Some(protocol.name()) {
        Ok(None)
    } else {
        match native_items(protocol, data.field("response"@)) {
            None => Ok(None),
            Some(items) => match replayed(items, output, answers) {
                Ok(values) => Ok(Some(values)),
                Err(e) => Err(e),
            },
        }
    }
}

// ---------------------------------------------------------------------------------------
// Code
// ---------------------------------------------------------------------------------------
pub fn find_call<'a>(output: &'a Vec<Output>, id: &str) -> (r: Option<&'a ProviderToolCall>)
    ensures
        match r {
            Some(call) => call_by_id(output.deep_view(), id@) == Some(call@),
            None => call_by_id(output.deep_view(), id@) is None,
        },
{
    let ghost all = output.deep_view();
    let mut i: usize = output.len();
    assert(all.take(all.len() as int) =~= all);
    while i > 0
        invariant
            i <= output@.len(),
            all == output.deep_view(),
            call_by_id(all, id@) == call_by_id(all.take(i as int), id@),
        decreases i,
    {
        proof {
            assert(all.take(i as int).drop_last() =~= all.take(i - 1));
            assert(all.take(i as int).last() == output@[i - 1]@);
        }
        i -= 1;
        match &output[i] {
            Output::ProviderToolCall(call) => {
                if same(call.id.as_str(), id) {
                    return Some(call);
                }
            },
            _ => {},
        }
    }
    None
}

/// Whether a list of texts holds one.
pub fn holds(list: &Vec<String>, text: &str) -> (r: bool)
    ensures
        r == list.deep_view().contains(text@),
{
    let mut i: usize = 0;
    while i < list.len()
        invariant
            i <= list@.len(),
            forall|j: int| 0 <= j < i ==> (#[trigger] list.deep_view()[j]) != text@,
        decreases list@.len() - i,
    {
        if same(list[i].as_str(), text) {
            assert(list.deep_view()[i as int] == text@);
            return true;
        }
        i += 1;
    }
    false
}

/// Appends all values of a list.
pub fn extend(values: &mut Vec<Json>, more: &Vec<Json>)
    ensures
        final(values).deep_view() == old(values).deep_view() + more.deep_view(),
{
    let mut i: usize = 0;
    let ghost start = values.deep_view();
    assert(start =~= start + more.deep_view().take(0));
    while i < more.len()
        invariant
            i <= more@.len(),
            values.deep_view() == start + more.deep_view().take(i as int),
        decreases more@.len() - i,
    {
        let ghost before = values.deep_view();
        let value = more[i].clone();
        values.push(value);
        assert(values.deep_view() =~= before.push(value@));
        assert(values.deep_view() =~= start + more.deep_view().take(i + 1));
        i += 1;
    }
    assert(more.deep_view().take(more@.len() as int) =~= more.deep_view());
}

/// Appends what the adapter of a provider call answered.
pub fn provider_history(
    call: &ProviderToolCall,
    answers: &Vec<Answer<Vec<Json>>>,
    next: usize,
    values: &mut Vec<Json>,
) -> (r: Result<(), Error>)
    ensures
        match history(call@, answer_at(answers.deep_view(), next as int)) {
            Ok(more) => r is Ok && final(values).deep_view() == old(values).deep_view() + more,
            Err(e) => r is Err && r->Err_0@ == e && final(values).deep_view() == old(
                values,
            ).deep_view(),
        },
{
    if next < answers.len() {
        assert(answers.deep_view()[next as int] == answers@[next as int].deep_view());
        match &answers[next] {
            Answer::Claimed(more) => {
                extend(values, more);
                return Ok(());
            },
            Answer::Failed(error) => {
                return Err(error.clone());
            },
            Answer::Unclaimed => {},
        }
    }
    Err(
        Error::Invalid(
            join4(
                "no replay adapter for ",
                call.provider.as_str(),
                "/",
                call.name.as_str(),
            ),
        ),
    )
}

spec fn view_of(values: Vec<Json>, emitted: Vec<String>) -> Replayed {
    Replayed { values: values.deep_view(), emitted: emitted.deep_view() }
}

fn replay_ids(
    ids: &Vec<Json>,
    output: &Vec<Output>,
    answers: &Vec<Answer<Vec<Json>>>,
    values: &mut Vec<Json>,
    emitted: &mut Vec<String>,
) -> (r: Result<(), Error>)
    ensures
        match fold_ok(
            ids.deep_view(),
            view_of(*old(values), *old(emitted)),
            replay_id_step(output.deep_view(), answers.deep_view()),
        ) {
            Ok(done) => r is Ok && view_of(*final(values), *final(emitted)) == done,
            Err(e) => r is Err && r->Err_0@ == e,
        },
{
    let ghost all = ids.deep_view();
    let ghost start = view_of(*values, *emitted);
    let ghost step = replay_id_step(output.deep_view(), answers.deep_view());
    let mut i: usize = 0;
    assert(all.take(0) =~= Seq::empty());
    while i < ids.len()
        invariant
            i <= ids@.len(),
            all == ids.deep_view(),
            step == replay_id_step(output.deep_view(), answers.deep_view()),
            start == view_of(*old(values), *old(emitted)),
            fold_ok(all.take(i as int), start, step) == Ok::<Replayed, ErrorView>(
                view_of(*values, *emitted),
            ),
        decreases ids@.len() - i,
    {
        let ghost done = view_of(*values, *emitted);
        proof {
            fold_ok_step(all, start, step, i as int);
            assert(all[i as int] == ids@[i as int]@);
            assert(step(done, all[i as int]) == replay_id(
                output.deep_view(),
                answers.deep_view(),
                done,
                all[i as int],
            ));
        }
        let id = match ids[i].as_str() {
            Some(id) => id,
            None => return Err(protocol("provider replay call id must be a string")),
        };
        let call = match find_call(output, id) {
            Some(call) => call,
            None => return Err(protocol("provider replay mapping references an absent call")),
        };
        if holds(emitted, id) {
            return Err(protocol("provider call has multiple native replay positions"));
        }
        let next = emitted.len();
        provider_history(call, answers, next, values)?;
        emitted.push(id.to_owned());
        assert(emitted.deep_view() =~= done.emitted.push(id@));
        i += 1;
    }
    assert(all.take(all.len() as int) =~= all);
    Ok(())
}

/// Whether every provider call of the output is among the ids.
fn every_call_emitted(output: &Vec<Output>, emitted: &Vec<String>) -> (r: bool)
    ensures
        r == all_emitted(output.deep_view(), emitted.deep_view()),
{
    let mut i: usize = 0;
    while i < output.len()
        invariant
            i <= output@.len(),
            forall|j: int|
                0 <= j < i ==> ((
                #[trigger] output.deep_view()[j]) matches OutputView::ProviderToolCall(call)
                    ==> emitted.deep_view().contains(call.id)),
        decreases output@.len() - i,
    {
        match &output[i] {
            Output::ProviderToolCall(call) => {
                if !holds(emitted, call.id.as_str()) {
                    assert(output.deep_view()[i as int] == OutputView::ProviderToolCall(call@));
                    return false;
                }
            },
            _ => {},
        }
        i += 1;
    }
    true
}

/// Replays native items in order. A position is replaced by the items of its calls; `answers`
/// holds what their adapters answered, in the order in which the calls are listed.
pub fn replay_items(
    items: &Vec<Json>,
    output: &Vec<Output>,
    answers: &Vec<Answer<Vec<Json>>>,
) -> (r: Result<Vec<Json>, Error>)
    ensures
        seen(r) == replayed(items.deep_view(), output.deep_view(), answers.deep_view()),
{
    let ghost all = items.deep_view();
    let ghost step = replay_item_step(output.deep_view(), answers.deep_view());
    let mut values: Vec<Json> = Vec::new();
    let mut emitted: Vec<String> = Vec::new();
    let ghost start = nothing_replayed();
    let mut i: usize = 0;
    assert(all.take(0) =~= Seq::empty());
    assert(values.deep_view() =~= Seq::empty());
    assert(emitted.deep_view() =~= Seq::empty());
    while i < items.len()
        invariant
            i <= items@.len(),
            all == items.deep_view(),
            start == nothing_replayed(),
            step == replay_item_step(output.deep_view(), answers.deep_view()),
            fold_ok(all.take(i as int), start, step) == Ok::<Replayed, ErrorView>(
                view_of(values, emitted),
            ),
        decreases items@.len() - i,
    {
        let ghost done = view_of(values, emitted);
        let item = &items[i];
        proof {
            fold_ok_step(all, start, step, i as int);
            assert(all[i as int] == item@);
            assert(step(done, item@) == replay_item(
                output.deep_view(),
                answers.deep_view(),
                done,
                item@,
            ));
        }
        match item.get("$zhir_provider_calls") {
            None => {
                let copy = item.clone();
                values.push(copy);
                assert(values.deep_view() =~= done.values.push(item@));
            },
            Some(ids) => {
                let single = match item.as_object() {
                    Some(fields) => fields.len() == 1,
                    None => false,
                };
                if !single {
                    return Err(protocol("invalid provider replay position"));
                }
                match ids.as_array() {
                    None => {
                        return Err(protocol("provider replay mapping must contain call ids"));
                    },
                    Some(ids) => {
                        replay_ids(ids, output, answers, &mut values, &mut emitted)?;
                    },
                }
            },
        }
        i += 1;
    }
    assert(all.take(all.len() as int) =~= all);
    if !every_call_emitted(output, &emitted) {
        return Err(protocol("provider call has no native replay position"));
    }
    Ok(values)
}

/// Replays an assistant message, where its data is a response of this protocol.
pub fn assistant_replay(
    protocol: Protocol,
    output: &Vec<Output>,
    data: &Json,
    answers: &Vec<Answer<Vec<Json>>>,
) -> (r: Result<Option<Vec<Json>>, Error>)
    ensures
        seen(r) == assistant_replayed(
            protocol,
            output.deep_view(),
            data@,
            answers.deep_view(),
        ),
{
    match data.get_str("protocol") {
        Some(name) => if !same(name, protocol.key()) {
            return Ok(None);
        },
        None => return Ok(None),
    }
    let response = match data.get("response") {
        Some(response) => response,
        None => {
            assert(data@.field("response"@) is Null);
            proof {
                reveal_strlit("/choices/0/message");
                reveal_with_fuel(JsonView::pointer, 2);
            }
            return Ok(None);
        },
    };
    match protocol {
        Protocol::Chat => match response.pointer("/choices/0/message") {
            Some(message) => {
                let mut items: Vec<Json> = Vec::new();
                items.push(message.clone());
                assert(items.deep_view() =~= seq![message@]);
                let values = replay_items(&items, output, answers)?;
                Ok(Some(values))
            },
            None => Ok(None),
        },
        Protocol::Responses => match response.get_array("output") {
            Some(items) => {
                let values = replay_items(items, output, answers)?;
                Ok(Some(values))
            },
            None => Ok(None),
        },
        Protocol::Messages => match response.get_array("content") {
            Some(items) => {
                let values = replay_items(items, output, answers)?;
                Ok(Some(values))
            },
            None => Ok(None),
        },
    }
}

} // verus!
