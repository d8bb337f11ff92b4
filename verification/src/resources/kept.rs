//! What is left as it was where stored resources are resolved: who says what, and in which
//! order.
use crate::error::fold_ok;
use crate::message::{
    ContentView, MessageView, OutputView, ProviderToolCallView, ResourceInputView,
    ResourceSourceView, RuntimeToolOutcomeView,
};
use crate::resources::resolve::{
    content_step, message_step, output_step, resolved_content, resolved_message, resolved_messages,
    resolved_output, PurseView,
};
use crate::resources::seal::{sealed_content, SealedView};
use crate::resources::StopView;
use vstd::prelude::*;

verus! {

/// Whether a part is another with its stored bytes at hand, and is otherwise the same.
pub open spec fn shown(before: ContentView, after: ContentView, loads: Seq<Seq<u8>>) -> bool {
    match before {
        ContentView::Resource(input) => if input.source is Stored {
            after matches ContentView::Resource(found) && (found.source
                matches ResourceSourceView::Inline(bytes) && loads.contains(bytes)) && found == (
            ResourceInputView { source: found.source, ..input })
        } else {
            after == before
        },
        _ => after == before,
    }
}

/// Whether an output item is another with its parts so, and is otherwise the same.
pub open spec fn output_shown(before: OutputView, after: OutputView, loads: Seq<Seq<u8>>) -> bool {
    match before {
        OutputView::Content(content) => after matches OutputView::Content(found) && shown(
            content,
            found,
            loads,
        ),
        OutputView::ProviderToolCall(call) => after matches OutputView::ProviderToolCall(found)
            && found == (ProviderToolCallView { output: found.output, data: found.data, ..call })
            && all_shown(call.output, found.output, loads),
        _ => after == before,
    }
}

pub open spec fn all_shown(
    before: Seq<ContentView>,
    after: Seq<ContentView>,
    loads: Seq<Seq<u8>>,
) -> bool {
    &&& before.len() == after.len()
    &&& forall|i: int| 0 <= i < before.len() ==> shown(#[trigger] before[i], after[i], loads)
}

/// Whether an outcome is another with its parts so, and is otherwise the same.
pub open spec fn outcome_shown(
    before: RuntimeToolOutcomeView,
    after: RuntimeToolOutcomeView,
    loads: Seq<Seq<u8>>,
) -> bool {
    match before {
        RuntimeToolOutcomeView::Success(contents) => after
            matches RuntimeToolOutcomeView::Success(found) && all_shown(contents, found, loads),
        _ => after == before,
    }
}

/// Whether a message is another with its parts so, and is otherwise the same: who says it, and
/// what it says.
pub open spec fn says_the_same(before: MessageView, after: MessageView, loads: Seq<Seq<u8>>) -> bool {
    match before {
        MessageView::System(contents) => after matches MessageView::System(found) && all_shown(
            contents,
            found,
            loads,
        ),
        MessageView::User(contents) => after matches MessageView::User(found) && all_shown(
            contents,
            found,
            loads,
        ),
        MessageView::External(contents) => after matches MessageView::External(found) && all_shown(
            contents,
            found,
            loads,
        ),
        MessageView::Assistant { output, .. } => after matches MessageView::Assistant {
            output: said,
            ..
        } && said.len() == output.len() && forall|i: int|
            0 <= i < output.len() ==> output_shown(#[trigger] output[i], said[i], loads),
        MessageView::RuntimeTool { call_id, outcome } => after matches MessageView::RuntimeTool {
            call_id: answered,
            outcome: told,
        } && answered == call_id && outcome_shown(outcome, told, loads),
        _ => after == before,
    }
}

proof fn contents_are_shown(
    contents: Seq<ContentView>,
    purse: PurseView,
    loads: Seq<Seq<u8>>,
)
    ensures
        fold_ok(contents, (Seq::<ContentView>::empty(), purse), content_step(loads)) matches Ok(
            (found, _),
        ) ==> found.len() == contents.len() && forall|i: int|
            0 <= i < contents.len() ==> shown(#[trigger] contents[i], found[i], loads),
    decreases contents.len(),
{
    let start = (Seq::<ContentView>::empty(), purse);
    if contents.len() > 0 {
        let front = contents.drop_last();
        contents_are_shown(front, purse, loads);
        if let Ok((found, _)) = fold_ok(contents, start, content_step(loads)) {
            let before = fold_ok(front, start, content_step(loads))->Ok_0;
            assert(content_step(loads)(before, contents.last()) == (match resolved_content(
                contents.last(),
                before.1,
                loads,
            ) {
                Ok((one, after)) => Ok::<(Seq<ContentView>, PurseView), StopView>(
                    (before.0.push(one), after),
                ),
                Err(stop) => Err(stop),
            }));
            assert forall|i: int| 0 <= i < contents.len() implies shown(
                #[trigger] contents[i],
                found[i],
                loads,
            ) by {
                if i < front.len() {
                    assert(front[i] == contents[i]);
                }
            }
        }
    }
}

proof fn outputs_are_shown(
    outputs: Seq<OutputView>,
    purse: PurseView,
    loads: Seq<Seq<u8>>,
)
    ensures
        fold_ok(outputs, (Seq::<OutputView>::empty(), purse), output_step(loads)) matches Ok(
            (found, _),
        ) ==> found.len() == outputs.len() && forall|i: int|
            0 <= i < outputs.len() ==> output_shown(#[trigger] outputs[i], found[i], loads),
    decreases outputs.len(),
{
    let start = (Seq::<OutputView>::empty(), purse);
    if outputs.len() > 0 {
        let front = outputs.drop_last();
        outputs_are_shown(front, purse, loads);
        if let Ok((found, _)) = fold_ok(outputs, start, output_step(loads)) {
            let before = fold_ok(front, start, output_step(loads))->Ok_0;
            assert(output_step(loads)(before, outputs.last()) == (match resolved_output(
                outputs.last(),
                before.1,
                loads,
            ) {
                Ok((one, after)) => Ok::<(Seq<OutputView>, PurseView), StopView>(
                    (before.0.push(one), after),
                ),
                Err(stop) => Err(stop),
            }));
            if let OutputView::ProviderToolCall(call) = outputs.last() {
                contents_are_shown(call.output, before.1, loads);
            }
            assert forall|i: int| 0 <= i < outputs.len() implies output_shown(
                #[trigger] outputs[i],
                found[i],
                loads,
            ) by {
                if i < front.len() {
                    assert(front[i] == outputs[i]);
                }
            }
        }
    }
}

/// A resolved message says what it said: each part that was stored holds bytes of the store,
/// and everything else stays.
pub proof fn resolving_changes_stored_parts_only(
    message: MessageView,
    purse: PurseView,
    loads: Seq<Seq<u8>>,
)
    ensures
        resolved_message(message, purse, loads) matches Ok((after, _)) ==> says_the_same(
            message,
            after,
            loads,
        ),
{
    match message {
        MessageView::System(contents) => contents_are_shown(contents, purse, loads),
        MessageView::User(contents) => contents_are_shown(contents, purse, loads),
        MessageView::External(contents) => contents_are_shown(contents, purse, loads),
        MessageView::Assistant { output, .. } => outputs_are_shown(output, purse, loads),
        MessageView::RuntimeTool { outcome: RuntimeToolOutcomeView::Success(contents), .. } => {
            contents_are_shown(contents, purse, loads);
        },
        _ => {},
    }
}

proof fn messages_say_the_same(
    messages: Seq<MessageView>,
    purse: PurseView,
    loads: Seq<Seq<u8>>,
)
    ensures
        fold_ok(messages, (Seq::<MessageView>::empty(), purse), message_step(loads)) matches Ok(
            (found, _),
        ) ==> found.len() == messages.len() && forall|i: int|
            0 <= i < messages.len() ==> says_the_same(#[trigger] messages[i], found[i], loads),
    decreases messages.len(),
{
    let start = (Seq::<MessageView>::empty(), purse);
    if messages.len() > 0 {
        let front = messages.drop_last();
        messages_say_the_same(front, purse, loads);
        if let Ok((found, _)) = fold_ok(messages, start, message_step(loads)) {
            let before = fold_ok(front, start, message_step(loads))->Ok_0;
            assert(message_step(loads)(before, messages.last()) == (match resolved_message(
                messages.last(),
                before.1,
                loads,
            ) {
                Ok((one, after)) => Ok::<(Seq<MessageView>, PurseView), StopView>(
                    (before.0.push(one), after),
                ),
                Err(stop) => Err(stop),
            }));
            resolving_changes_stored_parts_only(messages.last(), before.1, loads);
            assert forall|i: int| 0 <= i < messages.len() implies says_the_same(
                #[trigger] messages[i],
                found[i],
                loads,
            ) by {
                if i < front.len() {
                    assert(front[i] == messages[i]);
                }
            }
        }
    }
}

/// Resolved messages are the messages, one by one and in order.
pub proof fn resolving_keeps_the_messages(
    messages: Seq<MessageView>,
    limit: usize,
    loads: Seq<Seq<u8>>,
)
    ensures
        resolved_messages(messages, limit, loads) matches Ok(all) ==> all.len() == messages.len()
            && forall|i: int|
            0 <= i < messages.len() ==> says_the_same(#[trigger] messages[i], all[i], loads),
{
    messages_say_the_same(messages, PurseView { left: limit as nat, used: 0 }, loads);
}

/// A sealed part is the part, but for its bytes, which the store keeps in its own way.
pub proof fn sealing_changes_the_source_only(
    content: ContentView,
    used: nat,
    seals: Seq<SealedView>,
)
    ensures
        sealed_content(content, used, seals) matches Ok((after, _)) ==> match content {
            ContentView::Resource(input) => if input.source is Inline {
                used < seals.len() && (after matches ContentView::Resource(found) && found == (
                ResourceInputView { source: seals[used as int].source, ..input })
                    && !(found.source is Inline) && seals[used as int].media_type
                    == input.media_type)
            } else {
                after == content
            },
            _ => after == content,
        },
        sealed_content(content, used, seals) matches Err(StopView::Seal { resource, .. }) ==> content
            == ContentView::Resource(resource) && resource.source is Inline,
{
}

} // verus!
