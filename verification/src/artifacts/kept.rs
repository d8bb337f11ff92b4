//! What is left as it was where references are resolved: who says what, and in which order.
use crate::artifacts::replay::bindings_of;
use crate::artifacts::resolve::{
    resolved_content, resolved_contents, resolved_message, resolved_messages, resolved_output,
    resolved_outputs,
};
use crate::artifacts::save::{reference_for, save_item, saved, ItemsView, LedgerView};
use crate::artifacts::{find, Contents, References, StopView};
use crate::error::{all_ok_each, fold_ok};
use crate::message::{
    ContentView, MediaSourceView, MessageView, OutputView, ProviderToolCallView,
    RuntimeToolOutcomeView,
};
use crate::model::TurnOutputView;
use vstd::prelude::*;

verus! {

/// Whether a source is another with its reference replaced by what it stands for.
pub open spec fn sourced(
    before: MediaSourceView,
    after: MediaSourceView,
    known: Contents,
) -> bool {
    match before {
        MediaSourceView::Artifact { id, mime_type } => find(known, id) matches Some(content)
            && content.mime_type == mime_type && after == (MediaSourceView::Inline {
            mime_type,
            base64: content.base64,
        }),
        _ => after == before,
    }
}

/// Whether a part is another with its reference replaced by what it stands for, and is
/// otherwise the same.
pub open spec fn shown(before: ContentView, after: ContentView, known: Contents) -> bool {
    match before {
        ContentView::Image(source) => after matches ContentView::Image(found) && sourced(
            source,
            found,
            known,
        ),
        ContentView::Audio(source) => after matches ContentView::Audio(found) && sourced(
            source,
            found,
            known,
        ),
        ContentView::Video(source) => after matches ContentView::Video(found) && sourced(
            source,
            found,
            known,
        ),
        ContentView::File { source, name } => after matches ContentView::File {
            source: found,
            name: called,
        } && called == name && sourced(source, found, known),
        _ => after == before,
    }
}

/// Whether an output item is another with its parts so, and is otherwise the same.
pub open spec fn output_shown(before: OutputView, after: OutputView, known: Contents) -> bool {
    match before {
        OutputView::Content(content) => after matches OutputView::Content(found) && shown(
            content,
            found,
            known,
        ),
        OutputView::ProviderToolCall(call) => after matches OutputView::ProviderToolCall(found)
            && found == (ProviderToolCallView { output: found.output, data: found.data, ..call })
            && all_shown(call.output, found.output, known),
        _ => after == before,
    }
}

pub open spec fn all_shown(
    before: Seq<ContentView>,
    after: Seq<ContentView>,
    known: Contents,
) -> bool {
    &&& before.len() == after.len()
    &&& forall|i: int| 0 <= i < before.len() ==> shown(#[trigger] before[i], after[i], known)
}

/// Whether an outcome is another with its parts so, and is otherwise the same.
pub open spec fn outcome_shown(
    before: RuntimeToolOutcomeView,
    after: RuntimeToolOutcomeView,
    known: Contents,
) -> bool {
    match before {
        RuntimeToolOutcomeView::Success(contents) => after
            matches RuntimeToolOutcomeView::Success(found) && all_shown(contents, found, known),
        RuntimeToolOutcomeView::Accepted(contents) => after
            matches RuntimeToolOutcomeView::Accepted(found) && all_shown(contents, found, known),
        RuntimeToolOutcomeView::Waiting(contents) => after
            matches RuntimeToolOutcomeView::Waiting(found) && all_shown(contents, found, known),
        RuntimeToolOutcomeView::Failure { .. } => after == before,
    }
}

/// Whether a message is another with its parts so, and is otherwise the same: who says it, and
/// what it says.
pub open spec fn says_the_same(before: MessageView, after: MessageView, known: Contents) -> bool {
    match before {
        MessageView::System(contents) => after matches MessageView::System(found) && all_shown(
            contents,
            found,
            known,
        ),
        MessageView::User(contents) => after matches MessageView::User(found) && all_shown(
            contents,
            found,
            known,
        ),
        MessageView::External(contents) => after matches MessageView::External(found) && all_shown(
            contents,
            found,
            known,
        ),
        MessageView::Assistant { output, .. } => after matches MessageView::Assistant {
            output: said,
            ..
        } && said.len() == output.len() && forall|i: int|
            0 <= i < output.len() ==> output_shown(#[trigger] output[i], said[i], known),
        MessageView::RuntimeTool { call_id, outcome } => after matches MessageView::RuntimeTool {
            call_id: answered,
            outcome: told,
        } && answered == call_id && outcome_shown(outcome, told, known),
        _ => after == before,
    }
}

proof fn contents_are_shown(contents: Seq<ContentView>, known: Contents)
    ensures
        resolved_contents(contents, known) matches Ok(found) ==> all_shown(contents, found, known),
{
    if let Ok(found) = resolved_contents(contents, known) {
        let results = contents.map_values(|c: ContentView| resolved_content(c, known));
        all_ok_each(results);
        assert forall|i: int| 0 <= i < contents.len() implies shown(
            #[trigger] contents[i],
            found[i],
            known,
        ) by {
            assert(results[i] == Ok::<ContentView, StopView>(found[i]));
        }
    }
}

proof fn outputs_are_shown(output: Seq<OutputView>, known: Contents)
    ensures
        resolved_outputs(output, known) matches Ok(said) ==> said.len() == output.len() && forall|
            i: int,
        |
            0 <= i < output.len() ==> output_shown(#[trigger] output[i], said[i], known),
{
    if let Ok(said) = resolved_outputs(output, known) {
        let results = output.map_values(|o: OutputView| resolved_output(o, known));
        all_ok_each(results);
        assert forall|i: int| 0 <= i < output.len() implies output_shown(
            #[trigger] output[i],
            said[i],
            known,
        ) by {
            assert(results[i] == Ok::<OutputView, StopView>(said[i]));
            if let OutputView::ProviderToolCall(call) = output[i] {
                contents_are_shown(call.output, known);
            }
        }
    }
}

/// A resolved message says what it said: each reference is replaced by what the store holds
/// for it, and everything else stays.
pub proof fn resolving_changes_references_only(message: MessageView, known: Contents)
    ensures
        resolved_message(message, known) matches Ok(after) ==> says_the_same(message, after, known),
{
    match message {
        MessageView::System(contents) => contents_are_shown(contents, known),
        MessageView::User(contents) => contents_are_shown(contents, known),
        MessageView::External(contents) => contents_are_shown(contents, known),
        MessageView::Assistant { output, .. } => outputs_are_shown(output, known),
        MessageView::RuntimeTool { outcome, .. } => match outcome {
            RuntimeToolOutcomeView::Success(contents) => contents_are_shown(contents, known),
            RuntimeToolOutcomeView::Accepted(contents) => contents_are_shown(contents, known),
            RuntimeToolOutcomeView::Waiting(contents) => contents_are_shown(contents, known),
            _ => {},
        },
        _ => {},
    }
}

/// Resolved messages are the messages, one by one and in order.
pub proof fn resolving_keeps_the_messages(messages: Seq<MessageView>, known: Contents)
    ensures
        resolved_messages(messages, known) matches Ok(all) ==> all.len() == messages.len()
            && forall|i: int|
            0 <= i < messages.len() ==> says_the_same(#[trigger] messages[i], all[i], known),
{
    if let Ok(all) = resolved_messages(messages, known) {
        let results = messages.map_values(|m: MessageView| resolved_message(m, known));
        all_ok_each(results);
        assert forall|i: int| 0 <= i < messages.len() implies says_the_same(
            #[trigger] messages[i],
            all[i],
            known,
        ) by {
            assert(results[i] == Ok::<MessageView, StopView>(all[i]));
            resolving_changes_references_only(messages[i], known);
        }
    }
}

// ---------------------------------------------------------------------------------------
// Saving
// ---------------------------------------------------------------------------------------
/// Whether a source is another with its payload replaced by a reference to it.
pub open spec fn referred(before: MediaSourceView, after: MediaSourceView) -> bool {
    match before {
        MediaSourceView::Inline { mime_type, .. } => after matches MediaSourceView::Artifact {
            id,
            mime_type: given,
        } && given == mime_type && id.len() > 0,
        _ => after == before,
    }
}

/// Whether a part is another with its payload replaced by a reference to it, and is otherwise
/// the same.
pub open spec fn stored(before: ContentView, after: ContentView) -> bool {
    match before {
        ContentView::Image(source) => after matches ContentView::Image(found) && referred(
            source,
            found,
        ),
        ContentView::Audio(source) => after matches ContentView::Audio(found) && referred(
            source,
            found,
        ),
        ContentView::Video(source) => after matches ContentView::Video(found) && referred(
            source,
            found,
        ),
        ContentView::File { source, name } => after matches ContentView::File {
            source: found,
            name: called,
        } && called == name && referred(source, found),
        _ => after == before,
    }
}

/// Whether an output item is another with its payloads replaced, and is otherwise the same.
pub open spec fn item_stored(before: OutputView, after: OutputView) -> bool {
    match before {
        OutputView::Content(content) => after matches OutputView::Content(found) && stored(
            content,
            found,
        ),
        OutputView::ProviderToolCall(call) => after matches OutputView::ProviderToolCall(found)
            && found == (ProviderToolCallView { output: found.output, data: found.data, ..call }),
        _ => after == before,
    }
}

/// What the store is asked to keep is the payload as it is.
pub proof fn payloads_are_stored_as_they_are(
    mime_type: Seq<char>,
    base64: Seq<char>,
    run_id: Seq<char>,
    known: References,
)
    ensures
        match reference_for(mime_type, base64, run_id, known) {
            Err(StopView::Store { content, .. }) => content.mime_type == mime_type && content.base64
                == base64,
            Ok(reference) => reference.mime_type == mime_type && reference.id.len() > 0,
            _ => true,
        },
{
}

proof fn items_are_stored(
    output: Seq<OutputView>,
    ledger: LedgerView,
    run_id: Seq<char>,
    known: References,
)
    ensures
        fold_ok(
            output,
            ItemsView { output: Seq::empty(), ledger },
            save_item(run_id, known),
        ) matches Ok(items) ==> items.output.len() == output.len() && forall|i: int|
            0 <= i < output.len() ==> item_stored(#[trigger] output[i], items.output[i]),
    decreases output.len(),
{
    let start = ItemsView { output: Seq::empty(), ledger };
    let step = save_item(run_id, known);
    if output.len() > 0 {
        let front = output.drop_last();
        items_are_stored(front, ledger, run_id, known);
        if let Ok(items) = fold_ok(output, start, step) {
            let before = fold_ok(front, start, step)->Ok_0;
            assert(step(before, output.last()) == Ok::<ItemsView, StopView>(items));
            assert forall|i: int| 0 <= i < output.len() implies item_stored(
                #[trigger] output[i],
                items.output[i],
            ) by {
                if i < front.len() {
                    assert(front[i] == output[i]);
                }
            }
        }
    }
}

/// A saved response is the response, but for payloads that are replaced by references: what
/// it says and calls, its counts and all that is told of it stay.
pub proof fn saving_changes_payloads_only(
    response: TurnOutputView,
    run_id: Seq<char>,
    known: References,
)
    ensures
        saved(response, run_id, known) matches Ok(after) ==> {
            &&& after.output.len() == response.output.len()
            &&& forall|i: int|
                0 <= i < response.output.len() ==> item_stored(
                    #[trigger] response.output[i],
                    after.output[i],
                )
            &&& after.usage == response.usage
            &&& after.provider_turn_pending == response.provider_turn_pending
            &&& after.provider_data == response.provider_data
            &&& after.model_id == response.model_id
            &&& after.response_id == response.response_id
            &&& after.finish_reason == response.finish_reason
        },
{
    if let Ok(locations) = bindings_of(response.output) {
        let ledger = LedgerView { locations, claimed: Seq::empty(), payloads: Seq::empty() };
        items_are_stored(response.output, ledger, run_id, known);
    }
}

} // verus!
