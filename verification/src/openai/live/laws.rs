//! What a Live conversation is for: who said what is kept, what is said reaches the other side,
//! and what a command asks for is carried out before it is acknowledged.
use super::codec::{
    contents_text, context_message, context_messages, initial_item, message_text, opening_items,
    TextPartView, FRAGMENT_BYTES,
};
use super::protocol::{
    appended, audio_message, close_message, joined_parts, spoken, without, HostView, ProtocolView,
};
use crate::clock::Moment;
use crate::command::{SessionCommandBody, SessionEventBodyView, TurnDisposition};
use crate::error::{all_ok_each, ErrorView};
use crate::json::{json_text, printed, set_get, JsonView};
use crate::message::{ContentView, MessageView, OutputView};
use crate::text::{byte_len, concatenated, fragments, fragments_make_up_the_text};
use crate::webrtc::ActionView;
use vstd::prelude::*;

verus! {

proof fn kinds_differ()
    ensures
        "session.started"@ != "input_audio.paused"@,
        "session.started"@ != "input_audio.resumed"@,
        "session.started"@ != "turn.done"@,
        "session.started"@ != "delegation.created"@,
        "session.started"@ != "session.closed"@,
        "session.started"@ != "error"@,
        "input_audio.paused"@ != "input_audio.resumed"@,
        "input_audio.paused"@ != "turn.done"@,
        "input_audio.paused"@ != "delegation.created"@,
        "input_audio.paused"@ != "session.closed"@,
        "input_audio.paused"@ != "error"@,
        "input_audio.resumed"@ != "turn.done"@,
        "input_audio.resumed"@ != "delegation.created"@,
        "input_audio.resumed"@ != "session.closed"@,
        "input_audio.resumed"@ != "error"@,
        "turn.done"@ != "delegation.created"@,
        "turn.done"@ != "session.closed"@,
        "turn.done"@ != "error"@,
        "delegation.created"@ != "session.closed"@,
        "delegation.created"@ != "error"@,
        "session.closed"@ != "error"@,
{
    reveal_strlit("session.started");
    reveal_strlit("input_audio.paused");
    reveal_strlit("input_audio.resumed");
    reveal_strlit("turn.done");
    reveal_strlit("delegation.created");
    reveal_strlit("session.closed");
    reveal_strlit("error");
    assert("session.started"@.len() == 15);
    assert("input_audio.paused"@.len() == 18);
    assert("input_audio.resumed"@.len() == 19);
    assert("turn.done"@.len() == 9);
    assert("delegation.created"@.len() == 18);
    assert("session.closed"@.len() == 14);
    assert("error"@.len() == 5);
    assert("input_audio.paused"@[0] != "delegation.created"@[0]);
}

proof fn keys_differ()
    ensures
        "type"@ != "role"@,
        "type"@ != "content"@,
        "type"@ != "text"@,
        "type"@ != "event_id"@,
        "type"@ != "channel"@,
        "type"@ != "delegation_item_id"@,
        "type"@ != "model"@,
        "type"@ != "instructions"@,
        "type"@ != "audio"@,
        "type"@ != "delegation"@,
        "type"@ != "initial_items"@,
        "type"@ != "ack_filler"@,
        "type"@ != "session"@,
        "type"@ != "session_usage"@,
        "type"@ != "close_reason"@,
        "type"@ != "user"@,
        "type"@ != "assistant"@,
        "role"@ != "content"@,
        "role"@ != "text"@,
        "role"@ != "event_id"@,
        "role"@ != "channel"@,
        "role"@ != "delegation_item_id"@,
        "role"@ != "model"@,
        "role"@ != "instructions"@,
        "role"@ != "audio"@,
        "role"@ != "delegation"@,
        "role"@ != "initial_items"@,
        "role"@ != "ack_filler"@,
        "role"@ != "session"@,
        "role"@ != "session_usage"@,
        "role"@ != "close_reason"@,
        "role"@ != "user"@,
        "role"@ != "assistant"@,
        "content"@ != "text"@,
        "content"@ != "event_id"@,
        "content"@ != "channel"@,
        "content"@ != "delegation_item_id"@,
        "content"@ != "model"@,
        "content"@ != "instructions"@,
        "content"@ != "audio"@,
        "content"@ != "delegation"@,
        "content"@ != "initial_items"@,
        "content"@ != "ack_filler"@,
        "content"@ != "session"@,
        "content"@ != "session_usage"@,
        "content"@ != "close_reason"@,
        "content"@ != "user"@,
        "content"@ != "assistant"@,
        "text"@ != "event_id"@,
        "text"@ != "channel"@,
        "text"@ != "delegation_item_id"@,
        "text"@ != "model"@,
        "text"@ != "instructions"@,
        "text"@ != "audio"@,
        "text"@ != "delegation"@,
        "text"@ != "initial_items"@,
        "text"@ != "ack_filler"@,
        "text"@ != "session"@,
        "text"@ != "session_usage"@,
        "text"@ != "close_reason"@,
        "text"@ != "user"@,
        "text"@ != "assistant"@,
        "event_id"@ != "channel"@,
        "event_id"@ != "delegation_item_id"@,
        "event_id"@ != "model"@,
        "event_id"@ != "instructions"@,
        "event_id"@ != "audio"@,
        "event_id"@ != "delegation"@,
        "event_id"@ != "initial_items"@,
        "event_id"@ != "ack_filler"@,
        "event_id"@ != "session"@,
        "event_id"@ != "session_usage"@,
        "event_id"@ != "close_reason"@,
        "event_id"@ != "user"@,
        "event_id"@ != "assistant"@,
        "channel"@ != "delegation_item_id"@,
        "channel"@ != "model"@,
        "channel"@ != "instructions"@,
        "channel"@ != "audio"@,
        "channel"@ != "delegation"@,
        "channel"@ != "initial_items"@,
        "channel"@ != "ack_filler"@,
        "channel"@ != "session"@,
        "channel"@ != "session_usage"@,
        "channel"@ != "close_reason"@,
        "channel"@ != "user"@,
        "channel"@ != "assistant"@,
        "delegation_item_id"@ != "model"@,
        "delegation_item_id"@ != "instructions"@,
        "delegation_item_id"@ != "audio"@,
        "delegation_item_id"@ != "delegation"@,
        "delegation_item_id"@ != "initial_items"@,
        "delegation_item_id"@ != "ack_filler"@,
        "delegation_item_id"@ != "session"@,
        "delegation_item_id"@ != "session_usage"@,
        "delegation_item_id"@ != "close_reason"@,
        "delegation_item_id"@ != "user"@,
        "delegation_item_id"@ != "assistant"@,
        "model"@ != "instructions"@,
        "model"@ != "audio"@,
        "model"@ != "delegation"@,
        "model"@ != "initial_items"@,
        "model"@ != "ack_filler"@,
        "model"@ != "session"@,
        "model"@ != "session_usage"@,
        "model"@ != "close_reason"@,
        "model"@ != "user"@,
        "model"@ != "assistant"@,
        "instructions"@ != "audio"@,
        "instructions"@ != "delegation"@,
        "instructions"@ != "initial_items"@,
        "instructions"@ != "ack_filler"@,
        "instructions"@ != "session"@,
        "instructions"@ != "session_usage"@,
        "instructions"@ != "close_reason"@,
        "instructions"@ != "user"@,
        "instructions"@ != "assistant"@,
        "audio"@ != "delegation"@,
        "audio"@ != "initial_items"@,
        "audio"@ != "ack_filler"@,
        "audio"@ != "session"@,
        "audio"@ != "session_usage"@,
        "audio"@ != "close_reason"@,
        "audio"@ != "user"@,
        "audio"@ != "assistant"@,
        "delegation"@ != "initial_items"@,
        "delegation"@ != "ack_filler"@,
        "delegation"@ != "session"@,
        "delegation"@ != "session_usage"@,
        "delegation"@ != "close_reason"@,
        "delegation"@ != "user"@,
        "delegation"@ != "assistant"@,
        "initial_items"@ != "ack_filler"@,
        "initial_items"@ != "session"@,
        "initial_items"@ != "session_usage"@,
        "initial_items"@ != "close_reason"@,
        "initial_items"@ != "user"@,
        "initial_items"@ != "assistant"@,
        "ack_filler"@ != "session"@,
        "ack_filler"@ != "session_usage"@,
        "ack_filler"@ != "close_reason"@,
        "ack_filler"@ != "user"@,
        "ack_filler"@ != "assistant"@,
        "session"@ != "session_usage"@,
        "session"@ != "close_reason"@,
        "session"@ != "user"@,
        "session"@ != "assistant"@,
        "session_usage"@ != "close_reason"@,
        "session_usage"@ != "user"@,
        "session_usage"@ != "assistant"@,
        "close_reason"@ != "user"@,
        "close_reason"@ != "assistant"@,
        "user"@ != "assistant"@,
{
    reveal_strlit("type");
    reveal_strlit("role");
    reveal_strlit("content");
    reveal_strlit("text");
    reveal_strlit("event_id");
    reveal_strlit("channel");
    reveal_strlit("delegation_item_id");
    reveal_strlit("model");
    reveal_strlit("instructions");
    reveal_strlit("audio");
    reveal_strlit("delegation");
    reveal_strlit("initial_items");
    reveal_strlit("ack_filler");
    reveal_strlit("session");
    reveal_strlit("session_usage");
    reveal_strlit("close_reason");
    reveal_strlit("user");
    reveal_strlit("assistant");
    assert("type"@.len() == 4);
    assert("role"@.len() == 4);
    assert("content"@.len() == 7);
    assert("text"@.len() == 4);
    assert("event_id"@.len() == 8);
    assert("channel"@.len() == 7);
    assert("delegation_item_id"@.len() == 18);
    assert("model"@.len() == 5);
    assert("instructions"@.len() == 12);
    assert("audio"@.len() == 5);
    assert("delegation"@.len() == 10);
    assert("initial_items"@.len() == 13);
    assert("ack_filler"@.len() == 10);
    assert("session"@.len() == 7);
    assert("session_usage"@.len() == 13);
    assert("close_reason"@.len() == 12);
    assert("user"@.len() == 4);
    assert("assistant"@.len() == 9);
    assert("type"@[0] != "role"@[0]);
    assert("type"@[1] != "text"@[1]);
    assert("type"@[0] != "user"@[0]);
    assert("role"@[0] != "text"@[0]);
    assert("role"@[0] != "user"@[0]);
    assert("content"@[1] != "channel"@[1]);
    assert("content"@[0] != "session"@[0]);
    assert("text"@[0] != "user"@[0]);
    assert("channel"@[0] != "session"@[0]);
    assert("model"@[0] != "audio"@[0]);
    assert("instructions"@[0] != "close_reason"@[0]);
    assert("delegation"@[0] != "ack_filler"@[0]);
    assert("initial_items"@[0] != "session_usage"@[0]);
}

// ---------------------------------------------------------------------------------------
// Who said what
// ---------------------------------------------------------------------------------------
/// Whether the text of an event reads as an event of a kind.
pub open spec fn reads_as(text: Seq<char>, value: JsonView, kind: Seq<char>) -> bool {
    &&& json_text(text) == Ok::<JsonView, Seq<char>>(value)
    &&& value is Object
    &&& value.get_str("type"@) == Some(kind)
}

/// Whether a value tells of a turn of the conversation.
pub open spec fn tells_turn(
    value: JsonView,
    id: Seq<char>,
    role: Seq<char>,
    transcript: Seq<char>,
) -> bool {
    &&& value is Object
    &&& value.get_str("id"@) == Some(id)
    &&& value.get_str("role"@) == Some(role)
    &&& value.get_str("transcript"@) == Some(transcript)
}

/// What was said is recorded under who said it: as a message of the user or of the assistant,
/// with the transcript as its only text. Nobody else speaks.
pub proof fn speakers_are_told_apart(
    protocol: ProtocolView,
    text: Seq<char>,
    now: Moment,
    value: JsonView,
    id: Seq<char>,
    role: Seq<char>,
    transcript: Seq<char>,
)
    requires
        reads_as(text, value, "turn.done"@),
        tells_turn(value.field("turn"@), id, role, transcript),
        id.len() > 0,
        protocol.phase is Active || protocol.phase is Draining,
        protocol.confirmation.checked(now) is Ok,
    ensures
        protocol.read(text, now).0 == protocol,
        match protocol.read(text, now).1 {
            Ok(actions) => {
                &&& actions.len() == 1
                &&& actions[0] matches ActionView::Event(
                    SessionEventBodyView::ConversationItem { item_id, message },
                ) && item_id == id && {
                    ||| role == "user"@ && message == MessageView::User(
                        seq![ContentView::Text(transcript)],
                    )
                    ||| role == "assistant"@ && (message matches MessageView::Assistant {
                        output,
                        ..
                    } && output == seq![OutputView::Content(ContentView::Text(transcript))])
                }
            },
            Err(_) => role != "user"@ && role != "assistant"@,
        },
{
    kinds_differ();
    keys_differ();
}

/// Whether an item that a conversation begins with holds a text in a role.
pub open spec fn begins_with(
    item: JsonView,
    role: Seq<char>,
    kind: Seq<char>,
    text: Seq<char>,
) -> bool {
    &&& item.get_str("type"@) == Some("message"@)
    &&& item.get_str("role"@) == Some(role)
    &&& item.get_array("content"@) matches Some(parts) && parts.len() == 1 && parts[0].get_str(
        "type"@,
    ) == Some(kind) && parts[0].get_str("text"@) == Some(text)
}

/// What was recorded of a conversation can begin another one: with the same role and the same
/// text.
pub proof fn records_begin_a_conversation(role: Seq<char>, transcript: Seq<char>)
    ensures
        role == "user"@ ==> (spoken(role, transcript) matches Some(message) && (initial_item(
            message,
        ) matches Ok(item) && begins_with(item, "user"@, "input_text"@, transcript))),
        role == "assistant"@ ==> (spoken(role, transcript) matches Some(message) && (initial_item(
            message,
        ) matches Ok(item) && begins_with(item, "assistant"@, "output_text"@, transcript))),
{
    broadcast use set_get;

    keys_differ();
    one_text(transcript);
    if role == "assistant"@ {
        let output = seq![OutputView::text(transcript)];
        let contents = Seq::new(output.len(), |i: int| output[i]->Content_0);
        assert(contents =~= seq![ContentView::Text(transcript)]);
    }
}

/// A conversation begins with one item for each message, in order: what the system says as
/// the developer's, what the user says or comes from outside as the user's, what the assistant
/// said as its own. It does not begin with anything else.
pub proof fn a_conversation_begins_with_its_messages(messages: Seq<MessageView>)
    ensures
        opening_items(messages) matches Ok(items) ==> {
            &&& items.len() == messages.len()
            &&& forall|i: int|
                0 <= i < messages.len() ==> (message_text(#[trigger] messages[i]) matches Ok(text)
                    && match messages[i] {
                    MessageView::System(_) => begins_with(
                        items[i],
                        "developer"@,
                        "input_text"@,
                        text,
                    ),
                    MessageView::User(_) => begins_with(items[i], "user"@, "input_text"@, text),
                    MessageView::External(_) => begins_with(items[i], "user"@, "input_text"@, text),
                    MessageView::Assistant { .. } => begins_with(
                        items[i],
                        "assistant"@,
                        "output_text"@,
                        text,
                    ),
                    _ => false,
                })
        },
{
    let results = Seq::new(messages.len(), |i: int| initial_item(messages[i]));
    if let Ok(items) = opening_items(messages) {
        all_ok_each(results);
        assert forall|i: int| 0 <= i < messages.len() implies (message_text(#[trigger] messages[i])
            matches Ok(text) && match messages[i] {
            MessageView::System(_) => begins_with(items[i], "developer"@, "input_text"@, text),
            MessageView::User(_) => begins_with(items[i], "user"@, "input_text"@, text),
            MessageView::External(_) => begins_with(items[i], "user"@, "input_text"@, text),
            MessageView::Assistant { .. } => begins_with(
                items[i],
                "assistant"@,
                "output_text"@,
                text,
            ),
            _ => false,
        }) by {
            broadcast use set_get;

            keys_differ();
            assert(results[i] == Ok::<JsonView, ErrorView>(items[i]));
        }
    }
}

proof fn one_text(text: Seq<char>)
    ensures
        contents_text(seq![ContentView::Text(text)]) == Ok::<Seq<char>, ErrorView>(text),
{
    let contents = seq![ContentView::Text(text)];
    assert(contents.drop_last() =~= Seq::empty());
    assert(contents_text(contents.drop_last()) == Ok::<Seq<char>, ErrorView>(Seq::empty()));
    assert(Seq::<char>::empty() + text =~= text);
}

/// The text of a message is that of its parts, one behind the other: one text is itself, and
/// whether the last two are two texts or one makes no difference. Nothing but text has one.
pub proof fn texts_are_told_together(
    contents: Seq<ContentView>,
    first: Seq<char>,
    second: Seq<char>,
    i: int,
)
    ensures
        message_text(MessageView::User(seq![ContentView::Text(first)])) == Ok::<
            Seq<char>,
            ErrorView,
        >(first),
        message_text(
            MessageView::User(
                contents.push(ContentView::Text(first)).push(ContentView::Text(second)),
            ),
        ) == message_text(MessageView::User(contents.push(ContentView::Text(first + second)))),
        message_text(MessageView::System(contents)) == message_text(MessageView::User(contents)),
        message_text(MessageView::External(contents)) == message_text(MessageView::User(contents)),
        0 <= i < contents.len() && !(contents[i] is Text) ==> message_text(
            MessageView::User(contents),
        ) is Err,
{
    one_text(first);
    let one = contents.push(ContentView::Text(first + second));
    let front = contents.push(ContentView::Text(first));
    let two = front.push(ContentView::Text(second));
    assert(one.drop_last() =~= contents);
    assert(front.drop_last() =~= contents);
    assert(two.drop_last() =~= front);
    if let Ok(text) = contents_text(contents) {
        assert(contents_text(front) == Ok::<Seq<char>, ErrorView>(text + first));
        assert(contents_text(two) == Ok::<Seq<char>, ErrorView>(text + first + second));
        assert(contents_text(one) == Ok::<Seq<char>, ErrorView>(text + (first + second)));
        assert(text + first + second =~= text + (first + second));
    } else {
        assert(contents_text(front) is Err);
    }
    if 0 <= i < contents.len() && !(contents[i] is Text) {
        no_text(contents, i);
    }
}

proof fn no_text(contents: Seq<ContentView>, i: int)
    requires
        0 <= i < contents.len(),
        !(contents[i] is Text),
    ensures
        contents_text(contents) is Err,
    decreases contents.len(),
{
    if i < contents.len() - 1 {
        assert(contents.drop_last()[i] == contents[i]);
        no_text(contents.drop_last(), i);
    }
}

// ---------------------------------------------------------------------------------------
// What is said to the service
// ---------------------------------------------------------------------------------------
/// Whether an action sends a piece of context.
pub open spec fn sends_piece(
    action: ActionView,
    message: JsonView,
    kind: Seq<char>,
    piece: Seq<char>,
    delegation: Option<Seq<char>>,
    channel: Seq<char>,
) -> bool {
    &&& action == ActionView::Send(printed(message))
    &&& message.get_str("type"@) == Some(kind)
    &&& message.get_str("channel"@) == Some(channel)
    &&& message.get_str("delegation_item_id"@) == delegation
    &&& message.get_array("content"@) matches Some(parts) && parts.len() == 1 && parts[0].get_str(
        "type"@,
    ) == Some("input_text"@) && parts[0].get_str("text"@) == Some(piece)
}

/// Whether actions send the pieces of a text, one behind the other.
pub open spec fn send_pieces(
    actions: Seq<ActionView>,
    messages: Seq<JsonView>,
    pieces: Seq<Seq<char>>,
    kind: Seq<char>,
    delegation: Option<Seq<char>>,
    channel: Seq<char>,
) -> bool {
    &&& actions.len() == pieces.len()
    &&& messages.len() == pieces.len()
    &&& forall|i: int|
        0 <= i < pieces.len() ==> sends_piece(
            #[trigger] actions[i],
            messages[i],
            kind,
            pieces[i],
            delegation,
            channel,
        )
    &&& forall|i: int| 0 <= i < pieces.len() ==> byte_len(#[trigger] pieces[i]) <= 500
}

/// Whether actions send a text, in pieces that a message can hold.
pub open spec fn send_text(
    actions: Seq<ActionView>,
    kind: Seq<char>,
    text: Seq<char>,
    delegation: Option<Seq<char>>,
    channel: Seq<char>,
) -> bool {
    exists|messages: Seq<JsonView>, pieces: Seq<Seq<char>>| #[trigger]
        send_pieces(actions, messages, pieces, kind, delegation, channel) && concatenated(pieces)
            == text
}

/// Context is sent whole: the pieces of the messages, one behind the other, are the text.
pub proof fn context_is_sent_whole(
    kind: Seq<char>,
    id: Seq<char>,
    text: Seq<char>,
    delegation: Option<Seq<char>>,
    channel: Seq<char>,
)
    ensures
        send_text(appended(kind, id, text, delegation, channel), kind, text, delegation, channel),
{
    let actions = appended(kind, id, text, delegation, channel);
    let messages = context_messages(kind, id, text, delegation, channel);
    let pieces = fragments(text, FRAGMENT_BYTES as nat);
    fragments_make_up_the_text(text, FRAGMENT_BYTES as nat);
    assert forall|i: int| 0 <= i < pieces.len() implies sends_piece(
        #[trigger] actions[i],
        messages[i],
        kind,
        pieces[i],
        delegation,
        channel,
    ) by {
        broadcast use set_get;

        keys_differ();
        assert(messages[i] == context_message(
            kind,
            id,
            i as nat,
            pieces[i],
            delegation,
            channel,
        ));
    }
    assert(send_pieces(actions, messages, pieces, kind, delegation, channel) && concatenated(pieces)
        == text);
}

/// Whether an action acknowledges a command.
pub open spec fn acknowledges(action: ActionView, id: Seq<char>) -> bool {
    action matches ActionView::Event(SessionEventBodyView::Acknowledged { command_id, .. })
        && command_id == id
}

/// What is put in is sent to the service whole, as commentary, and acknowledged.
pub proof fn input_is_sent(
    protocol: ProtocolView,
    id: Seq<char>,
    body: SessionCommandBody,
    host: HostView,
    now: Moment,
)
    requires
        body is Input,
        id.len() > 0,
        protocol.commands_allowed(),
    ensures
        body matches SessionCommandBody::Input(message) && match protocol.commanded(
            id,
            body,
            host,
            now,
        ) {
            (next, Ok(actions)) => {
                &&& next == protocol
                &&& actions.len() > 0
                &&& acknowledges(actions.last(), id)
                &&& message_text(message@) matches Ok(text) && send_text(
                    actions.drop_last(),
                    "session.context.append"@,
                    text,
                    None,
                    "commentary"@,
                )
            },
            (next, Err(_)) => next == protocol && (message_text(message@) is Err || !(
            protocol.phase is Active) || protocol.end_id is Some || protocol.close_id is Some),
        },
{
    if let SessionCommandBody::Input(message) = body {
        if let (_, Ok(actions)) = protocol.commanded(id, body, host, now) {
            let kind = "session.context.append"@;
            let text = message_text(message@)->Ok_0;
            let sent = appended(kind, id, text, None, "commentary"@);
            context_is_sent_whole(kind, id, text, None, "commentary"@);
            assert(actions.drop_last() =~= sent);
        }
    }
}

proof fn only_one_leaves(ids: Seq<Seq<char>>, id: Seq<char>, other: Seq<char>)
    ensures
        without(ids, id).contains(other) <==> ids.contains(other) && other != id,
    decreases ids.len(),
{
    reveal(Seq::filter);
    if ids.len() > 0 {
        let front = ids.drop_last();
        let left = without(front, id);
        only_one_leaves(front, id, other);
        if ids.contains(other) {
            let j = choose|j: int| 0 <= j < ids.len() && ids[j] == other;
            if j < front.len() {
                assert(front[j] == other);
            }
        }
        if front.contains(other) {
            let j = choose|j: int| 0 <= j < front.len() && front[j] == other;
            assert(ids[j] == other);
        }
        assert(ids[ids.len() - 1] == ids.last());
        if ids.last() != id {
            let all = left.push(ids.last());
            assert(without(ids, id) == all);
            assert(all[left.len() as int] == ids.last());
            if all.contains(other) {
                let j = choose|j: int| 0 <= j < all.len() && all[j] == other;
                if j < left.len() {
                    assert(left[j] == other);
                }
            }
            if left.contains(other) {
                let j = choose|j: int| 0 <= j < left.len() && left[j] == other;
                assert(all[j] == other);
            }
        } else {
            assert(without(ids, id) == left);
        }
    }
}

/// What is said of a delegation under way is sent to the service whole, under its identity:
/// as commentary until its result is known, which is to be spoken, and after which the
/// delegation is done.
pub proof fn delegations_are_answered(
    protocol: ProtocolView,
    id: Seq<char>,
    body: SessionCommandBody,
    host: HostView,
    now: Moment,
)
    requires
        body is DelegationContext || body is DelegationResult,
        id.len() > 0,
        protocol.commands_allowed(),
        protocol.end_id is None,
    ensures
        ({
            let (next, result) = protocol.commanded(id, body, host, now);
            let call_id = match body {
                SessionCommandBody::DelegationContext { call_id, .. } => call_id@,
                SessionCommandBody::DelegationResult { call_id, .. } => call_id@,
                _ => Seq::empty(),
            };
            match result {
                Ok(actions) => {
                    &&& protocol.delegations.contains(call_id)
                    &&& actions.len() > 0
                    &&& acknowledges(actions.last(), id)
                    &&& host.rendered matches Ok(text) && send_text(
                        actions.drop_last(),
                        "delegation.context.append"@,
                        text,
                        Some(call_id),
                        if body is DelegationResult {
                            "speakable"@
                        } else {
                            "commentary"@
                        },
                    )
                    &&& forall|other: Seq<char>|
                        #![trigger next.delegations.contains(other)]
                        next.delegations.contains(other) <==> protocol.delegations.contains(other)
                            && !(body is DelegationResult && other == call_id)
                },
                Err(_) => next == protocol && (!(protocol.phase is Active)
                    || !protocol.delegations.contains(call_id) || host.rendered is Err),
            }
        }),
{
    let (next, result) = protocol.commanded(id, body, host, now);
    let call_id = match body {
        SessionCommandBody::DelegationContext { call_id, .. } => call_id@,
        SessionCommandBody::DelegationResult { call_id, .. } => call_id@,
        _ => Seq::empty(),
    };
    if let Ok(actions) = result {
        let kind = "delegation.context.append"@;
        let channel = if body is DelegationResult {
            "speakable"@
        } else {
            "commentary"@
        };
        let text = host.rendered->Ok_0;
        let sent = appended(kind, id, text, Some(call_id), channel);
        context_is_sent_whole(kind, id, text, Some(call_id), channel);
        assert(actions.drop_last() =~= sent);
        let all = protocol.delegations;
        let left = without(all, call_id);
        if body is DelegationResult {
            assert forall|other: Seq<char>|
                #![trigger next.delegations.contains(other)]
                next.delegations.contains(other) <==> all.contains(other) && other != call_id by {
                only_one_leaves(all, call_id, other);
                assert(next.delegations == left);
            }
        }
    }
}

/// Whether a value tells of a delegation to the client.
pub open spec fn tells_delegation(value: JsonView, id: Seq<char>, parts: Seq<JsonView>) -> bool {
    &&& value is Object
    &&& value.get_str("type"@) == Some("delegation"@)
    &&& value.get_str("id"@) == Some(id)
    &&& value.get_str("target"@) == Some("client"@)
    &&& value.get_array("content"@) == Some(parts)
    &&& forall|i: int|
        0 <= i < parts.len() ==> (#[trigger] parts[i]) is Object && parts[i].get_str("type"@)
            == Some("input_text"@) && parts[i].get_str("text"@) is Some
}

/// The texts of parts, in order.
pub open spec fn part_texts(parts: Seq<JsonView>) -> Seq<Seq<char>> {
    parts.map_values(|part: JsonView| part.get_str("text"@)->0)
}

proof fn joined_parts_push(parts: Seq<TextPartView>, texts: Seq<Seq<char>>)
    requires
        parts.len() == texts.len(),
        forall|i: int| 0 <= i < parts.len() ==> (#[trigger] parts[i]).text == texts[i],
    ensures
        joined_parts(parts) == concatenated(texts),
    decreases parts.len(),
{
    if parts.len() > 0 {
        let front = parts.drop_last();
        let before = texts.drop_last();
        assert forall|i: int| 0 <= i < front.len() implies (#[trigger] front[i]).text
            == before[i] by {
            assert(front[i] == parts[i]);
        }
        joined_parts_push(front, before);
        concatenated_push(before, texts.last());
        assert(before.push(texts.last()) =~= texts);
        assert(parts[parts.len() - 1].text == texts.last());
    }
}

proof fn concatenated_push(texts: Seq<Seq<char>>, text: Seq<char>)
    ensures
        concatenated(texts.push(text)) == concatenated(texts) + text,
    decreases texts.len(),
{
    let all = texts.push(text);
    if texts.len() == 0 {
        assert(all.drop_first() =~= Seq::empty());
        assert(concatenated(all.drop_first()) =~= Seq::empty());
        assert(text + Seq::empty() =~= Seq::<char>::empty() + text);
    } else {
        concatenated_push(texts.drop_first(), text);
        assert(all.drop_first() =~= texts.drop_first().push(text));
        assert(concatenated(all) =~= concatenated(texts) + text);
    }
}

/// A delegation of the service is handed out with its identity and with the text of its parts,
/// one behind the other, as its prompt; it is then under way.
pub proof fn delegations_are_handed_out(
    protocol: ProtocolView,
    text: Seq<char>,
    now: Moment,
    value: JsonView,
    id: Seq<char>,
    parts: Seq<JsonView>,
)
    requires
        reads_as(text, value, "delegation.created"@),
        tells_delegation(value.field("item"@), id, parts),
        id.len() > 0,
        protocol.phase is Active,
        protocol.turn is Some,
        protocol.delegations.len() < protocol.max_delegations,
        protocol.confirmation.checked(now) is Ok,
    ensures
        protocol.read(text, now) matches (next, Ok(actions)) && {
            &&& next.delegations.contains(id)
            &&& forall|other: Seq<char>|
                #![trigger next.delegations.contains(other)]
                protocol.delegations.contains(other) ==> next.delegations.contains(other)
            &&& actions.len() == 1
            &&& actions[0] matches ActionView::Event(
                SessionEventBodyView::Output { turn_id, item_id, output, .. },
            ) && turn_id == protocol.turn && item_id == id && (output
                matches OutputView::Delegation { id: given, prompt } && given == id && prompt
                == concatenated(part_texts(parts)))
        },
{
    kinds_differ();
    keys_differ();
    let item = value.field("item"@);
    assert forall|i: int| 0 <= i < parts.len() implies super::codec::read_part(
        #[trigger] parts[i],
    ) is Some by {
        assert(parts[i] is Object);
    }
    let content = super::codec::read_parts(parts)->0;
    assert forall|i: int| 0 <= i < content.len() implies (#[trigger] content[i]).kind
        == "input_text"@ by {
        assert(parts[i] is Object);
    }
    assert forall|i: int| 0 <= i < content.len() implies (#[trigger] content[i]).text
        == part_texts(parts)[i] by {
        assert(parts[i] is Object);
    }
    joined_parts_push(content, part_texts(parts));
    let known = protocol.delegations;
    let (next, _) = protocol.read(text, now);
    if !known.contains(id) {
        assert(known.push(id)[known.len() as int] == id);
        assert forall|other: Seq<char>| known.contains(other) implies known.push(id).contains(
            other,
        ) by {
            let i = choose|i: int| 0 <= i < known.len() && known[i] == other;
            assert(known.push(id)[i] == other);
        }
    }
}

// ---------------------------------------------------------------------------------------
// Commands that the service confirms
// ---------------------------------------------------------------------------------------
/// Whether an action sends the service a message of a kind.
pub open spec fn sends_kind(action: ActionView, message: JsonView, kind: Seq<char>) -> bool {
    action == ActionView::Send(printed(message)) && message.get_str("type"@) == Some(kind)
}

/// What switches the input of audio.
pub open spec fn switch(enabled: bool) -> Seq<char> {
    if enabled {
        "input_audio.resume"@
    } else {
        "input_audio.pause"@
    }
}

/// The input of audio is switched on by resuming it and off by pausing it. The command is
/// acknowledged once the service says that it did so, and is not by the opposite.
pub proof fn audio_is_switched(
    protocol: ProtocolView,
    id: Seq<char>,
    enabled: bool,
    host: HostView,
    now: Moment,
    later: Moment,
    text: Seq<char>,
    value: JsonView,
    resumed: bool,
)
    requires
        protocol.commanded(id, SessionCommandBody::SetInputAudio(enabled), host, now).1 is Ok,
        reads_as(
            text,
            value,
            if resumed {
                "input_audio.resumed"@
            } else {
                "input_audio.paused"@
            },
        ),
        later.at < now.at + protocol.config.command_timeout,
    ensures
        ({
            let (waiting, result) = protocol.commanded(
                id,
                SessionCommandBody::SetInputAudio(enabled),
                host,
                now,
            );
            let actions = result->Ok_0;
            &&& actions.len() == 1
            &&& exists|message: JsonView| #[trigger]
                sends_kind(actions[0], message, switch(enabled)) && message.get_str("event_id"@)
                    == Some(id)
            &&& match waiting.read(text, later) {
                (next, Ok(replies)) => {
                    &&& resumed == enabled
                    &&& next == protocol
                    &&& replies.len() == 1
                    &&& acknowledges(replies[0], id)
                },
                (next, Err(_)) => resumed != enabled && next == waiting,
            }
        }),
{
    broadcast use set_get;

    kinds_differ();
    keys_differ();
    let actions = protocol.commanded(
        id,
        SessionCommandBody::SetInputAudio(enabled),
        host,
        now,
    ).1->Ok_0;
    let message = audio_message(enabled, id);
    assert(sends_kind(actions[0], message, switch(enabled)) && message.get_str("event_id"@) == Some(
        id,
    ));
}

/// Whether a session is asked for as it was set up, beginning with items.
pub open spec fn asks_for(payload: JsonView, protocol: ProtocolView, items: Seq<JsonView>) -> bool {
    &&& payload.get_str("model"@) == Some(protocol.config.model@)
    &&& payload.get_str("instructions"@) == Some(protocol.config.instructions@)
    &&& payload.field("audio"@).field("output"@).get_str("voice"@) == Some(protocol.config.voice@)
    &&& payload.field("delegation"@).get_str("type"@) == Some("client"@)
    &&& payload.get_array("initial_items"@) == Some(items)
}

/// A turn asks for a session with the model, the voice and the instructions that were set and
/// with what was said before. The command is acknowledged once the service has started the
/// session, which is then active.
pub proof fn a_session_is_started(
    protocol: ProtocolView,
    id: Seq<char>,
    body: SessionCommandBody,
    host: HostView,
    now: Moment,
    later: Moment,
    text: Seq<char>,
    value: JsonView,
)
    requires
        body is StartTurn,
        protocol.commanded(id, body, host, now).1 is Ok,
        reads_as(text, value, "session.started"@),
        value.field("session"@).str_or_empty("id"@).len() > 0,
        later.at < now.at + protocol.config.connect_timeout,
    ensures
        body matches SessionCommandBody::StartTurn { turn_id, request } && {
            let (waiting, result) = protocol.commanded(id, body, host, now);
            let actions = result->Ok_0;
            &&& protocol.phase is Idle
            &&& actions.len() == 1
            &&& actions[0] matches ActionView::Connect { payload, deadline, .. } && deadline
                == now.at + protocol.config.connect_timeout && (opening_items(
                request.messages.deep_view(),
            ) matches Ok(items) && asks_for(payload, protocol, items))
            &&& waiting.read(text, later) matches (next, Ok(replies)) && {
                &&& next.phase is Active
                &&& next.turn == Some(turn_id@)
                &&& next.remote_session == value.field("session"@)
                &&& next.confirmation.pending is None
                &&& replies.len() == 1
                &&& acknowledges(replies[0], id)
            }
        },
{
    broadcast use set_get;

    kinds_differ();
    keys_differ();
}

/// Whether a value tells that a session is closed.
pub open spec fn tells_closure(value: JsonView, reason: Seq<char>, usage: JsonView) -> bool {
    value.get_str("reason"@) == Some(reason) && value.get("usage"@) == Some(usage)
}

/// The end of the input, with no delegation under way, and the wish to close ask the service
/// to close. When it did so on that request, the line is cut; what came in until that is taken, and
/// only at the very end is the command acknowledged and the turn reported, as the service
/// closed it.
pub proof fn a_session_is_closed(
    protocol: ProtocolView,
    id: Seq<char>,
    body: SessionCommandBody,
    host: HostView,
    now: Moment,
    later: Moment,
    text: Seq<char>,
    value: JsonView,
    usage: JsonView,
)
    requires
        body is EndInput || body is Close,
        protocol.phase is Active,
        protocol.end_id is None,
        protocol.close_id is None,
        protocol.turn is Some,
        body is EndInput ==> protocol.delegations.len() == 0,
        protocol.commanded(id, body, host, now).1 is Ok,
        reads_as(text, value, "session.closed"@),
        tells_closure(value, "client_request"@, usage),
        later.at < now.at + protocol.config.command_timeout,
    ensures
        ({
            let (waiting, result) = protocol.commanded(id, body, host, now);
            let actions = result->Ok_0;
            &&& actions.len() > 0
            &&& body is EndInput ==> actions.len() == 2 && actions[0] is DrainInput
            &&& body is Close ==> actions.len() == 1
            &&& exists|message: JsonView| #[trigger]
                sends_kind(actions.last(), message, "session.close"@)
            &&& waiting.read(text, later) matches (draining, Ok(replies)) && {
                &&& replies == seq![ActionView::Disconnect]
                &&& draining.finalized() matches (last, Ok(reports)) && {
                    &&& if body is Close {
                        last.phase is Closed
                    } else {
                        last.phase is Finished
                    }
                    &&& reports.len() == 3
                    &&& acknowledges(reports[0], id)
                    &&& reports[1] matches ActionView::Event(
                        SessionEventBodyView::TurnFinished { disposition, end },
                    ) && {
                        &&& disposition == TurnDisposition::Finished
                        &&& protocol.turn == Some(end.turn_id)
                        &&& end.model_id == Some(protocol.config.model@)
                        &&& end.response_id == protocol.remote_session.get_str("id"@)
                        &&& end.finish_reason == Some("client_request"@)
                        &&& end.provider_data.get("session"@) == Some(protocol.remote_session)
                        &&& end.provider_data.get("session_usage"@) == Some(usage)
                        &&& end.provider_data.get_str("close_reason"@) == Some("client_request"@)
                    }
                    &&& reports[2] == ActionView::Event(SessionEventBodyView::Closed(None))
                }
            }
        }),
{
    broadcast use set_get;

    kinds_differ();
    keys_differ();
    reveal_strlit("connection_lost");
    reveal_strlit("client_request");
    assert("connection_lost"@.len() != "client_request"@.len());
    let (waiting, result) = protocol.commanded(id, body, host, now);
    let message = close_message();
    assert(sends_kind(result->Ok_0.last(), message, "session.close"@));
    let (draining, replies) = waiting.read(text, later);
    assert(replies is Ok);
    let (last, reports) = draining.finalized();
    assert(reports is Ok);
    assert(reports->Ok_0.len() == 3);
}

/// An error of the service ends in a failure that carries its code and its words.
pub proof fn failures_are_reported(
    protocol: ProtocolView,
    text: Seq<char>,
    now: Moment,
    value: JsonView,
    code: Seq<char>,
    message: Seq<char>,
)
    requires
        reads_as(text, value, "error"@),
        value.field("error"@) is Object,
        value.field("error"@).get_str("code"@) == Some(code),
        value.field("error"@).get_str("message"@) == Some(message),
        protocol.confirmation.checked(now) is Ok,
    ensures
        protocol.read(text, now) matches (next, Ok(actions)) && next == protocol && actions.len()
            == 2 && (actions[1] matches ActionView::Fail(ErrorView::Model(failure)) && failure.code
            == code && failure.message == message && !failure.retryable),
{
    kinds_differ();
}

} // verus!
