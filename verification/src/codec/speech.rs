//! What a synthesis speaks: that the text of a conversation reaches the service, and its audio
//! the listener.
use crate::codec::minimax_tts::{
    admissible, all_text, continue_message, event_message, joined_text, last_user, opening_text,
    spoken_text, start_message, PhaseView, SessionView,
};
use crate::command::{SessionCommandBody, SessionEventBodyView, TurnDisposition};
use crate::error::ErrorView;
use crate::json::{printed, set_get, JsonView};
use crate::message::{ContentView, MessageView};
use crate::model::{ModelDeltaView, ModelRequest};
use crate::streaming::minimax_tts::{all_hex, audio_bytes, hex_value, unhex};
use crate::text::blank;
use crate::transport::websocket::WireMessageView;
use crate::websocket::ActionView;
use vstd::prelude::*;
use vstd::utf8::encode_utf8;

verus! {

proof fn events_differ()
    ensures
        "connected_success"@ != "task_started"@,
        "connected_success"@ != "task_canceled"@,
        "connected_success"@ != "task_finished"@,
        "connected_success"@ != "sentence_start"@,
        "connected_success"@ != "sentence_end"@,
        "connected_success"@ != "task_continued"@,
        "task_started"@ != "task_canceled"@,
        "task_started"@ != "task_finished"@,
        "task_started"@ != "sentence_start"@,
        "task_started"@ != "sentence_end"@,
        "task_started"@ != "task_continued"@,
        "task_canceled"@ != "task_finished"@,
        "task_canceled"@ != "sentence_start"@,
        "task_canceled"@ != "sentence_end"@,
        "task_canceled"@ != "task_continued"@,
        "task_finished"@ != "sentence_start"@,
        "task_finished"@ != "sentence_end"@,
        "task_finished"@ != "task_continued"@,
        "sentence_start"@ != "sentence_end"@,
        "sentence_start"@ != "task_continued"@,
        "sentence_end"@ != "task_continued"@,
{
    reveal_strlit("connected_success");
    reveal_strlit("task_started");
    reveal_strlit("task_canceled");
    reveal_strlit("task_finished");
    reveal_strlit("sentence_start");
    reveal_strlit("sentence_end");
    reveal_strlit("task_continued");
    assert("connected_success"@.len() == 17);
    assert("task_started"@.len() == 12);
    assert("task_canceled"@.len() == 13);
    assert("task_finished"@.len() == 13);
    assert("sentence_start"@.len() == 14);
    assert("sentence_end"@.len() == 12);
    assert("task_continued"@.len() == 14);
    assert("task_started"@[0] != "sentence_end"@[0]);
    assert("task_canceled"@[5] != "task_finished"@[5]);
    assert("sentence_start"@[0] != "task_continued"@[0]);
}

proof fn speech_keys_differ()
    ensures
        "event"@ != "model"@,
        "event"@ != "voice_setting"@,
        "event"@ != "audio_setting"@,
        "event"@ != "text"@,
        "event"@ != "voice_id"@,
        "event"@ != "speed"@,
        "event"@ != "vol"@,
        "event"@ != "pitch"@,
        "event"@ != "sample_rate"@,
        "event"@ != "bitrate"@,
        "event"@ != "format"@,
        "event"@ != "channel"@,
        "model"@ != "voice_setting"@,
        "model"@ != "audio_setting"@,
        "model"@ != "text"@,
        "model"@ != "voice_id"@,
        "model"@ != "speed"@,
        "model"@ != "vol"@,
        "model"@ != "pitch"@,
        "model"@ != "sample_rate"@,
        "model"@ != "bitrate"@,
        "model"@ != "format"@,
        "model"@ != "channel"@,
        "voice_setting"@ != "audio_setting"@,
        "voice_setting"@ != "text"@,
        "voice_setting"@ != "voice_id"@,
        "voice_setting"@ != "speed"@,
        "voice_setting"@ != "vol"@,
        "voice_setting"@ != "pitch"@,
        "voice_setting"@ != "sample_rate"@,
        "voice_setting"@ != "bitrate"@,
        "voice_setting"@ != "format"@,
        "voice_setting"@ != "channel"@,
        "audio_setting"@ != "text"@,
        "audio_setting"@ != "voice_id"@,
        "audio_setting"@ != "speed"@,
        "audio_setting"@ != "vol"@,
        "audio_setting"@ != "pitch"@,
        "audio_setting"@ != "sample_rate"@,
        "audio_setting"@ != "bitrate"@,
        "audio_setting"@ != "format"@,
        "audio_setting"@ != "channel"@,
        "text"@ != "voice_id"@,
        "text"@ != "speed"@,
        "text"@ != "vol"@,
        "text"@ != "pitch"@,
        "text"@ != "sample_rate"@,
        "text"@ != "bitrate"@,
        "text"@ != "format"@,
        "text"@ != "channel"@,
        "voice_id"@ != "speed"@,
        "voice_id"@ != "vol"@,
        "voice_id"@ != "pitch"@,
        "voice_id"@ != "sample_rate"@,
        "voice_id"@ != "bitrate"@,
        "voice_id"@ != "format"@,
        "voice_id"@ != "channel"@,
        "speed"@ != "vol"@,
        "speed"@ != "pitch"@,
        "speed"@ != "sample_rate"@,
        "speed"@ != "bitrate"@,
        "speed"@ != "format"@,
        "speed"@ != "channel"@,
        "vol"@ != "pitch"@,
        "vol"@ != "sample_rate"@,
        "vol"@ != "bitrate"@,
        "vol"@ != "format"@,
        "vol"@ != "channel"@,
        "pitch"@ != "sample_rate"@,
        "pitch"@ != "bitrate"@,
        "pitch"@ != "format"@,
        "pitch"@ != "channel"@,
        "sample_rate"@ != "bitrate"@,
        "sample_rate"@ != "format"@,
        "sample_rate"@ != "channel"@,
        "bitrate"@ != "format"@,
        "bitrate"@ != "channel"@,
        "format"@ != "channel"@,
{
    reveal_strlit("event");
    reveal_strlit("model");
    reveal_strlit("voice_setting");
    reveal_strlit("audio_setting");
    reveal_strlit("text");
    reveal_strlit("voice_id");
    reveal_strlit("speed");
    reveal_strlit("vol");
    reveal_strlit("pitch");
    reveal_strlit("sample_rate");
    reveal_strlit("bitrate");
    reveal_strlit("format");
    reveal_strlit("channel");
    assert("event"@.len() == 5);
    assert("model"@.len() == 5);
    assert("voice_setting"@.len() == 13);
    assert("audio_setting"@.len() == 13);
    assert("text"@.len() == 4);
    assert("voice_id"@.len() == 8);
    assert("speed"@.len() == 5);
    assert("vol"@.len() == 3);
    assert("pitch"@.len() == 5);
    assert("sample_rate"@.len() == 11);
    assert("bitrate"@.len() == 7);
    assert("format"@.len() == 6);
    assert("channel"@.len() == 7);
    assert("event"@[0] != "model"@[0]);
    assert("event"@[0] != "speed"@[0]);
    assert("event"@[0] != "pitch"@[0]);
    assert("model"@[0] != "speed"@[0]);
    assert("model"@[0] != "pitch"@[0]);
    assert("voice_setting"@[0] != "audio_setting"@[0]);
    assert("speed"@[0] != "pitch"@[0]);
    assert("bitrate"@[0] != "channel"@[0]);
}

// ---------------------------------------------------------------------------------------
// Text
// ---------------------------------------------------------------------------------------
/// A synthesis begins with what the user said last.
pub proof fn the_last_user_message_is_spoken(messages: Seq<MessageView>, k: int)
    requires
        0 <= k < messages.len(),
        messages[k] is User,
        forall|j: int| k < j < messages.len() ==> !((#[trigger] messages[j]) is User),
    ensures
        opening_text(messages) == spoken_text(messages[k]),
    decreases messages.len(),
{
    if k < messages.len() - 1 {
        assert(!(messages[messages.len() - 1] is User));
        assert(messages.drop_last()[k] == messages[k]);
        the_last_user_message_is_spoken(messages.drop_last(), k);
    }
}

/// A synthesis does not begin where no user said anything.
pub proof fn nothing_is_spoken_without_a_user(messages: Seq<MessageView>)
    requires
        forall|j: int| 0 <= j < messages.len() ==> !((#[trigger] messages[j]) is User),
    ensures
        opening_text(messages) is Err,
        last_user(messages) is None,
    decreases messages.len(),
{
    if messages.len() > 0 {
        assert(!(messages[messages.len() - 1] is User));
        nothing_is_spoken_without_a_user(messages.drop_last());
    }
}

/// One text is spoken as it is, unless it is blank or longer than ten thousand characters.
pub proof fn a_text_is_spoken_as_it_is(text: Seq<char>)
    ensures
        match spoken_text(MessageView::User(seq![ContentView::Text(text)])) {
            Ok(spoken) => spoken == text && !blank(text) && text.len() <= 10000,
            Err(_) => blank(text) || text.len() > 10000,
        },
{
    let content = seq![ContentView::Text(text)];
    assert(content.drop_last() =~= Seq::empty());
    assert(joined_text(content.drop_last()) =~= Seq::empty());
    assert(joined_text(content) =~= text);
}

/// Texts are spoken one behind the other: it makes no difference whether the last two of them
/// are two or one.
pub proof fn texts_are_spoken_together(
    content: Seq<ContentView>,
    first: Seq<char>,
    second: Seq<char>,
)
    ensures
        spoken_text(
            MessageView::User(
                content.push(ContentView::Text(first)).push(ContentView::Text(second)),
            ),
        ) == spoken_text(MessageView::User(content.push(ContentView::Text(first + second)))),
{
    let one = content.push(ContentView::Text(first + second));
    let front = content.push(ContentView::Text(first));
    let two = front.push(ContentView::Text(second));
    assert(one.drop_last() =~= content);
    assert(front.drop_last() =~= content);
    assert(two.drop_last() =~= front);
    assert(joined_text(front) == joined_text(content) + first);
    assert(joined_text(two) == joined_text(front) + second);
    assert(joined_text(one) == joined_text(content) + (first + second));
    assert(joined_text(two) =~= joined_text(one));
    if all_text(one) {
        assert forall|i: int| 0 <= i < two.len() implies (#[trigger] two[i]) is Text by {
            if i < content.len() {
                assert(one[i] is Text);
            }
        }
    }
    if all_text(two) {
        assert forall|i: int| 0 <= i < one.len() implies (#[trigger] one[i]) is Text by {
            if i < content.len() {
                assert(two[i] is Text);
            }
        }
    }
}

/// Nothing but text is spoken, and nothing but what a user says; an empty message is not.
pub proof fn only_text_of_a_user_is_spoken(message: MessageView, i: int)
    ensures
        !(message is User) ==> spoken_text(message) is Err,
        message matches MessageView::User(content) ==> (content.len() == 0 || (0 <= i
            < content.len() && !(content[i] is Text))) ==> spoken_text(message) is Err,
{
}

/// A request is refused that asks for what the settings of the model decide.
pub proof fn settings_are_not_overridden(request: ModelRequest)
    ensures
        request.profile.temperature is Some || request.profile.max_output_tokens is Some
            || request.profile.seed is Some || request.profile.parallel_runtime_tools is Some || (
        request.profile.extensions@ matches JsonView::Object(fields) && fields.len() > 0)
            ==> admissible(request) is Err,
        request.profile.temperature is None && request.profile.max_output_tokens is None
            && request.profile.seed is None && request.profile.parallel_runtime_tools is None && (
        request.profile.extensions@ matches JsonView::Object(fields) ==> fields.len() == 0) ==> (
        admissible(request) is Ok <==> opening_text(request.messages.deep_view()) is Ok),
{
}

// ---------------------------------------------------------------------------------------
// A task
// ---------------------------------------------------------------------------------------
/// Whether an action sends a message to the service.
pub open spec fn sends(action: ActionView, message: JsonView) -> bool {
    action == ActionView::Send(WireMessageView::Text(printed(message)))
}

/// Whether an action sends the service a text to speak.
pub open spec fn sends_text(action: ActionView, text: Seq<char>) -> bool {
    exists|message: JsonView| #[trigger]
        sends(action, message) && message.get_str("event"@) == Some("task_continue"@)
            && message.get_str("text"@) == Some(text)
}

/// Whether an action sends the service an event without more.
pub open spec fn sends_event(action: ActionView, event: Seq<char>) -> bool {
    exists|message: JsonView| #[trigger]
        sends(action, message) && message.get_str("event"@) == Some(event)
}

/// Whether an action acknowledges a command.
pub open spec fn acknowledges(action: ActionView, id: Seq<char>) -> bool {
    action matches ActionView::Event(SessionEventBodyView::Acknowledged { command_id, .. })
        && command_id == id
}

/// Whether an event of the service is a marker alone: it reports no status and holds no audio.
pub open spec fn marks(value: JsonView, event: Seq<char>) -> bool {
    &&& value is Object
    &&& value.get_str("event"@) == Some(event)
    &&& !value.has("base_resp"@)
    &&& !value.has("data"@)
}

/// Whether a message starts a task with the model, the voice and the audio that were set.
pub open spec fn starts(message: JsonView, session: SessionView) -> bool {
    let voice = message.field("voice_setting"@);
    let audio = message.field("audio_setting"@);
    &&& message.get_str("event"@) == Some("task_start"@)
    &&& message.get_str("model"@) == Some(session.settings.model@)
    &&& voice.get_str("voice_id"@) == Some(session.settings.voice.voice_id@)
    &&& voice.get("speed"@) == Some(session.settings.voice.speed@)
    &&& voice.get("vol"@) == Some(session.settings.voice.volume@)
    &&& voice.field("pitch"@).as_i64() == Some(session.settings.voice.pitch as i64)
    &&& audio.get_u64("sample_rate"@) == Some(session.settings.audio.sample_rate as u64)
    &&& audio.get_u64("bitrate"@) == Some(session.settings.audio.bitrate as u64)
    &&& audio.get_str("format"@) == Some("mp3"@)
    &&& audio.get_u64("channel"@) == Some(session.settings.audio.channels as u64)
}

/// A turn starts a task with the settings of the session. When the service has started it, the
/// text of the turn is sent, and only then is the command acknowledged.
pub proof fn a_turn_is_spoken(
    session: SessionView,
    id: Seq<char>,
    body: SessionCommandBody,
    policy: Result<(), ErrorView>,
    value: JsonView,
    now: u64,
)
    requires
        body is StartTurn,
        session.commanded(id, body, policy) is Ok,
        marks(value, "task_started"@),
    ensures
        body matches SessionCommandBody::StartTurn { turn_id, request } && {
            let (started, actions) = session.commanded(id, body, policy)->Ok_0;
            &&& session.phase is Ready
            &&& actions.len() == 1
            &&& exists|message: JsonView| #[trigger]
                sends(actions[0], message) && starts(message, session)
            &&& started.turn == Some(turn_id@)
            &&& opening_text(request.messages.deep_view()) matches Ok(text) && {
                let (speaking, replies) = started.received(value, now);
                &&& speaking.phase is Speaking
                &&& speaking.turn == Some(turn_id@)
                &&& replies matches Ok(replies) && {
                    &&& replies.len() == 3
                    &&& replies[0] == ActionView::Observe(
                        ModelDeltaView::ProtocolEvent { output_index: 0, data: value },
                    )
                    &&& sends_text(replies[1], text)
                    &&& acknowledges(replies[2], id)
                }
            }
        },
{
    broadcast use set_get;

    events_differ();
    speech_keys_differ();
    let (started, actions) = session.commanded(id, body, policy)->Ok_0;
    let message = start_message(session.settings);
    assert(sends(actions[0], message) && starts(message, session));
    if let SessionCommandBody::StartTurn { turn_id, request } = body {
        let text = opening_text(request.messages.deep_view())->Ok_0;
        let reply = continue_message(text);
        let replies = started.received(value, now).1->Ok_0;
        assert(replies.len() == 3);
        assert(sends(replies[1], reply) && reply.get_str("event"@) == Some("task_continue"@)
            && reply.get_str("text"@) == Some(text));
    }
}

/// What a user adds while a task speaks is sent at once and acknowledged; nothing else
/// changes. What cannot be spoken is refused.
pub proof fn an_addition_is_spoken(
    session: SessionView,
    id: Seq<char>,
    body: SessionCommandBody,
    policy: Result<(), ErrorView>,
)
    requires
        body is Input,
    ensures
        body matches SessionCommandBody::Input(message) && match session.commanded(
            id,
            body,
            policy,
        ) {
            Ok((next, actions)) => {
                &&& session.phase is Speaking
                &&& next == session
                &&& actions.len() == 2
                &&& spoken_text(message@) matches Ok(text) && sends_text(actions[0], text)
                &&& acknowledges(actions[1], id)
            },
            Err(_) => id.len() == 0 || !(session.phase is Speaking) || spoken_text(message@) is Err,
        },
{
    broadcast use set_get;

    speech_keys_differ();
    if let SessionCommandBody::Input(message) = body {
        if let Ok((next, actions)) = session.commanded(id, body, policy) {
            let text = spoken_text(message@)->Ok_0;
            let reply = continue_message(text);
            assert(sends(actions[0], reply) && reply.get_str("event"@) == Some("task_continue"@)
                && reply.get_str("text"@) == Some(text));
        }
    }
}

/// An interruption asks the service to cancel. It is acknowledged when the service has done
/// so: from then on audio belongs to the epoch that the interruption named.
pub proof fn an_interruption_is_carried_out(
    session: SessionView,
    id: Seq<char>,
    body: SessionCommandBody,
    policy: Result<(), ErrorView>,
    value: JsonView,
    now: u64,
)
    requires
        body is InterruptOutput,
        session.commanded(id, body, policy) is Ok,
        marks(value, "task_canceled"@),
    ensures
        body matches SessionCommandBody::InterruptOutput { turn_id, output_epoch } && {
            let (waiting, actions) = session.commanded(id, body, policy)->Ok_0;
            &&& session.phase is Speaking
            &&& session.turn == Some(turn_id@)
            &&& session.audio.epoch < output_epoch
            &&& actions.len() == 1
            &&& sends_event(actions[0], "task_cancel"@)
            &&& waiting.audio == session.audio
            &&& waiting.received(value, now) matches (next, Ok(replies)) && {
                &&& next.phase is Speaking
                &&& next.turn == session.turn
                &&& next.audio.epoch == output_epoch
                &&& replies.len() == 2
                &&& acknowledges(replies[1], id)
            }
        },
{
    broadcast use set_get;

    events_differ();
    let actions = session.commanded(id, body, policy)->Ok_0.1;
    let message = event_message("task_cancel"@);
    assert(sends(actions[0], message) && message.get_str("event"@) == Some("task_cancel"@));
}

/// The end of the input asks the service to finish. It is acknowledged when the service has
/// done so, and the turn is reported as finished.
pub proof fn the_end_is_carried_out(
    session: SessionView,
    id: Seq<char>,
    policy: Result<(), ErrorView>,
    value: JsonView,
    now: u64,
)
    requires
        session.commanded(id, SessionCommandBody::EndInput, policy) is Ok,
        session.turn is Some,
        !session.audio.open,
        marks(value, "task_finished"@),
    ensures
        ({
            let (waiting, actions) = session.commanded(
                id,
                SessionCommandBody::EndInput,
                policy,
            )->Ok_0;
            &&& session.phase is Speaking
            &&& actions.len() == 1
            &&& sends_event(actions[0], "task_finish"@)
            &&& waiting.received(value, now) matches (next, Ok(replies)) && {
                &&& next.phase is Finished
                &&& replies.len() == 3
                &&& acknowledges(replies[1], id)
                &&& replies[2] matches ActionView::Event(
                    SessionEventBodyView::TurnFinished { disposition, end },
                ) && {
                    &&& disposition == TurnDisposition::Finished
                    &&& session.turn == Some(end.turn_id)
                    &&& end.model_id == Some(session.settings.model@)
                    &&& end.response_id == value.get_str("session_id"@)
                }
            }
        }),
{
    broadcast use set_get;

    events_differ();
    let actions = session.commanded(id, SessionCommandBody::EndInput, policy)->Ok_0.1;
    let message = event_message("task_finish"@);
    assert(sends(actions[0], message) && message.get_str("event"@) == Some("task_finish"@));
}

/// Closing is acknowledged and carried out in every phase.
pub proof fn closing_is_carried_out(
    session: SessionView,
    id: Seq<char>,
    policy: Result<(), ErrorView>,
)
    requires
        id.len() > 0,
    ensures
        session.commanded(id, SessionCommandBody::Close, policy) matches Ok((next, actions)) && {
            &&& actions.len() == 3
            &&& acknowledges(actions[0], id)
            &&& actions[1] == ActionView::Event(SessionEventBodyView::Closed(None))
            &&& actions[2] is Close
        },
{
}

/// A session is ready once the service has greeted it, and takes no turn before.
pub proof fn a_greeting_makes_ready(session: SessionView, value: JsonView, now: u64)
    requires
        session.phase is Connecting,
        marks(value, "connected_success"@),
    ensures
        session.received(value, now) matches (next, Ok(replies)) && next == (SessionView {
            phase: PhaseView::Ready,
            ..session
        }) && replies.len() == 1,
{
}

/// A status other than success is an error, whatever else an event holds.
pub proof fn a_refusal_is_reported(session: SessionView, value: JsonView, now: u64, code: i64)
    requires
        value.field("base_resp"@).field("status_code"@).as_i64() == Some(code),
        code != 0,
    ensures
        session.received(value, now).0 == session,
        session.received(value, now).1 is Err,
{
}

// ---------------------------------------------------------------------------------------
// Audio
// ---------------------------------------------------------------------------------------
/// The hexadecimal digit of a value.
pub open spec fn hex_digit(value: int) -> int {
    if value < 10 {
        48 + value
    } else {
        87 + value
    }
}

/// Audio that was written in hexadecimal, two digits for each byte, is heard byte for byte.
pub proof fn audio_comes_through(text: Seq<char>, bytes: Seq<u8>, limit: nat)
    requires
        encode_utf8(text).len() == 2 * bytes.len(),
        forall|i: int|
            0 <= i < bytes.len() ==> encode_utf8(text)[2 * i] == hex_digit(
                (#[trigger] bytes[i]) as int / 16,
            ) && encode_utf8(text)[2 * i + 1] == hex_digit(bytes[i] as int % 16),
        bytes.len() <= limit,
    ensures
        audio_bytes(text, limit) == Ok::<Seq<u8>, ErrorView>(bytes),
{
    let digits = encode_utf8(text);
    assert forall|i: int| 0 <= i < digits.len() implies hex_value(#[trigger] digits[i]) is Some by {
        let byte = bytes[i / 2];
        assert(digits[2 * (i / 2)] == hex_digit(byte as int / 16));
        assert(digits[2 * (i / 2) + 1] == hex_digit(byte as int % 16));
        assert(i == 2 * (i / 2) || i == 2 * (i / 2) + 1);
    }
    assert(all_hex(digits));
    assert forall|i: int| 0 <= i < bytes.len() implies unhex(digits)[i] == #[trigger] bytes[i] by {
        assert(digits[2 * i] == hex_digit(bytes[i] as int / 16));
        assert(digits[2 * i + 1] == hex_digit(bytes[i] as int % 16));
    }
    assert(unhex(digits) =~= bytes);
}

/// The audio of an event is handed to the listener: as a piece of the turn, in its epoch, with
/// the bytes that the event holds. None comes out where an event holds none.
pub proof fn audio_is_handed_on(session: SessionView, hex: Seq<char>, now: u64)
    requires
        hex.len() > 0,
    ensures
        session.heard(Some(hex), now) matches Ok((next, actions)) ==> {
            &&& actions.len() == 1
            &&& actions[0] matches ActionView::Media(chunk) && {
                &&& audio_bytes(hex, session.audio.limit) == Ok::<Seq<u8>, ErrorView>(chunk.bytes)
                &&& session.turn == Some(chunk.turn_id)
                &&& chunk.epoch == session.audio.epoch
                &&& chunk.timestamp_us == now
                &&& chunk.media_type == session.audio.media_type
                &&& !chunk.end
            }
            &&& next.phase == session.phase
            &&& next.turn == session.turn
        },
        session.heard(None, now) == Ok::<(SessionView, Seq<ActionView>), ErrorView>(
            (session, Seq::empty()),
        ),
        session.heard(Some(hex), now) is Ok <== session.turn is Some && session.audio.open && (
        session.phase is Speaking || session.phase is Interrupting || session.phase is Finishing)
            && session.audio.sequence < u64::MAX && audio_bytes(hex, session.audio.limit) is Ok,
{
}

} // verus!
