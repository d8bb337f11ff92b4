//! The MiniMax synthesis protocol: which commands a task takes, and what its events mean.
use crate::command::{
    acknowledge, acknowledged, SessionCommand, SessionCommandBody, SessionEventBody,
    SessionEventBodyView, TurnDisposition, TurnEnd, TurnEndView,
};
use crate::error::{checked, invalid, seen, Error, ErrorView, Failure, FailureView};
use crate::json::{json_text, printed, Json, JsonView};
use crate::message::{Content, ContentView, Message, MessageView};
use crate::minimax::tts::{AudioSettings, TtsConfig, VoiceSettings};
use crate::model::{ModelDelta, ModelDeltaView, ModelRequest, Profile, Usage};
use crate::streaming::minimax_tts::{failure, protocol, Audio, AudioView};
use crate::text::{blank, is_blank, join, same, signed_decimal, signed_number};
use crate::transport::websocket::{WireMessage, WireMessageView};
use crate::websocket::{Action, ActionView};
use vstd::prelude::*;

verus! {

// ---------------------------------------------------------------------------------------
// Text input
// ---------------------------------------------------------------------------------------
pub open spec fn all_text(content: Seq<ContentView>) -> bool {
    forall|i: int| 0 <= i < content.len() ==> (#[trigger] content[i]) is Text
}

/// The texts of a content, one behind the other.
pub open spec fn joined_text(content: Seq<ContentView>) -> Seq<char>
    decreases content.len(),
{
    if content.len() == 0 {
        Seq::empty()
    } else {
        match content.last() {
            ContentView::Text(text) => joined_text(content.drop_last()) + text,
            _ => joined_text(content.drop_last()),
        }
    }
}

/// The text of a user message, where a synthesis can take it.
pub open spec fn spoken_text(message: MessageView) -> Result<Seq<char>, ErrorView> {
    match message {
        MessageView::User(content) => if !all_text(content) {
            Err(ErrorView::Invalid("MiniMax TTS accepts text only"@))
        } else if blank(joined_text(content)) || joined_text(content).len() > 10000 {
            Err(ErrorView::Invalid("MiniMax TTS input must contain 1–10000 characters"@))
        } else {
            Ok(joined_text(content))
        },
        _ => Err(ErrorView::Invalid("MiniMax TTS accepts user text only"@)),
    }
}

pub fn user_text(message: &Message) -> (r: Result<String, Error>)
    ensures
        seen(r) == spoken_text(message@),
{
    let content = match message {
        Message::User(content) => content,
        _ => return Err(invalid("MiniMax TTS accepts user text only")),
    };
    let ghost all = content.deep_view();
    let mut text = String::new();
    let mut i: usize = 0;
    assert(all.take(0) =~= Seq::empty());
    while i < content.len()
        invariant
            i <= content.len(),
            all == content.deep_view(),
            message@ == MessageView::User(all),
            text@ == joined_text(all.take(i as int)),
            forall|j: int| 0 <= j < i ==> (#[trigger] all[j]) is Text,
        decreases content.len() - i,
    {
        proof {
            assert(all.take(i + 1).drop_last() =~= all.take(i as int));
            assert(all.take(i + 1).last() == all[i as int]);
            assert(all[i as int] == content@[i as int]@);
        }
        match &content[i] {
            Content::Text(part) => text.append(part.as_str()),
            _ => {
                assert(!(all[i as int] is Text));
                return Err(invalid("MiniMax TTS accepts text only"));
            },
        }
        i += 1;
    }
    assert(all.take(all.len() as int) =~= all);
    if is_blank(text.as_str()) || text.as_str().unicode_len() > 10000 {
        return Err(invalid("MiniMax TTS input must contain 1–10000 characters"));
    }
    Ok(text)
}

/// The last user message of a conversation.
pub open spec fn last_user(messages: Seq<MessageView>) -> Option<MessageView>
    decreases messages.len(),
{
    if messages.len() == 0 {
        None
    } else if messages.last() is User {
        Some(messages.last())
    } else {
        last_user(messages.drop_last())
    }
}

/// The text that a request begins with: that of its last user message.
pub open spec fn opening_text(messages: Seq<MessageView>) -> Result<Seq<char>, ErrorView> {
    match last_user(messages) {
        Some(message) => spoken_text(message),
        None => Err(ErrorView::Invalid("MiniMax TTS needs a user text message"@)),
    }
}

pub fn latest_text(request: &ModelRequest) -> (r: Result<String, Error>)
    ensures
        seen(r) == opening_text(request.messages.deep_view()),
{
    let ghost all = request.messages.deep_view();
    let mut i: usize = request.messages.len();
    assert(all.take(all.len() as int) =~= all);
    while i > 0
        invariant
            i <= request.messages.len(),
            all == request.messages.deep_view(),
            last_user(all) == last_user(all.take(i as int)),
        decreases i,
    {
        i -= 1;
        proof {
            assert(all.take(i + 1).drop_last() =~= all.take(i as int));
            assert(all.take(i + 1).last() == all[i as int]);
            assert(all[i as int] == request.messages@[i as int]@);
        }
        if let Message::User(_) = &request.messages[i] {
            return user_text(&request.messages[i]);
        }
    }
    Err(invalid("MiniMax TTS needs a user text message"))
}

/// Whether a profile asks for anything beyond the settings of the model.
pub open spec fn overrides(profile: Profile) -> bool {
    ||| profile.temperature is Some
    ||| profile.max_output_tokens is Some
    ||| profile.seed is Some
    ||| profile.parallel_runtime_tools is Some
    ||| profile.extensions@ matches JsonView::Object(fields) && fields.len() > 0
}

pub fn has_overrides(profile: &Profile) -> (r: bool)
    ensures
        r == overrides(*profile),
{
    broadcast use crate::json::group_json_views;

    let extended = match profile.extensions.as_object() {
        Some(fields) => fields.len() > 0,
        None => false,
    };
    extended || profile.temperature.is_some() || profile.max_output_tokens.is_some()
        || profile.seed.is_some() || profile.parallel_runtime_tools.is_some()
}

/// Whether a synthesis can begin with a request.
pub open spec fn admissible(request: ModelRequest) -> Result<(), ErrorView> {
    if overrides(request.profile) {
        Err(
            ErrorView::Invalid(
                "MiniMax TTS uses TtsConfig; generation and extension overrides are unsupported"@,
            ),
        )
    } else {
        match opening_text(request.messages.deep_view()) {
            Ok(_) => Ok(()),
            Err(e) => Err(e),
        }
    }
}

pub fn validate_request(request: &ModelRequest) -> (r: Result<(), Error>)
    ensures
        checked(r) == admissible(*request),
{
    if has_overrides(&request.profile) {
        return Err(
            invalid(
                "MiniMax TTS uses TtsConfig; generation and extension overrides are unsupported",
            ),
        );
    }
    match latest_text(request) {
        Ok(_) => Ok(()),
        Err(e) => Err(e),
    }
}

/// A request that is admissible, and that negotiation then accepted or refused.
pub open spec fn negotiated(request: ModelRequest, policy: Result<(), ErrorView>) -> Result<
    (),
    ErrorView,
> {
    match admissible(request) {
        Ok(_) => policy,
        Err(e) => Err(e),
    }
}

/// Negotiates a request; `policy` is what general negotiation says of it.
pub fn negotiate(request: &ModelRequest, policy: Result<(), Error>) -> (r: Result<(), Error>)
    ensures
        checked(r) == negotiated(*request, checked(policy)),
{
    validate_request(request)?;
    policy
}

// ---------------------------------------------------------------------------------------
// The session
// ---------------------------------------------------------------------------------------
/// What the session says of itself when a task starts.
#[derive(Clone)]
pub struct Settings {
    pub model: String,
    pub voice: VoiceSettings,
    pub audio: AudioSettings,
}

impl Settings {
    pub fn new(config: TtsConfig) -> (r: Settings)
        ensures
            r.model == config.model,
            r.voice == config.voice,
            r.audio == config.audio,
    {
        Settings { model: config.model, voice: config.voice, audio: config.audio }
    }
}

pub open spec fn event_message(event: Seq<char>) -> JsonView {
    JsonView::empty().set("event"@, JsonView::text(event))
}

pub open spec fn start_message(settings: Settings) -> JsonView {
    let voice = JsonView::empty().set("voice_id"@, JsonView::text(settings.voice.voice_id@)).set(
        "speed"@,
        settings.voice.speed@,
    ).set("vol"@, settings.voice.volume@).set(
        "pitch"@,
        JsonView::sint(settings.voice.pitch as int),
    );
    let audio = JsonView::empty().set(
        "sample_rate"@,
        JsonView::uint(settings.audio.sample_rate as u64),
    ).set("bitrate"@, JsonView::uint(settings.audio.bitrate as u64)).set(
        "format"@,
        JsonView::text("mp3"@),
    ).set("channel"@, JsonView::uint(settings.audio.channels as u64));
    event_message("task_start"@).set("model"@, JsonView::text(settings.model@)).set(
        "voice_setting"@,
        voice,
    ).set("audio_setting"@, audio)
}

pub open spec fn continue_message(text: Seq<char>) -> JsonView {
    event_message("task_continue"@).set("text"@, JsonView::text(text))
}

pub open spec fn sent(message: JsonView) -> ActionView {
    ActionView::Send(WireMessageView::Text(printed(message)))
}

pub open spec fn ack(id: Seq<char>) -> ActionView {
    ActionView::Event(acknowledged(id, None))
}

fn send(message: Json) -> (r: Action)
    ensures
        r@ == sent(message@),
{
    Action::Send(WireMessage::Text(message.print()))
}

fn make_event(event: &str) -> (r: Json)
    ensures
        r@ == event_message(event@),
        r@ is Object,
{
    Json::empty().with_text("event", event)
}

fn make_start(settings: &Settings) -> (r: Json)
    ensures
        r@ == start_message(*settings),
{
    let voice = Json::empty().with_text("voice_id", settings.voice.voice_id.as_str()).with(
        "speed",
        settings.voice.speed.clone(),
    ).with("vol", settings.voice.volume.clone()).with(
        "pitch",
        Json::sint(settings.voice.pitch as i64),
    );
    let audio = Json::empty().with(
        "sample_rate",
        Json::uint(settings.audio.sample_rate as u64),
    ).with("bitrate", Json::uint(settings.audio.bitrate as u64)).with_text("format", "mp3").with(
        "channel",
        Json::uint(settings.audio.channels as u64),
    );
    make_event("task_start").with_text("model", settings.model.as_str()).with(
        "voice_setting",
        voice,
    ).with("audio_setting", audio)
}

fn make_continue(text: &str) -> (r: Json)
    ensures
        r@ == continue_message(text@),
{
    make_event("task_continue").with_text("text", text)
}

fn make_ack(id: String) -> (r: Action)
    ensures
        r@ == ack(id@),
{
    Action::Event(acknowledge(id, None))
}

/// Where a task stands. A phase that waits for the service holds the command it answers.
pub enum PhaseView {
    Connecting,
    Ready,
    Starting { command_id: Seq<char>, text: Seq<char> },
    Speaking,
    Interrupting { command_id: Seq<char>, epoch: u64 },
    Finishing(Seq<char>),
    Finished,
}

enum Phase {
    Connecting,
    Ready,
    Starting { command_id: String, text: String },
    Speaking,
    Interrupting { command_id: String, epoch: u64 },
    Finishing(String),
    Finished,
}

impl View for Phase {
    type V = PhaseView;

    closed spec fn view(&self) -> PhaseView {
        match self {
            Phase::Connecting => PhaseView::Connecting,
            Phase::Ready => PhaseView::Ready,
            Phase::Starting { command_id, text } => PhaseView::Starting {
                command_id: command_id@,
                text: text@,
            },
            Phase::Speaking => PhaseView::Speaking,
            Phase::Interrupting { command_id, epoch } => PhaseView::Interrupting {
                command_id: command_id@,
                epoch: *epoch,
            },
            Phase::Finishing(id) => PhaseView::Finishing(id@),
            Phase::Finished => PhaseView::Finished,
        }
    }
}

impl PhaseView {
    /// Whether audio may come in.
    pub open spec fn audible(self) -> bool {
        self is Speaking || self is Interrupting || self is Finishing
    }
}

impl Phase {
    fn is_audible(&self) -> (r: bool)
        ensures
            r == self@.audible(),
    {
        match self {
            Phase::Speaking => true,
            Phase::Interrupting { .. } => true,
            Phase::Finishing(_) => true,
            _ => false,
        }
    }
}

pub struct SessionView {
    pub settings: Settings,
    pub phase: PhaseView,
    pub turn: Option<Seq<char>>,
    pub audio: AudioView,
}

/// A field that holds text or is absent.
pub open spec fn optional_text(value: JsonView, key: Seq<char>) -> Result<
    Option<Seq<char>>,
    ErrorView,
> {
    match value.get(key) {
        None => Ok(None),
        Some(JsonView::Text(text)) => Ok(Some(text)),
        Some(_) => Err(failure("invalid event field type"@)),
    }
}

/// What the service's status says: nothing where it is absent or reports success.
pub open spec fn service_status(value: JsonView) -> Result<(), ErrorView> {
    match value.get("base_resp"@) {
        None => Ok(()),
        Some(base) => match base.get("status_code"@) {
            None => Err(failure("invalid service status code"@)),
            Some(code) => match code.as_i64() {
                None => Err(failure("invalid service status code"@)),
                Some(code) => if code == 2205 {
                    Err(
                        ErrorView::Uncertain(
                            "MiniMax TTS input queue rejected an uncorrelated command (2205)"@,
                        ),
                    )
                } else if code != 0 {
                    Err(
                        ErrorView::Model(
                            FailureView {
                                code: "minimax_"@ + signed_decimal(code as int),
                                message: "MiniMax TTS rejected the task"@,
                                retryable: false,
                            },
                        ),
                    )
                } else {
                    Ok(())
                },
            },
        },
    }
}

/// The audio that an event carries.
pub open spec fn carried_audio(value: JsonView) -> Result<Option<Seq<char>>, ErrorView> {
    match value.get("data"@) {
        None => Ok(None),
        Some(data) => if data is Object {
            optional_text(data, "audio"@)
        } else {
            Err(failure("invalid event data"@))
        },
    }
}

fn read_text(value: &Json, key: &str) -> (r: Result<Option<String>, Error>)
    ensures
        seen(r) == optional_text(value@, key@),
{
    match value.get(key) {
        None => Ok(None),
        Some(field) => match field.as_str() {
            Some(text) => Ok(Some(text.to_owned())),
            None => Err(protocol("invalid event field type")),
        },
    }
}

fn check_status(value: &Json) -> (r: Result<(), Error>)
    ensures
        checked(r) == service_status(value@),
{
    if let Some(base) = value.get("base_resp") {
        let code = match base.get("status_code") {
            Some(code) => match code.as_i64() {
                Some(code) => code,
                None => return Err(protocol("invalid service status code")),
            },
            None => return Err(protocol("invalid service status code")),
        };
        if code == 2205 {
            return Err(
                Error::Uncertain(
                    "MiniMax TTS input queue rejected an uncorrelated command (2205)".to_owned(),
                ),
            );
        }
        if code != 0 {
            let digits = signed_number(code);
            return Err(
                Error::Model(
                    Failure::new(
                        join("minimax_", digits.as_str()),
                        "MiniMax TTS rejected the task",
                    ),
                ),
            );
        }
    }
    Ok(())
}

fn read_audio(value: &Json) -> (r: Result<Option<String>, Error>)
    ensures
        seen(r) == carried_audio(value@),
{
    match value.get("data") {
        None => Ok(None),
        Some(data) => if data.is_object() {
            read_text(data, "audio")
        } else {
            Err(protocol("invalid event data"))
        },
    }
}

impl SessionView {
    /// A session that waits for the service to greet it.
    pub open spec fn opened(settings: Settings, epoch: u64, limit: nat, media_type: Seq<char>) -> SessionView {
        SessionView {
            settings,
            phase: PhaseView::Connecting,
            turn: None,
            audio: AudioView { epoch, sentence: 0, sequence: 0, open: false, limit, media_type },
        }
    }

    pub open spec fn commands_allowed(self) -> bool {
        self.phase is Ready || self.phase is Speaking || self.phase is Finished
    }

    /// What a command leads to; a refused one changes nothing.
    pub open spec fn commanded(
        self,
        id: Seq<char>,
        body: SessionCommandBody,
        policy: Result<(), ErrorView>,
    ) -> Result<(SessionView, Seq<ActionView>), ErrorView> {
        if id.len() == 0 {
            Err(failure("empty command identity"@))
        } else {
            match body {
                SessionCommandBody::StartTurn { turn_id, request } => if !(self.phase is Ready) {
                    Err(failure("unsupported command or command order"@))
                } else if turn_id@.len() == 0 {
                    Err(failure("empty turn identity"@))
                } else {
                    match negotiated(request, policy) {
                        Err(e) => Err(e),
                        Ok(_) => match opening_text(request.messages.deep_view()) {
                            Err(e) => Err(e),
                            Ok(text) => Ok(
                                (
                                    SessionView {
                                        turn: Some(turn_id@),
                                        phase: PhaseView::Starting { command_id: id, text },
                                        ..self
                                    },
                                    seq![sent(start_message(self.settings))],
                                ),
                            ),
                        },
                    }
                },
                SessionCommandBody::Input(message) => if !(self.phase is Speaking) {
                    Err(failure("unsupported command or command order"@))
                } else {
                    match spoken_text(message@) {
                        Err(e) => Err(e),
                        Ok(text) => Ok((self, seq![sent(continue_message(text)), ack(id)])),
                    }
                },
                SessionCommandBody::InterruptOutput { turn_id, output_epoch } => if !(
                self.phase is Speaking) {
                    Err(failure("unsupported command or command order"@))
                } else if self.turn != Some(turn_id@) {
                    Err(failure("interrupt turn mismatch"@))
                } else {
                    match self.audio.cancelled(output_epoch) {
                        Err(e) => Err(e),
                        Ok(_) => Ok(
                            (
                                SessionView {
                                    phase: PhaseView::Interrupting {
                                        command_id: id,
                                        epoch: output_epoch,
                                    },
                                    ..self
                                },
                                seq![sent(event_message("task_cancel"@))],
                            ),
                        ),
                    }
                },
                SessionCommandBody::EndInput => if !(self.phase is Speaking) {
                    Err(failure("unsupported command or command order"@))
                } else {
                    Ok(
                        (
                            SessionView { phase: PhaseView::Finishing(id), ..self },
                            seq![sent(event_message("task_finish"@))],
                        ),
                    )
                },
                SessionCommandBody::Close => Ok(
                    (
                        self,
                        seq![
                            ack(id),
                            ActionView::Event(SessionEventBodyView::Closed(None)),
                            ActionView::Close,
                        ],
                    ),
                ),
                _ => Err(failure("unsupported command or command order"@)),
            }
        }
    }

    /// The audio of an event is taken before its marker is looked at, so that a last event
    /// cannot lose its tail.
    pub open spec fn heard(self, audio: Option<Seq<char>>, now: u64) -> Result<
        (SessionView, Seq<ActionView>),
        ErrorView,
    > {
        match audio {
            None => Ok((self, Seq::empty())),
            Some(hex) => if hex.len() == 0 {
                Ok((self, Seq::empty()))
            } else if !self.phase.audible() {
                Err(failure("audio outside a synthesis task"@))
            } else {
                match self.turn {
                    None => Err(failure("missing turn"@)),
                    Some(turn) => match self.audio.pushed(turn, hex, now) {
                        Err(e) => Err(e),
                        Ok((audio, chunk)) => Ok(
                            (SessionView { audio, ..self }, seq![ActionView::Media(chunk)]),
                        ),
                    },
                }
            },
        }
    }

    /// What an event's marker means in the phase that the session is in.
    pub open spec fn marked(
        self,
        event: Option<Seq<char>>,
        audible: bool,
        response_id: Option<Seq<char>>,
        now: u64,
    ) -> (SessionView, Result<Seq<ActionView>, ErrorView>) {
        let spoken = SessionView { phase: PhaseView::Speaking, ..self };
        let finished = SessionView { phase: PhaseView::Finished, ..self };
        if event == Some("connected_success"@) && self.phase is Connecting {
            (SessionView { phase: PhaseView::Ready, ..self }, Ok(Seq::empty()))
        } else if event == Some("task_started"@) && self.phase is Starting {
            (
                spoken,
                Ok(
                    seq![
                        sent(continue_message(self.phase->text)),
                        ack(self.phase->Starting_command_id),
                    ],
                ),
            )
        } else if event == Some("task_canceled"@) && self.phase is Interrupting {
            match self.audio.cancelled(self.phase->epoch) {
                Err(e) => (spoken, Err(e)),
                Ok(audio) => (
                    SessionView { audio, ..spoken },
                    Ok(seq![ack(self.phase->Interrupting_command_id)]),
                ),
            }
        } else if event == Some("task_finished"@) && self.phase is Finishing {
            match self.audio.finished() {
                Err(e) => (finished, Err(e)),
                Ok(_) => match self.turn {
                    None => (finished, Err(failure("missing turn"@))),
                    Some(turn) => (
                        finished,
                        Ok(
                            seq![
                                ack(self.phase->Finishing_0),
                                ActionView::Event(
                                    SessionEventBodyView::TurnFinished {
                                        disposition: TurnDisposition::Finished,
                                        end: TurnEndView {
                                            turn_id: turn,
                                            usage: Usage::unknown(),
                                            model_id: Some(self.settings.model@),
                                            response_id,
                                            finish_reason: Some("task_finished"@),
                                            provider_data: JsonView::Null,
                                            effective: None,
                                        },
                                    },
                                ),
                            ],
                        ),
                    ),
                },
            }
        } else if event == Some("sentence_start"@) && self.phase.audible() {
            match self.audio.started() {
                Err(e) => (self, Err(e)),
                Ok(audio) => (SessionView { audio, ..self }, Ok(Seq::empty())),
            }
        } else if event == Some("sentence_end"@) && self.phase.audible() {
            match self.turn {
                None => (self, Err(failure("missing turn"@))),
                Some(turn) => match self.audio.ended(turn, now) {
                    Err(e) => (self, Err(e)),
                    Ok((audio, chunk)) => (
                        SessionView { audio, ..self },
                        Ok(seq![ActionView::Media(chunk)]),
                    ),
                },
            }
        } else if (event == Some("task_continued"@) || event is None) && audible
            && self.phase.audible() {
            (self, Ok(Seq::empty()))
        } else {
            (self, Err(failure("unexpected event or event order"@)))
        }
    }

    /// What an event leads to. The event itself is observed first.
    pub open spec fn received(self, value: JsonView, now: u64) -> (
        SessionView,
        Result<Seq<ActionView>, ErrorView>,
    ) {
        if !(value is Object) {
            (self, Err(failure("event must be a JSON object"@)))
        } else {
            match service_status(value) {
                Err(e) => (self, Err(e)),
                Ok(_) => match optional_text(value, "event"@) {
                    Err(e) => (self, Err(e)),
                    Ok(event) => match carried_audio(value) {
                        Err(e) => (self, Err(e)),
                        Ok(audio) => match self.heard(audio, now) {
                            Err(e) => (self, Err(e)),
                            Ok((next, media)) => match next.marked(
                                event,
                                audio is Some,
                                value.get_str("session_id"@),
                                now,
                            ) {
                                (last, Err(e)) => (last, Err(e)),
                                (last, Ok(actions)) => (
                                    last,
                                    Ok(
                                        seq![
                                            ActionView::Observe(
                                                ModelDeltaView::ProtocolEvent {
                                                    output_index: 0,
                                                    data: value,
                                                },
                                            ),
                                        ] + media + actions,
                                    ),
                                ),
                            },
                        },
                    },
                },
            }
        }
    }

    /// What a message of the wire leads to.
    pub open spec fn read(self, message: WireMessageView, now: u64) -> (
        SessionView,
        Result<Seq<ActionView>, ErrorView>,
    ) {
        match message {
            WireMessageView::Text(text) => match json_text(text) {
                Ok(value) => self.received(value, now),
                Err(_) => (self, Err(failure("invalid JSON event"@))),
            },
            WireMessageView::Binary(_) => (self, Err(failure("expected a JSON text frame"@))),
        }
    }
}

/// A synthesis session.
pub struct Session {
    settings: Settings,
    phase: Phase,
    turn: Option<String>,
    audio: Audio,
}

impl View for Session {
    type V = SessionView;

    closed spec fn view(&self) -> SessionView {
        SessionView {
            settings: self.settings,
            phase: self.phase@,
            turn: self.turn.deep_view(),
            audio: self.audio@,
        }
    }
}

impl Session {
    /// Opens a session. None is resumed: the service keeps nothing to resume from.
    pub fn open(
        settings: Settings,
        resumes: bool,
        epoch: u64,
        max_media_chunk_bytes: usize,
        media_type: String,
    ) -> (r: Result<Session, Error>)
        ensures
            match r {
                Ok(session) => !resumes && session@ == SessionView::opened(
                    settings,
                    epoch,
                    max_media_chunk_bytes as nat,
                    media_type@,
                ),
                Err(e) => resumes && e@ == failure("transport does not support session recovery"@),
            },
    {
        if resumes {
            return Err(protocol("transport does not support session recovery"));
        }
        Ok(
            Session {
                settings,
                phase: Phase::Connecting,
                turn: None,
                audio: Audio::new(epoch, max_media_chunk_bytes, media_type),
            },
        )
    }

    pub fn commands_allowed(&self) -> (r: bool)
        ensures
            r == self@.commands_allowed(),
    {
        match &self.phase {
            Phase::Ready => true,
            Phase::Speaking => true,
            Phase::Finished => true,
            _ => false,
        }
    }

    pub fn finished(&self) -> (r: bool)
        ensures
            r == (self@.phase is Finished),
    {
        match &self.phase {
            Phase::Finished => true,
            _ => false,
        }
    }

    pub fn turn(&self) -> (r: Option<&str>)
        ensures
            r.deep_view() == self@.turn,
    {
        match &self.turn {
            Some(turn) => Some(turn.as_str()),
            None => None,
        }
    }

    /// Takes a command; `policy` is what general negotiation says of a request that starts a
    /// turn.
    pub fn command(&mut self, command: SessionCommand, policy: Result<(), Error>) -> (r: Result<
        Vec<Action>,
        Error,
    >)
        ensures
            match old(self)@.commanded(command.id@, command.body, checked(policy)) {
                Ok((next, actions)) => seen(r) == Ok::<Seq<ActionView>, ErrorView>(actions)
                    && final(self)@ == next,
                Err(e) => seen(r) == Err::<Seq<ActionView>, ErrorView>(e) && final(self)@ == old(
                    self,
                )@,
            },
    {
        if command.id.as_str().unicode_len() == 0 {
            return Err(protocol("empty command identity"));
        }
        let mut actions: Vec<Action> = Vec::new();
        let ghost id = command.id@;
        match command.body {
            SessionCommandBody::StartTurn { turn_id, request } => {
                if !matches!(self.phase, Phase::Ready) {
                    return Err(protocol("unsupported command or command order"));
                }
                if turn_id.as_str().unicode_len() == 0 {
                    return Err(protocol("empty turn identity"));
                }
                negotiate(&request, policy)?;
                let text = latest_text(&request)?;
                self.turn = Some(turn_id);
                self.phase = Phase::Starting { command_id: command.id, text };
                actions.push(send(make_start(&self.settings)));
                assert(actions.deep_view() =~= seq![sent(start_message(self.settings))]);
            },
            SessionCommandBody::Input(message) => {
                if !matches!(self.phase, Phase::Speaking) {
                    return Err(protocol("unsupported command or command order"));
                }
                let text = user_text(&message)?;
                // The service acknowledges no input by itself: that it was sent is all there
                // is to tell.
                actions.push(send(make_continue(text.as_str())));
                actions.push(make_ack(command.id));
                assert(actions.deep_view() =~= seq![sent(continue_message(text@)), ack(id)]);
            },
            SessionCommandBody::InterruptOutput { turn_id, output_epoch } => {
                if !matches!(self.phase, Phase::Speaking) {
                    return Err(protocol("unsupported command or command order"));
                }
                let current = match &self.turn {
                    Some(turn) => same(turn.as_str(), turn_id.as_str()),
                    None => false,
                };
                if !current {
                    return Err(protocol("interrupt turn mismatch"));
                }
                self.audio.validate_epoch(output_epoch)?;
                self.phase = Phase::Interrupting { command_id: command.id, epoch: output_epoch };
                actions.push(send(make_event("task_cancel")));
                assert(actions.deep_view() =~= seq![sent(event_message("task_cancel"@))]);
            },
            SessionCommandBody::EndInput => {
                if !matches!(self.phase, Phase::Speaking) {
                    return Err(protocol("unsupported command or command order"));
                }
                self.phase = Phase::Finishing(command.id);
                actions.push(send(make_event("task_finish")));
                assert(actions.deep_view() =~= seq![sent(event_message("task_finish"@))]);
            },
            SessionCommandBody::Close => {
                actions.push(make_ack(command.id));
                actions.push(Action::Event(SessionEventBody::Closed(None)));
                actions.push(Action::Close);
                assert(actions.deep_view() =~= seq![
                    ack(id),
                    ActionView::Event(SessionEventBodyView::Closed(None)),
                    ActionView::Close,
                ]);
            },
            _ => return Err(protocol("unsupported command or command order")),
        }
        Ok(actions)
    }

    fn hear(&mut self, audio: &Option<String>, now: u64) -> (r: Result<Vec<Action>, Error>)
        ensures
            match old(self)@.heard(audio.deep_view(), now) {
                Ok((next, actions)) => seen(r) == Ok::<Seq<ActionView>, ErrorView>(actions)
                    && final(self)@ == next,
                Err(e) => seen(r) == Err::<Seq<ActionView>, ErrorView>(e) && final(self)@ == old(
                    self,
                )@,
            },
    {
        let mut actions: Vec<Action> = Vec::new();
        assert(actions.deep_view() =~= Seq::empty());
        if let Some(hex) = audio {
            if hex.as_str().unicode_len() > 0 {
                if !self.phase.is_audible() {
                    return Err(protocol("audio outside a synthesis task"));
                }
                let turn = match &self.turn {
                    Some(turn) => turn.as_str(),
                    None => return Err(protocol("missing turn")),
                };
                let chunk = self.audio.push(turn, hex.as_str(), now)?;
                let ghost seen_chunk = chunk@;
                actions.push(Action::Media(chunk));
                assert(actions.deep_view() =~= seq![ActionView::Media(seen_chunk)]);
            }
        }
        Ok(actions)
    }

    fn mark(
        &mut self,
        event: &Option<String>,
        audible: bool,
        response_id: Option<String>,
        now: u64,
    ) -> (r: Result<Vec<Action>, Error>)
        ensures
            (final(self)@, seen(r)) == old(self)@.marked(
                event.deep_view(),
                audible,
                response_id.deep_view(),
                now,
            ),
    {
        let mut actions: Vec<Action> = Vec::new();
        assert(actions.deep_view() =~= Seq::empty());
        if is_event(event, "connected_success") && matches!(self.phase, Phase::Connecting) {
            self.phase = Phase::Ready;
            return Ok(actions);
        }
        if is_event(event, "task_started") && matches!(self.phase, Phase::Starting { .. }) {
            let mut phase = Phase::Speaking;
            std::mem::swap(&mut phase, &mut self.phase);
            if let Phase::Starting { command_id, text } = phase {
                let ghost id = command_id@;
                actions.push(send(make_continue(text.as_str())));
                actions.push(make_ack(command_id));
                assert(actions.deep_view() =~= seq![sent(continue_message(text@)), ack(id)]);
            }
            return Ok(actions);
        }
        if is_event(event, "task_canceled") && matches!(self.phase, Phase::Interrupting { .. }) {
            let mut phase = Phase::Speaking;
            std::mem::swap(&mut phase, &mut self.phase);
            if let Phase::Interrupting { command_id, epoch } = phase {
                // Up to here, all audio on its way keeps the epoch before.
                self.audio.cancel(epoch)?;
                let ghost id = command_id@;
                actions.push(make_ack(command_id));
                assert(actions.deep_view() =~= seq![ack(id)]);
            }
            return Ok(actions);
        }
        if is_event(event, "task_finished") && matches!(self.phase, Phase::Finishing(_)) {
            let mut phase = Phase::Finished;
            std::mem::swap(&mut phase, &mut self.phase);
            if let Phase::Finishing(command_id) = phase {
                self.audio.finish()?;
                let turn_id = match &self.turn {
                    Some(turn) => turn.clone(),
                    None => return Err(protocol("missing turn")),
                };
                let ghost id = command_id@;
                actions.push(make_ack(command_id));
                let end = TurnEnd {
                    turn_id,
                    usage: Usage::default(),
                    model_id: Some(self.settings.model.clone()),
                    response_id,
                    finish_reason: Some("task_finished".to_owned()),
                    provider_data: Json::Null,
                    effective: None,
                };
                let disposition = TurnDisposition::Finished;
                let ghost ended = end@;
                actions.push(Action::Event(SessionEventBody::TurnFinished { disposition, end }));
                assert(actions.deep_view() =~= seq![
                    ack(id),
                    ActionView::Event(
                        SessionEventBodyView::TurnFinished { disposition, end: ended },
                    ),
                ]);
            }
            return Ok(actions);
        }
        if is_event(event, "sentence_start") && self.phase.is_audible() {
            self.audio.start()?;
            return Ok(actions);
        }
        if is_event(event, "sentence_end") && self.phase.is_audible() {
            let turn = match &self.turn {
                Some(turn) => turn.as_str(),
                None => return Err(protocol("missing turn")),
            };
            let chunk = self.audio.end(turn, now)?;
            let ghost seen_chunk = chunk@;
            actions.push(Action::Media(chunk));
            assert(actions.deep_view() =~= seq![ActionView::Media(seen_chunk)]);
            return Ok(actions);
        }
        // A last fragment may carry metadata and empty audio.
        if (is_event(event, "task_continued") || event.is_none()) && audible
            && self.phase.is_audible() {
            return Ok(actions);
        }
        Err(protocol("unexpected event or event order"))
    }

    /// Takes an event of the service; `now` counts microseconds of the session.
    pub fn receive_event(&mut self, value: Json, now: u64) -> (r: Result<Vec<Action>, Error>)
        ensures
            (final(self)@, seen(r)) == old(self)@.received(value@, now),
    {
        if !value.is_object() {
            return Err(protocol("event must be a JSON object"));
        }
        check_status(&value)?;
        let event = read_text(&value, "event")?;
        let audio = read_audio(&value)?;
        let mut media = self.hear(&audio, now)?;
        let response_id = match value.get_str("session_id") {
            Some(id) => Some(id.to_owned()),
            None => None,
        };
        let mut marked = self.mark(&event, audio.is_some(), response_id, now)?;
        let ghost heard = media.deep_view();
        let ghost last = marked.deep_view();
        let observed = Action::Observe(ModelDelta::ProtocolEvent { output_index: 0, data: value });
        let ghost first = observed@;
        let mut actions: Vec<Action> = Vec::new();
        actions.push(observed);
        actions.append(&mut media);
        actions.append(&mut marked);
        assert(actions.deep_view() =~= seq![first] + heard + last);
        Ok(actions)
    }

    /// Takes a message of the wire.
    pub fn receive(&mut self, message: WireMessage, now: u64) -> (r: Result<Vec<Action>, Error>)
        ensures
            (final(self)@, seen(r)) == old(self)@.read(message@, now),
    {
        let text = match message {
            WireMessage::Text(text) => text,
            WireMessage::Binary(_) => return Err(protocol("expected a JSON text frame")),
        };
        match Json::parse(text.as_str()) {
            Ok(value) => self.receive_event(value, now),
            Err(_) => Err(protocol("invalid JSON event")),
        }
    }
}

fn is_event(event: &Option<String>, name: &str) -> (r: bool)
    ensures
        r == (event.deep_view() == Some(name@)),
{
    match event {
        Some(event) => same(event.as_str(), name),
        None => false,
    }
}

// ---------------------------------------------------------------------------------------
// Laws
// ---------------------------------------------------------------------------------------
/// An interruption that was taken is not refused when the service confirms it, as long as the
/// epoch stands: its acknowledgement follows, and audio after it belongs to the new epoch.
pub proof fn interruption_is_confirmed(session: SessionView, response: Option<Seq<char>>, now: u64)
    requires
        session.phase is Interrupting,
        session.audio.epoch < session.phase->epoch,
    ensures
        ({
            let (next, actions) = session.marked(Some("task_canceled"@), false, response, now);
            &&& actions == Ok::<Seq<ActionView>, ErrorView>(
                seq![ack(session.phase->Interrupting_command_id)],
            )
            &&& next.phase is Speaking
            &&& next.audio.epoch == session.phase->epoch
        }),
{
    reveal_strlit("connected_success");
    reveal_strlit("task_started");
    reveal_strlit("task_canceled");
}

/// Audio on its way before an interruption is confirmed keeps its epoch.
pub proof fn audio_before_confirmation_keeps_its_epoch(
    session: SessionView,
    audio: Option<Seq<char>>,
    now: u64,
)
    ensures
        session.heard(audio, now) matches Ok((next, actions)) ==> next.phase == session.phase
            && next.audio.epoch == session.audio.epoch && (forall|i: int|
            0 <= i < actions.len() ==> (#[trigger] actions[i]) is Media && actions[i]->Media_0.epoch
                == session.audio.epoch),
{
}

/// A phase that waits for the service takes no command but the one to close.
pub proof fn barriers_hold_commands_back(
    session: SessionView,
    id: Seq<char>,
    body: SessionCommandBody,
    policy: Result<(), ErrorView>,
)
    requires
        !session.commands_allowed(),
    ensures
        body is Close || session.commanded(id, body, policy) is Err,
{
}

/// A refused or mismatched event leaves the phase where it was, but for the two that the
/// service ends a task with.
pub proof fn unexpected_events_change_no_phase(
    session: SessionView,
    event: Option<Seq<char>>,
    audible: bool,
    response: Option<Seq<char>>,
    now: u64,
)
    requires
        event != Some("task_canceled"@),
        event != Some("task_finished"@),
        session.marked(event, audible, response, now).1 is Err,
    ensures
        session.marked(event, audible, response, now).0 == session,
{
}

} // verus!
