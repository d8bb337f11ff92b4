use zhir_models::codec::minimax_tts::{latest_text, validate_request, Session, Settings};
use zhir_models::command::{
    SessionCommand, SessionCommandBody, SessionEventBody, TurnDisposition,
};
use zhir_models::error::Error;
use zhir_models::json::Json;
use zhir_models::message::{Content, Message};
use zhir_models::minimax::tts::settings::{
    AudioFormat, Emotion, SoundEffect, SubtitleGranularity, VoiceEffects,
};
use zhir_models::minimax::tts::{settings, TtsConfig};
use zhir_models::model::{ModelRequest, Profile, ToolChoice};
use zhir_models::streaming::minimax_tts::{decode_audio, Audio};
use zhir_models::transport::WireMessage;
use zhir_models::websocket::Action;

fn request(text: &str) -> ModelRequest {
    ModelRequest {
        messages: vec![Message::User(vec![Content::Text(text.into())])],
        runtime_tools: vec![],
        provider_tools: vec![],
        tool_choice: ToolChoice::Auto,
        response_format: None,
        profile: Profile {
            temperature: None,
            max_output_tokens: None,
            seed: None,
            parallel_runtime_tools: None,
            extensions: Json::empty(),
        },
        stream: false,
    }
}

fn session() -> Session {
    let settings = Settings::new(TtsConfig::new("speech".into(), "voice".into()));
    Session::open(settings, false, 0, 16, "audio/mpeg".into()).unwrap()
}

fn receive(session: &mut Session, event: &str) -> Result<Vec<Action>, Error> {
    session.receive(WireMessage::Text(event.into()), 1)
}

fn command(id: &str, body: SessionCommandBody) -> SessionCommand {
    SessionCommand { id: id.into(), body }
}

fn event(action: &Action) -> Json {
    match action {
        Action::Send(WireMessage::Text(text)) => Json::parse(text).unwrap(),
        other => panic!("{other:?}"),
    }
}

fn speaking() -> Session {
    let mut session = session();
    receive(&mut session, r#"{"event":"connected_success"}"#).unwrap();
    let start = SessionCommandBody::StartTurn { turn_id: "t".into(), request: request("hello") };
    let actions = session.command(command("start", start), Ok(())).unwrap();
    assert_eq!(event(&actions[0]).get_str("event"), Some("task_start"));
    assert!(!session.commands_allowed());
    let actions = receive(&mut session, r#"{"event":"task_started"}"#).unwrap();
    assert_eq!(event(&actions[1]).get_str("text"), Some("hello"));
    assert_eq!(
        actions[2],
        Action::Event(SessionEventBody::Acknowledged {
            command_id: "start".into(),
            recovery: None,
            level: None,
        })
    );
    session
}

#[test]
fn a_turn_is_spoken_and_finished() {
    let mut session = speaking();
    receive(&mut session, r#"{"event":"sentence_start"}"#).unwrap();
    let actions =
        receive(&mut session, r#"{"event":"task_continued","data":{"audio":"6869"}}"#).unwrap();
    assert!(matches!(&actions[1], Action::Media(chunk) if chunk.bytes == b"hi" && !chunk.end));
    let actions = receive(&mut session, r#"{"event":"sentence_end"}"#).unwrap();
    assert!(matches!(&actions[1], Action::Media(chunk) if chunk.end));
    let actions = session.command(command("end", SessionCommandBody::EndInput), Ok(())).unwrap();
    assert_eq!(event(&actions[0]).get_str("event"), Some("task_finish"));
    let actions =
        receive(&mut session, r#"{"event":"task_finished","session_id":"remote"}"#).unwrap();
    match &actions[2] {
        Action::Event(SessionEventBody::TurnFinished { disposition, end }) => {
            assert_eq!(*disposition, TurnDisposition::Finished);
            assert_eq!(end.effective, None);
            assert_eq!(end.turn_id, "t");
            assert_eq!(end.response_id.as_deref(), Some("remote"));
            assert_eq!(end.model_id.as_deref(), Some("speech"));
        }
        other => panic!("{other:?}"),
    }
    assert!(session.finished());
}

#[test]
fn an_interruption_is_confirmed_before_its_epoch_begins() {
    let mut session = speaking();
    receive(&mut session, r#"{"event":"sentence_start"}"#).unwrap();
    let interrupt = SessionCommandBody::InterruptOutput { turn_id: "t".into(), output_epoch: 1 };
    session.command(command("stop", interrupt), Ok(())).unwrap();
    assert!(!session.commands_allowed());
    let actions =
        receive(&mut session, r#"{"event":"task_continued","data":{"audio":"68"}}"#).unwrap();
    assert!(matches!(&actions[1], Action::Media(chunk) if chunk.epoch == 0));
    let actions = receive(&mut session, r#"{"event":"task_canceled"}"#).unwrap();
    assert_eq!(
        actions[1],
        Action::Event(SessionEventBody::Acknowledged {
            command_id: "stop".into(),
            recovery: None,
            level: None,
        })
    );
    receive(&mut session, r#"{"event":"sentence_start"}"#).unwrap();
    let actions =
        receive(&mut session, r#"{"event":"task_continued","data":{"audio":"68"}}"#).unwrap();
    assert!(matches!(&actions[1], Action::Media(chunk) if chunk.epoch == 1));
}

#[test]
fn events_out_of_order_and_statuses_are_errors() {
    let mut opened = session();
    assert!(receive(&mut opened, r#"{"event":"task_started"}"#).is_err());
    assert!(receive(&mut opened, "[]").is_err());
    assert!(receive(&mut opened, "{").is_err());
    assert!(opened.receive(WireMessage::Binary(vec![]), 0).is_err());
    assert!(receive(&mut opened, r#"{"data":{"audio":"68"}}"#).is_err());
    assert!(matches!(
        receive(&mut opened, r#"{"base_resp":{"status_code":2205}}"#),
        Err(Error::Uncertain(_))
    ));
    assert!(matches!(
        receive(&mut opened, r#"{"base_resp":{"status_code":-7}}"#),
        Err(Error::Model(failure)) if failure.code == "minimax_-7"
    ));
    assert!(opened.command(command("", SessionCommandBody::Close), Ok(())).is_err());
    assert!(opened.command(command("x", SessionCommandBody::EndInput), Ok(())).is_err());
    assert!(matches!(
        Session::open(
            Settings::new(TtsConfig::new("m".into(), "v".into())),
            true,
            0,
            1,
            "audio/mpeg".into()
        ),
        Err(Error::Protocol(_))
    ));
}

#[test]
fn requests_are_text_alone() {
    assert_eq!(latest_text(&request("hello")), Ok("hello".into()));
    assert!(validate_request(&request("hello")).is_ok());
    let mut seeded = request("hello");
    seeded.profile.seed = Some(7);
    assert_eq!(
        validate_request(&seeded),
        Err(Error::Invalid(
            "MiniMax TTS uses TtsConfig; generation and extension overrides are unsupported".into()
        ))
    );
}

#[test]
fn audio_is_hexadecimal_and_bounded() {
    assert_eq!(decode_audio("00ffA1", 3), Ok(vec![0, 255, 161]));
    assert!(decode_audio("0", 3).is_err());
    assert!(decode_audio("0g", 3).is_err());
    assert!(decode_audio("00112233", 3).is_err());
    let mut audio = Audio::new(3, 16, "audio/mpeg".into());
    assert!(audio.end("t", 0).is_err());
    audio.start().unwrap();
    assert!(audio.start().is_err());
    assert_eq!(audio.push("t", "6869", 0).unwrap().sequence, 0);
    assert_eq!(audio.push("t", "6869", 0).unwrap().sequence, 1);
    assert!(audio.finish().is_err());
    assert!(audio.end("t", 0).unwrap().end);
    assert!(audio.finish().is_ok());
    assert!(audio.cancel(3).is_err());
    audio.cancel(4).unwrap();
}

#[test]
fn settings_have_their_names_on_the_wire() {
    assert_eq!(AudioFormat::Mp3.wire_name(), "mp3");
    assert!(AudioFormat::Pcm.media_type(24000, 2).contains("24000"));
    assert_eq!(Emotion::Happy.wire_name(), "happy");
    assert_eq!(SoundEffect::Robotic.wire_name(), "robotic");
    assert_eq!(SubtitleGranularity::Word.wire_name(), "word");
    let effects = VoiceEffects {
        pitch: -3,
        intensity: 0,
        timbre: 4,
        sound_effects: Some(SoundEffect::SpaciousEcho),
    };
    assert_eq!(effects.to_json().get("pitch"), Some(&Json::sint(-3)));
    let voice = settings::VoiceSettings::new("v".into()).to_json();
    assert_eq!(voice.get_str("voice_id"), Some("v"));
}

#[test]
fn configurations_are_checked() {
    let config = TtsConfig::new("speech".into(), "voice".into());
    assert_eq!(config.validate(true, u128::MAX), Ok(()));
    assert!(config.validate(false, u128::MAX).is_err());
    assert!(TtsConfig::new("".into(), "voice".into()).validate(true, u128::MAX).is_err());
    assert!(TtsConfig::new("speech".into(), "".into()).validate(true, u128::MAX).is_err());
    let mut pitched = TtsConfig::new("speech".into(), "voice".into());
    pitched.voice.pitch = 13;
    assert!(pitched.validate(true, u128::MAX).is_err());
}
