use zhir_models::clock::{Moment, SECOND};
use zhir_models::command::{MediaChunk, SessionCommand, SessionCommandBody, SessionEventBody};
use zhir_models::credentials::Credential;
use zhir_models::error::Error;
use zhir_models::http::Answered;
use zhir_models::json::Json;
use zhir_models::message::{Content, Message, RuntimeToolOutcome};
use zhir_models::model::{ModelRequest, Profile, ToolChoice};
use zhir_models::openai::live::audio::{codec, input, opus_duration, Audio};
use zhir_models::openai::live::codec::{context, server_event, ServerEvent};
use zhir_models::openai::live::protocol::{check_open, Host, Protocol};
use zhir_models::openai::live::signaling::{append, body, created, description, headers};
use zhir_models::openai::live::LiveConfig;
use zhir_models::transport::webrtc::AudioPacket;
use zhir_models::webrtc::Action;

fn request() -> ModelRequest {
    ModelRequest {
        messages: vec![Message::User(vec![Content::Text("hello".into())])],
        runtime_tools: vec![],
        provider_tools: vec![],
        tool_choice: ToolChoice::Auto,
        response_format: None,
        profile: Profile {
            temperature: None,
            max_output_tokens: None,
            seed: None,
            parallel_runtime_tools: None,
            extensions: Json::empty(),
        },
        stream: false,
    }
}

fn host() -> Host {
    Host { policy: Ok(()), rendered: Ok("done".into()) }
}

fn command(id: &str, body: SessionCommandBody) -> SessionCommand {
    SessionCommand { id: id.into(), body }
}

fn acknowledged(id: &str) -> Action {
    Action::Event(SessionEventBody::Acknowledged {
        command_id: id.into(),
        recovery: None,
        level: None,
    })
}

fn sent(action: &Action) -> Json {
    match action {
        Action::Send(text) => Json::parse(text).unwrap(),
        other => panic!("{other:?}"),
    }
}

fn active() -> Protocol {
    let mut protocol = Protocol::new(LiveConfig::new(), 1);
    let start = SessionCommandBody::StartTurn { turn_id: "t".into(), request: request() };
    let actions = protocol.command(command("start", start), host(), at(0)).unwrap();
    match &actions[0] {
        Action::Connect { payload, deadline, .. } => {
            assert_eq!(*deadline, 30 * SECOND);
            assert_eq!(payload.get_str("model"), Some("gpt-live-1-codex"));
        }
        other => panic!("{other:?}"),
    }
    assert!(!protocol.commands_allowed());
    let started = r#"{"type":"session.started","session":{"id":"remote"}}"#;
    let actions = protocol.receive(started, at(1)).unwrap();
    assert!(actions.contains(&acknowledged("start")));
    assert!(protocol.commands_allowed());
    protocol
}

fn at(nanoseconds: u128) -> Moment {
    Moment { at: nanoseconds, last: u128::MAX }
}

#[test]
fn a_late_start_is_uncertain() {
    let mut protocol = Protocol::new(LiveConfig::new(), 1);
    let start = SessionCommandBody::StartTurn { turn_id: "t".into(), request: request() };
    protocol.command(command("start", start), host(), at(0)).unwrap();
    assert_eq!(protocol.deadline(), Some(30 * SECOND));
    assert_eq!(
        protocol.check_deadline(at(30 * SECOND)),
        Err(Error::Uncertain(
            "remote confirmation timed out: expected session.started, pending Start(\"start\")"
                .into()
        ))
    );
}

#[test]
fn input_is_sent_in_fragments_and_acknowledged() {
    let mut protocol = active();
    let message = Message::User(vec![Content::Text("x".repeat(501))]);
    let actions =
        protocol.command(command("in", SessionCommandBody::Input(message)), host(), at(2)).unwrap();
    assert_eq!(actions.len(), 3);
    assert_eq!(sent(&actions[0]).get_str("type"), Some("session.context.append"));
    assert_eq!(
        sent(&actions[0]).pointer("/content/0/text").and_then(Json::as_str).unwrap().len(),
        500
    );
    assert_eq!(actions[2], acknowledged("in"));
}

#[test]
fn delegations_are_bounded_and_end_the_input() {
    let mut protocol = active();
    let created = r#"{"type":"delegation.created","item":{"type":"delegation","id":"d","target":"client","content":[{"type":"input_text","text":"do it"}]}}"#;
    let actions = protocol.receive(created, at(2)).unwrap();
    assert!(!actions.is_empty());
    let actions =
        protocol.command(command("end", SessionCommandBody::EndInput), host(), at(3)).unwrap();
    assert_eq!(actions, vec![Action::DrainInput]);
    let result = |id: &str| SessionCommandBody::DelegationResult {
        call_id: id.into(),
        outcome: RuntimeToolOutcome::Success(vec![]),
    };
    assert_eq!(
        protocol.command(command("r", result("other")), host(), at(3)),
        Err(Error::Protocol("unknown or completed Live delegation".into()))
    );
    let actions = protocol.command(command("r", result("d")), host(), at(3)).unwrap();
    assert_eq!(sent(actions.last().unwrap()).get_str("type"), Some("session.close"));
    protocol
        .receive(r#"{"type":"session.closed","reason":"client_request","usage":{}}"#, at(4))
        .unwrap();
    assert!(protocol.draining());
    let actions = protocol.finalize().unwrap();
    assert!(actions.contains(&acknowledged("end")));
    assert!(protocol.finished());
}

#[test]
fn events_are_read_by_their_type() {
    let read = |text: &str| server_event(&Json::parse(text).unwrap());
    assert!(matches!(read(r#"{"type":"input_audio.paused"}"#), Some(ServerEvent::AudioPaused)));
    assert!(matches!(
        read(r#"{"type":"error","error":{"code":"c","message":"m"}}"#),
        Some(ServerEvent::Error { code, message }) if code == "c" && message == "m"
    ));
    assert!(matches!(read(r#"{"type":"later"}"#), Some(ServerEvent::Observation)));
    assert!(read(r#"{"type":"session.started"}"#).is_none());
    assert!(read("{}").is_none());
    assert!(check_open(false).is_ok());
    assert!(check_open(true).is_err());
    let parts = context("session.context.append", "id", "hi", Some("d"), "commentary");
    assert_eq!(parts[0].get_str("delegation_item_id"), Some("d"));
    assert_eq!(parts[0].get_str("event_id"), Some("id:0"));
}

#[test]
fn packets_last_as_long_as_they_say() {
    // One frame of twenty milliseconds, then two of them.
    assert_eq!(opus_duration(&[0x78, 0]), Ok(20_000));
    assert_eq!(opus_duration(&[0x79, 0]), Ok(40_000));
    assert!(opus_duration(&[]).is_err());
    assert_eq!(codec().clock_rate, 48_000);
    let packet = |sequence: u16, timestamp: u32| AudioPacket {
        payload: vec![0x78, 0],
        timestamp,
        sequence,
        ssrc: 1,
    };
    let mut audio = Audio::new(2, 16);
    let first = audio.receive("t", packet(1, 0)).unwrap().unwrap();
    assert_eq!((first.epoch, first.sequence, first.timestamp_us), (2, 0, 0));
    let second = audio.receive("t", packet(2, 960)).unwrap().unwrap();
    assert_eq!((second.sequence, second.timestamp_us), (1, 20_000));
    assert!(audio.receive("t", packet(2, 960)).unwrap().is_none());
    assert!(audio.finish("t").unwrap().end);
    assert!(Audio::new(0, 16).finish("t").is_none());
    let chunk = MediaChunk { bytes: vec![0x78, 0], end: false, media_type: "audio/opus".into(), ..first };
    assert_eq!(input("other", &chunk, Err(Error::Deadline)), Err(Error::Deadline));
}

#[test]
fn configurations_name_an_endpoint() {
    assert_eq!(LiveConfig::new().validate(u128::MAX), Ok(()));
    for endpoint in ["", "not a url", "ftp://example.com"] {
        let mut config = LiveConfig::new();
        config.endpoint = endpoint.into();
        assert!(config.validate(u128::MAX).is_err());
    }
    let mut config = LiveConfig::new();
    config.max_event_bytes = 0;
    assert!(config.validate(u128::MAX).is_err());
}

#[test]
fn a_call_is_created_over_http() {
    let credential = Credential {
        generation: "one".into(),
        scheme: "Bearer".into(),
        value: "secret".into(),
        expires_at_ms: None,
        metadata: vec![("header:ChatGPT-Account-Id".into(), "7".into())],
    };
    let sent = headers(&credential, "session").unwrap();
    assert!(sent.iter().any(|(name, value)| name == "authorization" && value == "Bearer secret"));
    assert!(sent.iter().any(|(name, value)| name == "chatgpt-account-id" && value == "7"));
    let nameless = Credential { metadata: vec![], ..credential };
    assert_eq!(
        headers(&nameless, "session"),
        Err(Error::Invalid("Live requires header:ChatGPT-Account-Id credential metadata".into()))
    );
    assert_eq!(body("v=0", Json::Null).get_str("sdp"), Some("v=0"));
    assert_eq!(created(0, 401), Ok(Answered::Refresh));
    assert_eq!(created(0, 201), Ok(Answered::Accepted));
    assert!(matches!(created(0, 500), Err(Error::Model(failure)) if failure.code == "http_500"));
    let mut data = Vec::new();
    append(&mut data, b"v=0", 4).unwrap();
    assert!(append(&mut data, b"xy", 4).is_err());
    assert_eq!(description(&b"v=0".to_vec()), Ok("v=0".into()));
    assert!(description(&vec![0xff]).is_err());
}
