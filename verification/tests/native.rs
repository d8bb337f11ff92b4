use zhir_models::clock::Moment;
use zhir_models::command::{MediaChunk, SessionEventBody};
use zhir_models::error::Error;
use zhir_models::native::media::{reserve_size, MAX_BUFFERED_CHUNKS};
use zhir_models::native::outputs::deliverable;
use zhir_models::native::{Confirmation, Outputs};
use zhir_models::transport::webrtc::{
    admit_audio, check_control, read_control, Connection, ConnectionState,
};
use zhir_models::transport::{RtpTimeline, WireMessage};
use zhir_models::webrtc::{self, Effect, ProtocolStatus, Queues};
use zhir_models::websocket::{self, WebSocketConfig, Wire};

fn chunk(epoch: u64, bytes: &[u8]) -> MediaChunk {
    MediaChunk {
        stream_id: "s".into(),
        turn_id: "t".into(),
        epoch,
        sequence: 0,
        timestamp_us: 0,
        media_type: "audio/mpeg".into(),
        bytes: bytes.to_vec(),
        end: false,
    }
}

fn at(nanoseconds: u128) -> Moment {
    Moment { at: nanoseconds, last: u128::MAX }
}

#[test]
fn one_barrier_stands_until_it_is_confirmed_in_time() {
    let mut barrier: Confirmation<String> = Confirmation::new();
    assert_eq!(
        barrier.complete(at(0)),
        Err(Error::Protocol("unsolicited remote confirmation".into()))
    );
    assert_eq!(
        barrier.begin("a".into(), "A".into(), "started", at(0), 0),
        Err(Error::Invalid("invalid confirmation timeout".into()))
    );
    assert_eq!(
        barrier.begin("a".into(), "A".into(), "started", Moment { at: 5, last: 14 }, 10),
        Err(Error::Invalid("invalid confirmation timeout".into()))
    );
    barrier.begin("a".into(), "A".into(), "started", at(5), 10).unwrap();
    assert_eq!(barrier.deadline(), Some(15));
    assert_eq!(
        barrier.begin("b".into(), "B".into(), "started", at(5), 10),
        Err(Error::Protocol("remote confirmation already pending".into()))
    );
    assert_eq!(
        barrier.check(at(15)),
        Err(Error::Uncertain(
            "remote confirmation timed out: expected started, pending A".into()
        ))
    );
    assert_eq!(barrier.complete(at(14)), Ok("a".into()));
    assert!(barrier.pending().is_none());
}

#[test]
fn events_are_numbered_and_bounded() {
    let mut outputs = Outputs::new(1, 1, 10, 0);
    let mut accepted = 0;
    while outputs.event(SessionEventBody::Closed(None)).is_ok() {
        accepted += 1;
    }
    assert_eq!(
        outputs.event(SessionEventBody::Closed(None)),
        Err(Error::Uncertain("native event capacity exceeded".into()))
    );
    for sequence in 0..accepted {
        assert_eq!(outputs.flush_event().unwrap().sequence, sequence);
    }
    assert!(outputs.flush_event().is_none());
    assert!(!outputs.pending());
    assert!(!outputs.events_pending());
}

#[test]
fn media_of_past_epochs_is_dropped() {
    let mut outputs = Outputs::new(8, 8, 4, 0);
    outputs.queue_media(chunk(0, b"ab"), false, Ok(())).unwrap();
    outputs.queue_media(chunk(1, b"cd"), false, Ok(())).unwrap();
    assert!(outputs.queue_media(chunk(1, b"e"), false, Ok(())).is_err());
    assert_eq!(outputs.queue_media(chunk(1, b""), false, Err(Error::Deadline)), Err(Error::Deadline));
    outputs.invalidate_before(1);
    assert_eq!(outputs.min_epoch(), 1);
    assert_eq!(outputs.flush_media().unwrap().bytes, b"cd");
    assert!(outputs.flush_media().is_none());
    assert!(!deliverable(&chunk(0, b""), 1));
    assert!(deliverable(&chunk(1, b""), 1));
}

#[test]
fn reservations_fit_the_budget() {
    assert_eq!(reserve_size(10, 10), Ok(10));
    assert_eq!(
        reserve_size(10, 11),
        Err(Error::Invalid("media payload exceeds buffer budget".into()))
    );
    assert_eq!(
        reserve_size(usize::MAX, 1 << 32),
        Err(Error::Invalid("media payload too large".into()))
    );
    assert_eq!(MAX_BUFFERED_CHUNKS, 4096);
}

#[test]
fn messages_and_packets_are_bounded() {
    assert_eq!(WireMessage::Text("你".into()).size(), 3);
    assert!(WireMessage::Binary(vec![0; 4]).check_size(4).is_ok());
    assert!(WireMessage::Binary(vec![0; 5]).check_size(4).is_err());
    assert_eq!(read_control(true, "你".as_bytes(), 3), Ok("你".into()));
    assert!(read_control(true, &[0xff], 3).is_err());
    assert!(read_control(false, b"x", 3).is_err());
    assert!(read_control(true, b"long", 3).is_err());
    assert!(check_control("你", 3).is_ok());
    assert!(check_control("你", 2).is_err());
    assert!(admit_audio(4, 4, Ok(())).is_ok());
    assert!(admit_audio(5, 4, Ok(())).is_err());
    assert_eq!(admit_audio(4, 4, Err(Error::Cancelled)), Err(Error::Cancelled));
}

#[test]
fn packets_are_taken_in_order() {
    let mut timeline = RtpTimeline::default();
    assert_eq!(timeline.accept(1, 10, 1000), Ok(Some(0)));
    assert_eq!(timeline.accept(1, 11, 1960), Ok(Some(960)));
    assert_eq!(timeline.accept(1, 11, 1960), Ok(None));
    assert_eq!(timeline.ticks(), 960);
    assert!(timeline.accept(2, 12, 2920).is_err());
}

#[test]
fn a_connection_remembers_since_when() {
    let mut connection = Connection::new(ConnectionState::New, 0);
    assert!(connection.enter(ConnectionState::Connected, 5));
    assert!(!connection.enter(ConnectionState::Connected, 9));
    assert_eq!(connection.since, 5);
}

#[test]
fn a_socket_that_finished_closes_after_its_output() {
    let mut driver = websocket::Driver::new(Outputs::new(8, 8, 8, 0));
    let action = websocket::Action::Send(WireMessage::Text("hi".into()));
    assert_eq!(
        driver.apply(action, None, Ok(())),
        Ok(Wire::Send(WireMessage::Text("hi".into())))
    );
    let event = websocket::Action::Event(SessionEventBody::Closed(None));
    assert_eq!(driver.apply(event, None, Ok(())), Ok(Wire::Nothing));
    let status = websocket::ProtocolStatus { commands_allowed: true, finished: false };
    assert!(driver.ready(status).flush);
    assert_eq!(driver.apply(websocket::Action::Close, None, Ok(())), Ok(Wire::Close));
    assert_eq!(
        driver.apply(websocket::Action::Fail(Error::Cancelled), None, Ok(())),
        Err(Error::Cancelled)
    );
    driver.outputs.flush_event().unwrap();
    assert!(driver.ready(status).done);
}

#[test]
fn web_socket_settings_are_checked() {
    let config = WebSocketConfig::new("wss://example.com/x".into());
    assert_eq!(config.validate(u128::MAX), Ok(()));
    let config = WebSocketConfig::new("https://example.com".into());
    assert_eq!(
        config.validate(u128::MAX),
        Err(Error::Invalid("invalid WebSocket connection settings".into()))
    );
    for url in ["not a url", "/relative"] {
        let config = WebSocketConfig::new(url.into());
        assert_eq!(
            config.validate(u128::MAX),
            Err(Error::Invalid("invalid WebSocket URL".into()))
        );
    }
    let mut config = WebSocketConfig::new("ws://example.com".into());
    config.write_timeout = 0;
    assert!(config.validate(u128::MAX).is_err());
    assert!(WebSocketConfig::new("ws://example.com".into()).validate(10).is_err());
}

#[test]
fn writes_hold_commands_back() {
    let outputs = Outputs::new(8, 8, 8, 0);
    let mut driver = webrtc::Driver::new(outputs, vec![webrtc::Action::Send("hi".into())]);
    driver.connect();
    let status = ProtocolStatus {
        commands_allowed: true,
        input_allowed: true,
        draining: false,
        finished: false,
        closed: false,
    };
    let link = webrtc::ConnectionStatus {
        commands_allowed: true,
        input_allowed: true,
        deadline: None,
    };
    let queues = Queues { input_empty: true, events_empty: true, audio_empty: true };
    match driver.advance(Ok(true), true) {
        Ok(Effect::Send(text)) => assert_eq!(text, "hi"),
        _ => panic!("nothing sent"),
    }
    driver.write();
    assert!(!driver.ready(status, link, queues, true, 0).command);
    driver.written();
    assert!(driver.ready(status, link, queues, true, 0).command);
    driver.commanded(vec![webrtc::Action::Fail(Error::Deadline)]);
    assert!(matches!(driver.advance(Ok(true), true), Err(Error::Deadline)));
}
