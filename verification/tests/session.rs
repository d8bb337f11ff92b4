use std::collections::VecDeque;
use zhir_models::command::{
    Acknowledgement, Closure, HistoryEntry, ResponseStatus, SessionCommand, SessionCommandBody,
    SessionEvent, SessionEventBody,
};
use zhir_models::error::Error;
use zhir_models::json::Json;
use zhir_models::message::{
    Content, Message, Output, RuntimeToolCall, RuntimeToolInput,
};
use zhir_models::model::{
    ModelDelta, ModelRequest, Profile, ToolChoice, TurnOutput, Usage,
};
use zhir_models::native::Terminal;
use zhir_models::session::{
    check_open, next_sequence, response_status, terminal_error, Ask, FinishEvents, Host,
    Schedule, SessionTask, Step,
};
use zhir_models::transform::project;

fn profile() -> Profile {
    Profile {
        temperature: None,
        max_output_tokens: None,
        seed: None,
        parallel_runtime_tools: None,
        extensions: Json::empty(),
    }
}

fn host() -> Host {
    Host { cancelled: Ok(()), negotiated: Ok(()), admitted: Ok(()), projected: Ok(vec![]) }
}

fn task() -> SessionTask {
    SessionTask::new(vec![], profile(), 0, 0, 0)
}

fn command(body: SessionCommandBody) -> SessionCommand {
    SessionCommand { id: "c".into(), body }
}

fn user(text: &str) -> Message {
    Message::User(vec![Content::Text(text.into())])
}

fn append(context_revision: u64) -> SessionCommand {
    command(SessionCommandBody::Append {
        entry: HistoryEntry { id: "e".into(), origin: None, message: user("hi") },
        context_revision,
        input_position: 1,
        submitted: true,
    })
}

fn generate(context_revision: u64, input_position: u64) -> SessionCommand {
    command(SessionCommandBody::Generate {
        generation_id: "g".into(),
        context_revision,
        input_position,
        profile_revision: 0,
    })
}

#[test]
fn revisions_are_contiguous_and_generations_match_them() {
    let mut task = task();
    assert_eq!(
        task.command(append(2), false, host()),
        Err(Error::Protocol("non-contiguous context revision".into()))
    );
    task.command(append(1), false, host()).unwrap();
    assert_eq!(task.context_revision(), 1);
    assert_eq!(task.history().len(), 1);
    assert!(task.command(generate(0, 1), false, host()).is_err());
    assert!(task.command(generate(1, 1), true, host()).is_err());
    let events = task.command(generate(1, 1), false, host()).unwrap();
    assert_eq!(
        events[0],
        SessionEventBody::Acknowledged {
            command_id: "c".into(),
            recovery: None,
            level: Some(Acknowledgement::Projection),
        }
    );
    assert!(matches!(&events[1], SessionEventBody::ResponseStarted { generation_id, .. } if generation_id == "g"));
    assert!(task.is_active());
    assert_eq!(task.generated(), Some(("g".to_string(), 1)));
    assert!(!task.is_active());
}

#[test]
fn sealed_input_stays_sealed() {
    let mut task = task();
    task.command(command(SessionCommandBody::SealUserInput), false, host()).unwrap();
    assert_eq!(
        task.command(append(1), false, host()),
        Err(Error::Invalid("user input is sealed".into()))
    );
}

#[test]
fn commands_are_refused_as_they_should_be() {
    let mut task = task();
    assert_eq!(
        task.command(SessionCommand { id: "".into(), body: SessionCommandBody::Close }, false, host()),
        Err(Error::Invalid("empty command identity".into()))
    );
    assert_eq!(
        task.command(command(SessionCommandBody::EndInput), false, host()),
        Err(Error::Invalid("unsupported exchange session command".into()))
    );
    assert_eq!(
        task.command(command(SessionCommandBody::Close), true, host()),
        Err(Error::Protocol("cannot close an active generation".into()))
    );
    assert_eq!(
        task.command(
            command(SessionCommandBody::UpdateProfile { revision: 2, profile: profile() }),
            false,
            host()
        ),
        Err(Error::Protocol("non-contiguous profile revision".into()))
    );
    assert_eq!(
        task.command(
            command(SessionCommandBody::ReplaceContext { entries: vec![], context_revision: 1 }),
            true,
            host()
        ),
        Err(Error::Protocol("context replacement crosses a generation or revision".into()))
    );
    let mut cancelled = host();
    cancelled.cancelled = Err(Error::Cancelled);
    assert_eq!(
        task.command(command(SessionCommandBody::Close), false, cancelled),
        Err(Error::Cancelled)
    );
    let closed = task.command(command(SessionCommandBody::Close), false, host()).unwrap();
    assert_eq!(
        closed[1],
        SessionEventBody::Closed(Some(Closure {
            reason: "host_request".into(),
            provider_data: Json::Null,
        }))
    );
}

fn response(output: Vec<Output>) -> TurnOutput {
    TurnOutput {
        output,
        usage: Usage::default(),
        provider_turn_pending: false,
        provider_data: Json::Null,
        model_id: None,
        response_id: None,
        finish_reason: None,
    }
}

fn tool_call() -> Output {
    Output::RuntimeToolCall(RuntimeToolCall {
        id: "t".into(),
        name: "read".into(),
        input: RuntimeToolInput::Structured(Json::empty()),
    })
}

#[test]
fn a_response_with_calls_waits_for_results() {
    let output = vec![tool_call()];
    assert_eq!(
        response_status(ResponseStatus::Completed, &output),
        ResponseStatus::RequiresResults
    );
    assert_eq!(response_status(ResponseStatus::Failed, &output), ResponseStatus::Failed);
    assert_eq!(response_status(ResponseStatus::Completed, &vec![]), ResponseStatus::Completed);
}

#[test]
fn the_host_is_asked_only_of_commands_in_order() {
    let mut task = task();
    assert_eq!(task.asks(&append(1), false), Ok(Ask::Admission));
    assert_eq!(
        task.asks(&append(2), false),
        Err(Error::Protocol("non-contiguous context revision".into()))
    );
    assert_eq!(task.asks(&generate(0, 0), false), Ok(Ask::Negotiation));
    assert!(task.asks(&generate(0, 0), true).is_err());
    let replace = SessionCommandBody::ReplaceContext { entries: vec![], context_revision: 1 };
    assert_eq!(task.asks(&command(replace), false), Ok(Ask::Projection));
    let update = SessionCommandBody::UpdateProfile { revision: 1, profile: profile() };
    assert_eq!(task.asks(&command(update), false), Ok(Ask::Negotiation));
    assert_eq!(task.asks(&command(SessionCommandBody::Close), false), Ok(Ask::Nothing));
    let mut refusing = host();
    refusing.negotiated = Err(Error::Cancelled);
    task.command(append(1), false, refusing).unwrap();
    let mut refusing = host();
    refusing.admitted = Err(Error::Cancelled);
    assert_eq!(task.command(append(2), false, refusing), Err(Error::Cancelled));
    assert_eq!(task.context_revision(), 1);
}

#[test]
fn a_response_ends_with_the_profile_that_took_effect() {
    let mut reported = response(vec![]);
    reported.provider_data = Json::empty().with("effective", Json::uint(7));
    let mut events = FinishEvents::new(
        "g".into(),
        1,
        ResponseStatus::Completed,
        reported.clone(),
        Ok(()),
    )
    .unwrap();
    match events.next() {
        Some((SessionEventBody::ResponseFinished { end, .. }, _)) => {
            assert_eq!(end.effective, Some(Json::uint(7)))
        }
        other => panic!("{other:?}"),
    }
    let unread = Err("no profile".to_string());
    assert!(matches!(
        FinishEvents::new("g".into(), 1, ResponseStatus::Completed, reported, unread.clone()),
        Err(Error::Protocol(message)) if message == "effective profile: no profile"
    ));
    let silent = response(vec![]);
    let mut events =
        FinishEvents::new("g".into(), 1, ResponseStatus::Completed, silent, unread).unwrap();
    match events.next() {
        Some((SessionEventBody::ResponseFinished { end, .. }, _)) => {
            assert_eq!(end.effective, None)
        }
        other => panic!("{other:?}"),
    }
}

#[test]
fn the_schedule_hands_out_answers_before_output() {
    let mut schedule = Schedule::new(4);
    match schedule.step() {
        Step::Emit(SessionEventBody::Ready { context_revision }) => assert_eq!(context_revision, 4),
        _ => panic!("not ready"),
    }
    assert!(schedule.is_sending());
    schedule.sent();
    assert!(matches!(schedule.step(), Step::Wait));
    let finish = FinishEvents::new(
        "g".into(),
        1,
        ResponseStatus::Completed,
        response(vec![Output::text("hi")]),
        Ok(()),
    )
    .unwrap();
    schedule.commanded(
        false,
        vec![SessionEventBody::ResponseStarted { generation_id: "g".into(), input_position: 1 }],
    );
    assert!(matches!(schedule.step(), Step::Emit(SessionEventBody::ResponseStarted { .. })));
    schedule.sent();
    schedule.generated(finish);
    assert!(matches!(schedule.step(), Step::Emit(SessionEventBody::Output { .. })));
    schedule.sent();
    assert!(matches!(schedule.step(), Step::Emit(SessionEventBody::ResponseFinished { .. })));
    schedule.sent();
    assert!(matches!(schedule.step(), Step::Wait));
}

#[test]
fn sessions_are_not_resumed() {
    assert_eq!(check_open(false, false), Ok(()));
    assert_eq!(
        check_open(true, false),
        Err(Error::Invalid("binding does not belong to an exchange adapter".into()))
    );
    assert_eq!(
        check_open(false, true),
        Err(Error::Protocol("exchange session has no persistent session resume".into()))
    );
    assert_eq!(next_sequence(7), Ok(8));
    assert_eq!(next_sequence(u64::MAX), Err(Error::Protocol("event sequence overflow".into())));
    assert_eq!(terminal_error(Some(Ok(()))), None);
    assert_eq!(terminal_error(Some(Err(Error::Cancelled))), Some(Error::Cancelled));
    assert_eq!(
        terminal_error(None),
        Some(Error::Protocol("exchange driver lost its terminal result".into()))
    );
}

#[test]
fn accepted_events_come_out_before_the_error_and_that_once() {
    let event = SessionEvent {
        sequence: 3,
        body: SessionEventBody::Delta {
            turn_id: None,
            delta: ModelDelta::Text { output_index: 0, text: "x".into() },
        },
    };
    let mut terminal = Terminal::new(VecDeque::from([event]), Err(Error::Cancelled));
    assert!(matches!(terminal.next(), Ok(Some(event)) if event.sequence == 3));
    assert_eq!(terminal.next(), Err(Error::Cancelled));
    assert_eq!(terminal.next(), Ok(None));
    assert!(matches!(Terminal::lost().next(), Err(Error::Uncertain(_))));
}

fn request(messages: Vec<Message>) -> ModelRequest {
    ModelRequest {
        messages,
        runtime_tools: vec![],
        provider_tools: vec![],
        tool_choice: ToolChoice::Auto,
        response_format: None,
        profile: profile(),
        stream: false,
    }
}

#[test]
fn a_projection_keeps_the_configuration() {
    let entries = project(&request(vec![]), request(vec![user("a"), user("b")]), 3).unwrap();
    assert_eq!(entries[1].id, "projection:3:1");
    assert_eq!(entries[1].message, user("b"));
    let mut changed = request(vec![]);
    changed.stream = true;
    assert_eq!(
        project(&request(vec![]), changed, 3),
        Err(Error::Invalid("context transform changed session configuration".into()))
    );
}
