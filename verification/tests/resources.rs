use sha2::Digest;
use zhir_models::command::{SessionCommandBody, SessionEventBody, TurnDisposition, TurnEnd};
use zhir_models::error::Error;
use zhir_models::json::Json;
use zhir_models::message::{
    Content, Message, Modality, Output, ProviderToolCall, ProviderToolStatus, ResourceInput,
    ResourceSource, RuntimeToolOutcome,
};
use zhir_models::model::Usage;
use zhir_models::resources::seal::{chunks, Event, Sealed, SealedOutput};
use zhir_models::resources::{Command, Read, Reading, Reference, ResourceModel, Stop, CHUNK_BYTES};

fn json(text: &str) -> Json {
    Json::parse(text).unwrap()
}

fn resource(source: ResourceSource) -> Content {
    Content::Resource(ResourceInput {
        id: "r".into(),
        media_type: "image/png".into(),
        modality: Modality::Image,
        name: None,
        source,
        metadata: Json::empty().with_text("owner", "host"),
        fidelity: None,
        extensions: Json::empty(),
    })
}

fn stored(key: &str) -> Content {
    resource(ResourceSource::Stored(key.into()))
}

fn inline(bytes: &[u8]) -> Content {
    resource(ResourceSource::Inline(bytes.to_vec()))
}

fn call(output: Vec<Content>, data: Json) -> Output {
    Output::ProviderToolCall(ProviderToolCall {
        id: "img".into(),
        provider: "consumer".into(),
        name: "image".into(),
        status: ProviderToolStatus::Completed,
        output,
        data,
    })
}

fn replay(items: &str, media: &str) -> Json {
    json(&format!(r#"{{"$zhir_provider_replay":{{"items":{items},"media":{media}}}}}"#))
}

fn event(output: Output) -> SessionEventBody {
    SessionEventBody::Output {
        turn_id: None,
        item_id: "item".into(),
        caller_id: "caller".into(),
        output,
    }
}

fn seal(key: &str) -> Sealed {
    Sealed {
        media_type: "image/png".into(),
        source: ResourceSource::Stored(key.into()),
        reference: Json::empty().with_text("key", key),
    }
}

#[test]
fn the_limit_is_positive() {
    assert_eq!(
        ResourceModel::new(0),
        Err(Error::Invalid("resource materialization limit must be positive".into()))
    );
    assert!(ResourceModel::new(1).is_ok());
}

#[test]
fn stored_inputs_are_resolved_in_order_within_one_budget() {
    let model = ResourceModel::new(10).unwrap();
    let messages = vec![
        Message::User(vec![stored("a"), inline(b"123")]),
        Message::Assistant {
            output: vec![],
            provider_data: json(r#"{"image":{"$zhir_resource":{"key":"b"}}}"#),
        },
    ];
    match model.resolve(&messages, &vec![]) {
        Err(Stop::Open { reference: Reference::Part(input), limit }) => {
            assert_eq!(input.source, ResourceSource::Stored("a".into()));
            assert_eq!(limit, 10);
        }
        other => panic!("{other:?}"),
    }
    assert_eq!(
        model.resolve(&messages, &vec![b"hello".to_vec()]),
        Err(Stop::Open {
            reference: Reference::Marker(json(r#"{"key":"b"}"#)),
            limit: 2,
        })
    );
    assert_eq!(
        model.resolve(&messages, &vec![b"hello".to_vec(), b"hi".to_vec()]),
        Ok(vec![
            Message::User(vec![inline(b"hello"), inline(b"123")]),
            Message::Assistant { output: vec![], provider_data: json(r#"{"image":"aGk="}"#) },
        ])
    );
    assert_eq!(
        ResourceModel::new(7).unwrap().resolve(&messages, &vec![b"hello".to_vec()]),
        Err(Stop::Failed(Error::Invalid("resource exceeds input materialization limit".into())))
    );
    assert_eq!(
        model.resolve(&messages, &vec![b"hello".to_vec(), b"hey".to_vec()]),
        Err(Stop::Failed(Error::Invalid(
            "resource exceeds input materialization limit; use media streaming".into()
        )))
    );
    let broken = Message::Assistant {
        output: vec![],
        provider_data: json(r#"{"$zhir_resource":{},"more":1}"#),
    };
    assert_eq!(
        model.resolve(&vec![broken], &vec![]),
        Err(Stop::Failed(Error::Protocol("invalid resource replay marker".into())))
    );
}

#[test]
fn commands_are_resolved_where_they_bring_input() {
    let model = ResourceModel::new(10).unwrap();
    let loads = vec![b"hello".to_vec()];
    let body = SessionCommandBody::Input(Message::User(vec![stored("a")]));
    assert_eq!(
        model.resolve_command(&body, &loads),
        Ok(Command::Input(Message::User(vec![inline(b"hello")])))
    );
    let body = SessionCommandBody::ToolResult {
        call_id: "c".into(),
        outcome: RuntimeToolOutcome::Success(vec![stored("a")]),
    };
    assert_eq!(
        model.resolve_command(&body, &loads),
        Ok(Command::ToolResult(vec![inline(b"hello")]))
    );
    assert_eq!(
        model.resolve_command(&SessionCommandBody::Close, &vec![]),
        Ok(Command::Unchanged)
    );
}

#[test]
fn reading_stops_at_the_limit() {
    let reading = Reading::new(5);
    assert_eq!(reading.wanted(), 6);
    let reading = match reading.read(b"123".to_vec()) {
        Ok(Read::More(reading)) => reading,
        other => panic!("{other:?}"),
    };
    assert_eq!(reading.wanted(), 3);
    assert_eq!(reading.read(vec![]), Ok(Read::Done(b"123".to_vec())));
    assert!(Reading::new(5).read(b"123456".to_vec()).is_err());
    assert_eq!(Reading::new(usize::MAX).wanted(), CHUNK_BYTES);
}

#[test]
fn resources_are_written_in_chunks() {
    let bytes: Vec<u8> = (0..CHUNK_BYTES + 3).map(|i| i as u8).collect();
    let written = chunks(&bytes);
    assert_eq!(written.iter().map(Vec::len).collect::<Vec<_>>(), vec![CHUNK_BYTES, 3]);
    assert_eq!(written.concat(), bytes);
    assert!(chunks(&vec![]).is_empty());
}

#[test]
fn sealed_output_holds_references_alone_and_is_had_back() {
    let original = call(
        vec![inline(b"hello"), Content::Text("caption".into())],
        replay(r#"[{"data":"aGVsbG8="}]"#, r#"[{"content_index":0,"pointer":"/items/0/data"}]"#),
    );
    let mut output = SealedOutput::new();
    match output.receive(&event(original.clone()), &vec![]) {
        Err(Stop::Seal { key, .. }) => {
            let digest = sha2::Sha256::digest(b"image/png\0hello");
            assert_eq!(key, format!("{digest:x}"));
        }
        other => panic!("{other:?}"),
    }
    let sealed = match output.receive(&event(original.clone()), &vec![seal("k")]) {
        Ok(Event::Output(sealed)) => sealed,
        other => panic!("{other:?}"),
    };
    match &sealed {
        Output::ProviderToolCall(call) => {
            assert_eq!(call.output[0], stored("k"));
            assert_eq!(
                call.data.pointer("/$zhir_provider_replay/items/0/data"),
                Some(&json(r#"{"$zhir_resource":{"key":"k"}}"#))
            );
        }
        other => panic!("{other:?}"),
    }
    let model = ResourceModel::new(10).unwrap();
    let message = Message::Assistant { output: vec![sealed], provider_data: Json::Null };
    assert_eq!(
        model.resolve(&vec![message], &vec![b"hello".to_vec(), b"hello".to_vec()]),
        Ok(vec![Message::Assistant { output: vec![original], provider_data: Json::Null }])
    );
}

#[test]
fn a_store_must_seal() {
    let mut output = SealedOutput::new();
    let body = event(Output::Content(inline(b"hello")));
    let mut changed = seal("k");
    changed.media_type = "image/jpeg".into();
    assert_eq!(
        output.receive(&body, &vec![changed]),
        Err(Stop::Failed(Error::Protocol("resource store changed media type".into())))
    );
    let mut open = seal("k");
    open.source = ResourceSource::Inline(vec![]);
    assert_eq!(
        output.receive(&body, &vec![open]),
        Err(Stop::Failed(Error::Protocol("resource store did not seal output".into())))
    );
}

#[test]
fn replay_bindings_must_fit_the_output() {
    let items = r#"[{"data":"aGVsbG8="}]"#;
    for (contents, data, message) in [
        (
            vec![inline(b"hello")],
            replay(items, r#"[{"content_index":0,"pointer":"/other"}]"#),
            "invalid or duplicate resource replay binding",
        ),
        (
            vec![inline(b"hello")],
            replay(items, r#"[{"content_index":0,"pointer":"/items/0/x"},{"content_index":0,"pointer":"/items/0/y"}]"#),
            "invalid or duplicate resource replay binding",
        ),
        (
            vec![inline(b"hello")],
            replay(items, r#"[{"content_index":0,"pointer":"/items/0/x"}]"#),
            "resource replay pointer not found",
        ),
        (
            vec![inline(b"other")],
            replay(items, r#"[{"content_index":0,"pointer":"/items/0/data"}]"#),
            "resource replay payload mismatch",
        ),
        (
            vec![inline(b"hello")],
            replay(items, "[]"),
            "unbound resource remains in provider replay",
        ),
        (
            vec![inline(b"hello")],
            json(r#"{"$zhir_provider_replay":null}"#),
            "invalid provider replay: invalid type: null, expected struct Replay",
        ),
        (
            vec![Content::Text("x".into())],
            replay(items, r#"[{"content_index":0,"pointer":"/items/0/data"}]"#),
            "resource binding has no inline output",
        ),
    ] {
        let mut output = SealedOutput::new();
        assert_eq!(
            output.receive(&event(call(contents, data)), &vec![seal("k")]),
            Err(Stop::Failed(Error::Protocol(message.into())))
        );
    }
}

fn turn_finished(provider_data: Json) -> SessionEventBody {
    SessionEventBody::TurnFinished {
        disposition: TurnDisposition::Finished,
        end: TurnEnd {
            turn_id: "t".into(),
            usage: Usage::default(),
            model_id: None,
            response_id: None,
            finish_reason: None,
            provider_data,
            effective: None,
        },
    }
}

#[test]
fn turn_data_holds_no_sealed_payload_until_the_turn_ends() {
    let mut output = SealedOutput::new();
    output.receive(&event(Output::Content(inline(b"hello"))), &vec![seal("k")]).unwrap();
    let raw = json(r#"{"items":[{"data":"aGVsbG8="}]}"#);
    assert_eq!(
        output.receive(&turn_finished(raw.clone()), &vec![]),
        Err(Stop::Failed(Error::Protocol(
            "inline resource remains in native turn data; declare its replay binding".into()
        )))
    );
    assert_eq!(output.receive(&turn_finished(Json::Null), &vec![]), Ok(Event::Unchanged));
    assert_eq!(output.receive(&turn_finished(raw), &vec![]), Ok(Event::Unchanged));
    assert_eq!(
        output.receive(&SessionEventBody::OperationFinished(vec![inline(b"x")]), &vec![seal("k")]),
        Ok(Event::OperationFinished(vec![stored("k")]))
    );
}
