use sha2::Digest;
use zhir_models::artifacts::{ArtifactContent, ArtifactModel, ArtifactRef, Stop};
use zhir_models::error::Error;
use zhir_models::json::Json;
use zhir_models::message::{
    Content, MediaSource, Message, Output, ProviderToolCall, ProviderToolStatus,
};
use zhir_models::model::{TurnOutput, Usage};

fn json(text: &str) -> Json {
    Json::parse(text).unwrap()
}

fn image(id: &str) -> Content {
    Content::Image(MediaSource::Artifact { id: id.into(), mime_type: "image/png".into() })
}

fn inline(base64: &str) -> Content {
    Content::Image(MediaSource::Inline { mime_type: "image/png".into(), base64: base64.into() })
}

fn response(output: Vec<Output>, provider_data: Json) -> TurnOutput {
    TurnOutput {
        output,
        usage: Usage::default(),
        provider_turn_pending: false,
        provider_data,
        model_id: None,
        response_id: None,
        finish_reason: None,
    }
}

fn call(output: Vec<Content>, data: Json) -> Output {
    Output::ProviderToolCall(ProviderToolCall {
        id: "img".into(),
        provider: "consumer".into(),
        name: "image".into(),
        status: ProviderToolStatus::Completed,
        output,
        data,
    })
}

fn replay(items: &str, media: &str) -> Json {
    json(&format!(r#"{{"$zhir_provider_replay":{{"items":{items},"media":{media}}}}}"#))
}

/// Saves against a store that keeps everything under its key.
fn save(model: &mut ArtifactModel, response: &TurnOutput) -> (Result<TurnOutput, Error>, Vec<String>) {
    let mut keys = Vec::new();
    loop {
        match model.save(response) {
            Ok(saved) => return (Ok(saved), keys),
            Err(Stop::Store { key, content }) => {
                keys.push(key.clone());
                let reference = ArtifactRef {
                    id: format!("stored-{}", keys.len()),
                    mime_type: content.mime_type.clone(),
                };
                model.fetched(reference.id.clone(), content);
                model.stored(key, reference);
            }
            Err(Stop::Failed(error)) => return (Err(error), keys),
            Err(stop) => panic!("{stop:?}"),
        }
    }
}

#[test]
fn invalid_contents_and_replay_markers_stop_before_model_and_preserve_error_kind() {
    let asked = Message::User(vec![image("image")]);
    let mut model = ArtifactModel::new("artifacts".into());
    let reference = ArtifactRef { id: "image".into(), mime_type: "image/png".into() };
    assert_eq!(model.resolve(&vec![asked.clone()]), Err(Stop::Fetch(reference)));
    model.fetched(
        "image".into(),
        ArtifactContent { mime_type: "audio/wav".into(), base64: "YQ==".into() },
    );
    assert!(matches!(
        model.resolve(&vec![asked]),
        Err(Stop::Failed(Error::Artifact { id, .. })) if id == "image"
    ));
    let marked = Message::Assistant {
        output: vec![Output::text("previous")],
        provider_data: json(
            r#"{"$zhir_artifact":{"id":"image","mime_type":"image/png"},"unexpected":true}"#,
        ),
    };
    assert!(matches!(
        model.resolve(&vec![marked]),
        Err(Stop::Failed(Error::Protocol(_)))
    ));
}

#[test]
fn invalid_reference_returned_by_store_is_an_artifact_error() {
    let mut model = ArtifactModel::new("artifacts".into());
    let response = response(vec![Output::Content(inline("YQ=="))], Json::Null);
    let key = match model.save(&response) {
        Err(Stop::Store { key, content }) => {
            assert_eq!(content.mime_type, "image/png");
            assert_eq!(content.base64, "YQ==");
            key
        }
        other => panic!("{other:?}"),
    };
    model.stored(
        key,
        ArtifactRef { id: "invalid-reference".into(), mime_type: "audio/wav".into() },
    );
    assert!(matches!(
        model.save(&response),
        Err(Stop::Failed(Error::Artifact { id, .. })) if id == "invalid-reference"
    ));
}

#[test]
fn an_artifact_is_fetched_once_and_resolved_everywhere() {
    let mut model = ArtifactModel::new("run".into());
    let messages = vec![
        Message::User(vec![image("a"), Content::Text("and".into()), image("a")]),
        Message::Assistant {
            output: vec![call(
                vec![image("a")],
                json(r#"{"nested":[{"$zhir_artifact":{"id":"a","mime_type":"image/png"}}]}"#),
            )],
            provider_data: Json::Null,
        },
    ];
    assert!(matches!(model.resolve(&messages), Err(Stop::Fetch(r)) if r.id == "a"));
    model.fetched(
        "a".into(),
        ArtifactContent { mime_type: "image/png".into(), base64: "YQ==".into() },
    );
    let resolved = model.resolve(&messages).unwrap();
    assert_eq!(
        resolved[0],
        Message::User(vec![inline("YQ=="), Content::Text("and".into()), inline("YQ==")])
    );
    assert_eq!(
        resolved[1],
        Message::Assistant {
            output: vec![call(vec![inline("YQ==")], json(r#"{"nested":["YQ=="]}"#))],
            provider_data: Json::Null,
        }
    );
    assert_eq!(model.resolve(&resolved), Ok(resolved.clone()));
}

#[test]
fn empty_references_are_refused() {
    let model = ArtifactModel::new("run".into());
    assert_eq!(
        model.resolve(&vec![Message::User(vec![image("")])]),
        Err(Stop::Failed(Error::Artifact {
            id: "".into(),
            message: "empty artifact reference".into(),
        }))
    );
}

#[test]
fn a_marker_without_a_reference_is_handed_back() {
    let model = ArtifactModel::new("run".into());
    for held in [r#"{"id":"a"}"#, r#"{"id":"a","mime_type":7}"#, r#"["a"]"#, "null"] {
        let marked = Message::Assistant {
            output: vec![],
            provider_data: json(&format!(r#"{{"items":[{{"$zhir_artifact":{held}}}]}}"#)),
        };
        assert_eq!(model.resolve(&vec![marked]), Err(Stop::Unreadable(json(held))));
    }
}

#[test]
fn keys_depend_on_run_type_and_payload() {
    let response = response(
        vec![Output::Content(inline("YQ==")), Output::Content(inline("YQ=="))],
        Json::Null,
    );
    let mut model = ArtifactModel::new("run-1".into());
    let (saved, keys) = save(&mut model, &response);
    let digest = sha2::Sha256::digest(br#"["run-1","image/png","YQ=="]"#);
    assert_eq!(keys, vec![format!("{digest:x}")]);
    assert_eq!(
        saved.unwrap().output,
        vec![Output::Content(image("stored-1")), Output::Content(image("stored-1"))]
    );
}

#[test]
fn what_was_saved_resolves_back() {
    let original = response(
        vec![
            call(
                vec![inline("YQ=="), Content::Text("two".into()), inline("Yg==")],
                replay(
                    r#"[{"result":"YQ==","more":{"result":"Yg=="}}]"#,
                    r#"[{"content_index":0,"pointer":"/items/0/result"},{"content_index":2,"pointer":"/items/0/more/result"}]"#,
                ),
            ),
            Output::text("done"),
        ],
        json(r#"{"trace":1}"#),
    );
    let mut model = ArtifactModel::new("run".into());
    let (saved, keys) = save(&mut model, &original);
    let saved = saved.unwrap();
    assert_eq!(keys.len(), 2);
    match &saved.output[0] {
        Output::ProviderToolCall(call) => {
            assert_eq!(call.output[0], image("stored-1"));
            assert_eq!(call.output[2], image("stored-2"));
            assert_eq!(
                call.data.pointer("/$zhir_provider_replay/items/0/more/result"),
                Some(&json(r#"{"$zhir_artifact":{"id":"stored-2","mime_type":"image/png"}}"#))
            );
        }
        other => panic!("{other:?}"),
    }
    let message = Message::Assistant { output: saved.output, provider_data: saved.provider_data };
    assert_eq!(
        model.resolve(&vec![message]),
        Ok(vec![Message::Assistant {
            output: original.output,
            provider_data: original.provider_data,
        }])
    );
}

#[test]
fn bindings_must_fit_the_output() {
    let item = r#"[{"result":"YQ=="}]"#;
    for (output, data, message) in [
        (
            vec![inline("YQ==")],
            replay(item, r#"[{"content_index":0,"pointer":"/other/0/result"}]"#),
            "media binding must address native replay items",
        ),
        (
            vec![inline("YQ==")],
            replay(
                item,
                r#"[{"content_index":0,"pointer":"/items/0/result"},{"content_index":0,"pointer":"/items/0/result"}]"#,
            ),
            "duplicate provider media binding",
        ),
        (
            vec![inline("YQ=="), inline("YQ==")],
            replay(
                item,
                r#"[{"content_index":0,"pointer":"/items/0/result"},{"content_index":1,"pointer":"/items/0/result"}]"#,
            ),
            "artifact replay bindings must identify unique protocol payload fields",
        ),
        (
            vec![inline("YQ==")],
            replay(item, r#"[{"content_index":0,"pointer":"/items/0/absent"}]"#),
            "artifact replay path not found: /output/0/call/data/$zhir_provider_replay/items/0/absent",
        ),
        (
            vec![inline("Yg==")],
            replay(item, r#"[{"content_index":0,"pointer":"/items/0/result"}]"#),
            "artifact replay payload mismatch at /output/0/call/data/$zhir_provider_replay/items/0/result",
        ),
        (
            vec![inline("YQ==")],
            replay(item, r#"[{"content_index":0,"pointer":"/items/0/result"},{"content_index":7,"pointer":"/items/0/result"}]"#),
            "artifact binding does not address an inline output",
        ),
        (
            vec![inline("YQ==")],
            json(r#"{"$zhir_provider_replay":{"items":[]}}"#),
            "invalid provider replay: missing field `media`",
        ),
        (
            vec![inline("YQ==")],
            json(r#"{"copy":["YQ=="]}"#),
            "inline artifact remains in protocol replay data; declare media in ProviderOutput",
        ),
    ] {
        let mut model = ArtifactModel::new("run".into());
        let (saved, _) = save(&mut model, &response(vec![call(output, data)], Json::Null));
        assert_eq!(saved, Err(Error::Protocol(message.into())));
    }
    let mut model = ArtifactModel::new("run".into());
    let leaking = response(vec![Output::Content(inline("YQ=="))], json(r#"{"raw":"YQ=="}"#));
    assert!(save(&mut model, &leaking).0.is_err());
}
