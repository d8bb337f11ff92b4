use zhir_models::codec::exchange::{decode_with, encode_with};
use zhir_models::credentials::Credential;
use zhir_models::error::Error;
use zhir_models::extension::ProtocolExtension;
use zhir_models::http::{answered, http_error, request_headers, Answered, HttpModel, ModelConfig};
use zhir_models::json::Json;
use zhir_models::message::{
    Content, MediaSource, Message, Output, ProviderToolCall, ProviderToolStatus, RuntimeToolCall,
    RuntimeToolInput, RuntimeToolOutcome,
};
use zhir_models::model::{
    ModelDelta, ModelRequest, Profile, Protocol, ProviderToolSpec, ResponseFormat, ToolChoice,
    TurnOutput,
};
use zhir_models::provider_tools::{ProviderToolAdapter, ProviderTools};
use zhir_models::streaming::dispatch::dispatch;
use zhir_models::streaming::Accumulator;
use zhir_models::transport::SseDecoder;

fn json(text: &str) -> Json {
    Json::parse(text).unwrap()
}

fn text(value: &Json, path: &str) -> String {
    value.pointer(path).and_then(Json::as_str).unwrap().to_string()
}

fn user(text: &str) -> Message {
    Message::User(vec![Content::Text(text.into())])
}

fn request(stream: bool) -> ModelRequest {
    ModelRequest {
        messages: vec![Message::System(vec![Content::Text("Be concise".into())]), user("hello")],
        runtime_tools: vec![],
        provider_tools: vec![],
        tool_choice: ToolChoice::Auto,
        response_format: None,
        profile: Profile {
            temperature: None,
            max_output_tokens: None,
            seed: None,
            parallel_runtime_tools: None,
            extensions: Json::empty(),
        },
        stream,
    }
}

type Extension = Option<Box<dyn ProtocolExtension>>;

fn sent(protocol: Protocol, request: &ModelRequest, extension: &mut Extension) -> Result<Json, Error> {
    encode_with(extension, protocol, "fixture", request).unwrap()
}

/// Runs a stream through the decoder, in pieces of seven bytes.
fn streamed(protocol: Protocol, body: &str) -> Result<(TurnOutput, Vec<ModelDelta>), Error> {
    let mut extension: Extension = None;
    let mut decoder = SseDecoder::default();
    let mut state = Accumulator::new(protocol);
    let mut deltas = Vec::new();
    let mut events = Vec::new();
    for piece in body.as_bytes().chunks(7) {
        events.extend(decoder.push(piece)?);
    }
    events.extend(decoder.finish()?);
    for event in events {
        deltas.extend(dispatch(&mut state, event, protocol, &mut extension).unwrap()?);
    }
    let response = state.finish().unwrap()?;
    Ok((decode_with(&mut extension, protocol, &response)?, deltas))
}

fn sse(values: &[&str]) -> String {
    values.iter().map(|v| format!("data: {v}\n\n")).collect()
}

#[test]
fn chat_stream_assembles_calls_unicode_and_usage() {
    let body = sse(&[
        r#"{"id":"r1","model":"fixture","choices":[{"delta":{"content":"你好"}}]}"#,
        r#"{"choices":[{"delta":{"tool_calls":[{"index":0,"id":"c1","function":{"name":"echo","arguments":"{\"text\":"}}]}}]}"#,
        r#"{"choices":[{"delta":{"tool_calls":[{"index":0,"function":{"arguments":"\"ok\"}"}}]},"finish_reason":"tool_calls"}]}"#,
        r#"{"choices":[],"usage":{"prompt_tokens":5,"completion_tokens":3,"total_tokens":8,"prompt_tokens_details":{"cached_tokens":3}}}"#,
    ]) + "data: [DONE]\n\n";
    let (response, deltas) = streamed(Protocol::Chat, &body).unwrap();
    assert_eq!(response.usage.total_tokens, Some(8));
    assert_eq!(response.usage.input_tokens, Some(5));
    assert_eq!(response.usage.cache_read_tokens, Some(3));
    assert_eq!(response.output[0], Output::text("你好"));
    assert!(matches!(&response.output[1], Output::RuntimeToolCall(call) if call.id == "c1"));
    assert_eq!(
        deltas.iter().filter(|d| !matches!(d, ModelDelta::ProtocolEvent { .. })).count(),
        4
    );
    let body = sent(Protocol::Chat, &request(true), &mut None).unwrap();
    assert_eq!(body.pointer("/stream_options/include_usage"), Some(&Json::Bool(true)));
}

struct ImageFixture;

impl ProviderToolAdapter for ImageFixture {
    fn identity(&self) -> (&str, &str) {
        ("consumer", "image")
    }

    fn encode(&mut self, _: Protocol, _: &ProviderToolSpec) -> Result<Json, Error> {
        Ok(Json::empty().with_text("type", "image_generation"))
    }

    fn decode(&mut self, _: Protocol, item: &Json, _: &Json) -> Result<Option<Vec<Output>>, Error> {
        if item.get_str("type") != Some("image_generation_call") {
            return Ok(None);
        }
        Ok(Some(vec![Output::ProviderToolCall(ProviderToolCall {
            id: item.get_str("id").unwrap().into(),
            provider: "consumer".into(),
            name: "image".into(),
            status: ProviderToolStatus::Completed,
            output: vec![Content::Image(MediaSource::Inline {
                mime_type: "image/png".into(),
                base64: item.get_str("result").unwrap().into(),
            })],
            data: item.clone(),
        })]))
    }

    fn replay(&mut self, _: Protocol, call: &ProviderToolCall) -> Result<Vec<Json>, Error> {
        Ok(vec![call.data.clone()])
    }
}

fn image_fixture() -> Extension {
    let mut registry = ProviderTools::new();
    registry.register(Box::new(ImageFixture)).unwrap();
    Some(Box::new(registry))
}

#[test]
fn responses_preserves_provider_output_and_continuation_history() {
    let raw = json(
        r#"{"id":"resp","model":"fixture","status":"completed","output":[{"type":"message","role":"assistant","content":[{"type":"output_text","text":"image"}]},{"type":"image_generation_call","id":"img","status":"completed","result":"aGVsbG8="}],"usage":{"input_tokens":2,"output_tokens":4}}"#,
    );
    let mut extension = image_fixture();
    let mut input = request(false);
    input.provider_tools = vec![ProviderToolSpec {
        provider: "consumer".into(),
        name: "image".into(),
        options: Json::empty(),
    }];
    sent(Protocol::Responses, &input, &mut extension).unwrap();
    let response = decode_with(&mut extension, Protocol::Responses, &raw).unwrap();
    assert!(
        matches!(&response.output[1], Output::ProviderToolCall(call) if matches!(&call.output[0], Content::Image(_)))
    );
    let mut next = request(false);
    next.messages.push(Message::Assistant {
        output: response.output,
        provider_data: response.provider_data,
    });
    let body = sent(Protocol::Responses, &next, &mut image_fixture()).unwrap();
    assert_eq!(text(&body, "/input/3/type"), "image_generation_call");
}

#[test]
fn a_tool_that_was_not_declared_is_refused() {
    let raw = json(
        r#"{"status":"completed","output":[{"type":"image_generation_call","id":"img","result":"aGVsbG8="}]}"#,
    );
    assert_eq!(
        decode_with(&mut image_fixture(), Protocol::Responses, &raw),
        Err(Error::Protocol("provider returned a tool that was not enabled".into()))
    );
}

#[test]
fn anthropic_stream_assembles_tool_blocks_and_usage() {
    let body = sse(&[
        r#"{"type":"message_start","message":{"id":"m1","model":"fixture","role":"assistant","content":[],"usage":{"input_tokens":5,"cache_read_input_tokens":9,"cache_creation_input_tokens":4}}}"#,
        r#"{"type":"content_block_start","index":0,"content_block":{"type":"tool_use","id":"c1","name":"echo","input":{}}}"#,
        r#"{"type":"content_block_delta","index":0,"delta":{"type":"input_json_delta","partial_json":"{\"x\":1}"}}"#,
        r#"{"type":"content_block_stop","index":0}"#,
        r#"{"type":"message_delta","delta":{"stop_reason":"tool_use"},"usage":{"output_tokens":2}}"#,
        r#"{"type":"message_stop"}"#,
    ]);
    let (response, _) = streamed(Protocol::Messages, &body).unwrap();
    assert_eq!(response.usage.input_tokens, Some(18));
    assert_eq!(response.usage.total_tokens, Some(20));
    assert_eq!(response.usage.cache_read_tokens, Some(9));
    assert_eq!(response.usage.cache_write_tokens, Some(4));
    assert!(matches!(&response.output[0], Output::RuntimeToolCall(call) if call.name == "echo"));
    let body = sent(Protocol::Messages, &request(true), &mut None).unwrap();
    assert_eq!(text(&body, "/system/0/text"), "Be concise");
    assert_eq!(text(&body, "/messages/0/role"), "user");
}

#[test]
fn truncated_stream_and_http_errors_are_explicit() {
    assert!(streamed(
        Protocol::Chat,
        "data: {\"choices\":[{\"delta\":{\"content\":\"partial\"}}]}\n\n"
    )
    .is_err());
    assert!(
        matches!(http_error(429, "{\"error\":\"busy\"}".into()), Error::Model(e) if e.retryable && e.code == "http_429")
    );
    assert!(matches!(http_error(400, String::new()), Error::Model(e) if !e.retryable));
}

#[test]
fn responses_freeform_call_result_keeps_its_protocol_type() {
    let mut next = request(false);
    next.messages.push(Message::Assistant {
        output: vec![Output::RuntimeToolCall(RuntimeToolCall {
            id: "custom-1".into(),
            name: "code".into(),
            input: RuntimeToolInput::Freeform("print(1)".into()),
        })],
        provider_data: Json::Null,
    });
    next.messages.push(Message::RuntimeTool {
        call_id: "custom-1".into(),
        outcome: RuntimeToolOutcome::Success(vec![Content::Text("1".into())]),
    });
    let body = sent(Protocol::Responses, &next, &mut None).unwrap();
    assert_eq!(text(&body, "/input/2/type"), "custom_tool_call");
    assert_eq!(text(&body, "/input/3/type"), "custom_tool_call_output");
    assert_eq!(text(&body, "/input/3/output"), "1");
}

#[test]
fn anthropic_nonstream_usage_includes_cached_input() {
    let raw = json(
        r#"{"id":"cache","model":"fixture","type":"message","role":"assistant","content":[{"type":"text","text":"ok"}],"stop_reason":"end_turn","usage":{"input_tokens":3,"cache_read_input_tokens":7,"cache_creation_input_tokens":11,"output_tokens":2}}"#,
    );
    let response = decode_with(&mut None, Protocol::Messages, &raw).unwrap();
    assert_eq!(response.usage.input_tokens, Some(21));
    assert_eq!(response.usage.total_tokens, Some(23));
    assert_eq!(response.usage.cache_read_tokens, Some(7));
    assert_eq!(response.usage.cache_write_tokens, Some(11));
}

#[test]
fn every_protocol_forwards_unknown_sse_frames_with_their_fields() {
    let unknown = "event: future.feature\r\nid: frame-7\r\nretry: 1000\r\ndata: {\"type\":\"future.feature\",\"payload\":{\"value\":7}}\r\n\r\n";
    let expected = json(
        r#"{"event":"future.feature","id":"frame-7","retry":1000,"data":{"type":"future.feature","payload":{"value":7}}}"#,
    );
    for protocol in [Protocol::Chat, Protocol::Responses, Protocol::Messages] {
        let terminal = match protocol {
            Protocol::Chat => {
                "data: {\"choices\":[{\"delta\":{\"content\":\"ok\"},\"finish_reason\":\"stop\"}]}\n\ndata: [DONE]\n\n"
            }
            Protocol::Responses => {
                "data: {\"type\":\"response.completed\",\"response\":{\"output\":[],\"status\":\"completed\"}}\n\n"
            }
            Protocol::Messages => {
                "data: {\"type\":\"message_start\",\"message\":{\"content\":[]}}\n\ndata: {\"type\":\"message_stop\"}\n\n"
            }
        };
        let (_, deltas) = streamed(protocol, &format!("{unknown}{terminal}")).unwrap();
        assert!(deltas
            .iter()
            .any(|d| matches!(d, ModelDelta::ProtocolEvent { data, .. } if *data == expected)));
    }
}

fn schema_format() -> ResponseFormat {
    ResponseFormat::Schema {
        name: "answer".into(),
        schema: json(
            r#"{"type":"object","properties":{"answer":{"type":"string"}},"required":["answer"],"additionalProperties":false}"#,
        ),
    }
}

fn with_extra(protocol: Protocol, extra: Json) -> ModelRequest {
    let mut next = request(protocol == Protocol::Chat);
    next.response_format = Some(schema_format());
    next.profile.extensions = Json::empty().with(protocol.key(), extra);
    next
}

#[test]
fn extra_adds_nested_options_without_losing_generated_format_or_stream_options() {
    for (protocol, key, extra, expected) in [
        (
            Protocol::Messages,
            "output_config",
            r#"{"output_config":{"effort":"low","format":{"consumer_hint":7}}}"#,
            r#"{"effort":"low","format":{"type":"json_schema","consumer_hint":7}}"#,
        ),
        (
            Protocol::Responses,
            "text",
            r#"{"text":{"verbosity":"low","format":{"consumer_hint":7}}}"#,
            r#"{"verbosity":"low","format":{"type":"json_schema","consumer_hint":7}}"#,
        ),
        (
            Protocol::Chat,
            "stream_options",
            r#"{"stream_options":{"consumer_hint":{"sample":2}}}"#,
            r#"{"include_usage":true,"consumer_hint":{"sample":2}}"#,
        ),
    ] {
        let body = sent(protocol, &with_extra(protocol, json(extra)), &mut None).unwrap();
        let merged = body.get(key).unwrap();
        for (field, value) in json(expected).as_object().unwrap() {
            if field == "format" {
                let format = merged.get("format").unwrap();
                for (nested, value) in value.as_object().unwrap() {
                    assert_eq!(format.get(nested), Some(value));
                }
                assert_eq!(format.pointer("/schema/required"), Some(&json(r#"["answer"]"#)));
                assert_eq!(text(format, "/schema/properties/answer/type"), "string");
            } else {
                assert_eq!(merged.get(field), Some(value));
            }
        }
        if protocol == Protocol::Chat {
            assert_eq!(
                body.pointer("/response_format/json_schema/schema/required"),
                Some(&json(r#"["answer"]"#))
            );
        }
    }
}

#[test]
fn extra_conflicts_report_exact_paths_and_reserved_fields_remain_owned() {
    let mut cases = vec![
        (
            Protocol::Messages,
            json(r#"{"output_config":{"format":{"type":"text"}}}"#),
            "output_config.format.type",
        ),
        (
            Protocol::Messages,
            json(r#"{"output_config":{"format":{"schema":{"required":["other"]}}}}"#),
            "output_config.format.schema.required",
        ),
        (
            Protocol::Messages,
            json(r#"{"output_config":{"format":null}}"#),
            "output_config.format",
        ),
        (Protocol::Messages, json(r#"{"output_config":[]}"#), "output_config"),
        (
            Protocol::Responses,
            json(r#"{"text":{"format":{"strict":false}}}"#),
            "text.format.strict",
        ),
        (
            Protocol::Chat,
            json(r#"{"stream_options":{"include_usage":true}}"#),
            "stream_options.include_usage",
        ),
        (
            Protocol::Chat,
            json(r#"{"response_format":{"json_schema":{"schema":{"properties":{"answer":{"type":"number"}}}}}}"#),
            "response_format.json_schema.schema.properties.answer.type",
        ),
    ];
    for protocol in [Protocol::Chat, Protocol::Responses, Protocol::Messages] {
        for key in ["input", "messages", "tools", "tool_choice", "system", "model", "stream"] {
            cases.push((protocol, Json::empty().with(key, Json::empty()), key));
        }
    }
    for (protocol, extra, path) in cases {
        let error = sent(protocol, &with_extra(protocol, extra), &mut None).unwrap_err();
        assert_eq!(
            error,
            Error::Invalid(format!("extra option overrides controlled field {path}")),
            "{protocol:?} {path}"
        );
    }
}

#[test]
fn tool_result_grouping_preserves_order_content_errors_and_turn_boundaries() {
    let assistant = |ids: &[&str]| Message::Assistant {
        output: ids
            .iter()
            .map(|id| {
                Output::RuntimeToolCall(RuntimeToolCall {
                    id: (*id).into(),
                    name: "read".into(),
                    input: RuntimeToolInput::Structured(Json::empty()),
                })
            })
            .collect(),
        provider_data: Json::Null,
    };
    let result = |id: &str, outcome| Message::RuntimeTool { call_id: id.into(), outcome };
    for protocol in [Protocol::Chat, Protocol::Responses, Protocol::Messages] {
        for boundary in [
            user("next"),
            Message::External(vec![Content::Text("next".into())]),
            Message::Assistant { output: vec![Output::text("next")], provider_data: Json::Null },
        ] {
            let mut next = request(false);
            next.messages.extend([
                assistant(&["a", "b"]),
                result(
                    "a",
                    RuntimeToolOutcome::Success(vec![
                        Content::Text("first".into()),
                        Content::Image(MediaSource::Url("https://example.com/image.png".into())),
                        Content::Opaque {
                            provider: "fixture".into(),
                            data: json(r#"{"type":"consumer_block","value":7}"#),
                        },
                    ]),
                ),
                result(
                    "b",
                    RuntimeToolOutcome::Failure {
                        code: "missing".into(),
                        message: "missing entry".into(),
                    },
                ),
                boundary,
                assistant(&["c"]),
                result("c", RuntimeToolOutcome::Success(vec![Content::Text("last".into())])),
            ]);
            let body = sent(protocol, &next, &mut None).unwrap();
            let key = if protocol == Protocol::Responses { "input" } else { "messages" };
            let messages = body.get_array(key).unwrap();
            if protocol == Protocol::Messages {
                assert_eq!(messages.len(), 6);
                let results = messages[2].get_array("content").unwrap();
                assert_eq!(results.len(), 2);
                assert_eq!(text(&results[0], "/tool_use_id"), "a");
                assert_eq!(results[0].get("is_error"), Some(&Json::Bool(false)));
                assert_eq!(text(&results[0], "/content/0/text"), "first");
                assert_eq!(text(&results[0], "/content/1/type"), "image");
                assert_eq!(
                    results[0].pointer("/content/2"),
                    Some(&json(r#"{"type":"consumer_block","value":7}"#))
                );
                assert_eq!(text(&results[1], "/tool_use_id"), "b");
                assert_eq!(results[1].get("is_error"), Some(&Json::Bool(true)));
                assert_eq!(text(&results[1], "/content/0/text"), "missing entry");
                assert_eq!(text(&messages[3], "/content/0/text"), "next");
                assert_eq!(messages[5].get_array("content").unwrap().len(), 1);
                assert_eq!(text(&messages[5], "/content/0/tool_use_id"), "c");
                assert_eq!(text(&messages[5], "/content/0/content/0/text"), "last");
            } else {
                let results: Vec<&Json> = messages
                    .iter()
                    .filter(|m| {
                        m.get_str("role") == Some("tool")
                            || m.get_str("type") == Some("function_call_output")
                    })
                    .collect();
                assert_eq!(results.len(), 3);
                let id_key = if protocol == Protocol::Chat { "tool_call_id" } else { "call_id" };
                let ids: Vec<&str> =
                    results.iter().map(|m| m.get_str(id_key).unwrap()).collect();
                assert_eq!(ids, ["a", "b", "c"]);
                let content_key = if protocol == Protocol::Chat { "content" } else { "output" };
                assert_eq!(results[0].get_array(content_key).unwrap().len(), 3);
                assert_eq!(results[1].get_str(content_key), Some("missing entry"));
                assert_eq!(results[2].get_str(content_key), Some("last"));
            }
        }
    }
}

#[test]
fn a_refused_credential_is_refreshed_at_most_once() {
    assert_eq!(answered(0, 401), Answered::Refresh);
    assert!(answered(1, 401) != Answered::Refresh);
    assert!(answered(0, 200) != Answered::Refresh);
}

#[test]
fn each_protocol_has_its_address_and_its_headers() {
    let credential = Credential {
        scheme: "Bearer".into(),
        value: "test-key".into(),
        expires_at_ms: None,
        generation: "one".into(),
        metadata: vec![],
    };
    for (protocol, url) in [
        (Protocol::Chat, "http://host/v1/chat/completions"),
        (Protocol::Responses, "http://host/v1/responses"),
        (Protocol::Messages, "http://host/v1/messages"),
    ] {
        let config = ModelConfig::new("http://host/v1/".into(), "fixture".into());
        let capabilities = zhir_models::capabilities::text_tool_calling();
        let model = HttpModel::new(config, protocol, capabilities).unwrap();
        assert_eq!(model.url(), url);
        let headers = request_headers(protocol, &credential);
        assert!(headers.iter().any(|(_, value)| value.contains("test-key")));
    }
}
