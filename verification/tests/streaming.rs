use zhir_models::error::Error;
use zhir_models::json::Json;
use zhir_models::model::{ModelDelta, Protocol};
use zhir_models::streaming::fields::append;
use zhir_models::streaming::Accumulator;

fn json(text: &str) -> Json {
    Json::parse(text).unwrap()
}

fn push(state: &mut Accumulator, text: &str) -> Vec<ModelDelta> {
    state.push(text).unwrap().unwrap()
}

#[test]
fn fragmented_unicode_and_interleaved_tool_fields_keep_native_metadata() {
    let mut state = Accumulator::new(Protocol::Chat);
    for i in 0..2048 {
        let name = if i == 0 { "echo" } else { "" };
        push(
            &mut state,
            &format!(
                r#"{{"trace":"keep","choices":[{{"annotation":"choice","delta":{{"content":"你🙂","reasoning_content":"想",
            "tool_calls":[{{"index":0,"id":"c","function":{{"name":"{name}","arguments":"x"}}}}]}},
            "logprobs":{{"content":[{{"token":"你"}}],"refusal":null}}}}]}}"#
            ),
        );
    }
    push(&mut state, "[DONE]");
    let value = state.finish().unwrap().unwrap();
    let text = |path: &str| value.pointer(path).and_then(Json::as_str).unwrap().to_string();
    assert_eq!(text("/trace"), "keep");
    assert_eq!(text("/choices/0/annotation"), "choice");
    assert_eq!(text("/choices/0/message/content"), "你🙂".repeat(2048));
    assert_eq!(text("/choices/0/message/reasoning_content"), "想".repeat(2048));
    assert_eq!(text("/choices/0/message/tool_calls/0/function/name"), "echo");
    assert_eq!(text("/choices/0/message/tool_calls/0/function/arguments"), "x".repeat(2048));
    assert_eq!(
        value.pointer("/choices/0/logprobs/content").and_then(Json::as_array).unwrap().len(),
        2048
    );
}

#[test]
fn messages_accumulates_text_thinking_signature_and_partial_json_independently() {
    let mut state = Accumulator::new(Protocol::Messages);
    for (index, block) in [
        (0, r#"{"type":"text","text":""}"#),
        (1, r#"{"type":"thinking","thinking":"","signature":""}"#),
        (2, r#"{"type":"tool_use","id":"c","name":"echo","input":{}}"#),
    ] {
        push(
            &mut state,
            &format!(r#"{{"type":"content_block_start","index":{index},"content_block":{block}}}"#),
        );
    }
    for _ in 0..1024 {
        for (index, delta) in [
            (0, r#"{"type":"text_delta","text":"你"}"#),
            (1, r#"{"type":"thinking_delta","thinking":"想"}"#),
            (1, r#"{"type":"signature_delta","signature":"s"}"#),
        ] {
            push(
                &mut state,
                &format!(r#"{{"type":"content_block_delta","index":{index},"delta":{delta}}}"#),
            );
        }
    }
    for input in ["{\"x\":", "\"你好\"}"] {
        let delta = Json::empty()
            .with_text("type", "input_json_delta")
            .with_text("partial_json", input);
        let event = Json::empty()
            .with_text("type", "content_block_delta")
            .with("index", Json::uint(2))
            .with("delta", delta);
        push(&mut state, &event.print());
    }
    push(&mut state, r#"{"type":"content_block_stop","index":2}"#);
    push(&mut state, r#"{"type":"message_delta","delta":{"stop_reason":"tool_use","custom":null},"usage":{"output_tokens":5}}"#);
    push(&mut state, r#"{"type":"message_stop"}"#);
    let value = state.finish().unwrap().unwrap();
    let text = |path: &str| value.pointer(path).and_then(Json::as_str).unwrap().to_string();
    assert_eq!(text("/content/0/text"), "你".repeat(1024));
    assert_eq!(text("/content/1/thinking"), "想".repeat(1024));
    assert_eq!(text("/content/1/signature"), "s".repeat(1024));
    assert_eq!(value.pointer("/content/2/input"), Some(&json(r#"{"x":"你好"}"#)));
    assert_eq!(value.pointer("/usage/output_tokens").and_then(Json::as_u64), Some(5));
    assert!(value.get("custom").is_some_and(Json::is_null));
}

#[test]
fn fragments_are_appended_in_order() {
    let mut value = Json::empty().with_text("text", "");
    for _ in 0..4000 {
        append(&mut value, "text", &"x".repeat(64));
    }
    assert_eq!(value.get_str("text").unwrap().len(), 4000 * 64);
}

#[test]
fn a_stream_that_breaks_off_is_an_error() {
    let mut state = Accumulator::new(Protocol::Chat);
    push(&mut state, r#"{"choices":[{"delta":{"content":"partial"}}]}"#);
    assert!(matches!(state.finish(), Some(Err(Error::Protocol(_)))));
    assert!(matches!(
        Accumulator::new(Protocol::Messages).finish(),
        Some(Err(Error::Protocol(_)))
    ));
    assert!(matches!(
        Accumulator::new(Protocol::Responses).finish(),
        Some(Err(Error::Protocol(_)))
    ));
}

#[test]
fn text_that_is_no_json_is_an_error_of_the_protocol() {
    let mut state = Accumulator::new(Protocol::Responses);
    assert!(matches!(state.push("{"), Some(Err(Error::Protocol(_)))));
}

#[test]
fn responses_deltas_are_normalized() {
    let mut state = Accumulator::new(Protocol::Responses);
    let deltas = push(
        &mut state,
        r#"{"type":"response.output_text.delta","output_index":3,"delta":"hi"}"#,
    );
    assert!(deltas.contains(&ModelDelta::Text { output_index: 3, text: "hi".into() }));
    push(
        &mut state,
        r#"{"type":"response.completed","response":{"output":[],"status":"completed"}}"#,
    );
    assert_eq!(state.finish().unwrap().unwrap(), json(r#"{"output":[],"status":"completed"}"#));
}

#[test]
fn a_chat_message_holds_what_its_deltas_said() {
    let mut state = Accumulator::new(Protocol::Chat);
    let mut text = String::new();
    let mut inputs = vec![String::new(); 3];
    for data in [
        r#"{"choices":[{"delta":{"content":"Hel","tool_calls":[{"index":2,"function":{"name":"b","arguments":"{\"x\""}}]}}]}"#,
        r#"{"choices":[{"delta":{"content":"lo","tool_calls":[{"index":1,"id":"a","function":{"name":"a","arguments":"{}"}}]}}]}"#,
        r#"{"choices":[{"delta":{"tool_calls":[{"index":2,"function":{"arguments":":1}"}}]}}]}"#,
        "[DONE]",
    ] {
        for delta in state.push(data).unwrap().unwrap() {
            match delta {
                ModelDelta::Text { text: more, .. } => text.push_str(&more),
                ModelDelta::RuntimeTool { output_index, input, .. } => {
                    inputs[output_index as usize - 1].push_str(&input)
                }
                _ => {}
            }
        }
    }
    let response = state.finish().unwrap().unwrap();
    let message = response.pointer("/choices/0/message").unwrap();
    assert_eq!(text, "Hello");
    assert_eq!(message.get_str("content"), Some("Hello"));
    let calls = message.get_array("tool_calls").unwrap();
    assert_eq!(calls.len(), 2);
    for (call, index) in [(&calls[0], 1), (&calls[1], 2)] {
        let arguments = call.pointer("/function/arguments").and_then(Json::as_str);
        assert_eq!(arguments, Some(inputs[index].as_str()));
    }
    assert_eq!(inputs[2], r#"{"x":1}"#);
}
