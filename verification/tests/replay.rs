use zhir_models::codec::exchange::{ask, decode_with, encode_with};
use zhir_models::codec::replay::replay_items;
use zhir_models::error::Error;
use zhir_models::extension::{Answer, ProtocolExtension};
use zhir_models::json::Json;
use zhir_models::message::{Message, Output, ProviderToolCall, ProviderToolStatus};
use zhir_models::model::{ModelRequest, Profile, Protocol, ToolChoice};

const POSITION: &str = "$zhir_provider_calls";

struct Replay;

impl ProtocolExtension for Replay {
    fn encode_provider_history(
        &mut self,
        _: Protocol,
        call: &ProviderToolCall,
    ) -> Result<Option<Vec<Json>>, Error> {
        Ok(Some(vec![Json::empty().with_text("id", &call.id)]))
    }
}

fn position(ids: &[String]) -> Json {
    let ids = ids.iter().map(|id| Json::text(id)).collect();
    Json::empty().with(POSITION, Json::array(ids))
}

fn request(message: Message) -> ModelRequest {
    ModelRequest {
        messages: vec![message],
        runtime_tools: vec![],
        provider_tools: vec![],
        tool_choice: ToolChoice::Auto,
        response_format: None,
        profile: Profile {
            temperature: None,
            max_output_tokens: None,
            seed: None,
            parallel_runtime_tools: None,
            extensions: Json::empty(),
        },
        stream: false,
    }
}

fn replay(items: Vec<Json>, calls: &[Output]) -> Result<Vec<Json>, Error> {
    let response = Json::empty().with("output", Json::array(items.clone()));
    let message = Message::Assistant {
        output: calls.to_vec(),
        provider_data: Json::empty()
            .with_text("protocol", "responses")
            .with("response", response),
    };
    let request = request(message);
    let answers = ask(&mut Replay, Protocol::Responses, &request).history.remove(0);
    replay_items(&items, &calls.to_vec(), &answers)
}

#[test]
fn replay_indexes_calls_without_changing_native_order_or_ownership_checks() {
    let mut calls: Vec<Output> = (0..512)
        .map(|i| {
            Output::ProviderToolCall(ProviderToolCall {
                id: format!("c{i}"),
                provider: "test".into(),
                name: "remote".into(),
                status: ProviderToolStatus::Completed,
                output: vec![],
                data: Json::Null,
            })
        })
        .collect();
    calls.reverse();
    let ids: Vec<String> = (0..512).map(|i| format!("c{i}")).collect();
    let prefix = Json::empty().with_text("type", "reasoning").with_text("text", "prefix");
    let items = vec![prefix.clone(), position(&ids)];
    let replayed = replay(items, &calls).unwrap();
    assert_eq!(replayed[0], prefix);
    for i in 0..512 {
        assert_eq!(replayed[i + 1].get_str("id"), Some(format!("c{i}").as_str()));
    }
    for items in [
        vec![position(&["absent".to_string()])],
        vec![position(&["c0".to_string(), "c0".to_string()])],
        vec![position(&["c0".to_string()])],
        vec![position(&ids).with("other", Json::Bool(true))],
    ] {
        assert!(replay(items, &calls).is_err());
    }
}

#[test]
fn calls_without_native_items_are_refused() {
    let call = Output::ProviderToolCall(ProviderToolCall {
        id: "c0".into(),
        provider: "test".into(),
        name: "remote".into(),
        status: ProviderToolStatus::Completed,
        output: vec![],
        data: Json::Null,
    });
    let items = vec![position(&["c0".to_string()])];
    assert!(replay_items(&items, &vec![call], &vec![Answer::Unclaimed]).is_err());
}

struct Images;

impl ProtocolExtension for Images {
    fn decode_output_item(
        &mut self,
        _: Protocol,
        item: &Json,
        _: &Json,
    ) -> Result<Option<Vec<Output>>, Error> {
        if item.get_str("type") != Some("image_call") {
            return Ok(None);
        }
        Ok(Some(vec![Output::ProviderToolCall(ProviderToolCall {
            id: item.get_str("id").unwrap().into(),
            provider: "test".into(),
            name: "image".into(),
            status: ProviderToolStatus::Completed,
            output: vec![],
            data: Json::Null,
        })]))
    }

    fn encode_provider_history(
        &mut self,
        _: Protocol,
        call: &ProviderToolCall,
    ) -> Result<Option<Vec<Json>>, Error> {
        Ok(Some(vec![
            Json::empty().with_text("first", &call.id),
            Json::empty().with_text("second", &call.id),
        ]))
    }
}

#[test]
fn a_claimed_item_is_replayed_in_its_place() {
    let raw = Json::parse(
        r#"{"output":[{"type":"reasoning","id":"r"},{"type":"image_call","id":"i"},{"type":"message","content":[]}]}"#,
    )
    .unwrap();
    let mut extension: Option<Box<dyn ProtocolExtension>> = Some(Box::new(Images));
    let turn = decode_with(&mut extension, Protocol::Responses, &raw).unwrap();
    let next = request(Message::Assistant {
        output: turn.output,
        provider_data: turn.provider_data,
    });
    let body = encode_with(&mut extension, Protocol::Responses, "m", &next).unwrap().unwrap();
    let input = body.get_array("input").unwrap();
    assert_eq!(input.len(), 4);
    assert_eq!(input[0].print(), r#"{"id":"r","type":"reasoning"}"#);
    assert_eq!(input[1].print(), r#"{"first":"i"}"#);
    assert_eq!(input[2].print(), r#"{"second":"i"}"#);
    assert_eq!(input[3].get_str("type"), Some("message"));
}
