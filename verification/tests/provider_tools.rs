use zhir_models::error::Error;
use zhir_models::extension::{Answer, ProtocolExtension};
use zhir_models::json::Json;
use zhir_models::message::{
    Content, Modality, Output, ProviderToolCall, ProviderToolStatus, ResourceSource,
};
use zhir_models::model::{ModelDelta, Protocol, ProviderToolSpec};
use zhir_models::provider_tools::output::{replay, ProviderOutput};
use zhir_models::provider_tools::{
    check_declaration, check_progress, hold_to_identity, ProviderToolAdapter, ProviderTools,
};
use zhir_models::transport::SseEvent;

fn json(text: &str) -> Json {
    Json::parse(text).unwrap()
}

fn output() -> ProviderOutput {
    ProviderOutput::new(
        "consumer".into(),
        "image".into(),
        "call".into(),
        ProviderToolStatus::Completed,
    )
}

fn finished(output: ProviderOutput) -> ProviderToolCall {
    match output.finish() {
        Output::ProviderToolCall(call) => call,
        other => panic!("{other:?}"),
    }
}

#[test]
fn media_is_copied_and_remembered() {
    let call = finished(
        output()
            .native(json(r#"{"first":true}"#))
            .content(Content::Text("caption".into()))
            .native(json(r#"{"image":{"data":"aGVsbG8="}}"#))
            .media("/image/data", "image/png".into(), Modality::Image)
            .unwrap(),
    );
    match &call.output[1] {
        Content::Resource(input) => {
            assert_eq!(input.id, "call:1:/image/data");
            assert_eq!(input.media_type, "image/png");
            assert_eq!(input.source, ResourceSource::Inline(b"hello".to_vec()));
        }
        other => panic!("{other:?}"),
    }
    let read = replay(&call).unwrap().unwrap();
    assert_eq!(read.items.len(), 2);
    assert_eq!(read.media[0].content_index, 1);
    assert_eq!(read.media[0].pointer, "/items/1/image/data");
    assert_eq!(
        ProviderOutput::replay(&call).unwrap(),
        vec![json(r#"{"first":true}"#), json(r#"{"image":{"data":"aGVsbG8="}}"#)]
    );
}

#[test]
fn media_needs_an_unbound_base64_field() {
    let media = |output: ProviderOutput, pointer: &str| {
        output.media(pointer, "image/png".into(), Modality::Image)
    };
    assert_eq!(
        media(output(), "/data"),
        Err(Error::Invalid("append a native item before binding media".into()))
    );
    let item = json(r#"{"data":"aGVsbG8=","empty":"","number":7,"broken":"%"}"#);
    for pointer in ["/absent", "/empty", "/number"] {
        assert_eq!(
            media(output().native(item.clone()), pointer),
            Err(Error::Invalid(
                "media path must address a nonempty base64 string in the native item".into()
            ))
        );
    }
    assert!(matches!(media(output().native(item.clone()), "/broken"), Err(Error::Protocol(_))));
    let once = media(output().native(item), "/data").unwrap();
    assert_eq!(
        media(once, "/data"),
        Err(Error::Invalid("native media path is already bound".into()))
    );
}

#[test]
fn only_canonical_replay_data_is_read() {
    let mut call = finished(output());
    assert_eq!(ProviderOutput::replay(&call), Ok(vec![]));
    call.data = Json::Null;
    assert_eq!(
        ProviderOutput::replay(&call),
        Err(Error::Invalid("provider call has no canonical replay payload".into()))
    );
    for broken in [
        r#"{"items":[]}"#,
        r#"{"items":[],"media":[],"more":1}"#,
        r#"{"items":[],"media":[{"content_index":-1,"pointer":""}]}"#,
        r#"{"items":[],"media":[{"content_index":0}]}"#,
        "7",
    ] {
        call.data = Json::empty().with("$zhir_provider_replay", json(broken));
        assert!(matches!(ProviderOutput::replay(&call), Err(Error::Protocol(_))));
    }
    call.data = Json::empty().with("$zhir_provider_replay", json(r#"[[7],[[0,"/items/0"]]]"#));
    assert_eq!(replay(&call).unwrap().unwrap().media[0].pointer, "/items/0");
}

struct Fixture {
    provider: &'static str,
    name: &'static str,
    declares: Json,
}

impl ProviderToolAdapter for Fixture {
    fn identity(&self) -> (&str, &str) {
        (self.provider, self.name)
    }

    fn encode(&mut self, _: Protocol, _: &ProviderToolSpec) -> Result<Json, Error> {
        Ok(self.declares.clone())
    }

    fn decode(&mut self, _: Protocol, item: &Json, _: &Json) -> Result<Option<Vec<Output>>, Error> {
        if item.get_str("type") != Some(self.name) {
            return Ok(None);
        }
        Ok(Some(vec![]))
    }

    fn event(&mut self, _: Protocol, _: &SseEvent) -> Result<Vec<ModelDelta>, Error> {
        Ok(vec![ModelDelta::ProviderToolProgress {
            provider: self.provider.into(),
            name: self.name.into(),
            data: Json::Null,
        }])
    }
}

fn fixture(provider: &'static str, name: &'static str) -> Box<Fixture> {
    Box::new(Fixture { provider, name, declares: Json::empty().with_text("type", name) })
}

fn spec(provider: &str, name: &str) -> ProviderToolSpec {
    ProviderToolSpec { provider: provider.into(), name: name.into(), options: Json::empty() }
}

#[test]
fn identities_are_registered_once() {
    let refused =
        Err(Error::Invalid("provider adapter identities must be nonempty and unique".into()));
    let mut tools = ProviderTools::new();
    assert_eq!(tools.register(fixture("a", "one")), Ok(()));
    assert_eq!(tools.register(fixture("a", "two")), Ok(()));
    assert_eq!(tools.register(fixture("a", "one")), refused);
    assert_eq!(tools.register(fixture("", "one")), refused);
    assert_eq!(tools.register(fixture("a", "")), refused);
}

#[test]
fn tools_are_enabled_by_their_declaration() {
    let mut tools = ProviderTools::new();
    tools.register(fixture("b", "two")).unwrap();
    tools.register(fixture("a", "one")).unwrap();
    let mut event = SseEvent { data: "{}".into(), event: None, id: None, retry: None };
    assert_eq!(tools.decode_event(Protocol::Chat, &mut event), Ok(vec![]));
    let item = Json::empty().with_text("type", "one");
    assert_eq!(
        tools.decode_output_item(Protocol::Chat, &item, &Json::Null),
        Err(Error::Protocol("provider returned a tool that was not enabled".into()))
    );
    assert_eq!(tools.encode_provider_tool(Protocol::Chat, &spec("c", "one")), Ok(None));
    assert_eq!(
        tools.encode_provider_tool(Protocol::Chat, &spec("b", "two")),
        Ok(Some(Json::empty().with_text("type", "two")))
    );
    tools.encode_provider_tool(Protocol::Chat, &spec("a", "one")).unwrap();
    assert_eq!(tools.decode_output_item(Protocol::Chat, &item, &Json::Null), Ok(Some(vec![])));
    let progress = tools.decode_event(Protocol::Chat, &mut event).unwrap();
    assert!(
        matches!(&progress[0], ModelDelta::ProviderToolProgress { provider, .. } if provider == "a")
    );
    assert!(
        matches!(&progress[1], ModelDelta::ProviderToolProgress { provider, .. } if provider == "b")
    );
    assert_eq!(
        tools.encode_provider_choice(Protocol::Chat, &spec("a", "one")),
        Err(Error::Invalid("provider adapter does not define explicit tool selection".into()))
    );
}

#[test]
fn a_declaration_is_an_object() {
    let mut tools = ProviderTools::new();
    tools
        .register(Box::new(Fixture { provider: "a", name: "one", declares: Json::Null }))
        .unwrap();
    assert_eq!(
        tools.encode_provider_tool(Protocol::Chat, &spec("a", "one")),
        Err(Error::Invalid("provider declaration must encode an object".into()))
    );
}

fn refused(held: &str) -> String {
    let mut call = finished(output());
    call.data = Json::empty().with("$zhir_provider_replay", json(held));
    match ProviderOutput::replay(&call) {
        Err(Error::Protocol(message)) => message,
        other => panic!("{other:?}"),
    }
}

#[test]
fn what_is_no_replay_is_refused_with_the_reason() {
    for (held, reason) in [
        ("null", "invalid type: null, expected struct Replay"),
        ("true", "invalid type: boolean `true`, expected struct Replay"),
        ("7", "invalid type: integer `7`, expected struct Replay"),
        ("-7", "invalid type: integer `-7`, expected struct Replay"),
        ("1.50", "invalid type: floating point `1.5`, expected struct Replay"),
        (r#""a\"\n""#, r#"invalid type: string "a\"\n", expected struct Replay"#),
        ("{}", "missing field `items`"),
        (r#"{"items":[]}"#, "missing field `media`"),
        (r#"{"items":[],"media":{}}"#, "invalid type: map, expected a sequence"),
        (r#"{"items":"x","media":[]}"#, r#"invalid type: string "x", expected a sequence"#),
        (r#"{"extra":1,"items":7}"#, "unknown field `extra`, expected `items` or `media`"),
        (r#"{"items":7,"other":1}"#, "invalid type: integer `7`, expected a sequence"),
        ("[]", "invalid length 0, expected struct Replay with 2 elements"),
        ("[[]]", "invalid length 1, expected struct Replay with 2 elements"),
        ("[[],[],1]", "invalid length 3, expected fewer elements in array"),
        ("[7,[]]", "invalid type: integer `7`, expected a sequence"),
        ("[[],[null]]", "invalid type: null, expected struct MediaBinding"),
        ("[[],[[]]]", "invalid length 0, expected struct MediaBinding with 2 elements"),
        (r#"[[],[[-1,"/x"]]]"#, "invalid value: integer `-1`, expected usize"),
        (r#"[[],[[0.5,"/x"]]]"#, "invalid type: floating point `0.5`, expected usize"),
        (r#"[[],[[0,["/x"]]]]"#, "invalid type: sequence, expected a string"),
        (r#"[[],[{"pointer":"/x"}]]"#, "missing field `content_index`"),
        (
            r#"[[],[{"content_index":0,"path":"/x"}]]"#,
            "unknown field `path`, expected `content_index` or `pointer`",
        ),
    ] {
        assert_eq!(refused(held), format!("invalid provider replay: {reason}"));
    }
}

#[test]
fn reasons_are_those_of_the_json_reader() {
    for held in
        ["null", "false", "18446744073709551615", "-1", "1e300", "-0.0", r#""\u00e9\t'""#, "{}"]
    {
        let value: serde_json::Value = serde_json::from_str(held).unwrap();
        let list = serde_json::from_value::<Vec<serde_json::Value>>(value.clone()).unwrap_err();
        assert_eq!(
            refused(&format!(r#"{{"items":{held},"media":[]}}"#)),
            format!("invalid provider replay: {list}")
        );
        if let Err(index) = serde_json::from_value::<usize>(value.clone()) {
            assert_eq!(
                refused(&format!(r#"{{"items":[],"media":[[{held},""]]}}"#)),
                format!("invalid provider replay: {index}")
            );
        }
        if let Err(text) = serde_json::from_value::<String>(value) {
            assert_eq!(
                refused(&format!(r#"{{"items":[],"media":[[0,{held}]]}}"#)),
                format!("invalid provider replay: {text}")
            );
        }
    }
    let missing = <serde_json::Error as serde::de::Error>::missing_field("media");
    assert_eq!(refused(r#"{"items":[]}"#), format!("invalid provider replay: {missing}"));
    let unknown = <serde_json::Error as serde::de::Error>::unknown_field("x", &["items", "media"]);
    assert_eq!(refused(r#"{"x":0}"#), format!("invalid provider replay: {unknown}"));
    let short = <serde_json::Error as serde::de::Error>::invalid_length(
        1,
        &"struct Replay with 2 elements",
    );
    assert_eq!(refused("[[]]"), format!("invalid provider replay: {short}"));
}

#[test]
fn adapters_speak_for_themselves_alone() {
    let other = Output::ProviderToolCall(finished(output()));
    assert_eq!(
        hold_to_identity("a", "one", true, Answer::Claimed(vec![other])),
        Answer::Failed(Error::Protocol(
            "provider adapter returned another execution identity".into()
        ))
    );
    assert_eq!(hold_to_identity("a", "one", false, Answer::Unclaimed), Answer::Unclaimed);
    assert_eq!(
        check_progress("a", "one", vec![ModelDelta::Text { output_index: 0, text: "x".into() }]),
        Err(Error::Protocol("provider adapter emitted another execution identity".into()))
    );
}

#[test]
fn declarations_are_objects() {
    assert_eq!(check_declaration(Ok(json(r#"{"a":1}"#))), Ok(json(r#"{"a":1}"#)));
    assert_eq!(
        check_declaration(Ok(json("[]"))),
        Err(Error::Invalid("provider declaration must encode an object".into()))
    );
    assert_eq!(check_declaration(Err(Error::Cancelled)), Err(Error::Cancelled));
}
