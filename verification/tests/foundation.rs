use zhir_models::capabilities::{
    add_exchange_features, capabilities, live_capabilities, messages_capabilities,
    responses_capabilities, synthesis_capabilities, text_tool_calling, validate_capabilities,
    Capability,
};
use zhir_models::clock::{Moment, MILLISECOND};
use zhir_models::concurrency::check_limit;
use zhir_models::encoding::to_hex;
use zhir_models::error::Error;
use zhir_models::extension::{one_owner, Answer, ExtensionChain, ProtocolExtension};
use zhir_models::function::FunctionDeltaSink;
use zhir_models::json::Json;
use zhir_models::message::Fidelity;
use zhir_models::model::{ModelDelta, Protocol};
use zhir_models::profiles::{apply, check_fields, fields, ProfileMapping, Selected, Subject};
use zhir_models::retry_wait::{check, deadline, wait_until, wake, TICK};
use zhir_models::slots::Slots;
use zhir_models::text::{
    is_blank, number, parse_number, signed_number, split_fragments, tail_after,
};

fn json(text: &str) -> Json {
    Json::parse(text).unwrap()
}

#[test]
fn json_is_read_and_written() {
    let text = r#"{"a":[1,-2,3.5,"x",null,true],"b":{"c":"你"}}"#;
    assert_eq!(json(text).print(), text);
    assert!(Json::parse("{").is_err());
    assert!(json("1").same(&Json::uint(1)));
    assert!(!json("-1").same(&Json::uint(1)));
    for (a, b) in [
        ("-0.0", "0.0"),
        ("1.50", "1.5"),
        ("1.0", "1"),
        ("0.0", "0"),
        (r#"{"a":[-0.0,1]}"#, r#"{"a":[0.0,1]}"#),
        (r#"{"a":[-0.0,1]}"#, r#"{"a":[0.0,2]}"#),
        (r#"{"a":0}"#, r#"{"b":0}"#),
    ] {
        let read = |text: &str| serde_json::from_str::<serde_json::Value>(text).unwrap();
        assert_eq!(json(a).same(&json(b)), read(a) == read(b), "{a} {b}");
    }
    assert_eq!(json("-1").as_i64(), Some(-1));
    assert_eq!(json("18446744073709551615").as_u64(), Some(u64::MAX));
    assert_eq!(json("18446744073709551615").as_i64(), None);
}

#[test]
fn paths_address_values() {
    let mut value = json(r#"{"a/b":[{"~x":7}]}"#);
    assert_eq!(value.pointer("/a~1b/0/~0x"), Some(&Json::uint(7)));
    assert_eq!(value.pointer("/a~1b/00"), None);
    assert_eq!(value.pointer("a"), None);
    assert!(value.put("/a~1b/0/~0x", Json::Null));
    assert!(!value.put("/absent", Json::Null));
    assert_eq!(value, json(r#"{"a/b":[{"~x":null}]}"#));
}

#[test]
fn texts_are_taken_apart() {
    assert_eq!(number(1203), "1203");
    assert_eq!(signed_number(i64::MIN), "-9223372036854775808");
    assert_eq!(parse_number("007"), Some(7));
    assert_eq!(parse_number("18446744073709551616"), None);
    assert_eq!(parse_number("x"), None);
    assert!(is_blank(" \u{3000}\n"));
    assert!(!is_blank(" x"));
    assert_eq!(tail_after("a/b/c", '/'), "c");
    assert_eq!(to_hex(&[0, 255, 16]), "00ff10");
    let parts = split_fragments("你好🙂x", 7);
    assert_eq!(parts, vec!["你好", "🙂x"]);
    assert_eq!(parts.concat(), "你好🙂x");
}

#[test]
fn limits_are_positive_and_bounded() {
    assert_eq!(check_limit(1, "request"), Ok(()));
    assert_eq!(check_limit(usize::MAX / 8, "request"), Ok(()));
    for limit in [0, usize::MAX / 8 + 1] {
        assert_eq!(
            check_limit(limit, "session"),
            Err(Error::Invalid("invalid session concurrency limit".into()))
        );
    }
}

#[test]
fn waits_end_at_the_deadline() {
    let now = |at| Moment { at, last: 1_000_000_000 };
    assert_eq!(deadline(Some(150), 100, now(7)), Ok(Some(50_000_007)));
    assert_eq!(deadline(Some(50), 100, now(7)), Ok(Some(7)));
    assert_eq!(deadline(None, 100, now(7)), Ok(None));
    assert!(deadline(Some(u64::MAX), 0, now(1)).is_err());
    assert_eq!(check(Ok(()), Some(5), 4), Ok(()));
    assert_eq!(check(Ok(()), Some(5), 5), Err(Error::Deadline));
    assert_eq!(check(Err(Error::Cancelled), Some(5), 5), Err(Error::Cancelled));
    assert_eq!(wait_until(now(3), 4), Ok(7));
    assert_eq!(wait_until(now(3), 999_999_997), Ok(1_000_000_000));
    assert!(wait_until(now(3), 999_999_998).is_err());
    assert!(wait_until(Moment { at: u128::MAX, last: u128::MAX }, 1).is_err());
    assert_eq!(wake(7, None, 7), None);
    assert_eq!(TICK, 10 * MILLISECOND);
    assert_eq!(wake(100_000_000, None, 7), Some(7 + TICK));
    assert_eq!(wake(100, None, 7), Some(100));
    assert_eq!(wake(100, Some(9), 7), Some(9));
}

#[test]
fn capabilities_are_what_a_model_can_do() {
    let text = text_tool_calling();
    assert!(text.supports(Capability::StructuredTools));
    assert!(validate_capabilities(&text).is_ok());
    assert!(validate_capabilities(&live_capabilities()).is_err());
    for set in [messages_capabilities(), responses_capabilities(), text_tool_calling()] {
        let mut exchange = set;
        add_exchange_features(&mut exchange);
        assert!(exchange.supports(Capability::ExplicitGeneration));
    }
    assert!(synthesis_capabilities().output_modalities.iter().any(|m| m == "audio"));
    let mut joined = capabilities(&vec![Capability::Usage], false, false);
    joined.join(&text);
    assert!(joined.supports(Capability::Usage) && joined.supports(Capability::StructuredTools));
}

#[test]
fn mappings_are_written_to_their_fields() {
    assert_eq!(
        ProfileMapping::new("k".into(), Json::Null, "model".into(), Json::Null).err(),
        Some(Error::Invalid("invalid profile mapping".into()))
    );
    let mapping =
        ProfileMapping::new("effort".into(), json("\"low\""), "reasoning".into(), json("1"))
            .unwrap();
    let selected = vec![Selected {
        key: "effort".into(),
        value: json("\"low\""),
        subject: Subject::Other,
    }];
    let (body, controlled) = fields(Json::empty(), &selected, &vec![mapping]).unwrap();
    assert_eq!(body, json(r#"{"reasoning":1}"#));
    assert_eq!(check_fields(&body, &controlled), Ok(()));
    assert!(check_fields(&json(r#"{"reasoning":2}"#), &controlled).is_err());
    let zero = vec![("reasoning".to_string(), json("0.0"))];
    assert_eq!(check_fields(&json(r#"{"reasoning":-0.0}"#), &zero), Ok(()));
    assert_eq!(
        apply(&vec![], &vec![("r".into(), Ok(Fidelity::High))]).map(|m| m.len()),
        Ok(0)
    );
}

struct Claims(bool);

impl ProtocolExtension for Claims {
    fn decode_output_item(
        &mut self,
        _: Protocol,
        _: &Json,
        _: &Json,
    ) -> Result<Option<Vec<zhir_models::message::Output>>, Error> {
        Ok(if self.0 { Some(vec![]) } else { None })
    }
}

#[test]
fn an_item_has_one_owner() {
    let claimed = Err(Error::Invalid("multiple extensions claimed the same protocol item".into()));
    assert_eq!(one_owner(vec![Answer::Claimed(Json::Null), Answer::Claimed(Json::Null)]), claimed);
    assert_eq!(one_owner::<Json>(vec![Answer::Unclaimed]), Ok(None));
    let mut chain =
        ExtensionChain::new().push(Box::new(Claims(false))).push(Box::new(Claims(true)));
    assert_eq!(
        chain.decode_output_item(Protocol::Chat, &Json::Null, &Json::Null),
        Ok(Some(vec![]))
    );
    let mut chain = chain.push(Box::new(Claims(true)));
    assert!(chain.decode_output_item(Protocol::Chat, &Json::Null, &Json::Null).is_err());
}

#[test]
fn deltas_are_handed_to_the_callback() {
    let sink = FunctionDeltaSink::new(|delta| match delta {
        ModelDelta::Text { .. } => Ok(()),
        _ => Err(Error::Cancelled),
    });
    assert_eq!(sink.emit(ModelDelta::Text { output_index: 0, text: "x".into() }), Ok(()));
    assert_eq!(
        sink.emit(ModelDelta::Reasoning { output_index: 0, text: "x".into() }),
        Err(Error::Cancelled)
    );
}

#[test]
fn slots_are_kept_in_order() {
    let mut slots: Slots<Json> = Slots::new();
    slots.put(5, Json::uint(5));
    slots.put(2, Json::uint(2));
    slots.put(5, Json::uint(6));
    assert_eq!(slots.len(), 2);
    assert_eq!(slots.at(0), (2, &Json::uint(2)));
    assert_eq!(slots.get(5), Some(&Json::uint(6)));
    assert_eq!(slots.remove(2), Some(Json::uint(2)));
    assert_eq!(slots.remove(2), None);
}
