use zhir_models::credentials::{Credential, RefreshingCredential, StaticCredential};
use zhir_models::error::Error;
use zhir_models::headers::{authorize, metadata_headers, Controlled, Rejected};
use zhir_models::transport::websocket::{handshake_headers, handshake_rejected};

fn credential(generation: &str, expires_at_ms: Option<u64>) -> Credential {
    Credential {
        generation: generation.into(),
        scheme: "Bearer".into(),
        value: "secret".into(),
        expires_at_ms,
        metadata: vec![],
    }
}

fn header(key: &str, value: &str) -> (String, String) {
    (key.into(), value.into())
}

#[test]
fn a_static_credential_never_changes() {
    let fixed = StaticCredential::new("Bearer".into(), "secret".into());
    let first = fixed.resolve();
    assert_eq!(first.value, "secret");
    assert_eq!(first.scheme, "Bearer");
    assert!(first.is_live(u64::MAX));
}

#[test]
fn a_refreshed_credential_is_kept_until_it_expires() {
    let mut cache = RefreshingCredential::new();
    assert!(cache.cached("api", 0).is_none());
    cache.refreshed("api".into(), credential("one", Some(100)), 0).unwrap();
    assert_eq!(cache.cached("api", 99).unwrap().generation, "one");
    assert!(cache.cached("api", 100).is_none());
    assert!(cache.cached("other", 0).is_none());
    cache.refreshed("api".into(), credential("two", None), 100).unwrap();
    cache.invalidate("one");
    assert_eq!(cache.cached("api", 100).unwrap().generation, "two");
    cache.invalidate("two");
    assert!(cache.cached("api", 100).is_none());
    assert!(cache.refreshed("api".into(), credential("", None), 0).is_err());
    assert!(cache.refreshed("api".into(), credential("three", Some(5)), 5).is_err());
}

#[test]
fn metadata_adds_headers_and_replaces_none() {
    let own = vec![header("accept", "x")];
    let added = metadata_headers(
        own.clone(),
        &vec![header("header:X-Account", "7"), header("note", "kept back")],
        Controlled::Http,
    )
    .unwrap();
    assert_eq!(added, vec![header("accept", "x"), header("x-account", "7")]);
    for key in ["header:Accept", "header:Host", "header:content-type", "header:Content-Length"] {
        assert_eq!(
            metadata_headers(own.clone(), &vec![header(key, "y")], Controlled::Http),
            Err(Error::Invalid("credential metadata overrides a controlled header".into()))
        );
    }
    assert!(metadata_headers(own.clone(), &vec![header("header:bad name", "y")], Controlled::Http)
        .is_err());
    assert!(metadata_headers(own.clone(), &vec![header("header:x", "a\nb")], Controlled::Http)
        .is_err());
    assert_eq!(
        metadata_headers(own, &vec![header("header:Sec-WebSocket-Key", "y")], Controlled::WebSocket),
        Err(Error::Invalid("credential metadata overrides a controlled WebSocket header".into()))
    );
}

#[test]
fn header_names_are_read_in_lower_case() {
    let read = |name: &str| {
        metadata_headers(vec![], &vec![header(&format!("header:{name}"), "y")], Controlled::Http)
            .map(|headers| headers[0].0.clone())
    };
    for code in 0..256u32 {
        let c = char::from_u32(code).unwrap();
        let accepted = c.is_ascii_alphanumeric() || "!#$%&'*+-.^_`|~".contains(c);
        let expected = accepted.then_some(format!("x{}", c.to_ascii_lowercase()));
        assert_eq!(read(&format!("X{c}")).ok(), expected);
    }
    assert!(read("").is_err());
    assert_eq!(read(&"A".repeat(65_535)), Ok("a".repeat(65_535)));
    assert!(read(&"A".repeat(65_536)).is_err());
}

#[test]
fn an_authorization_is_a_header_value() {
    assert_eq!(authorize(&credential("one", None), "no"), Ok("Bearer secret".into()));
    let mut broken = credential("one", None);
    broken.value = "a\u{7f}b".into();
    assert_eq!(authorize(&broken, "no"), Err(Error::Invalid("no".into())));
    assert!(handshake_headers(vec![], &broken).is_err());
    let headers = handshake_headers(vec![], &credential("one", None)).unwrap();
    assert!(headers.contains(&header("authorization", "Bearer secret")));
}

#[test]
fn a_refused_handshake_is_repeated_once() {
    assert_eq!(handshake_rejected(0, 401), Rejected::Refresh);
    assert!(
        matches!(handshake_rejected(1, 401), Rejected::Fail(Error::Model(f)) if !f.retryable)
    );
    assert!(matches!(handshake_rejected(0, 503), Rejected::Fail(Error::Model(f)) if f.retryable));
}
