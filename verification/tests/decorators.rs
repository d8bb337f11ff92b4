use zhir_models::capabilities::{text_tool_calling, Capability};
use zhir_models::command::{
    Acknowledgement, ModelBinding, RecoveryRef, SessionEventBody,
};
use zhir_models::decorators::{
    binding, rebind, retries, Attempts, Choice, FallbackCandidate, FallbackModel, Saved,
};
use zhir_models::error::{Error, Failure};
use zhir_models::json::Json;

fn failure(retryable: bool) -> Error {
    Error::Model(Failure { code: "fixture".into(), message: "failed".into(), retryable })
}

/// Runs a model that fails once, as often as the rules allow.
fn invoke(retryable: bool, emit: bool) -> (bool, usize) {
    let mut calls = 0;
    for attempt in 0..3 {
        calls += 1;
        if attempt > 0 {
            return (true, calls);
        }
        if !retries(&failure(retryable), emit, false, attempt, 3) {
            return (false, calls);
        }
    }
    (false, calls)
}

#[test]
fn retries_only_retryable_failures_before_stream_output() {
    for (retryable, emit, expected) in [(true, false, 2), (false, false, 1), (true, true, 1)] {
        let (ok, calls) = invoke(retryable, emit);
        assert_eq!(ok, expected == 2);
        assert_eq!(calls, expected);
    }
}

#[test]
fn attempts_end_with_the_policy_and_with_a_recovery() {
    assert!(!retries(&failure(true), false, false, 2, 3));
    assert!(!retries(&failure(true), false, true, 0, 3));
    assert!(!retries(&Error::Cancelled, false, false, 0, 3));
}

#[test]
fn fallback_stops_at_permanent_errors_and_visible_output() {
    for (retryable, emit, expected) in [(true, false, 1), (false, false, 0), (true, true, 0)] {
        let mut attempts = Attempts::new();
        assert_eq!(attempts.candidate(2), Ok(0));
        let result = attempts.failed(failure(retryable), emit);
        assert_eq!(result.is_ok(), expected == 1);
        if expected == 1 {
            assert_eq!(attempts.candidate(2), Ok(1));
        } else {
            assert_eq!(result, Err(failure(retryable)));
        }
    }
}

#[test]
fn attempts_come_to_the_last_error() {
    let mut attempts = Attempts::new();
    assert_eq!(attempts.candidate(0), Err(Error::Invalid("no model satisfies request".into())));
    attempts.failed(failure(true), false).unwrap();
    attempts.refused();
    assert_eq!(attempts.candidate(2), Err(failure(true)));
}

fn candidate(id: &str) -> FallbackCandidate {
    FallbackCandidate::new(id.into(), text_tool_calling())
}

#[test]
fn candidates_have_identities_of_their_own() {
    for ids in [vec!["a", "a"], vec![""]] {
        let models = ids.into_iter().map(candidate).collect();
        assert_eq!(
            FallbackModel::new(models).err(),
            Some(Error::Invalid("fallback candidates require unique nonempty identities".into()))
        );
    }
    assert!(FallbackModel::new(vec![]).is_err());
    let model = FallbackModel::new(vec![candidate("a"), candidate("b")]).unwrap();
    assert!(model.capabilities().supports(Capability::StructuredTools));
    assert_eq!(model.position("b"), Some(1));
    assert_eq!(model.negotiate(&vec![false, true]), Ok(1));
    assert!(model.negotiate(&vec![false, false]).is_err());
}

#[test]
fn sessions_return_to_their_candidate() {
    let model = FallbackModel::new(vec![candidate("a"), candidate("b")]).unwrap();
    let saved = |id: &str| Saved {
        adapter: "zhir.fallback".into(),
        parsed: Ok((id.to_string(), None::<ModelBinding>)),
    };
    let recovery = |id: &str| Saved {
        adapter: "zhir.fallback".into(),
        parsed: Ok((id.to_string(), RecoveryRef { adapter: "x".into(), data: Json::Null })),
    };
    assert!(matches!(model.choose_candidate(None, None), Ok(Choice::Any)));
    assert!(matches!(
        model.choose_candidate(Some(saved("b")), None),
        Ok(Choice::Bound { index: 1, .. })
    ));
    for (bound, recovered, message) in [
        (
            Some(saved("a")),
            Some(recovery("b")),
            "recovery differs from the bound candidate",
        ),
        (Some(saved("c")), None, "original fallback candidate is unavailable"),
        (
            Some(Saved { adapter: "other".into(), parsed: Ok(("a".into(), None)) }),
            None,
            "binding does not belong to this fallback adapter",
        ),
        (
            None,
            Some(Saved {
                adapter: "other".into(),
                parsed: Err("unread".into()),
            }),
            "recovery does not belong to this fallback adapter",
        ),
        (
            Some(Saved { adapter: "zhir.fallback".into(), parsed: Err("unread".into()) }),
            None,
            "unread",
        ),
    ] {
        assert_eq!(
            model.choose_candidate(bound, recovered).err(),
            Some(Error::Invalid(message.into()))
        );
    }
}

#[test]
fn what_a_session_saves_names_its_candidate() {
    let bound = binding("a", None);
    assert_eq!(bound.adapter, "zhir.fallback");
    assert_eq!(bound.data.get_str("candidate"), Some("a"));
    let reference = RecoveryRef { adapter: "inner".into(), data: Json::uint(7) };
    match rebind(
        "a",
        SessionEventBody::Acknowledged {
            command_id: "c".into(),
            recovery: Some(reference.clone()),
            level: Some(Acknowledgement::Projection),
        },
    ) {
        SessionEventBody::Acknowledged { command_id, recovery: Some(wrapped), level } => {
            assert_eq!(command_id, "c");
            assert_eq!(wrapped.adapter, "zhir.fallback");
            assert_eq!(level, Some(Acknowledgement::Projection));
        }
        other => panic!("{other:?}"),
    }
    match rebind("a", SessionEventBody::Recovery(reference)) {
        SessionEventBody::Recovery(wrapped) => {
            assert_eq!(wrapped.adapter, "zhir.fallback");
            assert_eq!(wrapped.data.pointer("/reference/data"), Some(&Json::uint(7)));
        }
        other => panic!("{other:?}"),
    }
}
