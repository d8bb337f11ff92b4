use zhir_models::decorators::retries;
use zhir_models::error::{Error, Failure};
use zhir_models::json::Json;
use zhir_models::model::ModelDelta;
use zhir_models::observers::{opening, Opening, Relay, Sink};

/// A sink that keeps what it is given, and may fail afterwards.
#[derive(Default)]
struct Journal {
    values: Vec<ModelDelta>,
    fail: bool,
}

fn write_failure() -> Error {
    Error::Model(Failure {
        code: "observer_write".into(),
        message: "fixture write failed".into(),
        retryable: true,
    })
}

impl Journal {
    fn emit(&mut self, delta: ModelDelta) -> Result<(), Error> {
        self.values.push(delta);
        if self.fail {
            return Err(write_failure());
        }
        Ok(())
    }
}

fn relay(
    delta: &ModelDelta,
    mut downstream: Option<&mut Journal>,
    observer: &mut Journal,
    visible: &mut bool,
) -> Result<(), Error> {
    let mut relay = Relay::new(downstream.is_some());
    while let Some(sink) = relay.next() {
        let outcome = match sink {
            Sink::Downstream => match &mut downstream {
                Some(journal) => journal.emit(delta.clone()),
                None => panic!("no sink downstream"),
            },
            Sink::Observer => observer.emit(delta.clone()),
        };
        let result = relay.emitted(outcome);
        *visible = *visible || relay.visible();
        result?;
    }
    Ok(())
}

fn delta(ordinal: u64, run_id: &str, tag: u64) -> ModelDelta {
    ModelDelta::ProtocolEvent {
        output_index: 0,
        data: Json::empty()
            .with("ordinal", Json::uint(ordinal))
            .with_text("run_id", run_id)
            .with("tag", Json::uint(tag)),
    }
}

/// A model that emits two deltas.
#[derive(Default)]
struct Emitting {
    calls: usize,
    completed: usize,
    visible: bool,
}

impl Emitting {
    fn invoke(
        &mut self,
        run_id: &str,
        tag: u64,
        mut downstream: Option<&mut Journal>,
        observer: &mut Journal,
    ) -> Result<(), Error> {
        self.calls += 1;
        for ordinal in 0..2 {
            let sink = match &mut downstream {
                Some(journal) => Some(&mut **journal),
                None => None,
            };
            relay(&delta(ordinal, run_id, tag), sink, observer, &mut self.visible)?;
        }
        self.completed += 1;
        Ok(())
    }
}

#[test]
fn observers_are_isolated_per_concurrent_invocation_and_receive_context() {
    let mut inner = Emitting::default();
    let mut journals = Vec::new();
    for index in 0..32 {
        assert_eq!(opening(Ok(()), None), Ok(Opening::MakeObserver));
        let mut journal = Journal::default();
        assert_eq!(opening(Ok(()), Some(Ok(()))), Ok(Opening::Open));
        let run_id = format!("run-{index}");
        inner.invoke(&run_id, index, None, &mut journal).unwrap();
        journals.push((run_id, index, journal));
    }
    assert_eq!(journals.len(), 32);
    for (run_id, tag, journal) in &journals {
        assert_eq!(journal.values.len(), 2);
        for (ordinal, value) in journal.values.iter().enumerate() {
            assert_eq!(*value, delta(ordinal as u64, run_id, *tag));
        }
    }
}

#[test]
fn observer_backpressure_is_awaited_and_dropped_calls_do_not_spawn_writes() {
    for cancel in [false, true] {
        let mut writes = 0;
        let mut completed = 0;
        for ordinal in 0..2 {
            let mut relay = Relay::new(false);
            assert_eq!(relay.next(), Some(Sink::Observer));
            // The write is under way: nothing was written, and nothing is let through.
            assert!(!relay.visible());
            assert_eq!(writes, ordinal);
            assert_eq!(completed, 0);
            if cancel {
                drop(relay);
                break;
            }
            writes += 1;
            assert_eq!(relay.emitted(Ok(())), Ok(()));
            assert!(relay.visible());
            assert_eq!(relay.next(), None);
            if ordinal == 1 {
                completed += 1;
            }
        }
        assert_eq!(writes, if cancel { 0 } else { 2 });
        assert_eq!(completed, if cancel { 0 } else { 1 });
    }
}

#[test]
fn observer_errors_after_side_effects_never_retry_in_either_nesting_order() {
    for observer_inside in [false, true] {
        let mut inner = Emitting::default();
        let mut sink = Journal { fail: true, ..Default::default() };
        let mut result = Ok(());
        for attempt in 0..3 {
            if observer_inside || attempt == 0 {
                assert_eq!(opening(Ok(()), None), Ok(Opening::MakeObserver));
            }
            result = inner.invoke("run", 0, None, &mut sink);
            match &result {
                Err(error) if retries(error, inner.visible, false, attempt, 3) => (),
                _ => break,
            }
        }
        assert!(matches!(result, Err(Error::Model(f)) if f.code == "observer_write"));
        assert_eq!(inner.calls, 1);
        assert_eq!(inner.completed, 0);
        assert_eq!(sink.values.len(), 1);
    }
}

#[test]
fn observer_factory_scope_tracks_wrapper_invocations_across_retries() {
    for observer_inside in [false, true] {
        let mut calls = 0;
        let mut factories = 0;
        let mut made = None;
        for attempt in 0..3 {
            if observer_inside {
                made = None;
            }
            while opening(Ok(()), made.clone()) == Ok(Opening::MakeObserver) {
                factories += 1;
                made = Some(Ok(()));
            }
            assert_eq!(opening(Ok(()), made.clone()), Ok(Opening::Open));
            calls += 1;
            if calls > 1 || !retries(&write_failure(), false, false, attempt, 3) {
                break;
            }
        }
        assert_eq!(calls, 2);
        assert_eq!(factories, if observer_inside { 2 } else { 1 });
    }
}

#[test]
fn observer_factory_failures_and_pre_cancelled_calls_do_not_invoke_model() {
    for cancelled in [false, true] {
        let mut factories = 0;
        let mut calls = 0;
        let mut made = None;
        let error = loop {
            let state = if cancelled { Err(Error::Cancelled) } else { Ok(()) };
            match opening(state, made.clone()) {
                Ok(Opening::MakeObserver) => {
                    factories += 1;
                    made = Some(Err(Error::Invalid("factory unavailable".into())));
                }
                Ok(Opening::Open) => calls += 1,
                Err(error) => break error,
            }
        };
        assert!(if cancelled {
            matches!(error, Error::Cancelled)
        } else {
            matches!(error, Error::Invalid(_))
        });
        assert_eq!(factories, usize::from(!cancelled));
        assert_eq!(calls, 0);
    }
}

#[test]
fn downstream_sink_errors_stop_before_observer_side_effects() {
    let mut inner = Emitting::default();
    let mut observer = Journal::default();
    let mut downstream = Journal { fail: true, ..Default::default() };
    assert!(inner.invoke("run", 0, Some(&mut downstream), &mut observer).is_err());
    assert_eq!(downstream.values.len(), 1);
    assert!(observer.values.is_empty());
    assert_eq!(inner.completed, 0);
}
