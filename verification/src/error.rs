//! Errors: what was refused, and why.
use vstd::prelude::*;

verus! {

/// A failure that a model or its service reported.
#[derive(Debug, PartialEq, Eq)]
pub struct Failure {
    pub code: String,
    pub message: String,
    pub retryable: bool,
}

pub struct FailureView {
    pub code: Seq<char>,
    pub message: Seq<char>,
    pub retryable: bool,
}

impl View for Failure {
    type V = FailureView;

    open spec fn view(&self) -> FailureView {
        FailureView { code: self.code@, message: self.message@, retryable: self.retryable }
    }
}

impl Failure {
    /// A failure that is not worth a retry.
    pub fn new(code: String, message: &str) -> (r: Failure)
        ensures
            r@ == (FailureView { code: code@, message: message@, retryable: false }),
    {
        Failure { code, message: message.to_owned(), retryable: false }
    }
}

#[derive(Debug, PartialEq, Eq)]
pub enum Error {
    /// The service broke its protocol.
    Protocol(String),
    /// The caller asked for what cannot be done.
    Invalid(String),
    /// Whether the request took effect is not known.
    Uncertain(String),
    /// A store failed.
    Storage(String),
    /// A store handed out an artifact that does not fit its reference.
    Artifact { id: String, message: String },
    Model(Failure),
    Cancelled,
    Deadline,
}

pub enum ErrorView {
    Protocol(Seq<char>),
    Invalid(Seq<char>),
    Uncertain(Seq<char>),
    Storage(Seq<char>),
    Artifact { id: Seq<char>, message: Seq<char> },
    Model(FailureView),
    Cancelled,
    Deadline,
}

impl View for Error {
    type V = ErrorView;

    open spec fn view(&self) -> ErrorView {
        match self {
            Error::Protocol(m) => ErrorView::Protocol(m@),
            Error::Invalid(m) => ErrorView::Invalid(m@),
            Error::Uncertain(m) => ErrorView::Uncertain(m@),
            Error::Storage(m) => ErrorView::Storage(m@),
            Error::Artifact { id, message } => ErrorView::Artifact {
                id: id@,
                message: message@,
            },
            Error::Model(f) => ErrorView::Model(f@),
            Error::Cancelled => ErrorView::Cancelled,
            Error::Deadline => ErrorView::Deadline,
        }
    }
}

impl DeepView for Error {
    type V = ErrorView;

    open spec fn deep_view(&self) -> ErrorView {
        self@
    }
}

impl Clone for Failure {
    fn clone(&self) -> (r: Failure)
        ensures
            r@ == self@,
    {
        Failure {
            code: self.code.clone(),
            message: self.message.clone(),
            retryable: self.retryable,
        }
    }
}

impl Clone for Error {
    fn clone(&self) -> (r: Error)
        ensures
            r@ == self@,
    {
        match self {
            Error::Protocol(m) => Error::Protocol(m.clone()),
            Error::Invalid(m) => Error::Invalid(m.clone()),
            Error::Uncertain(m) => Error::Uncertain(m.clone()),
            Error::Storage(m) => Error::Storage(m.clone()),
            Error::Artifact { id, message } => Error::Artifact {
                id: id.clone(),
                message: message.clone(),
            },
            Error::Model(f) => Error::Model(f.clone()),
            Error::Cancelled => Error::Cancelled,
            Error::Deadline => Error::Deadline,
        }
    }
}

pub fn protocol(message: &str) -> (r: Error)
    ensures
        r@ == ErrorView::Protocol(message@),
{
    Error::Protocol(message.to_owned())
}

pub fn invalid(message: &str) -> (r: Error)
    ensures
        r@ == ErrorView::Invalid(message@),
{
    Error::Invalid(message.to_owned())
}

pub fn uncertain(message: &str) -> (r: Error)
    ensures
        r@ == ErrorView::Uncertain(message@),
{
    Error::Uncertain(message.to_owned())
}

/// The model of a check.
pub open spec fn checked(r: Result<(), Error>) -> Result<(), ErrorView> {
    match r {
        Ok(_) => Ok(()),
        Err(e) => Err(e@),
    }
}

/// The model of a result: the views of its value and of its error.
pub open spec fn seen<T: DeepView>(r: Result<T, Error>) -> Result<T::V, ErrorView> {
    match r {
        Ok(value) => Ok(value.deep_view()),
        Err(error) => Err(error@),
    }
}

/// The values of a sequence of results, or its first error.
pub open spec fn all_ok<T, E>(results: Seq<Result<T, E>>) -> Result<Seq<T>, E>
    decreases results.len(),
{
    if results.len() == 0 {
        Ok(Seq::empty())
    } else {
        match all_ok(results.drop_last()) {
            Err(e) => Err(e),
            Ok(values) => match results.last() {
                Err(e) => Err(e),
                Ok(value) => Ok(values.push(value)),
            },
        }
    }
}

/// One result more: its value is appended, or its error is the first.
pub proof fn all_ok_step<T, E>(results: Seq<Result<T, E>>, n: int)
    requires
        0 <= n < results.len(),
        all_ok(results.take(n)) is Ok,
    ensures
        results[n] is Ok ==> all_ok(results.take(n + 1)) == Ok::<Seq<T>, E>(
            all_ok(results.take(n))->Ok_0.push(results[n]->Ok_0),
        ),
        results[n] is Err ==> all_ok(results) == Err::<Seq<T>, E>(results[n]->Err_0),
{
    assert(results.take(n + 1).drop_last() =~= results.take(n));
    assert(results.take(n + 1).last() == results[n]);
    if results[n] is Err {
        all_ok_error(results, n + 1);
    }
}

proof fn all_ok_error<T, E>(results: Seq<Result<T, E>>, n: int)
    requires
        0 <= n <= results.len(),
        all_ok(results.take(n)) is Err,
    ensures
        all_ok(results) == Err::<Seq<T>, E>(all_ok(results.take(n))->Err_0),
    decreases results.len() - n,
{
    if n < results.len() {
        assert(results.take(n + 1).drop_last() =~= results.take(n));
        all_ok_error(results, n + 1);
    } else {
        assert(results.take(n) =~= results);
    }
}

/// Where all results are values, they are those values.
pub proof fn all_ok_each<T, E>(results: Seq<Result<T, E>>)
    requires
        all_ok(results) is Ok,
    ensures
        all_ok(results)->Ok_0.len() == results.len(),
        forall|i: int|
            0 <= i < results.len() ==> #[trigger] results[i] == Ok::<T, E>(
                all_ok(results)->Ok_0[i],
            ),
    decreases results.len(),
{
    if results.len() > 0 {
        let before = results.drop_last();
        all_ok_each(before);
        assert forall|i: int| 0 <= i < results.len() implies #[trigger] results[i] == Ok::<T, E>(
            all_ok(results)->Ok_0[i],
        ) by {
            if i < before.len() {
                assert(results[i] == before[i]);
            }
        }
    }
}

/// Results that are values give those values.
pub proof fn all_ok_from<T, E>(results: Seq<Result<T, E>>, values: Seq<T>)
    requires
        results.len() == values.len(),
        forall|i: int| 0 <= i < results.len() ==> #[trigger] results[i] == Ok::<T, E>(values[i]),
    ensures
        all_ok(results) == Ok::<Seq<T>, E>(values),
    decreases results.len(),
{
    if results.len() > 0 {
        let before = results.drop_last();
        assert forall|i: int| 0 <= i < before.len() implies #[trigger] before[i] == Ok::<T, E>(
            values.drop_last()[i],
        ) by {
            assert(before[i] == results[i]);
        }
        all_ok_from(before, values.drop_last());
        assert(results.last() == Ok::<T, E>(values.last()));
        assert(values.drop_last().push(values.last()) =~= values);
    } else {
        assert(values =~= Seq::empty());
    }
}

/// An error among results is the error of one of them.
pub proof fn all_ok_culprit<T, E>(results: Seq<Result<T, E>>) -> (i: int)
    requires
        all_ok(results) is Err,
    ensures
        0 <= i < results.len(),
        results[i] is Err,
        results[i]->Err_0 == all_ok(results)->Err_0,
    decreases results.len(),
{
    if all_ok(results.drop_last()) is Err {
        all_ok_culprit(results.drop_last())
    } else {
        results.len() - 1
    }
}

/// A state carried through a sequence, or the first error on the way.
pub open spec fn fold_ok<S, T, E>(
    items: Seq<T>,
    start: S,
    step: spec_fn(S, T) -> Result<S, E>,
) -> Result<S, E>
    decreases items.len(),
{
    if items.len() == 0 {
        Ok(start)
    } else {
        match fold_ok(items.drop_last(), start, step) {
            Err(e) => Err(e),
            Ok(state) => step(state, items.last()),
        }
    }
}

/// One item more: the step is applied to the state so far, and its error is the first.
pub proof fn fold_ok_step<S, T, E>(
    items: Seq<T>,
    start: S,
    step: spec_fn(S, T) -> Result<S, E>,
    n: int,
)
    requires
        0 <= n < items.len(),
        fold_ok(items.take(n), start, step) is Ok,
    ensures
        fold_ok(items.take(n + 1), start, step) == step(
            fold_ok(items.take(n), start, step)->Ok_0,
            items[n],
        ),
        step(fold_ok(items.take(n), start, step)->Ok_0, items[n]) is Err ==> fold_ok(
            items,
            start,
            step,
        ) == step(fold_ok(items.take(n), start, step)->Ok_0, items[n]),
{
    assert(items.take(n + 1).drop_last() =~= items.take(n));
    assert(items.take(n + 1).last() == items[n]);
    if fold_ok(items.take(n + 1), start, step) is Err {
        fold_ok_error(items, start, step, n + 1);
    }
}

/// An error on the way is the error of one step.
pub proof fn fold_ok_culprit<S, T, E>(
    items: Seq<T>,
    start: S,
    step: spec_fn(S, T) -> Result<S, E>,
) -> (r: (S, int))
    requires
        fold_ok(items, start, step) is Err,
    ensures
        0 <= r.1 < items.len(),
        step(r.0, items[r.1]) is Err,
        step(r.0, items[r.1])->Err_0 == fold_ok(items, start, step)->Err_0,
    decreases items.len(),
{
    let before = fold_ok(items.drop_last(), start, step);
    if before is Err {
        fold_ok_culprit(items.drop_last(), start, step)
    } else {
        (before->Ok_0, items.len() - 1)
    }
}

pub proof fn fold_ok_error<S, T, E>(
    items: Seq<T>,
    start: S,
    step: spec_fn(S, T) -> Result<S, E>,
    n: int,
)
    requires
        0 <= n <= items.len(),
        fold_ok(items.take(n), start, step) is Err,
    ensures
        fold_ok(items, start, step) == fold_ok(items.take(n), start, step),
    decreases items.len() - n,
{
    if n < items.len() {
        assert(items.take(n + 1).drop_last() =~= items.take(n));
        fold_ok_error(items, start, step, n + 1);
    } else {
        assert(items.take(n) =~= items);
    }
}

} // verus!
