//! Protocol customization that users own.
use crate::error::{checked, invalid, seen, Error, ErrorView};
use crate::json::{Json, JsonView};
use crate::message::{Output, OutputView, ProviderToolCall, ProviderToolCallView};
use crate::model::{
    ModelDelta, ModelDeltaView, ModelRequest, Protocol, ProviderToolSpec, ProviderToolSpecView,
    TurnOutput, TurnOutputView,
};
use crate::text::same;
use crate::transport::sse::{SseEvent, SseEventView};
use vstd::prelude::*;

verus! {

/// What an extension says of one protocol item: it leaves the item to the codec, claims it
/// with a value, or fails.
#[derive(Debug, PartialEq, Eq)]
pub enum Answer<T> {
    Unclaimed,
    Claimed(T),
    Failed(Error),
}

pub enum AnswerView<T> {
    Unclaimed,
    Claimed(T),
    Failed(ErrorView),
}

impl<T: DeepView> DeepView for Answer<T> {
    type V = AnswerView<T::V>;

    open spec fn deep_view(&self) -> AnswerView<T::V> {
        match self {
            Answer::Unclaimed => AnswerView::Unclaimed,
            Answer::Claimed(value) => AnswerView::Claimed(value.deep_view()),
            Answer::Failed(error) => AnswerView::Failed(error@),
        }
    }
}

/// The answer at a position; past the end nothing was claimed.
pub open spec fn answer_at<T>(answers: Seq<AnswerView<T>>, i: int) -> AnswerView<T> {
    if 0 <= i < answers.len() {
        answers[i]
    } else {
        AnswerView::Unclaimed
    }
}

/// What a hook returned, as an answer.
pub open spec fn as_answer<T: DeepView>(result: Result<Option<T>, Error>) -> AnswerView<T::V> {
    match result {
        Ok(Some(value)) => AnswerView::Claimed(value.deep_view()),
        Ok(None) => AnswerView::Unclaimed,
        Err(error) => AnswerView::Failed(error@),
    }
}

pub fn answer<T: DeepView>(result: Result<Option<T>, Error>) -> (r: Answer<T>)
    ensures
        r.deep_view() == as_answer(result),
{
    match result {
        Ok(Some(value)) => Answer::Claimed(value),
        Ok(None) => Answer::Unclaimed,
        Err(error) => Answer::Failed(error),
    }
}

pub open spec fn claimed_twice() -> ErrorView {
    ErrorView::Invalid("multiple extensions claimed the same protocol item"@)
}

/// The one claim among two answers: a failure comes first, and two claims are one.
pub open spec fn joined<T>(first: AnswerView<T>, second: AnswerView<T>) -> AnswerView<T> {
    match (first, second) {
        (AnswerView::Failed(e), _) => AnswerView::Failed(e),
        (_, AnswerView::Failed(e)) => AnswerView::Failed(e),
        (AnswerView::Claimed(_), AnswerView::Claimed(_)) => AnswerView::Failed(claimed_twice()),
        (AnswerView::Claimed(value), AnswerView::Unclaimed) => AnswerView::Claimed(value),
        (AnswerView::Unclaimed, second) => second,
    }
}

/// The one claim among answers, in order.
pub open spec fn owner<T>(answers: Seq<AnswerView<T>>) -> AnswerView<T>
    decreases answers.len(),
{
    if answers.len() == 0 {
        AnswerView::Unclaimed
    } else {
        joined(owner(answers.drop_last()), answers.last())
    }
}

/// Once an answer failed, later ones make no difference.
pub proof fn first_failure_decides<T>(answers: Seq<AnswerView<T>>, n: int)
    requires
        0 <= n <= answers.len(),
        owner(answers.take(n)) is Failed,
    ensures
        owner(answers) == owner(answers.take(n)),
    decreases answers.len() - n,
{
    if n < answers.len() {
        assert(answers.take(n + 1).drop_last() =~= answers.take(n));
        first_failure_decides(answers, n + 1);
    } else {
        assert(answers.take(n) =~= answers);
    }
}

/// A failure while the claim is open is what comes out.
pub proof fn open_failure_comes_out<T>(answers: Seq<AnswerView<T>>, n: int, error: ErrorView)
    requires
        0 <= n < answers.len(),
        !(owner(answers.take(n)) is Failed),
        answers[n] == AnswerView::<T>::Failed(error),
    ensures
        owner(answers) == AnswerView::<T>::Failed(error),
{
    assert(answers.take(n + 1).drop_last() =~= answers.take(n));
    first_failure_decides(answers, n + 1);
}

proof fn claims_without_failure<T>(answers: Seq<AnswerView<T>>, i: int)
    requires
        0 <= i < answers.len(),
        answers[i] is Claimed,
        forall|k: int| 0 <= k < answers.len() ==> !((#[trigger] answers[k]) is Failed),
    ensures
        owner(answers) is Claimed || owner(answers) == AnswerView::<T>::Failed(claimed_twice()),
    decreases answers.len(),
{
    let prior = answers.drop_last();
    assert forall|k: int| 0 <= k < prior.len() implies !((#[trigger] prior[k]) is Failed) by {
        assert(prior[k] == answers[k]);
    }
    assert(!(answers[answers.len() - 1] is Failed));
    if i < prior.len() {
        claims_without_failure(prior, i);
    } else if exists|k: int| 0 <= k < prior.len() && (#[trigger] prior[k]) is Claimed {
        let k = choose|k: int| 0 <= k < prior.len() && (#[trigger] prior[k]) is Claimed;
        claims_without_failure(prior, k);
    } else {
        unclaimed_by_all(prior);
    }
}

proof fn unclaimed_by_all<T>(answers: Seq<AnswerView<T>>)
    requires
        forall|k: int| 0 <= k < answers.len() ==> (#[trigger] answers[k]) is Unclaimed,
    ensures
        owner(answers) is Unclaimed,
    decreases answers.len(),
{
    if answers.len() > 0 {
        let prior = answers.drop_last();
        assert forall|k: int| 0 <= k < prior.len() implies (#[trigger] prior[k]) is Unclaimed by {
            assert(prior[k] == answers[k]);
        }
        unclaimed_by_all(prior);
        assert(answers[answers.len() - 1] is Unclaimed);
    }
}

/// Two claims refuse each other, where nothing failed before the second; what comes after them
/// makes no difference.
pub proof fn second_claim_is_refused<T>(answers: Seq<AnswerView<T>>, first: int, second: int)
    requires
        0 <= first < second < answers.len(),
        answers[first] is Claimed,
        answers[second] is Claimed,
        forall|k: int| 0 <= k < second ==> !((#[trigger] answers[k]) is Failed),
    ensures
        owner(answers) == AnswerView::<T>::Failed(claimed_twice()),
{
    let prior = answers.take(second);
    assert forall|k: int| 0 <= k < prior.len() implies !((#[trigger] prior[k]) is Failed) by {
        assert(prior[k] == answers[k]);
    }
    assert(prior[first] == answers[first]);
    claims_without_failure(prior, first);
    assert(answers.take(second + 1).drop_last() =~= prior);
    first_failure_decides(answers, second + 1);
}

/// A claim stands alone: where one is handed on, exactly one answer claimed and none failed.
pub proof fn owner_is_alone<T>(answers: Seq<AnswerView<T>>, value: T)
    requires
        owner(answers) == AnswerView::Claimed(value),
    ensures
        exists|i: int|
            0 <= i < answers.len() && #[trigger] answers[i] == AnswerView::Claimed(value)
                && forall|j: int|
                0 <= j < answers.len() && j != i ==> #[trigger] answers[j] == AnswerView::<
                    T,
                >::Unclaimed,
    decreases answers.len(),
{
    let before = answers.drop_last();
    match owner(before) {
        AnswerView::Claimed(_) => {
            owner_is_alone(before, value);
            let i = choose|i: int|
                0 <= i < before.len() && #[trigger] before[i] == AnswerView::Claimed(value)
                    && forall|j: int|
                    0 <= j < before.len() && j != i ==> #[trigger] before[j] == AnswerView::<
                        T,
                    >::Unclaimed;
            assert(answers[i] == before[i]);
            assert forall|j: int| 0 <= j < answers.len() && j != i implies #[trigger] answers[j]
                == AnswerView::<T>::Unclaimed by {
                if j < before.len() {
                    assert(before[j] == answers[j]);
                }
            }
        },
        _ => {
            nobody_claimed(before);
            let i = answers.len() - 1;
            assert(answers[i] == AnswerView::Claimed(value));
            assert forall|j: int| 0 <= j < answers.len() && j != i implies #[trigger] answers[j]
                == AnswerView::<T>::Unclaimed by {
                assert(before[j] == answers[j]);
            }
        },
    }
}

proof fn nobody_claimed<T>(answers: Seq<AnswerView<T>>)
    requires
        owner(answers) is Unclaimed,
    ensures
        forall|j: int|
            0 <= j < answers.len() ==> #[trigger] answers[j] == AnswerView::<T>::Unclaimed,
    decreases answers.len(),
{
    if answers.len() > 0 {
        let before = answers.drop_last();
        nobody_claimed(before);
        assert forall|j: int| 0 <= j < answers.len() implies #[trigger] answers[j]
            == AnswerView::<T>::Unclaimed by {
            if j < before.len() {
                assert(before[j] == answers[j]);
            }
        }
    }
}

/// Joins an answer to the claim so far.
pub fn join_answers<T: DeepView>(first: Answer<T>, second: Answer<T>) -> (r: Answer<T>)
    ensures
        r.deep_view() == joined(first.deep_view(), second.deep_view()),
{
    match (first, second) {
        (Answer::Failed(e), _) => Answer::Failed(e),
        (_, Answer::Failed(e)) => Answer::Failed(e),
        (Answer::Claimed(_), Answer::Claimed(_)) => Answer::Failed(
            invalid("multiple extensions claimed the same protocol item"),
        ),
        (Answer::Claimed(value), Answer::Unclaimed) => Answer::Claimed(value),
        (Answer::Unclaimed, second) => second,
    }
}

fn owner_of<T: DeepView>(answers: Vec<Answer<T>>) -> (r: Answer<T>)
    ensures
        r.deep_view() == owner(answers.deep_view()),
    decreases answers@.len(),
{
    let ghost all = answers.deep_view();
    let mut rest = answers;
    match rest.pop() {
        None => Answer::Unclaimed,
        Some(last) => {
            proof {
                assert(rest.deep_view() =~= all.drop_last());
                assert(all.last() == last.deep_view());
            }
            join_answers(owner_of(rest), last)
        },
    }
}

/// The one claim among answers: an error where several claim, or where one failed.
pub fn one_owner<T: DeepView>(answers: Vec<Answer<T>>) -> (r: Result<Option<T>, Error>)
    ensures
        as_answer(r) == owner(answers.deep_view()),
{
    settle(owner_of(answers))
}

/// What one extension session is made for.
pub struct ExtensionContext<'a> {
    pub protocol: Protocol,
    pub request: &'a ModelRequest,
    pub run_id: &'a str,
}

/// Protocol customization of one model invocation.
///
/// A session may accumulate stream state; it is not shared with other invocations or
/// retries. Hooks run in order, and an error ends the attempt.
pub trait ProtocolExtension: Send {
    /// Declares a provider tool.
    fn encode_provider_tool(&mut self, protocol: Protocol, tool: &ProviderToolSpec) -> (r: Result<
        Option<Json>,
        Error,
    >)
        default_ensures
            r is Ok && r->Ok_0 is None,
    {
        Ok(None)
    }

    /// Selects a provider tool.
    fn encode_provider_choice(&mut self, protocol: Protocol, tool: &ProviderToolSpec) -> (r: Result<
        Option<Json>,
        Error,
    >)
        default_ensures
            r is Ok && r->Ok_0 is None,
    {
        Ok(None)
    }

    /// None leaves the item to the codec; an empty list consumes it.
    fn decode_output_item(&mut self, protocol: Protocol, item: &Json, response: &Json) -> (r: Result<
        Option<Vec<Output>>,
        Error,
    >)
        default_ensures
            r is Ok && r->Ok_0 is None,
    {
        Ok(None)
    }

    /// Encodes a provider call of an earlier turn.
    fn encode_provider_history(&mut self, protocol: Protocol, call: &ProviderToolCall) -> (r: Result<
        Option<Vec<Json>>,
        Error,
    >)
        default_ensures
            r is Ok && r->Ok_0 is None,
    {
        Ok(None)
    }

    /// Changes the encoded body, controlled fields too.
    fn encode_request(&mut self, protocol: Protocol, request: &ModelRequest, body: &mut Json) -> (r: Result<
        (),
        Error,
    >)
        default_ensures
            r is Ok,
            final(body)@ == old(body)@,
    {
        Ok(())
    }

    /// Normalizes a wire event before it is assembled; may emit deltas of its own.
    fn decode_event(&mut self, protocol: Protocol, event: &mut SseEvent) -> (r: Result<
        Vec<ModelDelta>,
        Error,
    >)
        default_ensures
            r is Ok && r->Ok_0@.len() == 0,
            final(event)@ == old(event)@,
    {
        Ok(Vec::new())
    }

    /// Maps the decoded response, or handles one that could not be decoded.
    fn decode_response(
        &mut self,
        protocol: Protocol,
        raw: &Json,
        decoded: Result<TurnOutput, Error>,
    ) -> (r: Result<TurnOutput, Error>)
        default_ensures
            r == decoded,
    {
        decoded
    }
}

// ---------------------------------------------------------------------------------------
// What an extension was asked
// ---------------------------------------------------------------------------------------
/// One question to an extension, with what it answered.
pub enum Asked {
    /// How a provider tool is declared.
    Declaration(ProviderToolSpecView, AnswerView<JsonView>),
    /// How a provider tool is selected.
    Choice(ProviderToolSpecView, AnswerView<JsonView>),
    /// What an item of a response stands for.
    Item { item: JsonView, response: JsonView, answer: AnswerView<Seq<OutputView>> },
    /// Which items stand for a provider call.
    Replay(ProviderToolCallView, AnswerView<Seq<JsonView>>),
    /// What a response comes to.
    Response {
        raw: JsonView,
        decoded: Result<TurnOutputView, ErrorView>,
        mapped: Result<TurnOutputView, ErrorView>,
    },
}

/// Whether an extension was asked this, and answered so. `x` stands for one call of the hook:
/// for the extension before the call and after it.
pub open spec fn answered<E: ProtocolExtension + ?Sized>(
    x: &mut E,
    protocol: Protocol,
    asked: Asked,
) -> bool {
    match asked {
        Asked::Declaration(tool, answer) => exists|
            t: &ProviderToolSpec,
            r: Result<Option<Json>, Error>,
        |
            #[trigger] call_ensures(E::encode_provider_tool, (x, protocol, t), r) && t@ == tool
                && as_answer(r) == answer,
        Asked::Choice(tool, answer) => exists|
            t: &ProviderToolSpec,
            r: Result<Option<Json>, Error>,
        |
            #[trigger] call_ensures(E::encode_provider_choice, (x, protocol, t), r) && t@ == tool
                && as_answer(r) == answer,
        Asked::Item { item, response, answer } => exists|
            i: &Json,
            all: &Json,
            r: Result<Option<Vec<Output>>, Error>,
        |
            #[trigger] call_ensures(E::decode_output_item, (x, protocol, i, all), r) && i@ == item
                && all@ == response && as_answer(r) == answer,
        Asked::Replay(call, answer) => exists|
            c: &ProviderToolCall,
            r: Result<Option<Vec<Json>>, Error>,
        |
            #[trigger] call_ensures(E::encode_provider_history, (x, protocol, c), r) && c@ == call
                && as_answer(r) == answer,
        Asked::Response { raw, decoded, mapped } => exists|
            all: &Json,
            d: Result<TurnOutput, Error>,
            r: Result<TurnOutput, Error>,
        |
            #[trigger] call_ensures(E::decode_response, (x, protocol, all, d), r) && all@ == raw
                && seen(d) == decoded && seen(r) == mapped,
    }
}

/// Whether extensions were asked these questions, one call each. They are given as they were
/// before their calls.
pub open spec fn polled<E: ProtocolExtension + ?Sized>(
    xs: Seq<&mut E>,
    before: Seq<Box<E>>,
    protocol: Protocol,
    log: Seq<Asked>,
) -> bool {
    &&& xs.len() == log.len()
    &&& before.len() == log.len()
    &&& forall|i: int|
        0 <= i < log.len() ==> &*(#[trigger] xs[i]) == &*before[i] && answered(
            xs[i],
            protocol,
            log[i],
        )
}

proof fn nobody_polled<E: ProtocolExtension + ?Sized>(protocol: Protocol)
    ensures
        polled(
            Seq::<&mut E>::empty(),
            Seq::<Box<E>>::empty(),
            protocol,
            Seq::<Asked>::empty(),
        ),
{
}

/// One question more.
pub(crate) proof fn polled_once_more<E: ProtocolExtension + ?Sized>(
    before: Seq<Box<E>>,
    after: Seq<Box<E>>,
    protocol: Protocol,
    log: Seq<Asked>,
    from: Box<E>,
    to: Box<E>,
    asked: Asked,
)
    requires
        after.len() == log.len(),
        exists|xs: Seq<&mut E>|
            #[trigger] polled(xs, before, protocol, log) && forall|i: int|
                0 <= i < xs.len() ==> &*final(#[trigger] xs[i]) == &*after[i],
        exists|x: &mut E|
            #[trigger] answered(x, protocol, asked) && &*x == &*from && &*final(x) == &*to,
    ensures
        exists|xs: Seq<&mut E>|
            #[trigger] polled(xs, before.push(from), protocol, log.push(asked)) && forall|i: int|
                0 <= i < xs.len() ==> &*final(#[trigger] xs[i]) == &*after.push(to)[i],
{
    let xs = choose|xs: Seq<&mut E>|
        #[trigger] polled(xs, before, protocol, log) && forall|i: int|
            0 <= i < xs.len() ==> &*final(#[trigger] xs[i]) == &*after[i];
    let x = choose|x: &mut E|
        #[trigger] answered(x, protocol, asked) && &*x == &*from && &*final(x) == &*to;
    let ys = xs.push(x);
    assert(polled(ys, before.push(from), protocol, log.push(asked))) by {
        assert forall|i: int| 0 <= i < ys.len() implies &*(#[trigger] ys[i]) == &*before.push(
            from,
        )[i] && answered(ys[i], protocol, log.push(asked)[i]) by {
            if i < log.len() {
                assert(ys[i] == xs[i]);
            }
        }
    }
    assert forall|i: int| 0 <= i < ys.len() implies &*final(#[trigger] ys[i]) == &*after.push(
        to,
    )[i] by {
        if i < log.len() {
            assert(ys[i] == xs[i]);
        }
    }
}

pub(crate) fn call3<A, B, C, R, F: FnOnce(A, B, C) -> R>(f: F, a: A, b: B, c: C) -> (r: R)
    requires
        f.requires((a, b, c)),
    ensures
        f.ensures((a, b, c), r),
{
    f(a, b, c)
}

pub(crate) fn call4<A, B, C, D, R, F: FnOnce(A, B, C, D) -> R>(f: F, a: A, b: B, c: C, d: D) -> (r: R)
    requires
        f.requires((a, b, c, d)),
    ensures
        f.ensures((a, b, c, d), r),
{
    f(a, b, c, d)
}

/// Asks an extension how a provider tool is declared.
pub(crate) fn ask_declaration<E: ProtocolExtension + ?Sized>(
    extension: &mut E,
    protocol: Protocol,
    tool: &ProviderToolSpec,
) -> (r: Result<Option<Json>, Error>)
    ensures
        exists|x: &mut E|
            #[trigger] answered(x, protocol, Asked::Declaration(tool@, as_answer(r))) && &*x
                == &*old(extension) && &*final(x) == &*final(extension),
{
    let r = call3(E::encode_provider_tool, extension, protocol, tool);
    proof {
        let x = choose|x: &mut E|
            #[trigger] call_ensures(E::encode_provider_tool, (x, protocol, tool), r) && &*x
                == &*old(extension) && &*final(x) == &*extension;
        assert(answered(x, protocol, Asked::Declaration(tool@, as_answer(r))));
    }
    r
}

/// Asks an extension how a provider tool is selected.
pub(crate) fn ask_choice<E: ProtocolExtension + ?Sized>(
    extension: &mut E,
    protocol: Protocol,
    tool: &ProviderToolSpec,
) -> (r: Result<Option<Json>, Error>)
    ensures
        exists|x: &mut E|
            #[trigger] answered(x, protocol, Asked::Choice(tool@, as_answer(r))) && &*x == &*old(
                extension
            ) && &*final(x) == &*final(extension),
{
    let r = call3(E::encode_provider_choice, extension, protocol, tool);
    proof {
        let x = choose|x: &mut E|
            #[trigger] call_ensures(E::encode_provider_choice, (x, protocol, tool), r) && &*x
                == &*old(extension) && &*final(x) == &*extension;
        assert(answered(x, protocol, Asked::Choice(tool@, as_answer(r))));
    }
    r
}

/// Asks an extension what an item of a response stands for.
pub(crate) fn ask_item<E: ProtocolExtension + ?Sized>(
    extension: &mut E,
    protocol: Protocol,
    item: &Json,
    response: &Json,
) -> (r: Result<Option<Vec<Output>>, Error>)
    ensures
        exists|x: &mut E|
            #[trigger] answered(
                x,
                protocol,
                Asked::Item { item: item@, response: response@, answer: as_answer(r) },
            ) && &*x == &*old(extension) && &*final(x) == &*final(extension),
{
    let r = call4(E::decode_output_item, extension, protocol, item, response);
    proof {
        let x = choose|x: &mut E|
            #[trigger] call_ensures(E::decode_output_item, (x, protocol, item, response), r) && &*x
                == &*old(extension) && &*final(x) == &*extension;
        assert(answered(
            x,
            protocol,
            Asked::Item { item: item@, response: response@, answer: as_answer(r) },
        ));
    }
    r
}

/// Asks an extension which items stand for a provider call.
pub(crate) fn ask_replay<E: ProtocolExtension + ?Sized>(
    extension: &mut E,
    protocol: Protocol,
    call: &ProviderToolCall,
) -> (r: Result<Option<Vec<Json>>, Error>)
    ensures
        exists|x: &mut E|
            #[trigger] answered(x, protocol, Asked::Replay(call@, as_answer(r))) && &*x == &*old(
                extension
            ) && &*final(x) == &*final(extension),
{
    let r = call3(E::encode_provider_history, extension, protocol, call);
    proof {
        let x = choose|x: &mut E|
            #[trigger] call_ensures(E::encode_provider_history, (x, protocol, call), r) && &*x
                == &*old(extension) && &*final(x) == &*extension;
        assert(answered(x, protocol, Asked::Replay(call@, as_answer(r))));
    }
    r
}

/// Asks an extension what a response comes to.
pub(crate) fn ask_response<E: ProtocolExtension + ?Sized>(
    extension: &mut E,
    protocol: Protocol,
    raw: &Json,
    decoded: Result<TurnOutput, Error>,
) -> (r: Result<TurnOutput, Error>)
    ensures
        exists|x: &mut E|
            #[trigger] answered(
                x,
                protocol,
                Asked::Response { raw: raw@, decoded: seen(decoded), mapped: seen(r) },
            ) && &*x == &*old(extension) && &*final(x) == &*final(extension),
{
    let ghost given = decoded;
    let r = call4(E::decode_response, extension, protocol, raw, decoded);
    proof {
        let x = choose|x: &mut E|
            #[trigger] call_ensures(E::decode_response, (x, protocol, raw, given), r) && &*x
                == &*old(extension) && &*final(x) == &*extension;
        assert(answered(
            x,
            protocol,
            Asked::Response { raw: raw@, decoded: seen(given), mapped: seen(r) },
        ));
    }
    r
}

/// Whether an extension was handed a request's body to change, with this outcome. `body` stands
/// for the body before the call and after it.
pub open spec fn changed<E: ProtocolExtension + ?Sized>(
    x: &mut E,
    protocol: Protocol,
    request: ModelRequest,
    body: &mut Json,
    outcome: Result<(), ErrorView>,
) -> bool {
    exists|q: &ModelRequest, r: Result<(), Error>|
        #[trigger] call_ensures(E::encode_request, (x, protocol, q, body), r) && *q == request
            && checked(r) == outcome
}

/// Hands a request's body to an extension to change.
pub(crate) fn ask_change<E: ProtocolExtension + ?Sized>(
    extension: &mut E,
    protocol: Protocol,
    request: &ModelRequest,
    body: &mut Json,
) -> (r: Result<(), Error>)
    ensures
        exists|x: &mut E, b: &mut Json|
            #[trigger] changed(x, protocol, *request, b, checked(r)) && &*x == &*old(extension)
                && &*final(x) == &*final(extension) && *b == *old(body) && *final(b) == *final(body),
{
    let r = call4(E::encode_request, extension, protocol, request, body);
    proof {
        let (x, b) = choose|x: &mut E, b: &mut Json|
            #[trigger] call_ensures(E::encode_request, (x, protocol, request, b), r) && &*x
                == &*old(extension) && &*final(x) == &*extension && *b == *old(body) && *final(b)
                == *body;
        assert(changed(x, protocol, *request, b, checked(r)));
    }
    r
}

/// Whether an extension was handed a wire event to normalize, with this outcome. `event` stands
/// for the event before the call and after it.
pub open spec fn normalized<E: ProtocolExtension + ?Sized>(
    x: &mut E,
    protocol: Protocol,
    event: &mut SseEvent,
    outcome: Result<Seq<ModelDeltaView>, ErrorView>,
) -> bool {
    exists|r: Result<Vec<ModelDelta>, Error>|
        #[trigger] call_ensures(E::decode_event, (x, protocol, event), r) && seen(r) == outcome
}

/// Hands a wire event to an extension to normalize.
pub(crate) fn ask_event<E: ProtocolExtension + ?Sized>(
    extension: &mut E,
    protocol: Protocol,
    event: &mut SseEvent,
) -> (r: Result<Vec<ModelDelta>, Error>)
    ensures
        exists|x: &mut E, v: &mut SseEvent|
            #[trigger] normalized(x, protocol, v, seen(r)) && &*x == &*old(extension) && &*final(x)
                == &*final(extension) && *v == *old(event) && *final(v) == *final(event),
{
    let r = call3(E::decode_event, extension, protocol, event);
    proof {
        let (x, v) = choose|x: &mut E, v: &mut SseEvent|
            #[trigger] call_ensures(E::decode_event, (x, protocol, v), r) && &*x == &*old(extension)
                && &*final(x) == &*extension && *v == *old(event) && *final(v) == *event;
        assert(normalized(x, protocol, v, seen(r)));
    }
    r
}

/// Whether extensions were handed a body one after another, with these outcomes. `bodies` are
/// the body before the first of them and after each.
pub open spec fn rewritten<E: ProtocolExtension + ?Sized>(
    xs: Seq<&mut E>,
    bs: Seq<&mut Json>,
    before: Seq<Box<E>>,
    protocol: Protocol,
    request: ModelRequest,
    bodies: Seq<JsonView>,
    outcomes: Seq<Result<(), ErrorView>>,
) -> bool {
    &&& xs.len() == outcomes.len()
    &&& bs.len() == outcomes.len()
    &&& before.len() == outcomes.len()
    &&& bodies.len() == outcomes.len() + 1
    &&& forall|i: int|
        0 <= i < outcomes.len() ==> &*(#[trigger] xs[i]) == &*before[i] && bs[i]@ == bodies[i]
            && changed(xs[i], protocol, request, bs[i], outcomes[i])
}

/// Whether extensions were handed an event one after another, with these outcomes. `events` are
/// the event before the first of them and after each.
pub open spec fn normalized_by<E: ProtocolExtension + ?Sized>(
    xs: Seq<&mut E>,
    vs: Seq<&mut SseEvent>,
    before: Seq<Box<E>>,
    protocol: Protocol,
    events: Seq<SseEventView>,
    outcomes: Seq<Result<Seq<ModelDeltaView>, ErrorView>>,
) -> bool {
    &&& xs.len() == outcomes.len()
    &&& vs.len() == outcomes.len()
    &&& before.len() == outcomes.len()
    &&& events.len() == outcomes.len() + 1
    &&& forall|i: int|
        0 <= i < outcomes.len() ==> &*(#[trigger] xs[i]) == &*before[i] && vs[i]@ == events[i]
            && normalized(xs[i], protocol, vs[i], outcomes[i])
}

/// Whether of so many extensions all had their turn, or those up to the first that failed.
pub open spec fn in_turn<T>(outcomes: Seq<Result<T, ErrorView>>, count: nat) -> bool {
    &&& outcomes.len() <= count
    &&& forall|i: int| 0 <= i < outcomes.len() - 1 ==> (#[trigger] outcomes[i]) is Ok
    &&& outcomes.len() < count ==> outcomes.len() > 0 && outcomes.last() is Err
}

/// What changes in turn come to: the failure that ended them, if one did.
pub open spec fn last_outcome(outcomes: Seq<Result<(), ErrorView>>) -> Result<(), ErrorView> {
    if outcomes.len() > 0 && outcomes.last() is Err {
        outcomes.last()
    } else {
        Ok(())
    }
}

/// The deltas of all outcomes, one behind the other, or the first failure.
pub open spec fn gathered(outcomes: Seq<Result<Seq<ModelDeltaView>, ErrorView>>) -> Result<
    Seq<ModelDeltaView>,
    ErrorView,
>
    decreases outcomes.len(),
{
    if outcomes.len() == 0 {
        Ok(Seq::empty())
    } else {
        match (gathered(outcomes.drop_last()), outcomes.last()) {
            (Err(e), _) => Err(e),
            (Ok(_), Err(e)) => Err(e),
            (Ok(deltas), Ok(more)) => Ok(deltas + more),
        }
    }
}

/// Extensions composed in declaration order.
///
/// Of an item at most one may claim it. Errors of requests and events stop the hook at once.
/// A response is handed on from one extension to the next, errors too.
pub struct ExtensionChain {
    extensions: Vec<Box<dyn ProtocolExtension>>,
}

fn with_last<T>(items: Vec<T>, item: T) -> (r: Vec<T>)
    ensures
        r@ == items@.push(item),
        r@.len() == items@.len() + 1,
{
    let mut out = items;
    out.push(item);
    out
}

pub(crate) fn item_of<T>(items: &mut Vec<T>, i: usize) -> (r: &mut T)
    requires
        i < old(items)@.len(),
    ensures
        *r == old(items)@[i as int],
        final(items)@.len() == old(items)@.len(),
        final(items)@[i as int] == *final(r),
        forall|j: int|
            0 <= j < old(items)@.len() && j != i ==> #[trigger] final(items)@[j] == old(items)@[j],
{
    &mut items[i]
}

impl ExtensionChain {
    /// The extensions, in their order.
    pub closed spec fn links(self) -> Seq<Box<dyn ProtocolExtension>> {
        self.extensions@
    }

    pub fn new() -> (r: ExtensionChain)
        ensures
            r.links().len() == 0,
    {
        ExtensionChain { extensions: Vec::new() }
    }

    /// Appends an extension.
    pub fn push(self, extension: Box<dyn ProtocolExtension>) -> (r: ExtensionChain)
        ensures
            r.links() == self.links().push(extension),
    {
        ExtensionChain { extensions: with_last(self.extensions, extension) }
    }
}

/// Whether the answers were asked for one at a time, and none once the claim was decided: by a
/// failure, or by a second claim.
pub open spec fn asked_while_open<T>(answers: Seq<AnswerView<T>>) -> bool {
    forall|k: int| 0 <= k < answers.len() ==> !(owner(#[trigger] answers.take(k)) is Failed)
}

/// One more was asked while the claim was open.
pub(crate) proof fn asked_one_more<T>(answers: Seq<AnswerView<T>>)
    requires
        answers.len() > 0,
        asked_while_open(answers.drop_last()),
        !(owner(answers.drop_last()) is Failed),
    ensures
        asked_while_open(answers),
{
    let prior = answers.drop_last();
    assert forall|k: int| 0 <= k < answers.len() implies !(owner(
        #[trigger] answers.take(k),
    ) is Failed) by {
        if k < prior.len() {
            assert(answers.take(k) =~= prior.take(k));
        } else {
            assert(answers.take(k) =~= prior);
        }
    }
}

/// Whether a result is the one claim among answers: one answer per extension, up to the one
/// that decides, a failure or a second claim.
pub open spec fn owned_among<T: DeepView>(
    result: Result<Option<T>, Error>,
    answers: Seq<AnswerView<T::V>>,
    count: nat,
) -> bool {
    &&& owner(answers) == as_answer(result)
    &&& asked_while_open(answers)
    &&& answers.len() <= count
    &&& answers.len() < count ==> result is Err
}

/// Whether extensions that were not asked are as they were.
pub open spec fn untouched<E: ?Sized>(before: Seq<Box<E>>, after: Seq<Box<E>>, asked: nat) -> bool {
    &&& before.len() == after.len()
    &&& forall|i: int| asked <= i < before.len() ==> #[trigger] after[i] == before[i]
}

/// One extension of a chain was asked more.
proof fn chain_asked<E: ProtocolExtension + ?Sized>(
    first: Seq<Box<E>>,
    prior: Seq<Box<E>>,
    next: Seq<Box<E>>,
    n: int,
    protocol: Protocol,
    log: Seq<Asked>,
    asked: Asked,
)
    requires
        0 <= n < first.len(),
        log.len() == n,
        untouched(first, prior, n as nat),
        next.len() == first.len(),
        forall|i: int| 0 <= i < first.len() && i != n ==> #[trigger] next[i] == prior[i],
        exists|xs: Seq<&mut E>|
            #[trigger] polled(xs, first.take(n), protocol, log) && forall|i: int|
                0 <= i < xs.len() ==> &*final(#[trigger] xs[i]) == &*prior[i],
        exists|x: &mut E|
            #[trigger] answered(x, protocol, asked) && &*x == &*prior[n] && &*final(x) == &*next[n],
    ensures
        untouched(first, next, (n + 1) as nat),
        exists|xs: Seq<&mut E>|
            #[trigger] polled(xs, first.take(n + 1), protocol, log.push(asked)) && forall|i: int|
                0 <= i < xs.len() ==> &*final(#[trigger] xs[i]) == &*next[i],
{
    let xs = choose|xs: Seq<&mut E>|
        #[trigger] polled(xs, first.take(n), protocol, log) && forall|i: int|
            0 <= i < xs.len() ==> &*final(#[trigger] xs[i]) == &*prior[i];
    assert(polled(xs, first.take(n), protocol, log) && forall|i: int|
        0 <= i < xs.len() ==> &*final(#[trigger] xs[i]) == &*prior.take(n)[i]);
    polled_once_more(first.take(n), prior.take(n), protocol, log, first[n], next[n], asked);
    assert(first.take(n).push(first[n]) =~= first.take(n + 1));
    let ys = choose|ys: Seq<&mut E>|
        #[trigger] polled(ys, first.take(n).push(first[n]), protocol, log.push(asked)) && forall|
            i: int,
        |
            0 <= i < ys.len() ==> &*final(#[trigger] ys[i]) == &*prior.take(n).push(next[n])[i];
    assert(polled(ys, first.take(n + 1), protocol, log.push(asked)));
    assert forall|i: int| 0 <= i < ys.len() implies &*final(#[trigger] ys[i]) == &*next[i] by {
        assert(prior.take(n).push(next[n])[i] == next[i]);
    }
}

/// One extension of a chain more was handed the body.
proof fn chain_changed<E: ProtocolExtension + ?Sized>(
    first: Seq<Box<E>>,
    prior: Seq<Box<E>>,
    next: Seq<Box<E>>,
    n: int,
    protocol: Protocol,
    request: ModelRequest,
    stages: Seq<JsonView>,
    stage: JsonView,
    outcomes: Seq<Result<(), ErrorView>>,
    outcome: Result<(), ErrorView>,
)
    requires
        0 <= n < first.len(),
        outcomes.len() == n,
        stages.len() == n + 1,
        untouched(first, prior, n as nat),
        next.len() == first.len(),
        forall|i: int| 0 <= i < first.len() && i != n ==> #[trigger] next[i] == prior[i],
        exists|xs: Seq<&mut E>, ys: Seq<&mut Json>|
            #[trigger] rewritten(xs, ys, first.take(n), protocol, request, stages, outcomes)
                && forall|i: int|
                0 <= i < xs.len() ==> &*final(#[trigger] xs[i]) == &*prior[i] && final(ys[i])@
                    == stages[i + 1],
        exists|x: &mut E, y: &mut Json|
            #[trigger] changed(x, protocol, request, y, outcome) && &*x == &*prior[n]
                && &*final(x) == &*next[n] && y@ == stages.last() && final(y)@ == stage,
    ensures
        untouched(first, next, (n + 1) as nat),
        exists|xs: Seq<&mut E>, ys: Seq<&mut Json>|
            #[trigger] rewritten(
                xs,
                ys,
                first.take(n + 1),
                protocol,
                request,
                stages.push(stage),
                outcomes.push(outcome),
            ) && forall|i: int|
                0 <= i < xs.len() ==> &*final(#[trigger] xs[i]) == &*next[i] && final(ys[i])@
                    == stages.push(stage)[i + 1],
{
    let (xs, ys) = choose|xs: Seq<&mut E>, ys: Seq<&mut Json>|
        #[trigger] rewritten(xs, ys, first.take(n), protocol, request, stages, outcomes)
            && forall|i: int|
            0 <= i < xs.len() ==> &*final(#[trigger] xs[i]) == &*prior[i] && final(ys[i])@
                == stages[i + 1];
    let (x, y) = choose|x: &mut E, y: &mut Json|
        #[trigger] changed(x, protocol, request, y, outcome) && &*x == &*prior[n] && &*final(x)
            == &*next[n] && y@ == stages.last() && final(y)@ == stage;
    let xs1 = xs.push(x);
    let ys1 = ys.push(y);
    let stages1 = stages.push(stage);
    assert(rewritten(
        xs1,
        ys1,
        first.take(n + 1),
        protocol,
                request,
        stages1,
        outcomes.push(outcome),
    )) by {
        assert forall|i: int| 0 <= i < xs1.len() implies &*(#[trigger] xs1[i]) == &*first.take(
            n + 1,
        )[i] && ys1[i]@ == stages1[i] && changed(
            xs1[i],
            protocol, request,
            ys1[i],
            outcomes.push(outcome)[i],
        ) by {
            if i < n {
                assert(xs1[i] == xs[i]);
            } else {
                assert(prior[n] == first[n]);
            }
        }
    }
    assert forall|i: int| 0 <= i < xs1.len() implies &*final(#[trigger] xs1[i]) == &*next[i]
        && final(ys1[i])@ == stages1[i + 1] by {
        if i < n {
            assert(xs1[i] == xs[i]);
            assert(next[i] == prior[i]);
        }
    }
}

/// One extension of a chain more was handed the event.
proof fn chain_normalized<E: ProtocolExtension + ?Sized>(
    first: Seq<Box<E>>,
    prior: Seq<Box<E>>,
    next: Seq<Box<E>>,
    n: int,
    protocol: Protocol,
    stages: Seq<SseEventView>,
    stage: SseEventView,
    outcomes: Seq<Result<Seq<ModelDeltaView>, ErrorView>>,
    outcome: Result<Seq<ModelDeltaView>, ErrorView>,
)
    requires
        0 <= n < first.len(),
        outcomes.len() == n,
        stages.len() == n + 1,
        untouched(first, prior, n as nat),
        next.len() == first.len(),
        forall|i: int| 0 <= i < first.len() && i != n ==> #[trigger] next[i] == prior[i],
        exists|xs: Seq<&mut E>, ys: Seq<&mut SseEvent>|
            #[trigger] normalized_by(xs, ys, first.take(n), protocol, stages, outcomes)
                && forall|i: int|
                0 <= i < xs.len() ==> &*final(#[trigger] xs[i]) == &*prior[i] && final(ys[i])@
                    == stages[i + 1],
        exists|x: &mut E, y: &mut SseEvent|
            #[trigger] normalized(x, protocol, y, outcome) && &*x == &*prior[n]
                && &*final(x) == &*next[n] && y@ == stages.last() && final(y)@ == stage,
    ensures
        untouched(first, next, (n + 1) as nat),
        exists|xs: Seq<&mut E>, ys: Seq<&mut SseEvent>|
            #[trigger] normalized_by(
                xs,
                ys,
                first.take(n + 1),
                protocol,
                stages.push(stage),
                outcomes.push(outcome),
            ) && forall|i: int|
                0 <= i < xs.len() ==> &*final(#[trigger] xs[i]) == &*next[i] && final(ys[i])@
                    == stages.push(stage)[i + 1],
{
    let (xs, ys) = choose|xs: Seq<&mut E>, ys: Seq<&mut SseEvent>|
        #[trigger] normalized_by(xs, ys, first.take(n), protocol, stages, outcomes)
            && forall|i: int|
            0 <= i < xs.len() ==> &*final(#[trigger] xs[i]) == &*prior[i] && final(ys[i])@
                == stages[i + 1];
    let (x, y) = choose|x: &mut E, y: &mut SseEvent|
        #[trigger] normalized(x, protocol, y, outcome) && &*x == &*prior[n] && &*final(x)
            == &*next[n] && y@ == stages.last() && final(y)@ == stage;
    let xs1 = xs.push(x);
    let ys1 = ys.push(y);
    let stages1 = stages.push(stage);
    assert(normalized_by(
        xs1,
        ys1,
        first.take(n + 1),
        protocol,
        stages1,
        outcomes.push(outcome),
    )) by {
        assert forall|i: int| 0 <= i < xs1.len() implies &*(#[trigger] xs1[i]) == &*first.take(
            n + 1,
        )[i] && ys1[i]@ == stages1[i] && normalized(
            xs1[i],
            protocol,
            ys1[i],
            outcomes.push(outcome)[i],
        ) by {
            if i < n {
                assert(xs1[i] == xs[i]);
            } else {
                assert(prior[n] == first[n]);
            }
        }
    }
    assert forall|i: int| 0 <= i < xs1.len() implies &*final(#[trigger] xs1[i]) == &*next[i]
        && final(ys1[i])@ == stages1[i + 1] by {
        if i < n {
            assert(xs1[i] == xs[i]);
            assert(next[i] == prior[i]);
        }
    }
}

pub(crate) fn settle<T: DeepView>(found: Answer<T>) -> (r: Result<Option<T>, Error>)
    ensures
        as_answer(r) == found.deep_view(),
{
    match found {
        Answer::Claimed(value) => Ok(Some(value)),
        Answer::Unclaimed => Ok(None),
        Answer::Failed(error) => Err(error),
    }
}

pub(crate) fn failed<T>(found: &Answer<T>) -> (r: bool)
    ensures
        r == (found is Failed),
{
    match found {
        Answer::Failed(_) => true,
        _ => false,
    }
}

/// The questions of one declaration, one per answer.
pub open spec fn declarations(
    tool: ProviderToolSpecView,
    answers: Seq<AnswerView<JsonView>>,
) -> Seq<Asked> {
    answers.map_values(|answer: AnswerView<JsonView>| Asked::Declaration(tool, answer))
}

/// The questions of one selection, one per answer.
pub open spec fn choices(tool: ProviderToolSpecView, answers: Seq<AnswerView<JsonView>>) -> Seq<
    Asked,
> {
    answers.map_values(|answer: AnswerView<JsonView>| Asked::Choice(tool, answer))
}

/// The questions of one item, one per answer.
pub open spec fn items(
    item: JsonView,
    response: JsonView,
    answers: Seq<AnswerView<Seq<OutputView>>>,
) -> Seq<Asked> {
    answers.map_values(
        |answer: AnswerView<Seq<OutputView>>| Asked::Item { item, response, answer },
    )
}

/// The questions of one response: each is about what the one before it came to.
pub open spec fn responses(raw: JsonView, results: Seq<Result<TurnOutputView, ErrorView>>) -> Seq<
    Asked,
> {
    Seq::new(
        (results.len() - 1) as nat,
        |i: int| Asked::Response { raw, decoded: results[i], mapped: results[i + 1] },
    )
}

/// The questions of one provider call, one per answer.
pub open spec fn replays(
    call: ProviderToolCallView,
    answers: Seq<AnswerView<Seq<JsonView>>>,
) -> Seq<Asked> {
    answers.map_values(|answer: AnswerView<Seq<JsonView>>| Asked::Replay(call, answer))
}

impl ProtocolExtension for ExtensionChain {
    fn encode_provider_tool(&mut self, protocol: Protocol, tool: &ProviderToolSpec) -> (r: Result<
        Option<Json>,
        Error,
    >)
        ensures
            exists|answers: Seq<AnswerView<JsonView>>, xs: Seq<&mut dyn ProtocolExtension>|
                {
                    &&& #[trigger] polled(
                        xs,
                        old(self).links().take(answers.len() as int),
                        protocol,
                        declarations(tool@, answers),
                    )
                    &&& owned_among(r, answers, old(self).links().len())
                    &&& untouched(old(self).links(), final(self).links(), answers.len())
                    &&& forall|i: int|
                        0 <= i < xs.len() ==> &*final(#[trigger] xs[i]) == &*final(
                            self
                        ).links()[i]
                },
    {
        let ghost mut answers: Seq<AnswerView<JsonView>> = Seq::empty();
        let mut found: Answer<Json> = Answer::Unclaimed;
        let mut i: usize = 0;
        proof {
            nobody_polled::<dyn ProtocolExtension>(protocol);
            assert(self.links().take(0) =~= Seq::empty());
            assert(declarations(tool@, answers) =~= Seq::empty());
            assert(polled(
                Seq::<&mut dyn ProtocolExtension>::empty(),
                old(self).links().take(0),
                protocol,
                declarations(tool@, answers),
            ));
        }
        while i < self.extensions.len() && !failed(&found)
            invariant
                i <= self.extensions@.len(),
                old(self).links().len() == self.extensions@.len(),
                answers.len() == i,
                untouched(old(self).links(), self.links(), i as nat),
                exists|xs: Seq<&mut dyn ProtocolExtension>|
                    #[trigger] polled(
                        xs,
                        old(self).links().take(i as int),
                        protocol,
                        declarations(tool@, answers),
                    ) && forall|j: int|
                        0 <= j < xs.len() ==> &*final(#[trigger] xs[j]) == &*self.links()[j],
                owner(answers) == found.deep_view(),
                asked_while_open(answers),
            decreases self.extensions@.len() - i,
        {
            let ghost prior = self.links();
            let result = ask_declaration(&mut **item_of(&mut self.extensions, i), protocol, tool);
            let next = answer(result);
            proof {
                let log = declarations(tool@, answers);
                assert(prior[i as int] == old(self).links()[i as int]);
                chain_asked(
                    old(self).links(),
                    prior,
                    self.links(),
                    i as int,
                    protocol,
                    log,
                    Asked::Declaration(tool@, next.deep_view()),
                );
                assert(answers.push(next.deep_view()).drop_last() =~= answers);
                answers = answers.push(next.deep_view());
                asked_one_more(answers);
                assert(declarations(tool@, answers) =~= log.push(
                    Asked::Declaration(tool@, next.deep_view()),
                ));
            }
            found = join_answers(found, next);
            i += 1;
        }
        let r = settle(found);
        assert(owned_among(r, answers, old(self).links().len()));
        r
    }

    fn encode_provider_choice(&mut self, protocol: Protocol, tool: &ProviderToolSpec) -> (r: Result<
        Option<Json>,
        Error,
    >)
        ensures
            exists|answers: Seq<AnswerView<JsonView>>, xs: Seq<&mut dyn ProtocolExtension>|
                {
                    &&& #[trigger] polled(
                        xs,
                        old(self).links().take(answers.len() as int),
                        protocol,
                        choices(tool@, answers),
                    )
                    &&& owned_among(r, answers, old(self).links().len())
                    &&& untouched(old(self).links(), final(self).links(), answers.len())
                    &&& forall|i: int|
                        0 <= i < xs.len() ==> &*final(#[trigger] xs[i]) == &*final(
                            self
                        ).links()[i]
                },
    {
        let ghost mut answers: Seq<AnswerView<JsonView>> = Seq::empty();
        let mut found: Answer<Json> = Answer::Unclaimed;
        let mut i: usize = 0;
        proof {
            nobody_polled::<dyn ProtocolExtension>(protocol);
            assert(self.links().take(0) =~= Seq::empty());
            assert(choices(tool@, answers) =~= Seq::empty());
            assert(polled(
                Seq::<&mut dyn ProtocolExtension>::empty(),
                old(self).links().take(0),
                protocol,
                choices(tool@, answers),
            ));
        }
        while i < self.extensions.len() && !failed(&found)
            invariant
                i <= self.extensions@.len(),
                old(self).links().len() == self.extensions@.len(),
                answers.len() == i,
                untouched(old(self).links(), self.links(), i as nat),
                exists|xs: Seq<&mut dyn ProtocolExtension>|
                    #[trigger] polled(
                        xs,
                        old(self).links().take(i as int),
                        protocol,
                        choices(tool@, answers),
                    ) && forall|j: int|
                        0 <= j < xs.len() ==> &*final(#[trigger] xs[j]) == &*self.links()[j],
                owner(answers) == found.deep_view(),
                asked_while_open(answers),
            decreases self.extensions@.len() - i,
        {
            let ghost prior = self.links();
            let result = ask_choice(&mut **item_of(&mut self.extensions, i), protocol, tool);
            let next = answer(result);
            proof {
                let log = choices(tool@, answers);
                assert(prior[i as int] == old(self).links()[i as int]);
                chain_asked(
                    old(self).links(),
                    prior,
                    self.links(),
                    i as int,
                    protocol,
                    log,
                    Asked::Choice(tool@, next.deep_view()),
                );
                assert(answers.push(next.deep_view()).drop_last() =~= answers);
                answers = answers.push(next.deep_view());
                asked_one_more(answers);
                assert(choices(tool@, answers) =~= log.push(Asked::Choice(tool@, next.deep_view())));
            }
            found = join_answers(found, next);
            i += 1;
        }
        let r = settle(found);
        assert(owned_among(r, answers, old(self).links().len()));
        r
    }

    fn decode_output_item(&mut self, protocol: Protocol, item: &Json, response: &Json) -> (r: Result<
        Option<Vec<Output>>,
        Error,
    >)
        ensures
            exists|answers: Seq<AnswerView<Seq<OutputView>>>, xs: Seq<&mut dyn ProtocolExtension>|
                {
                    &&& #[trigger] polled(
                        xs,
                        old(self).links().take(answers.len() as int),
                        protocol,
                        items(item@, response@, answers),
                    )
                    &&& owned_among(r, answers, old(self).links().len())
                    &&& untouched(old(self).links(), final(self).links(), answers.len())
                    &&& forall|i: int|
                        0 <= i < xs.len() ==> &*final(#[trigger] xs[i]) == &*final(
                            self
                        ).links()[i]
                },
    {
        let ghost mut answers: Seq<AnswerView<Seq<OutputView>>> = Seq::empty();
        let mut found: Answer<Vec<Output>> = Answer::Unclaimed;
        let mut i: usize = 0;
        proof {
            nobody_polled::<dyn ProtocolExtension>(protocol);
            assert(self.links().take(0) =~= Seq::empty());
            assert(items(item@, response@, answers) =~= Seq::empty());
            assert(polled(
                Seq::<&mut dyn ProtocolExtension>::empty(),
                old(self).links().take(0),
                protocol,
                items(item@, response@, answers),
            ));
        }
        while i < self.extensions.len() && !failed(&found)
            invariant
                i <= self.extensions@.len(),
                old(self).links().len() == self.extensions@.len(),
                answers.len() == i,
                untouched(old(self).links(), self.links(), i as nat),
                exists|xs: Seq<&mut dyn ProtocolExtension>|
                    #[trigger] polled(
                        xs,
                        old(self).links().take(i as int),
                        protocol,
                        items(item@, response@, answers),
                    ) && forall|j: int|
                        0 <= j < xs.len() ==> &*final(#[trigger] xs[j]) == &*self.links()[j],
                owner(answers) == found.deep_view(),
                asked_while_open(answers),
            decreases self.extensions@.len() - i,
        {
            let ghost prior = self.links();
            let result = ask_item(&mut **item_of(&mut self.extensions, i), protocol, item, response);
            let next = answer(result);
            proof {
                let log = items(item@, response@, answers);
                assert(prior[i as int] == old(self).links()[i as int]);
                chain_asked(
                    old(self).links(),
                    prior,
                    self.links(),
                    i as int,
                    protocol,
                    log,
                    Asked::Item { item: item@, response: response@, answer: next.deep_view() },
                );
                assert(answers.push(next.deep_view()).drop_last() =~= answers);
                answers = answers.push(next.deep_view());
                asked_one_more(answers);
                assert(items(item@, response@, answers) =~= log.push(
                    Asked::Item {
                        item: item@,
                        response: response@,
                        answer: next.deep_view(),
                    },
                ));
            }
            found = join_answers(found, next);
            i += 1;
        }
        let r = settle(found);
        assert(owned_among(r, answers, old(self).links().len()));
        r
    }

    fn encode_provider_history(&mut self, protocol: Protocol, call: &ProviderToolCall) -> (r: Result<
        Option<Vec<Json>>,
        Error,
    >)
        ensures
            exists|answers: Seq<AnswerView<Seq<JsonView>>>, xs: Seq<&mut dyn ProtocolExtension>|
                {
                    &&& #[trigger] polled(
                        xs,
                        old(self).links().take(answers.len() as int),
                        protocol,
                        replays(call@, answers),
                    )
                    &&& owned_among(r, answers, old(self).links().len())
                    &&& untouched(old(self).links(), final(self).links(), answers.len())
                    &&& forall|i: int|
                        0 <= i < xs.len() ==> &*final(#[trigger] xs[i]) == &*final(
                            self
                        ).links()[i]
                },
    {
        let ghost mut answers: Seq<AnswerView<Seq<JsonView>>> = Seq::empty();
        let mut found: Answer<Vec<Json>> = Answer::Unclaimed;
        let mut i: usize = 0;
        proof {
            nobody_polled::<dyn ProtocolExtension>(protocol);
            assert(self.links().take(0) =~= Seq::empty());
            assert(replays(call@, answers) =~= Seq::empty());
            assert(polled(
                Seq::<&mut dyn ProtocolExtension>::empty(),
                old(self).links().take(0),
                protocol,
                replays(call@, answers),
            ));
        }
        while i < self.extensions.len() && !failed(&found)
            invariant
                i <= self.extensions@.len(),
                old(self).links().len() == self.extensions@.len(),
                answers.len() == i,
                untouched(old(self).links(), self.links(), i as nat),
                exists|xs: Seq<&mut dyn ProtocolExtension>|
                    #[trigger] polled(
                        xs,
                        old(self).links().take(i as int),
                        protocol,
                        replays(call@, answers),
                    ) && forall|j: int|
                        0 <= j < xs.len() ==> &*final(#[trigger] xs[j]) == &*self.links()[j],
                owner(answers) == found.deep_view(),
                asked_while_open(answers),
            decreases self.extensions@.len() - i,
        {
            let ghost prior = self.links();
            let result = ask_replay(&mut **item_of(&mut self.extensions, i), protocol, call);
            let next = answer(result);
            proof {
                let log = replays(call@, answers);
                assert(prior[i as int] == old(self).links()[i as int]);
                chain_asked(
                    old(self).links(),
                    prior,
                    self.links(),
                    i as int,
                    protocol,
                    log,
                    Asked::Replay(call@, next.deep_view()),
                );
                assert(answers.push(next.deep_view()).drop_last() =~= answers);
                answers = answers.push(next.deep_view());
                asked_one_more(answers);
                assert(replays(call@, answers) =~= log.push(Asked::Replay(call@, next.deep_view())));
            }
            found = join_answers(found, next);
            i += 1;
        }
        let r = settle(found);
        assert(owned_among(r, answers, old(self).links().len()));
        r
    }

    fn encode_request(&mut self, protocol: Protocol, request: &ModelRequest, body: &mut Json) -> (r:
        Result<(), Error>)
        ensures
            exists|
                xs: Seq<&mut dyn ProtocolExtension>,
                bs: Seq<&mut Json>,
                bodies: Seq<JsonView>,
                outcomes: Seq<Result<(), ErrorView>>,
            |
                {
                    &&& #[trigger] rewritten(
                        xs,
                        bs,
                        old(self).links().take(outcomes.len() as int),
                        protocol,
                        *request,
                        bodies,
                        outcomes,
                    )
                    &&& in_turn(outcomes, old(self).links().len())
                    &&& checked(r) == last_outcome(outcomes)
                    &&& bodies[0] == old(body)@
                    &&& bodies.last() == final(body)@
                    &&& untouched(old(self).links(), final(self).links(), outcomes.len())
                    &&& forall|i: int|
                        0 <= i < xs.len() ==> &*final(#[trigger] xs[i]) == &*final(
                            self
                        ).links()[i] && final(bs[i])@ == bodies[i + 1]
                },
    {
        let ghost mut bodies: Seq<JsonView> = seq![body@];
        let ghost mut outcomes: Seq<Result<(), ErrorView>> = Seq::empty();
        let mut i: usize = 0;
        assert(self.links().take(0) =~= Seq::empty());
        assert(rewritten(
            Seq::<&mut dyn ProtocolExtension>::empty(),
            Seq::<&mut Json>::empty(),
            old(self).links().take(0),
            protocol,
            *request,
            bodies,
            outcomes,
        ));
        while i < self.extensions.len()
            invariant
                i <= self.extensions@.len(),
                old(self).links().len() == self.extensions@.len(),
                outcomes.len() == i,
                forall|j: int| 0 <= j < i ==> (#[trigger] outcomes[j]) is Ok,
                bodies.len() == i + 1,
                bodies[0] == old(body)@,
                bodies.last() == body@,
                untouched(old(self).links(), self.links(), i as nat),
                exists|xs: Seq<&mut dyn ProtocolExtension>, bs: Seq<&mut Json>|
                    #[trigger] rewritten(
                        xs,
                        bs,
                        old(self).links().take(i as int),
                        protocol,
                        *request,
                        bodies,
                        outcomes,
                    ) && forall|j: int|
                        0 <= j < xs.len() ==> &*final(#[trigger] xs[j]) == &*self.links()[j]
                            && final(bs[j])@ == bodies[j + 1],
            decreases self.extensions@.len() - i,
        {
            let ghost prior = self.links();
            let result = ask_change(&mut **item_of(&mut self.extensions, i), protocol, request, body);
            proof {
                assert(prior[i as int] == old(self).links()[i as int]);
                chain_changed(
                    old(self).links(),
                    prior,
                    self.links(),
                    i as int,
                    protocol,
                    *request,
                    bodies,
                    body@,
                    outcomes,
                    checked(result),
                );
                bodies = bodies.push(body@);
                outcomes = outcomes.push(checked(result));
            }
            result?;
            i += 1;
        }
        Ok(())
    }

    fn decode_event(&mut self, protocol: Protocol, event: &mut SseEvent) -> (r: Result<
        Vec<ModelDelta>,
        Error,
    >)
        ensures
            exists|
                xs: Seq<&mut dyn ProtocolExtension>,
                vs: Seq<&mut SseEvent>,
                events: Seq<SseEventView>,
                outcomes: Seq<Result<Seq<ModelDeltaView>, ErrorView>>,
            |
                {
                    &&& #[trigger] normalized_by(
                        xs,
                        vs,
                        old(self).links().take(outcomes.len() as int),
                        protocol,
                        events,
                        outcomes,
                    )
                    &&& in_turn(outcomes, old(self).links().len())
                    &&& seen(r) == gathered(outcomes)
                    &&& events[0] == old(event)@
                    &&& events.last() == final(event)@
                    &&& untouched(old(self).links(), final(self).links(), outcomes.len())
                    &&& forall|i: int|
                        0 <= i < xs.len() ==> &*final(#[trigger] xs[i]) == &*final(
                            self
                        ).links()[i] && final(vs[i])@ == events[i + 1]
                },
    {
        let mut deltas: Vec<ModelDelta> = Vec::new();
        let ghost mut events: Seq<SseEventView> = seq![event@];
        let ghost mut outcomes: Seq<Result<Seq<ModelDeltaView>, ErrorView>> = Seq::empty();
        let mut i: usize = 0;
        assert(deltas.deep_view() =~= Seq::empty());
        assert(self.links().take(0) =~= Seq::empty());
        assert(normalized_by(
            Seq::<&mut dyn ProtocolExtension>::empty(),
            Seq::<&mut SseEvent>::empty(),
            old(self).links().take(0),
            protocol,
            events,
            outcomes,
        ));
        while i < self.extensions.len()
            invariant
                i <= self.extensions@.len(),
                old(self).links().len() == self.extensions@.len(),
                outcomes.len() == i,
                forall|j: int| 0 <= j < i ==> (#[trigger] outcomes[j]) is Ok,
                gathered(outcomes) == Ok::<Seq<ModelDeltaView>, ErrorView>(deltas.deep_view()),
                events.len() == i + 1,
                events[0] == old(event)@,
                events.last() == event@,
                untouched(old(self).links(), self.links(), i as nat),
                exists|xs: Seq<&mut dyn ProtocolExtension>, vs: Seq<&mut SseEvent>|
                    #[trigger] normalized_by(
                        xs,
                        vs,
                        old(self).links().take(i as int),
                        protocol,
                        events,
                        outcomes,
                    ) && forall|j: int|
                        0 <= j < xs.len() ==> &*final(#[trigger] xs[j]) == &*self.links()[j]
                            && final(vs[j])@ == events[j + 1],
            decreases self.extensions@.len() - i,
        {
            let ghost prior = self.links();
            let result = ask_event(&mut **item_of(&mut self.extensions, i), protocol, event);
            proof {
                assert(prior[i as int] == old(self).links()[i as int]);
                chain_normalized(
                    old(self).links(),
                    prior,
                    self.links(),
                    i as int,
                    protocol,
                    events,
                    event@,
                    outcomes,
                    seen(result),
                );
                assert(outcomes.push(seen(result)).drop_last() =~= outcomes);
                events = events.push(event@);
                outcomes = outcomes.push(seen(result));
                let (xs, vs) = choose|
                    xs: Seq<&mut dyn ProtocolExtension>,
                    vs: Seq<&mut SseEvent>,
                |
                    #[trigger] normalized_by(
                        xs,
                        vs,
                        old(self).links().take(i + 1),
                        protocol,
                        events,
                        outcomes,
                    ) && forall|j: int|
                        0 <= j < xs.len() ==> &*final(#[trigger] xs[j]) == &*self.links()[j]
                            && final(vs[j])@ == events[j + 1];
                assert(normalized_by(
                    xs,
                    vs,
                    old(self).links().take(i + 1),
                    protocol,
                    events,
                    outcomes,
                ));
            }
            let mut more = result?;
            let ghost first = deltas.deep_view();
            let ghost second = more.deep_view();
            deltas.append(&mut more);
            assert(deltas.deep_view() =~= first + second);
            i += 1;
        }
        Ok(deltas)
    }

    fn decode_response(
        &mut self,
        protocol: Protocol,
        raw: &Json,
        decoded: Result<TurnOutput, Error>,
    ) -> (r: Result<TurnOutput, Error>)
        ensures
            exists|
                results: Seq<Result<TurnOutputView, ErrorView>>,
                xs: Seq<&mut dyn ProtocolExtension>,
            |
                {
                    &&& #[trigger] polled(
                        xs,
                        old(self).links(),
                        protocol,
                        responses(raw@, results),
                    )
                    &&& results.len() == old(self).links().len() + 1
                    &&& results[0] == seen(decoded)
                    &&& results.last() == seen(r)
                    &&& final(self).links().len() == old(self).links().len()
                    &&& forall|i: int|
                        0 <= i < xs.len() ==> &*final(#[trigger] xs[i]) == &*final(
                            self
                        ).links()[i]
                },
    {
        let ghost mut results: Seq<Result<TurnOutputView, ErrorView>> = seq![seen(decoded)];
        let mut result = decoded;
        let mut i: usize = 0;
        proof {
            nobody_polled::<dyn ProtocolExtension>(protocol);
            assert(self.links().take(0) =~= Seq::empty());
            assert(responses(raw@, results) =~= Seq::empty());
            assert(polled(
                Seq::<&mut dyn ProtocolExtension>::empty(),
                old(self).links().take(0),
                protocol,
                responses(raw@, results),
            ));
        }
        while i < self.extensions.len()
            invariant
                i <= self.extensions@.len(),
                old(self).links().len() == self.extensions@.len(),
                results.len() == i + 1,
                results[0] == seen(decoded),
                results.last() == seen(result),
                untouched(old(self).links(), self.links(), i as nat),
                exists|xs: Seq<&mut dyn ProtocolExtension>|
                    #[trigger] polled(
                        xs,
                        old(self).links().take(i as int),
                        protocol,
                        responses(raw@, results),
                    ) && forall|j: int|
                        0 <= j < xs.len() ==> &*final(#[trigger] xs[j]) == &*self.links()[j],
            decreases self.extensions@.len() - i,
        {
            let ghost prior = self.links();
            let ghost given = seen(result);
            result = ask_response(&mut **item_of(&mut self.extensions, i), protocol, raw, result);
            proof {
                let log = responses(raw@, results);
                let asked = Asked::Response { raw: raw@, decoded: given, mapped: seen(result) };
                assert(prior[i as int] == old(self).links()[i as int]);
                chain_asked(
                    old(self).links(),
                    prior,
                    self.links(),
                    i as int,
                    protocol,
                    log,
                    asked,
                );
                results = results.push(seen(result));
                assert(responses(raw@, results) =~= log.push(asked));
            }
            i += 1;
        }
        assert(old(self).links().take(i as int) =~= old(self).links());
        result
    }
}

/// The one claim comes out, where no other answer claims or fails; without a claim none does.
pub proof fn a_lone_claim_comes_out<T>(answers: Seq<AnswerView<T>>, i: int)
    requires
        0 <= i <= answers.len(),
        forall|j: int|
            0 <= j < answers.len() && j != i ==> #[trigger] answers[j] == AnswerView::<
                T,
            >::Unclaimed,
    ensures
        owner(answers) == (if i < answers.len() {
            answers[i]
        } else {
            AnswerView::Unclaimed
        }),
    decreases answers.len(),
{
    if answers.len() > 0 {
        let front = answers.drop_last();
        let k = if i < front.len() {
            i
        } else {
            front.len() as int
        };
        assert forall|j: int| 0 <= j < front.len() && j != k implies #[trigger] front[j]
            == AnswerView::<T>::Unclaimed by {
            assert(answers[j] == AnswerView::<T>::Unclaimed);
        }
        a_lone_claim_comes_out(front, k);
        if i < answers.len() - 1 {
            assert(answers[answers.len() - 1] == AnswerView::<T>::Unclaimed);
        } else if i == answers.len() {
            assert(answers[answers.len() - 1] == AnswerView::<T>::Unclaimed);
        }
    }
}

/// The deltas of extensions are gathered in their order: those of one more stand behind all
/// before them, and the first failure is what comes out.
pub proof fn deltas_are_gathered_in_order(
    outcomes: Seq<Result<Seq<ModelDeltaView>, ErrorView>>,
    last: Result<Seq<ModelDeltaView>, ErrorView>,
)
    ensures
        gathered(Seq::empty()) == Ok::<Seq<ModelDeltaView>, ErrorView>(Seq::empty()),
        match (gathered(outcomes), last) {
            (Ok(deltas), Ok(more)) => gathered(outcomes.push(last)) matches Ok(all) && all.len()
                == deltas.len() + more.len() && all.take(deltas.len() as int) == deltas
                && all.skip(deltas.len() as int) == more,
            (Ok(_), Err(e)) => gathered(outcomes.push(last)) == Err::<
                Seq<ModelDeltaView>,
                ErrorView,
            >(e),
            (Err(e), _) => gathered(outcomes.push(last)) == Err::<Seq<ModelDeltaView>, ErrorView>(
                e,
            ),
        },
{
    let all = outcomes.push(last);
    assert(all.drop_last() =~= outcomes);
    if let (Ok(deltas), Ok(more)) = (gathered(outcomes), last) {
        assert((deltas + more).take(deltas.len() as int) =~= deltas);
        assert((deltas + more).skip(deltas.len() as int) =~= more);
    }
}

} // verus!
