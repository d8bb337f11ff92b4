//! Models composed of models: retries, and fallback to the next of several.
use crate::capabilities::{join_is_union, Capability, CapabilitySet, CapabilitySetView};
use crate::command::{
    ModelBinding, ModelBindingView, RecoveryRef, RecoveryRefView, SessionEventBody,
    SessionEventBodyView,
};
use crate::error::{invalid, seen, Error, ErrorView, FailureView};
use crate::json::{set_get, Json, JsonView};
use crate::text::same;
use vstd::prelude::*;

verus! {

// ---------------------------------------------------------------------------------------
// Retries
// ---------------------------------------------------------------------------------------
/// Whether a failure is worth another try: the model said so, and nothing it did is visible.
pub open spec fn transient(error: ErrorView, visible: bool) -> bool {
    error matches ErrorView::Model(failure) && failure.retryable && !visible
}

pub fn is_transient(error: &Error, visible: bool) -> (r: bool)
    ensures
        r == transient(error@, visible),
{
    match error {
        Error::Model(failure) => failure.retryable && !visible,
        _ => false,
    }
}

/// Whether a session is opened again after an attempt failed, counting attempts from zero.
/// One that resumes is not: what it resumed may have moved on.
pub open spec fn retried(
    error: ErrorView,
    visible: bool,
    resumes: bool,
    attempt: nat,
    max_attempts: nat,
) -> bool {
    transient(error, visible) && !resumes && attempt + 1 < max_attempts
}

pub fn retries(error: &Error, visible: bool, resumes: bool, attempt: usize, max_attempts: usize) -> (r:
    bool)
    ensures
        r == retried(error@, visible, resumes, attempt as nat, max_attempts as nat),
{
    is_transient(error, visible) && !resumes && max_attempts > 0 && attempt < max_attempts - 1
}

/// No more attempts are made than the policy allows, and none after a lasting failure.
pub proof fn attempts_are_bounded(
    error: ErrorView,
    visible: bool,
    resumes: bool,
    attempt: nat,
    max_attempts: nat,
)
    ensures
        attempt + 1 >= max_attempts ==> !retried(error, visible, resumes, attempt, max_attempts),
        !(error is Model) ==> !retried(error, visible, resumes, attempt, max_attempts),
        visible ==> !retried(error, visible, resumes, attempt, max_attempts),
{
}

// ---------------------------------------------------------------------------------------
// Candidates
// ---------------------------------------------------------------------------------------
/// A model among several. Its identity stays the same where the order of the models changes.
#[derive(Debug, PartialEq, Eq)]
pub struct FallbackCandidate {
    pub id: String,
    pub capabilities: CapabilitySet,
}

pub struct FallbackCandidateView {
    pub id: Seq<char>,
    pub capabilities: CapabilitySetView,
}

impl View for FallbackCandidate {
    type V = FallbackCandidateView;

    open spec fn view(&self) -> FallbackCandidateView {
        FallbackCandidateView { id: self.id@, capabilities: self.capabilities@ }
    }
}

impl DeepView for FallbackCandidate {
    type V = FallbackCandidateView;

    open spec fn deep_view(&self) -> FallbackCandidateView {
        self@
    }
}

impl FallbackCandidate {
    pub fn new(id: String, capabilities: CapabilitySet) -> (r: FallbackCandidate)
        ensures
            r@ == (FallbackCandidateView { id: id@, capabilities: capabilities@ }),
    {
        FallbackCandidate { id, capabilities }
    }
}

pub open spec fn unique_ids(models: Seq<FallbackCandidateView>) -> bool {
    &&& forall|i: int| 0 <= i < models.len() ==> (#[trigger] models[i]).id.len() > 0
    &&& forall|i: int, j: int|
        0 <= i < j < models.len() ==> (#[trigger] models[i]).id != (#[trigger] models[j]).id
}

/// What any of the models supports.
pub open spec fn all_capabilities(models: Seq<FallbackCandidateView>) -> CapabilitySetView
    decreases models.len(),
{
    if models.len() <= 1 {
        models[0].capabilities
    } else {
        all_capabilities(models.drop_last()).joined(models.last().capabilities)
    }
}

pub open spec fn candidate_position(models: Seq<FallbackCandidateView>, id: Seq<char>) -> Option<int> {
    if exists|i: int| 0 <= i < models.len() && (#[trigger] models[i]).id == id {
        Some(choose|i: int| 0 <= i < models.len() && (#[trigger] models[i]).id == id)
    } else {
        None
    }
}

/// Several models, tried in order. Once a session is open, it stays with its model.
pub struct FallbackModel {
    models: Vec<FallbackCandidate>,
    capabilities: CapabilitySet,
}

pub struct FallbackModelView {
    pub models: Seq<FallbackCandidateView>,
    pub capabilities: CapabilitySetView,
}

impl View for FallbackModel {
    type V = FallbackModelView;

    closed spec fn view(&self) -> FallbackModelView {
        FallbackModelView {
            models: self.models.deep_view(),
            capabilities: self.capabilities@,
        }
    }
}

fn has_unique_ids(models: &Vec<FallbackCandidate>) -> (r: bool)
    ensures
        r == unique_ids(models.deep_view()),
{
    let ghost all = models.deep_view();
    let mut i: usize = 0;
    while i < models.len()
        invariant
            i <= models.len(),
            all == models.deep_view(),
            forall|a: int| 0 <= a < i ==> (#[trigger] all[a]).id.len() > 0,
            forall|a: int, b: int|
                0 <= a < b < i ==> (#[trigger] all[a]).id != (#[trigger] all[b]).id,
        decreases models.len() - i,
    {
        assert(all[i as int] == models@[i as int]@);
        if models[i].id.as_str().unicode_len() == 0 {
            return false;
        }
        let mut j: usize = 0;
        while j < i
            invariant
                j <= i,
                i < models.len(),
                all == models.deep_view(),
                forall|a: int| 0 <= a < j ==> (#[trigger] all[a]).id != all[i as int].id,
            decreases i - j,
        {
            assert(all[i as int] == models@[i as int]@);
            assert(all[j as int] == models@[j as int]@);
            if same(models[j].id.as_str(), models[i].id.as_str()) {
                return false;
            }
            j += 1;
        }
        i += 1;
    }
    true
}

impl FallbackModel {
    /// Identities tell the candidates apart.
    pub closed spec fn wf(&self) -> bool {
        unique_ids(self@.models) && self@.models.len() > 0
    }

    /// Several models as one. Their identities are neither empty nor shared, and there is at
    /// least one.
    pub fn new(models: Vec<FallbackCandidate>) -> (r: Result<FallbackModel, Error>)
        ensures
            match r {
                Ok(model) => unique_ids(models.deep_view()) && models@.len() > 0 && model.wf()
                    && model@ == (FallbackModelView {
                    models: models.deep_view(),
                    capabilities: all_capabilities(models.deep_view()),
                }),
                Err(e) => if !unique_ids(models.deep_view()) {
                    e@ == ErrorView::Invalid(
                        "fallback candidates require unique nonempty identities"@,
                    )
                } else {
                    models@.len() == 0 && e@ == ErrorView::Invalid("fallback requires models"@)
                },
            },
    {
        if !has_unique_ids(&models) {
            return Err(invalid("fallback candidates require unique nonempty identities"));
        }
        if models.len() == 0 {
            return Err(invalid("fallback requires models"));
        }
        let capabilities = join_capabilities(&models);
        Ok(FallbackModel { models, capabilities })
    }

    pub fn capabilities(&self) -> (r: &CapabilitySet)
        ensures
            r@ == self@.capabilities,
    {
        &self.capabilities
    }

    /// Where the candidate of an identity stands.
    pub fn position(&self, id: &str) -> (r: Option<usize>)
        requires
            self.wf(),
        ensures
            match r {
                Some(i) => i < self@.models.len() && self@.models[i as int].id == id@
                    && candidate_position(self@.models, id@) == Some(i as int),
                None => candidate_position(self@.models, id@) is None,
            },
    {
        let ghost all = self.models.deep_view();
        let mut i: usize = 0;
        while i < self.models.len()
            invariant
                i <= self.models.len(),
                all == self.models.deep_view(),
                self.wf(),
                forall|j: int| 0 <= j < i ==> (#[trigger] all[j]).id != id@,
            decreases self.models.len() - i,
        {
            assert(all[i as int] == self.models@[i as int]@);
            if same(self.models[i].id.as_str(), id) {
                return Some(i);
            }
            i += 1;
        }
        None
    }

    /// The first candidate that negotiation accepted.
    pub fn negotiate(&self, accepted: &Vec<bool>) -> (r: Result<usize, Error>)
        ensures
            match r {
                Ok(i) => i < accepted@.len() && accepted@[i as int] && (forall|j: int|
                    0 <= j < i ==> !accepted@[j]),
                Err(e) => (forall|j: int| 0 <= j < accepted@.len() ==> !accepted@[j]) && e@
                    == ErrorView::Invalid("no model satisfies request"@),
            },
    {
        let mut i: usize = 0;
        while i < accepted.len()
            invariant
                i <= accepted.len(),
                forall|j: int| 0 <= j < i ==> !accepted@[j],
            decreases accepted.len() - i,
        {
            if accepted[i] {
                return Ok(i);
            }
            i += 1;
        }
        Err(invalid("no model satisfies request"))
    }
}

fn join_capabilities(models: &Vec<FallbackCandidate>) -> (r: CapabilitySet)
    requires
        models@.len() > 0,
    ensures
        r@ == all_capabilities(models.deep_view()),
{
    let ghost all = models.deep_view();
    let mut capabilities = models[0].capabilities.clone();
    let mut i: usize = 1;
    assert(all[0] == models@[0]@);
    assert(all.take(1)[0] == all[0]);
    while i < models.len()
        invariant
            1 <= i <= models.len(),
            all == models.deep_view(),
            capabilities@ == all_capabilities(all.take(i as int)),
        decreases models.len() - i,
    {
        proof {
            assert(all[i as int] == models@[i as int]@);
            assert(all.take(i + 1).drop_last() =~= all.take(i as int));
            assert(all.take(i + 1).last() == all[i as int]);
        }
        capabilities.join(&models[i].capabilities);
        i += 1;
    }
    assert(all.take(all.len() as int) =~= all);
    capabilities
}

// ---------------------------------------------------------------------------------------
// Bindings
// ---------------------------------------------------------------------------------------
/// What was saved of a session: the candidate, and what that candidate saved.
pub struct SavedView<T> {
    pub candidate: Seq<char>,
    pub inner: T,
}

/// What was saved under an adapter's name, and what reading it came to.
pub struct Saved<T> {
    pub adapter: String,
    pub parsed: Result<(String, T), String>,
}

pub open spec fn read_saved<T: DeepView>(saved: Option<Saved<T>>, foreign: Seq<char>) -> Result<
    Option<SavedView<T::V>>,
    ErrorView,
> {
    match saved {
        None => Ok(None),
        Some(saved) => if saved.adapter@ != "zhir.fallback"@ {
            Err(ErrorView::Invalid(foreign))
        } else {
            match saved.parsed {
                Err(message) => Err(ErrorView::Invalid(message@)),
                Ok((candidate, inner)) => Ok(
                    Some(SavedView { candidate: candidate@, inner: inner.deep_view() }),
                ),
            }
        },
    }
}

fn take_saved<T: DeepView>(saved: Option<Saved<T>>, foreign: &str) -> (r: Result<
    Option<(String, T)>,
    Error,
>)
    ensures
        match read_saved(saved, foreign@) {
            Ok(None) => r is Ok && r->Ok_0 is None,
            Ok(Some(view)) => r is Ok && r->Ok_0 is Some && (r->Ok_0->0).0@ == view.candidate && (
            r->Ok_0->0).1.deep_view() == view.inner,
            Err(e) => r is Err && r->Err_0@ == e,
        },
{
    match saved {
        None => Ok(None),
        Some(saved) => {
            if !same(saved.adapter.as_str(), "zhir.fallback") {
                return Err(invalid(foreign));
            }
            match saved.parsed {
                Ok(pair) => Ok(Some(pair)),
                Err(message) => Err(Error::Invalid(message)),
            }
        },
    }
}

/// Which candidate a session is opened on.
pub enum ChoiceView {
    /// The one it was on before, with what that one saved.
    Bound { index: int, binding: Option<ModelBindingView>, recovery: Option<RecoveryRefView> },
    /// The first that will have it.
    Any,
}

#[derive(Debug, PartialEq, Eq)]
pub enum Choice {
    Bound { index: usize, binding: Option<ModelBinding>, recovery: Option<RecoveryRef> },
    Any,
}

impl View for Choice {
    type V = ChoiceView;

    open spec fn view(&self) -> ChoiceView {
        match self {
            Choice::Bound { index, binding, recovery } => ChoiceView::Bound {
                index: *index as int,
                binding: binding.deep_view(),
                recovery: recovery.deep_view(),
            },
            Choice::Any => ChoiceView::Any,
        }
    }
}

impl DeepView for Choice {
    type V = ChoiceView;

    open spec fn deep_view(&self) -> ChoiceView {
        self@
    }
}

pub open spec fn foreign_binding() -> Seq<char> {
    "binding does not belong to this fallback adapter"@
}

pub open spec fn foreign_recovery() -> Seq<char> {
    "recovery does not belong to this fallback adapter"@
}

/// The candidate that was saved, where one was: binding and recovery agree on it, and it is
/// still there.
pub open spec fn chosen(
    models: Seq<FallbackCandidateView>,
    binding: Option<SavedView<Option<ModelBindingView>>>,
    recovery: Option<SavedView<RecoveryRefView>>,
) -> Result<ChoiceView, ErrorView> {
    if binding is None && recovery is None {
        Ok(ChoiceView::Any)
    } else if binding is Some && recovery is Some && binding->0.candidate
        != recovery->0.candidate {
        Err(ErrorView::Invalid("recovery differs from the bound candidate"@))
    } else {
        let id = match binding {
            Some(saved) => saved.candidate,
            None => recovery->0.candidate,
        };
        match candidate_position(models, id) {
            None => Err(ErrorView::Invalid("original fallback candidate is unavailable"@)),
            Some(index) => Ok(
                ChoiceView::Bound {
                    index,
                    binding: match binding {
                        Some(saved) => saved.inner,
                        None => None,
                    },
                    recovery: match recovery {
                        Some(saved) => Some(saved.inner),
                        None => None,
                    },
                },
            ),
        }
    }
}

impl FallbackModel {
    /// Chooses the candidate to open a session on.
    pub fn choose_candidate(
        &self,
        binding: Option<Saved<Option<ModelBinding>>>,
        recovery: Option<Saved<RecoveryRef>>,
    ) -> (r: Result<Choice, Error>)
        requires
            self.wf(),
        ensures
            seen(r) == (match read_saved(binding, foreign_binding()) {
                Err(e) => Err(e),
                Ok(binding) => match read_saved(recovery, foreign_recovery()) {
                    Err(e) => Err(e),
                    Ok(recovery) => chosen(self@.models, binding, recovery),
                },
            }),
    {
        let binding = take_saved(binding, "binding does not belong to this fallback adapter")?;
        let recovery = take_saved(recovery, "recovery does not belong to this fallback adapter")?;
        let id = match (&binding, &recovery) {
            (None, None) => return Ok(Choice::Any),
            (Some(bound), Some(recovered)) => {
                if !same(bound.0.as_str(), recovered.0.as_str()) {
                    return Err(invalid("recovery differs from the bound candidate"));
                }
                bound.0.clone()
            },
            (Some(bound), None) => bound.0.clone(),
            (None, Some(recovered)) => recovered.0.clone(),
        };
        match self.position(id.as_str()) {
            None => Err(invalid("original fallback candidate is unavailable")),
            Some(index) => Ok(
                Choice::Bound {
                    index,
                    binding: match binding {
                        Some((_, inner)) => inner,
                        None => None,
                    },
                    recovery: match recovery {
                        Some((_, inner)) => Some(inner),
                        None => None,
                    },
                },
            ),
        }
    }
}

// ---------------------------------------------------------------------------------------
// Attempts
// ---------------------------------------------------------------------------------------
/// What became of one candidate: it did not accept the request, it opened a session, or it
/// failed to.
pub enum AttemptView {
    Refused,
    Opened,
    Failed { error: ErrorView, visible: bool },
}

/// What several candidates come to, in order: the first that opens, as long as those before it
/// refused or failed in passing. The error is the last one in passing, or the first lasting
/// one.
pub open spec fn outcome(attempts: Seq<AttemptView>) -> Result<Option<int>, ErrorView>
    decreases attempts.len(),
{
    if attempts.len() == 0 {
        Err(ErrorView::Invalid("no model satisfies request"@))
    } else {
        match outcome(attempts.drop_last()) {
            Ok(i) => Ok(i),
            Err(e) => if stopped(attempts.drop_last()) {
                Err(e)
            } else {
                match attempts.last() {
                    AttemptView::Refused => Err(e),
                    AttemptView::Opened => Ok(Some(attempts.len() - 1)),
                    AttemptView::Failed { error, .. } => Err(error),
                }
            },
        }
    }
}

/// Whether a candidate failed for good.
pub open spec fn stopped(attempts: Seq<AttemptView>) -> bool {
    exists|i: int|
        0 <= i < attempts.len() && (#[trigger] attempts[i] matches AttemptView::Failed {
            error,
            visible,
        } && !transient(error, visible))
}

pub struct AttemptsView {
    pub next: nat,
    pub error: ErrorView,
}

/// Tries candidates in order.
pub struct Attempts {
    next: usize,
    error: Error,
}

impl View for Attempts {
    type V = AttemptsView;

    closed spec fn view(&self) -> AttemptsView {
        AttemptsView { next: self.next as nat, error: self.error@ }
    }
}

impl Attempts {
    pub fn new() -> (r: Attempts)
        ensures
            r@ == (AttemptsView {
                next: 0,
                error: ErrorView::Invalid("no model satisfies request"@),
            }),
    {
        Attempts { next: 0, error: invalid("no model satisfies request") }
    }

    /// The candidate to try next, or the error that the attempts came to.
    pub fn candidate(&self, models: usize) -> (r: Result<usize, Error>)
        ensures
            match r {
                Ok(i) => i == self@.next && i < models,
                Err(e) => self@.next >= models && e@ == self@.error,
            },
    {
        if self.next < models {
            Ok(self.next)
        } else {
            Err(self.error.clone())
        }
    }

    /// The candidate did not accept the request.
    pub fn refused(&mut self)
        requires
            old(self)@.next < usize::MAX,
        ensures
            final(self)@ == (AttemptsView { next: old(self)@.next + 1, ..old(self)@ }),
    {
        self.next = self.next + 1;
    }

    /// The candidate failed: another may follow one that failed in passing, none a lasting
    /// failure.
    pub fn failed(&mut self, error: Error, visible: bool) -> (r: Result<(), Error>)
        requires
            old(self)@.next < usize::MAX,
        ensures
            transient(error@, visible) ==> r is Ok && final(self)@ == (AttemptsView {
                next: old(self)@.next + 1,
                error: error@,
            }),
            !transient(error@, visible) ==> r is Err && r->Err_0@ == error@ && final(self)@ == old(
                self,
            )@,
    {
        if !is_transient(&error, visible) {
            return Err(error);
        }
        self.next = self.next + 1;
        self.error = error;
        Ok(())
    }
}

/// The state of the attempts after some candidates, none of which opened or failed for good.
pub open spec fn after(attempts: Seq<AttemptView>) -> AttemptsView
    decreases attempts.len(),
{
    if attempts.len() == 0 {
        AttemptsView { next: 0, error: ErrorView::Invalid("no model satisfies request"@) }
    } else {
        let before = after(attempts.drop_last());
        AttemptsView {
            next: before.next + 1,
            error: match attempts.last() {
                AttemptView::Failed { error, .. } => error,
                _ => before.error,
            },
        }
    }
}

pub open spec fn all_in_passing(attempts: Seq<AttemptView>) -> bool {
    forall|i: int| 0 <= i < attempts.len() ==> !((#[trigger] attempts[i]) is Opened)
}

/// Trying candidates one by one comes to the outcome of them all.
pub proof fn attempts_come_to_the_outcome(attempts: Seq<AttemptView>)
    requires
        all_in_passing(attempts),
        !stopped(attempts),
    ensures
        outcome(attempts) == Err::<Option<int>, ErrorView>(after(attempts).error),
        after(attempts).next == attempts.len(),
    decreases attempts.len(),
{
    if attempts.len() > 0 {
        let shorter = attempts.drop_last();
        assert(forall|i: int| 0 <= i < shorter.len() ==> shorter[i] == attempts[i]);
        attempts_come_to_the_outcome(shorter);
        assert(!(attempts[attempts.len() - 1] is Opened));
    }
}

/// The first candidate that opens is taken where none before it failed for good.
pub proof fn first_to_open_is_taken(attempts: Seq<AttemptView>, later: Seq<AttemptView>)
    requires
        all_in_passing(attempts),
        !stopped(attempts),
    ensures
        outcome(attempts.push(AttemptView::Opened) + later) == Ok::<Option<int>, ErrorView>(
            Some(attempts.len() as int),
        ),
    decreases later.len(),
{
    let opened = attempts.push(AttemptView::Opened);
    if later.len() == 0 {
        assert(opened + later =~= opened);
        assert(opened.drop_last() =~= attempts);
        attempts_come_to_the_outcome(attempts);
    } else {
        assert((opened + later).drop_last() =~= opened + later.drop_last());
        first_to_open_is_taken(attempts, later.drop_last());
    }
}

/// A lasting failure ends the attempts: no later candidate changes what comes out.
pub proof fn lasting_failure_ends_the_attempts(
    attempts: Seq<AttemptView>,
    error: ErrorView,
    visible: bool,
    later: Seq<AttemptView>,
)
    requires
        all_in_passing(attempts),
        !stopped(attempts),
        !transient(error, visible),
    ensures
        outcome(attempts.push(AttemptView::Failed { error, visible }) + later) == Err::<
            Option<int>,
            ErrorView,
        >(error),
    decreases later.len(),
{
    let failed = attempts.push(AttemptView::Failed { error, visible });
    if later.len() == 0 {
        assert(failed + later =~= failed);
        assert(failed.drop_last() =~= attempts);
        attempts_come_to_the_outcome(attempts);
    } else {
        let shorter = failed + later.drop_last();
        assert((failed + later).drop_last() =~= shorter);
        lasting_failure_ends_the_attempts(attempts, error, visible, later.drop_last());
        assert(shorter[attempts.len() as int] == AttemptView::Failed { error, visible });
    }
}

// ---------------------------------------------------------------------------------------
// What a session saves
// ---------------------------------------------------------------------------------------
pub open spec fn saved_pair(adapter: Seq<char>, data: JsonView) -> JsonView {
    JsonView::empty().set("adapter"@, JsonView::text(adapter)).set("data"@, data)
}

/// The binding of a session: its candidate, and what that candidate binds it to.
pub open spec fn bound(candidate: Seq<char>, inner: Option<ModelBindingView>) -> ModelBindingView {
    ModelBindingView {
        adapter: "zhir.fallback"@,
        data: JsonView::empty().set("candidate"@, JsonView::text(candidate)).set(
            "inner"@,
            match inner {
                Some(binding) => saved_pair(binding.adapter, binding.data),
                None => JsonView::Null,
            },
        ),
    }
}

pub fn binding(candidate: &str, inner: Option<ModelBinding>) -> (r: ModelBinding)
    ensures
        r@ == bound(candidate@, inner.deep_view()),
{
    let inner = match inner {
        Some(binding) => Json::empty().with_text("adapter", binding.adapter.as_str()).with(
            "data",
            binding.data,
        ),
        None => Json::Null,
    };
    ModelBinding {
        adapter: "zhir.fallback".to_owned(),
        data: Json::empty().with_text("candidate", candidate).with("inner", inner),
    }
}

/// A recovery reference of a candidate, wrapped so that it names the candidate.
pub open spec fn rebound(candidate: Seq<char>, reference: RecoveryRefView) -> RecoveryRefView {
    RecoveryRefView {
        adapter: "zhir.fallback"@,
        data: JsonView::empty().set("candidate"@, JsonView::text(candidate)).set(
            "reference"@,
            saved_pair(reference.adapter, reference.data),
        ),
    }
}

fn rebind_reference(candidate: &str, reference: RecoveryRef) -> (r: RecoveryRef)
    ensures
        r@ == rebound(candidate@, reference@),
{
    let inner = Json::empty().with_text("adapter", reference.adapter.as_str()).with(
        "data",
        reference.data,
    );
    RecoveryRef {
        adapter: "zhir.fallback".to_owned(),
        data: Json::empty().with_text("candidate", candidate).with("reference", inner),
    }
}

/// An event of a candidate's session, with what it saves bound to the candidate.
pub open spec fn rebound_event(candidate: Seq<char>, body: SessionEventBodyView) -> SessionEventBodyView {
    match body {
        SessionEventBodyView::Acknowledged { command_id, recovery: Some(reference), level } => {
            SessionEventBodyView::Acknowledged {
                command_id,
                recovery: Some(rebound(candidate, reference)),
                level,
            }
        },
        SessionEventBodyView::Recovery(reference) => SessionEventBodyView::Recovery(
            rebound(candidate, reference),
        ),
        other => other,
    }
}

pub fn rebind(candidate: &str, body: SessionEventBody) -> (r: SessionEventBody)
    ensures
        r@ == rebound_event(candidate@, body@),
{
    match body {
        SessionEventBody::Acknowledged { command_id, recovery: Some(reference), level } => {
            SessionEventBody::Acknowledged {
                command_id,
                recovery: Some(rebind_reference(candidate, reference)),
                level,
            }
        },
        SessionEventBody::Recovery(reference) => SessionEventBody::Recovery(
            rebind_reference(candidate, reference),
        ),
        other => other,
    }
}

/// A saved session goes back to its own candidate, wherever that now stands, or nowhere.
pub proof fn sessions_stay_with_their_candidate(
    models: Seq<FallbackCandidateView>,
    binding: Option<SavedView<Option<ModelBindingView>>>,
    recovery: Option<SavedView<RecoveryRefView>>,
)
    requires
        unique_ids(models),
        binding is Some || recovery is Some,
    ensures
        chosen(models, binding, recovery) matches Ok(choice) ==> choice matches ChoiceView::Bound {
            index,
            ..
        } && 0 <= index < models.len() && (binding is Some ==> models[index].id
            == binding->0.candidate) && (recovery is Some ==> models[index].id
            == recovery->0.candidate),
{
}

proof fn saved_keys_differ()
    ensures
        "candidate"@ != "inner"@,
        "candidate"@ != "reference"@,
        "candidate"@ != "adapter"@,
        "candidate"@ != "data"@,
        "inner"@ != "reference"@,
        "inner"@ != "adapter"@,
        "inner"@ != "data"@,
        "reference"@ != "adapter"@,
        "reference"@ != "data"@,
        "adapter"@ != "data"@,
{
    reveal_strlit("candidate");
    reveal_strlit("inner");
    reveal_strlit("reference");
    reveal_strlit("adapter");
    reveal_strlit("data");
    assert("candidate"@.len() == 9);
    assert("inner"@.len() == 5);
    assert("reference"@.len() == 9);
    assert("adapter"@.len() == 7);
    assert("data"@.len() == 4);
    assert("candidate"@[0] != "reference"@[0]);
}

/// A failure that the model calls worth another try gets one, as long as nothing is visible of
/// what it did, nothing was resumed and an attempt is left. No other failure does.
pub proof fn passing_failures_are_retried(
    failure: FailureView,
    visible: bool,
    resumes: bool,
    attempt: nat,
    max_attempts: nat,
)
    ensures
        retried(ErrorView::Model(failure), visible, resumes, attempt, max_attempts) <==> {
            &&& failure.retryable
            &&& !visible
            &&& !resumes
            &&& attempt + 1 < max_attempts
        },
{
}

/// What is saved of a session names its candidate, and holds what the candidate saved.
pub proof fn what_is_saved_names_the_candidate(
    candidate: Seq<char>,
    inner: Option<ModelBindingView>,
    reference: RecoveryRefView,
)
    ensures
        ({
            let saved = bound(candidate, inner);
            &&& saved.adapter == "zhir.fallback"@
            &&& saved.data.get_str("candidate"@) == Some(candidate)
            &&& match inner {
                Some(binding) => saved.data.field("inner"@).get_str("adapter"@) == Some(
                    binding.adapter,
                ) && saved.data.field("inner"@).get("data"@) == Some(binding.data),
                None => saved.data.get("inner"@) == Some(JsonView::Null),
            }
        }),
        ({
            let saved = rebound(candidate, reference);
            let held = saved.data.field("reference"@);
            &&& saved.adapter == "zhir.fallback"@
            &&& saved.data.get_str("candidate"@) == Some(candidate)
            &&& held.get_str("adapter"@) == Some(reference.adapter)
            &&& held.get("data"@) == Some(reference.data)
        }),
{
    broadcast use set_get;

    saved_keys_differ();
}

/// The events of a candidate's session are handed on as they are, but for what they save, which
/// is bound to the candidate.
pub proof fn events_are_handed_on(candidate: Seq<char>, body: SessionEventBodyView)
    ensures
        match body {
            SessionEventBodyView::Acknowledged { command_id, recovery, level } => rebound_event(
                candidate,
                body,
            ) matches SessionEventBodyView::Acknowledged {
                command_id: id,
                recovery: saved,
                level: reached,
            } && id == command_id && reached == level && saved == (match recovery {
                Some(reference) => Some(rebound(candidate, reference)),
                None => None,
            }),
            SessionEventBodyView::Recovery(reference) => rebound_event(candidate, body)
                == SessionEventBodyView::Recovery(rebound(candidate, reference)),
            _ => rebound_event(candidate, body) == body,
        },
{
}

/// A session that was saved goes back to its candidate with what was saved for it, as long as
/// the candidate is there. One that was not saved may go to any.
pub proof fn saved_sessions_are_found(
    models: Seq<FallbackCandidateView>,
    binding: Option<SavedView<Option<ModelBindingView>>>,
    recovery: Option<SavedView<RecoveryRefView>>,
    i: int,
)
    ensures
        binding is None && recovery is None ==> chosen(models, binding, recovery) == Ok::<
            ChoiceView,
            ErrorView,
        >(ChoiceView::Any),
        0 <= i < models.len() && (binding is Some || recovery is Some) && (binding matches Some(saved)
            ==> saved.candidate == models[i].id) && (recovery matches Some(saved) ==> saved.candidate
            == models[i].id) ==> (chosen(models, binding, recovery) matches Ok(
            ChoiceView::Bound { index, binding: inner, recovery: reference },
        ) && 0 <= index < models.len() && models[index].id == models[i].id && (match binding {
            Some(saved) => inner == saved.inner,
            None => inner is None,
        }) && (match recovery {
            Some(saved) => reference == Some(saved.inner),
            None => reference is None,
        })),
        (forall|j: int|
            0 <= j < models.len() ==> (binding matches Some(saved) && saved.candidate != (
            #[trigger] models[j]).id)) ==> (binding is Some ==> chosen(models, binding, recovery)
            is Err),
{
}

/// Several models together support what one of them does.
pub proof fn one_that_supports_is_enough(models: Seq<FallbackCandidateView>, feature: Capability)
    requires
        models.len() > 0,
    ensures
        all_capabilities(models).supports(feature) <==> exists|i: int|
            0 <= i < models.len() && (#[trigger] models[i]).capabilities.supports(feature),
    decreases models.len(),
{
    if models.len() > 1 {
        let front = models.drop_last();
        one_that_supports_is_enough(front, feature);
        join_is_union(
            all_capabilities(front),
            models.last().capabilities,
            feature,
            Seq::empty(),
        );
        if all_capabilities(front).supports(feature) {
            let i = choose|i: int|
                0 <= i < front.len() && (#[trigger] front[i]).capabilities.supports(feature);
            assert(models[i] == front[i]);
        }
        if exists|i: int|
            0 <= i < models.len() && (#[trigger] models[i]).capabilities.supports(feature) {
            let i = choose|i: int|
                0 <= i < models.len() && (#[trigger] models[i]).capabilities.supports(feature);
            if i < front.len() {
                assert(front[i] == models[i]);
            }
        }
        assert(models[models.len() - 1] == models.last());
    } else {
        assert(models[0].capabilities == all_capabilities(models));
    }
}

} // verus!
