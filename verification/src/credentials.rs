//! Credentials: what a request is authorized with, and how long it is kept.
use crate::error::{invalid, seen, Error, ErrorView};
use crate::text::same;
use vstd::prelude::*;

verus! {

/// A credential. `generation` tells it from the one that replaces it.
#[derive(Debug, PartialEq, Eq)]
pub struct Credential {
    pub generation: String,
    pub scheme: String,
    pub value: String,
    pub expires_at_ms: Option<u64>,
    pub metadata: Vec<(String, String)>,
}

pub struct CredentialView {
    pub generation: Seq<char>,
    pub scheme: Seq<char>,
    pub value: Seq<char>,
    pub expires_at_ms: Option<u64>,
    pub metadata: Seq<(Seq<char>, Seq<char>)>,
}

impl View for Credential {
    type V = CredentialView;

    open spec fn view(&self) -> CredentialView {
        CredentialView {
            generation: self.generation@,
            scheme: self.scheme@,
            value: self.value@,
            expires_at_ms: self.expires_at_ms,
            metadata: self.metadata.deep_view(),
        }
    }
}

impl DeepView for Credential {
    type V = CredentialView;

    open spec fn deep_view(&self) -> CredentialView {
        self@
    }
}

fn copy_metadata(metadata: &Vec<(String, String)>) -> (r: Vec<(String, String)>)
    ensures
        r.deep_view() == metadata.deep_view(),
{
    let mut out: Vec<(String, String)> = Vec::new();
    let mut i: usize = 0;
    while i < metadata.len()
        invariant
            i <= metadata.len(),
            out.deep_view() =~= metadata.deep_view().take(i as int),
        decreases metadata.len() - i,
    {
        let ghost before = out.deep_view();
        out.push((metadata[i].0.clone(), metadata[i].1.clone()));
        assert(out.deep_view() =~= before.push(metadata.deep_view()[i as int]));
        i += 1;
    }
    assert(metadata.deep_view().take(metadata@.len() as int) =~= metadata.deep_view());
    out
}

impl Clone for Credential {
    fn clone(&self) -> (r: Credential)
        ensures
            r@ == self@,
    {
        Credential {
            generation: self.generation.clone(),
            scheme: self.scheme.clone(),
            value: self.value.clone(),
            expires_at_ms: self.expires_at_ms,
            metadata: copy_metadata(&self.metadata),
        }
    }
}

impl CredentialView {
    /// Whether the credential still holds at a time.
    pub open spec fn live(self, now_ms: u64) -> bool {
        match self.expires_at_ms {
            Some(expiry) => expiry > now_ms,
            None => true,
        }
    }

    /// Whether a refreshed credential may be used.
    pub open spec fn usable(self, now_ms: u64) -> bool {
        self.generation.len() > 0 && self.value.len() > 0 && self.live(now_ms)
    }
}

impl Credential {
    pub fn is_live(&self, now_ms: u64) -> (r: bool)
        ensures
            r == self@.live(now_ms),
    {
        match self.expires_at_ms {
            Some(expiry) => expiry > now_ms,
            None => true,
        }
    }
}

/// A credential that never changes.
pub struct StaticCredential {
    pub credential: Credential,
}

impl StaticCredential {
    pub fn new(scheme: String, value: String) -> (r: StaticCredential)
        ensures
            r.credential@ == (CredentialView {
                generation: "static"@,
                scheme: scheme@,
                value: value@,
                expires_at_ms: None,
                metadata: Seq::empty(),
            }),
    {
        let metadata: Vec<(String, String)> = Vec::new();
        assert(metadata.deep_view() =~= Seq::empty());
        StaticCredential {
            credential: Credential {
                generation: "static".to_owned(),
                scheme,
                value,
                expires_at_ms: None,
                metadata,
            },
        }
    }

    pub fn resolve(&self) -> (r: Credential)
        ensures
            r@ == self.credential@,
    {
        self.credential.clone()
    }
}

// ---------------------------------------------------------------------------------------
// Refreshed credentials
// ---------------------------------------------------------------------------------------
/// Credentials by audience, each audience at most once.
pub type KeptView = Seq<(Seq<char>, CredentialView)>;

pub open spec fn kept_for(kept: KeptView, audience: Seq<char>) -> Option<CredentialView>
    decreases kept.len(),
{
    if kept.len() == 0 {
        None
    } else if kept.last().0 == audience {
        Some(kept.last().1)
    } else {
        kept_for(kept.drop_last(), audience)
    }
}

/// The credential of an audience that can be used without a refresh.
pub open spec fn cached(kept: KeptView, audience: Seq<char>, now_ms: u64) -> Option<
    CredentialView,
> {
    match kept_for(kept, audience) {
        Some(credential) => if credential.live(now_ms) {
            Some(credential)
        } else {
            None
        },
        None => None,
    }
}

/// What is kept for other audiences.
pub open spec fn without_audience(kept: KeptView, audience: Seq<char>) -> KeptView {
    kept.filter(|entry: (Seq<char>, CredentialView)| entry.0 != audience)
}

/// What is kept once a credential replaced the one of its audience.
pub open spec fn replaced(
    kept: KeptView,
    audience: Seq<char>,
    credential: CredentialView,
) -> KeptView {
    without_audience(kept, audience).push((audience, credential))
}

/// What is kept of the credentials of other generations.
pub open spec fn without_generation(kept: KeptView, generation: Seq<char>) -> KeptView {
    kept.filter(|entry: (Seq<char>, CredentialView)| entry.1.generation != generation)
}

/// Credentials that are refreshed when they expire or are refused.
pub struct RefreshingCredential {
    current: Vec<(String, Credential)>,
}

impl View for RefreshingCredential {
    type V = KeptView;

    closed spec fn view(&self) -> KeptView {
        self.current.deep_view()
    }
}

impl RefreshingCredential {
    pub fn new() -> (r: RefreshingCredential)
        ensures
            r@ == Seq::<(Seq<char>, CredentialView)>::empty(),
    {
        let current: Vec<(String, Credential)> = Vec::new();
        assert(current.deep_view() =~= Seq::empty());
        RefreshingCredential { current }
    }

    /// The credential of an audience, where it is still good. Otherwise it must be refreshed.
    pub fn cached(&self, audience: &str, now_ms: u64) -> (r: Option<Credential>)
        ensures
            r.deep_view() == cached(self@, audience@, now_ms),
    {
        let ghost all = self.current.deep_view();
        let mut i: usize = self.current.len();
        assert(all.take(all.len() as int) =~= all);
        while i > 0
            invariant
                i <= self.current.len(),
                all == self.current.deep_view(),
                kept_for(all, audience@) == kept_for(all.take(i as int), audience@),
            decreases i,
        {
            i -= 1;
            proof {
                assert(all.take(i + 1).drop_last() =~= all.take(i as int));
                assert(all.take(i + 1).last() == all[i as int]);
                assert(all[i as int] == (self.current@[i as int].0@, self.current@[i as int].1@));
            }
            if same(self.current[i].0.as_str(), audience) {
                let credential = &self.current[i].1;
                if credential.is_live(now_ms) {
                    return Some(credential.clone());
                }
                return None;
            }
        }
        None
    }

    /// Takes what a refresh brought for an audience: a credential that cannot be used is
    /// refused, any other replaces the one before.
    pub fn refreshed(&mut self, audience: String, value: Credential, now_ms: u64) -> (r: Result<
        Credential,
        Error,
    >)
        ensures
            !value@.usable(now_ms) ==> seen(r) == Err::<CredentialView, ErrorView>(
                ErrorView::Invalid("refresher returned invalid or expired credentials"@),
            ) && final(self)@ == old(self)@,
            value@.usable(now_ms) ==> seen(r) == Ok::<CredentialView, ErrorView>(value@)
                && final(self)@ == replaced(old(self)@, audience@, value@),
    {
        if value.generation.as_str().unicode_len() == 0 || value.value.as_str().unicode_len() == 0
            || !value.is_live(now_ms) {
            return Err(invalid("refresher returned invalid or expired credentials"));
        }
        self.forget(audience.as_str());
        let ghost before = self.current.deep_view();
        let ghost added = (audience@, value@);
        let out = value.clone();
        self.current.push((audience, value));
        assert(self.current.deep_view() =~= before.push(added));
        Ok(out)
    }

    fn forget(&mut self, audience: &str)
        ensures
            final(self)@ == without_audience(old(self)@, audience@),
    {
        let ghost all = self.current.deep_view();
        let ghost pred = |entry: (Seq<char>, CredentialView)| entry.0 != audience@;
        let mut kept: Vec<(String, Credential)> = Vec::new();
        let mut i: usize = 0;
        proof {
            reveal(Seq::filter);
            assert(all.take(0) =~= Seq::empty());
            assert(kept.deep_view() =~= Seq::empty());
        }
        while i < self.current.len()
            invariant
                i <= self.current.len(),
                all == self.current.deep_view(),
                pred == (|entry: (Seq<char>, CredentialView)| entry.0 != audience@),
                kept.deep_view() == all.take(i as int).filter(pred),
            decreases self.current.len() - i,
        {
            proof {
                reveal(Seq::filter);
                assert(all.take(i + 1).drop_last() =~= all.take(i as int));
                assert(all[i as int] == (self.current@[i as int].0@, self.current@[i as int].1@));
            }
            let entry = &self.current[i];
            if !same(entry.0.as_str(), audience) {
                let ghost before = kept.deep_view();
                kept.push((entry.0.clone(), entry.1.clone()));
                assert(kept.deep_view() =~= before.push(all[i as int]));
            }
            i += 1;
        }
        assert(all.take(all.len() as int) =~= all);
        self.current = kept;
    }

    /// Forgets the credentials of a generation that was refused.
    pub fn invalidate(&mut self, generation: &str)
        ensures
            final(self)@ == without_generation(old(self)@, generation@),
    {
        let ghost all = self.current.deep_view();
        let ghost pred = |entry: (Seq<char>, CredentialView)| entry.1.generation != generation@;
        let mut kept: Vec<(String, Credential)> = Vec::new();
        let mut i: usize = 0;
        proof {
            reveal(Seq::filter);
            assert(all.take(0) =~= Seq::empty());
            assert(kept.deep_view() =~= Seq::empty());
        }
        while i < self.current.len()
            invariant
                i <= self.current.len(),
                all == self.current.deep_view(),
                pred == (|entry: (Seq<char>, CredentialView)| entry.1.generation != generation@),
                kept.deep_view() == all.take(i as int).filter(pred),
            decreases self.current.len() - i,
        {
            proof {
                reveal(Seq::filter);
                assert(all.take(i + 1).drop_last() =~= all.take(i as int));
                assert(all[i as int] == (self.current@[i as int].0@, self.current@[i as int].1@));
            }
            let entry = &self.current[i];
            if !same(entry.1.generation.as_str(), generation) {
                let ghost before = kept.deep_view();
                kept.push((entry.0.clone(), entry.1.clone()));
                assert(kept.deep_view() =~= before.push(all[i as int]));
            }
            i += 1;
        }
        assert(all.take(all.len() as int) =~= all);
        self.current = kept;
    }
}

/// What a refresh brought is what is used until it expires.
pub proof fn refreshed_is_cached(
    kept: KeptView,
    audience: Seq<char>,
    credential: CredentialView,
    now_ms: u64,
)
    ensures
        cached(replaced(kept, audience, credential), audience, now_ms) == (if credential.live(now_ms) {
            Some(credential)
        } else {
            None
        }),
{
}

/// What was refused is used no more.
pub proof fn invalidated_is_gone(
    kept: KeptView,
    generation: Seq<char>,
    audience: Seq<char>,
    now_ms: u64,
)
    ensures
        cached(without_generation(kept, generation), audience, now_ms) matches Some(credential)
            ==> credential.generation != generation,
    decreases kept.len(),
{
    reveal(Seq::filter);
    if kept.len() > 0 {
        invalidated_is_gone(kept.drop_last(), generation, audience, now_ms);
        let shorter = without_generation(kept.drop_last(), generation);
        let pred = |entry: (Seq<char>, CredentialView)| entry.1.generation != generation;
        if pred(kept.last()) {
            assert(without_generation(kept, generation) == shorter.push(kept.last()));
            assert(shorter.push(kept.last()).drop_last() =~= shorter);
        } else {
            assert(without_generation(kept, generation) == shorter);
        }
    }
}

proof fn filtered_holds_none(
    kept: KeptView,
    audience: Seq<char>,
    keep: spec_fn((Seq<char>, CredentialView)) -> bool,
)
    requires
        kept_for(kept, audience) is None,
    ensures
        kept_for(kept.filter(keep), audience) is None,
    decreases kept.len(),
{
    reveal(Seq::filter);
    if kept.len() > 0 {
        filtered_holds_none(kept.drop_last(), audience, keep);
        let shorter = kept.drop_last().filter(keep);
        assert(shorter.push(kept.last()).drop_last() =~= shorter);
    }
}

proof fn audience_is_gone(kept: KeptView, audience: Seq<char>)
    ensures
        kept_for(without_audience(kept, audience), audience) is None,
    decreases kept.len(),
{
    reveal(Seq::filter);
    if kept.len() > 0 {
        audience_is_gone(kept.drop_last(), audience);
        let shorter = without_audience(kept.drop_last(), audience);
        let pred = |entry: (Seq<char>, CredentialView)| entry.0 != audience;
        if pred(kept.last()) {
            assert(without_audience(kept, audience) == shorter.push(kept.last()));
            assert(shorter.push(kept.last()).drop_last() =~= shorter);
        } else {
            assert(without_audience(kept, audience) == shorter);
        }
    }
}

/// A refused credential forces a refresh: no earlier one of its audience comes back.
pub proof fn refusal_forces_a_refresh(
    kept: KeptView,
    audience: Seq<char>,
    credential: CredentialView,
    now_ms: u64,
)
    ensures
        cached(
            without_generation(replaced(kept, audience, credential), credential.generation),
            audience,
            now_ms,
        ) is None,
{
    reveal(Seq::filter);
    let others = without_audience(kept, audience);
    let all = others.push((audience, credential));
    let pred = |entry: (Seq<char>, CredentialView)| entry.1.generation != credential.generation;
    audience_is_gone(kept, audience);
    filtered_holds_none(others, audience, pred);
    assert(all.drop_last() =~= others);
    assert(without_generation(all, credential.generation) == others.filter(pred));
}

} // verus!
