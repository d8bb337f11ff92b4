//! Durable outputs, and the resolution of references before a request is encoded.
//!
//! Media that a model answers with is stored as artifacts, and references to artifacts are
//! resolved before a request is encoded. Reading and writing a store is up to the host: what
//! is asked of it comes out as a stop, its answer is recorded, and the work is taken up
//! again with what is known by then.
pub mod kept;
pub mod laws;
pub mod replay;
pub mod resolve;
pub mod save;

use crate::artifacts::resolve::{resolve_messages, resolved_messages};
use crate::artifacts::save::{save_response, saved};
use crate::error::{Error, ErrorView};
use crate::json::{group_json_views, lookup, Json, JsonView};
use crate::message::Message;
use crate::model::TurnOutput;
use crate::text::same;
use vstd::prelude::*;

verus! {

/// The field that marks a reference in native data.
pub const ARTIFACT_KEY: &'static str = "$zhir_artifact";

/// What names a stored artifact.
#[derive(Debug, PartialEq, Eq)]
pub struct ArtifactRef {
    pub id: String,
    pub mime_type: String,
}

pub struct ArtifactRefView {
    pub id: Seq<char>,
    pub mime_type: Seq<char>,
}

impl View for ArtifactRef {
    type V = ArtifactRefView;

    open spec fn view(&self) -> ArtifactRefView {
        ArtifactRefView { id: self.id@, mime_type: self.mime_type@ }
    }
}

impl DeepView for ArtifactRef {
    type V = ArtifactRefView;

    open spec fn deep_view(&self) -> ArtifactRefView {
        self@
    }
}

impl Clone for ArtifactRef {
    fn clone(&self) -> (r: ArtifactRef)
        ensures
            r@ == self@,
    {
        ArtifactRef { id: self.id.clone(), mime_type: self.mime_type.clone() }
    }
}

/// What a store holds.
#[derive(Debug, PartialEq, Eq)]
pub struct ArtifactContent {
    pub mime_type: String,
    pub base64: String,
}

pub struct ArtifactContentView {
    pub mime_type: Seq<char>,
    pub base64: Seq<char>,
}

impl View for ArtifactContent {
    type V = ArtifactContentView;

    open spec fn view(&self) -> ArtifactContentView {
        ArtifactContentView { mime_type: self.mime_type@, base64: self.base64@ }
    }
}

impl DeepView for ArtifactContent {
    type V = ArtifactContentView;

    open spec fn deep_view(&self) -> ArtifactContentView {
        self@
    }
}

impl Clone for ArtifactContent {
    fn clone(&self) -> (r: ArtifactContent)
        ensures
            r@ == self@,
    {
        ArtifactContent { mime_type: self.mime_type.clone(), base64: self.base64.clone() }
    }
}

/// Why the work stops: something is asked of the store, or it failed. Where a marker holds
/// no reference, the stop hands back what it holds: whoever reads that says what is wrong
/// with it.
#[derive(Debug, PartialEq, Eq)]
pub enum Stop {
    Fetch(ArtifactRef),
    Store { key: String, content: ArtifactContent },
    Unreadable(Json),
    Failed(Error),
}

pub enum StopView {
    Fetch(ArtifactRefView),
    Store { key: Seq<char>, content: ArtifactContentView },
    Unreadable(JsonView),
    Failed(ErrorView),
}

impl View for Stop {
    type V = StopView;

    open spec fn view(&self) -> StopView {
        match self {
            Stop::Fetch(reference) => StopView::Fetch(reference@),
            Stop::Store { key, content } => StopView::Store { key: key@, content: content@ },
            Stop::Unreadable(value) => StopView::Unreadable(value@),
            Stop::Failed(error) => StopView::Failed(error@),
        }
    }
}

/// A result with a stop, as a result of views.
pub open spec fn reached<T: DeepView>(r: Result<T, Stop>) -> Result<T::V, StopView> {
    match r {
        Ok(value) => Ok(value.deep_view()),
        Err(stop) => Err(stop@),
    }
}

/// What is recorded first under a key.
pub open spec fn find<V>(entries: Seq<(Seq<char>, V)>, key: Seq<char>) -> Option<V>
    decreases entries.len(),
{
    if entries.len() == 0 {
        None
    } else if entries[0].0 == key {
        Some(entries[0].1)
    } else {
        find(entries.skip(1), key)
    }
}

/// What the store answered for ids.
pub type Contents = Seq<(Seq<char>, ArtifactContentView)>;

/// What the store answered for keys.
pub type References = Seq<(Seq<char>, ArtifactRefView)>;

pub(crate) fn position<T: DeepView>(entries: &Vec<(String, T)>, key: &str) -> (r: Option<usize>)
    ensures
        match r {
            Some(i) => i < entries@.len() && find(entries.deep_view(), key@) == Some(
                entries@[i as int].1.deep_view(),
            ),
            None => find(entries.deep_view(), key@) is None,
        },
{
    let ghost all = entries.deep_view();
    let mut i: usize = 0;
    assert(all.skip(0) =~= all);
    while i < entries.len()
        invariant
            i <= entries@.len(),
            all == entries.deep_view(),
            find(all, key@) == find(all.skip(i as int), key@),
        decreases entries@.len() - i,
    {
        assert(all.skip(i as int)[0] == (entries@[i as int].0@, entries@[i as int].1.deep_view()));
        if same(&entries[i].0, key) {
            return Some(i);
        }
        assert(all.skip(i as int).skip(1) =~= all.skip(i + 1));
        i += 1;
    }
    None
}

/// What is recorded under a key stays; a record under another key changes nothing of it.
pub proof fn record_lookup<V>(entries: Seq<(Seq<char>, V)>, key: Seq<char>, value: V, other: Seq<char>)
    ensures
        find(entries, key) is None ==> find(entries.push((key, value)), key) == Some(value),
        find(entries, other) is Some ==> find(entries.push((key, value)), other) == find(
            entries,
            other,
        ),
        other != key ==> find(entries.push((key, value)), other) == find(entries, other),
    decreases entries.len(),
{
    let more = entries.push((key, value));
    if entries.len() == 0 {
        assert(more.skip(1) =~= Seq::empty());
    } else {
        assert(more.skip(1) =~= entries.skip(1).push((key, value)));
        record_lookup(entries.skip(1), key, value, other);
    }
}

// ---------------------------------------------------------------------------------------
// Markers
// ---------------------------------------------------------------------------------------
/// What stands for a stored payload in native data.
pub open spec fn marker(reference: ArtifactRefView) -> JsonView {
    JsonView::Object(
        seq![
            (
                ARTIFACT_KEY@,
                JsonView::Object(
                    seq![
                        ("id"@, JsonView::Text(reference.id)),
                        ("mime_type"@, JsonView::Text(reference.mime_type)),
                    ],
                ),
            ),
        ],
    )
}

pub(crate) fn mark(reference: &ArtifactRef) -> (r: Json)
    ensures
        r@ == marker(reference@),
{
    broadcast use group_json_views;

    let mut inner: Vec<(String, Json)> = Vec::new();
    inner.push(("id".to_owned(), Json::text(&reference.id)));
    inner.push(("mime_type".to_owned(), Json::text(&reference.mime_type)));
    assert(inner.deep_view() =~= seq![
        ("id"@, JsonView::Text(reference.id@)),
        ("mime_type"@, JsonView::Text(reference.mime_type@)),
    ]);
    let mut outer: Vec<(String, Json)> = Vec::new();
    outer.push((ARTIFACT_KEY.to_owned(), Json::Object(inner)));
    assert(outer.deep_view() =~= seq![(ARTIFACT_KEY@, JsonView::Object(inner.deep_view()))]);
    Json::Object(outer)
}

/// The reference that a value names, if it names one: an object with its fields, or an array
/// with them in order.
pub open spec fn reference_of(value: JsonView) -> Option<ArtifactRefView> {
    let fields = match value {
        JsonView::Object(fields) => (lookup(fields, "id"@), lookup(fields, "mime_type"@)),
        JsonView::Array(items) => if items.len() == 2 {
            (Some(items[0]), Some(items[1]))
        } else {
            (None, None)
        },
        _ => (None, None),
    };
    match fields {
        (Some(JsonView::Text(id)), Some(JsonView::Text(mime_type))) => Some(
            ArtifactRefView { id, mime_type },
        ),
        _ => None,
    }
}

pub(crate) fn read_reference(value: &Json) -> (r: Option<ArtifactRef>)
    ensures
        r.deep_view() == reference_of(value@),
{
    broadcast use group_json_views;

    let (id, mime_type) = match value {
        Json::Object(_) => (value.get("id"), value.get("mime_type")),
        Json::Array(items) => if items.len() == 2 {
            assert(items.deep_view()[0] == items@[0]@);
            assert(items.deep_view()[1] == items@[1]@);
            (Some(&items[0]), Some(&items[1]))
        } else {
            (None, None)
        },
        _ => (None, None),
    };
    match (id, mime_type) {
        (Some(Json::Text(id)), Some(Json::Text(mime_type))) => Some(
            ArtifactRef { id: id.clone(), mime_type: mime_type.clone() },
        ),
        _ => None,
    }
}

// ---------------------------------------------------------------------------------------
// One invocation
// ---------------------------------------------------------------------------------------
/// One invocation of a model whose media is kept in a store.
pub struct ArtifactModel {
    run_id: String,
    contents: Vec<(String, ArtifactContent)>,
    references: Vec<(String, ArtifactRef)>,
}

pub struct ArtifactModelView {
    pub run_id: Seq<char>,
    pub contents: Contents,
    pub references: References,
}

impl View for ArtifactModel {
    type V = ArtifactModelView;

    closed spec fn view(&self) -> ArtifactModelView {
        ArtifactModelView {
            run_id: self.run_id@,
            contents: self.contents.deep_view(),
            references: self.references.deep_view(),
        }
    }
}

impl ArtifactModel {
    pub fn new(run_id: String) -> (r: ArtifactModel)
        ensures
            r@ == (ArtifactModelView {
                run_id: run_id@,
                contents: Seq::empty(),
                references: Seq::empty(),
            }),
    {
        let r = ArtifactModel { run_id, contents: Vec::new(), references: Vec::new() };
        assert(r.contents.deep_view() =~= Seq::empty());
        assert(r.references.deep_view() =~= Seq::empty());
        r
    }

    /// The messages with every reference resolved to what the store holds.
    pub fn resolve(&self, messages: &Vec<Message>) -> (r: Result<Vec<Message>, Stop>)
        ensures
            reached(r) == resolved_messages(messages.deep_view(), self@.contents),
    {
        resolve_messages(messages, &self.contents)
    }

    /// Records what the store holds under an id. What was recorded first stays.
    pub fn fetched(&mut self, id: String, content: ArtifactContent)
        ensures
            final(self)@ == (ArtifactModelView {
                contents: old(self)@.contents.push((id@, content@)),
                ..old(self)@
            }),
    {
        self.contents.push((id, content));
        assert(self.contents.deep_view() =~= old(self).contents.deep_view().push((id@, content@)));
    }

    /// The response with every inline media part of its output replaced by a reference.
    pub fn save(&self, response: &TurnOutput) -> (r: Result<TurnOutput, Stop>)
        ensures
            reached(r) == saved(response@, self@.run_id, self@.references),
    {
        save_response(response, &self.run_id, &self.references)
    }

    /// Records the reference under which the store keeps the content of a key. What was
    /// recorded first stays.
    pub fn stored(&mut self, key: String, reference: ArtifactRef)
        ensures
            final(self)@ == (ArtifactModelView {
                references: old(self)@.references.push((key@, reference@)),
                ..old(self)@
            }),
    {
        self.references.push((key, reference));
        assert(self.references.deep_view() =~= old(self).references.deep_view().push(
            (key@, reference@),
        ));
    }
}

} // verus!
