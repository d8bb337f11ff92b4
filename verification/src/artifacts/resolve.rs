//! References to artifacts, resolved to what a store holds.
use crate::artifacts::{
    find, position, reached, read_reference, reference_of, ArtifactContent, ArtifactContentView,
    ArtifactRef, ArtifactRefView, Contents, Stop, StopView, ARTIFACT_KEY,
};
use crate::error::{all_ok, all_ok_step, protocol, Error, ErrorView};
use crate::json::{
    field_is_smaller, group_json_views, item_is_smaller, lookup, Fields, Json, JsonView,
};
use crate::message::{
    Content, ContentView, MediaSource, MediaSourceView, Message, MessageView, Output, OutputView,
    ProviderToolCall, ProviderToolCallView, RuntimeToolOutcome, RuntimeToolOutcomeView,
};
use crate::text::{is_empty, same};
use vstd::prelude::*;

verus! {

/// What a reference stands for: the store is asked once per id.
pub open spec fn loaded(reference: ArtifactRefView, known: Contents) -> Result<
    ArtifactContentView,
    StopView,
> {
    if reference.id.len() == 0 || reference.mime_type.len() == 0 {
        Err(
            StopView::Failed(
                ErrorView::Artifact { id: reference.id, message: "empty artifact reference"@ },
            ),
        )
    } else {
        match find(known, reference.id) {
            None => Err(StopView::Fetch(reference)),
            Some(content) => if content.mime_type != reference.mime_type || content.base64.len()
                == 0 {
                Err(
                    StopView::Failed(
                        ErrorView::Artifact {
                            id: reference.id,
                            message: "artifact contents do not match reference"@,
                        },
                    ),
                )
            } else {
                Ok(content)
            },
        }
    }
}

/// Looks up what a reference stands for.
pub fn load(reference: ArtifactRef, known: &Vec<(String, ArtifactContent)>) -> (r: Result<
    ArtifactContent,
    Stop,
>)
    ensures
        reached(r) == loaded(reference@, known.deep_view()),
{
    if is_empty(&reference.id) || is_empty(&reference.mime_type) {
        return Err(
            Stop::Failed(
                Error::Artifact {
                    id: reference.id,
                    message: "empty artifact reference".to_owned(),
                },
            ),
        );
    }
    let content = match position(known, &reference.id) {
        Some(i) => &known[i].1,
        None => {
            return Err(Stop::Fetch(reference));
        },
    };
    if !same(&content.mime_type, &reference.mime_type) || is_empty(&content.base64) {
        return Err(
            Stop::Failed(
                Error::Artifact {
                    id: reference.id,
                    message: "artifact contents do not match reference".to_owned(),
                },
            ),
        );
    }
    Ok(content.clone())
}

// ---------------------------------------------------------------------------------------
// Native data
// ---------------------------------------------------------------------------------------
/// Native data with each marker replaced by the payload that it stands for.
pub open spec fn resolved_value(value: JsonView, known: Contents) -> Result<JsonView, StopView>
    decreases value,
{
    match value {
        JsonView::Object(fields) => match lookup(fields, ARTIFACT_KEY@) {
            Some(reference) => resolved_marker(fields, reference, known),
            None => match all_ok(resolved_fields(fields, known)) {
                Ok(values) => Ok(JsonView::Object(with_values(fields, values))),
                Err(stop) => Err(stop),
            },
        },
        JsonView::Array(items) => match all_ok(resolved_items(items, known)) {
            Ok(values) => Ok(JsonView::Array(values)),
            Err(stop) => Err(stop),
        },
        _ => Ok(value),
    }
}

pub open spec fn resolved_items(items: Seq<JsonView>, known: Contents) -> Seq<
    Result<JsonView, StopView>,
>
    decreases items,
{
    Seq::new(
        items.len(),
        |i: int|
            if 0 <= i < items.len() {
                resolved_value(items[i], known)
            } else {
                Ok(JsonView::Null)
            },
    )
}

pub open spec fn resolved_fields(fields: Fields, known: Contents) -> Seq<
    Result<JsonView, StopView>,
>
    decreases fields,
{
    Seq::new(
        fields.len(),
        |i: int|
            if 0 <= i < fields.len() {
                resolved_value(fields[i].1, known)
            } else {
                Ok(JsonView::Null)
            },
    )
}

/// The payload that a marker stands for.
pub open spec fn resolved_marker(fields: Fields, reference: JsonView, known: Contents) -> Result<
    JsonView,
    StopView,
> {
    if fields.len() != 1 {
        Err(StopView::Failed(ErrorView::Protocol("invalid artifact replay marker"@)))
    } else {
        match reference_of(reference) {
            None => Err(StopView::Unreadable(reference)),
            Some(found) => match loaded(found, known) {
                Ok(content) => Ok(JsonView::Text(content.base64)),
                Err(stop) => Err(stop),
            },
        }
    }
}

/// Fields with other values under the same keys.
pub open spec fn with_values(fields: Fields, values: Seq<JsonView>) -> Fields {
    Seq::new(fields.len(), |i: int| (fields[i].0, values[i]))
}

fn resolve_marker(
    fields: &Vec<(String, Json)>,
    reference: &Json,
    known: &Vec<(String, ArtifactContent)>,
) -> (r: Result<Json, Stop>)
    ensures
        reached(r) == resolved_marker(fields.deep_view(), reference@, known.deep_view()),
{
    if fields.len() != 1 {
        return Err(Stop::Failed(protocol("invalid artifact replay marker")));
    }
    let found = match read_reference(reference) {
        Some(found) => found,
        None => {
            return Err(Stop::Unreadable(reference.clone()));
        },
    };
    let content = load(found, known)?;
    Ok(Json::Text(content.base64))
}

/// Replaces each marker in native data by the payload that it stands for.
pub fn resolve_value(value: &Json, known: &Vec<(String, ArtifactContent)>) -> (r: Result<
    Json,
    Stop,
>)
    ensures
        reached(r) == resolved_value(value@, known.deep_view()),
    decreases value,
{
    broadcast use group_json_views;

    match value {
        Json::Object(fields) => {
            match value.get(ARTIFACT_KEY) {
                Some(reference) => {
                    return resolve_marker(fields, reference, known);
                },
                None => {},
            }
            let ghost all = resolved_fields(fields.deep_view(), known.deep_view());
            let ghost mut values: Seq<JsonView> = Seq::empty();
            let mut out: Vec<(String, Json)> = Vec::new();
            let mut i: usize = 0;
            assert(all.take(0) =~= Seq::empty());
            while i < fields.len()
                invariant
                    i <= fields@.len(),
                    *value == Json::Object(*fields),
                    value@ == JsonView::Object(fields.deep_view()),
                    lookup(fields.deep_view(), ARTIFACT_KEY@) is None,
                    all == resolved_fields(fields.deep_view(), known.deep_view()),
                    all_ok(all.take(i as int)) == Ok::<Seq<JsonView>, StopView>(values),
                    values.len() == i,
                    out@.len() == i,
                    forall|j: int|
                        0 <= j < i ==> #[trigger] out.deep_view()[j] == (
                            fields.deep_view()[j].0,
                            values[j],
                        ),
                decreases fields@.len() - i,
            {
                proof {
                    field_is_smaller(*value, i as int);
                    all_ok_step(all, i as int);
                }
                let ghost before = out.deep_view();
                assert(fields.deep_view()[i as int] == (
                    fields@[i as int].0@,
                    fields@[i as int].1@,
                ));
                let item = resolve_value(&fields[i].1, known)?;
                out.push((fields[i].0.clone(), item));
                assert(out.deep_view() =~= before.push((fields@[i as int].0@, item@)));
                proof {
                    values = values.push(item@);
                }
                i += 1;
            }
            assert(all.take(all.len() as int) =~= all);
            assert(out.deep_view() =~= with_values(fields.deep_view(), values));
            Ok(Json::Object(out))
        },
        Json::Array(items) => {
            let ghost all = resolved_items(items.deep_view(), known.deep_view());
            let mut out: Vec<Json> = Vec::new();
            let mut i: usize = 0;
            assert(all.take(0) =~= Seq::empty());
            assert(out.deep_view() =~= Seq::empty());
            while i < items.len()
                invariant
                    i <= items@.len(),
                    *value == Json::Array(*items),
                    value@ == JsonView::Array(items.deep_view()),
                    all == resolved_items(items.deep_view(), known.deep_view()),
                    all_ok(all.take(i as int)) == Ok::<Seq<JsonView>, StopView>(out.deep_view()),
                decreases items@.len() - i,
            {
                proof {
                    item_is_smaller(*value, i as int);
                    all_ok_step(all, i as int);
                }
                let ghost before = out.deep_view();
                assert(items.deep_view()[i as int] == items@[i as int]@);
                let item = resolve_value(&items[i], known)?;
                out.push(item);
                assert(out.deep_view() =~= before.push(item@));
                i += 1;
            }
            assert(all.take(all.len() as int) =~= all);
            Ok(Json::Array(out))
        },
        _ => Ok(value.clone()),
    }
}

// ---------------------------------------------------------------------------------------
// Messages
// ---------------------------------------------------------------------------------------
/// A media source with a reference replaced by what it stands for.
pub open spec fn resolved_source(source: MediaSourceView, known: Contents) -> Result<
    MediaSourceView,
    StopView,
> {
    match source {
        MediaSourceView::Artifact { id, mime_type } => match loaded(
            ArtifactRefView { id, mime_type },
            known,
        ) {
            Ok(content) => Ok(
                MediaSourceView::Inline { mime_type: content.mime_type, base64: content.base64 },
            ),
            Err(stop) => Err(stop),
        },
        _ => Ok(source),
    }
}

fn resolve_source(source: &MediaSource, known: &Vec<(String, ArtifactContent)>) -> (r: Result<
    MediaSource,
    Stop,
>)
    ensures
        match resolved_source(source@, known.deep_view()) {
            Ok(s) => r is Ok && r->Ok_0@ == s,
            Err(stop) => r is Err && r->Err_0@ == stop,
        },
{
    match source {
        MediaSource::Artifact { id, mime_type } => {
            let reference = ArtifactRef { id: id.clone(), mime_type: mime_type.clone() };
            let content = load(reference, known)?;
            Ok(MediaSource::Inline { mime_type: content.mime_type, base64: content.base64 })
        },
        _ => Ok(source.clone()),
    }
}

/// The source of a media part.
pub open spec fn source_of(content: ContentView) -> Option<MediaSourceView> {
    match content {
        ContentView::Image(source) => Some(source),
        ContentView::Audio(source) => Some(source),
        ContentView::Video(source) => Some(source),
        ContentView::File { source, .. } => Some(source),
        _ => None,
    }
}

/// A media part with another source.
pub open spec fn with_source(content: ContentView, source: MediaSourceView) -> ContentView {
    match content {
        ContentView::Image(_) => ContentView::Image(source),
        ContentView::Audio(_) => ContentView::Audio(source),
        ContentView::Video(_) => ContentView::Video(source),
        ContentView::File { name, .. } => ContentView::File { source, name },
        _ => content,
    }
}

pub fn source(content: &Content) -> (r: Option<&MediaSource>)
    ensures
        match r {
            Some(s) => source_of(content@) == Some(s@),
            None => source_of(content@) is None,
        },
{
    match content {
        Content::Image(source) => Some(source),
        Content::Audio(source) => Some(source),
        Content::Video(source) => Some(source),
        Content::File { source, .. } => Some(source),
        _ => None,
    }
}

pub(crate) fn replace_source(content: &Content, source: MediaSource) -> (r: Content)
    ensures
        r@ == with_source(content@, source@),
{
    match content {
        Content::Image(_) => Content::Image(source),
        Content::Audio(_) => Content::Audio(source),
        Content::Video(_) => Content::Video(source),
        Content::File { name, .. } => Content::File {
            source,
            name: crate::message::copy_text(name),
        },
        _ => content.clone(),
    }
}

pub open spec fn resolved_content(content: ContentView, known: Contents) -> Result<
    ContentView,
    StopView,
> {
    match source_of(content) {
        Some(source) => match resolved_source(source, known) {
            Ok(found) => Ok(with_source(content, found)),
            Err(stop) => Err(stop),
        },
        None => Ok(content),
    }
}

pub fn resolve_content(content: &Content, known: &Vec<(String, ArtifactContent)>) -> (r: Result<
    Content,
    Stop,
>)
    ensures
        reached(r) == resolved_content(content@, known.deep_view()),
{
    match source(content) {
        Some(found) => {
            let resolved = resolve_source(found, known)?;
            Ok(replace_source(content, resolved))
        },
        None => Ok(content.clone()),
    }
}

pub open spec fn resolved_contents(contents: Seq<ContentView>, known: Contents) -> Result<
    Seq<ContentView>,
    StopView,
> {
    all_ok(contents.map_values(|c: ContentView| resolved_content(c, known)))
}

fn resolve_contents(contents: &Vec<Content>, known: &Vec<(String, ArtifactContent)>) -> (r: Result<
    Vec<Content>,
    Stop,
>)
    ensures
        reached(r) == resolved_contents(contents.deep_view(), known.deep_view()),
{
    let ghost all = contents.deep_view().map_values(
        |c: ContentView| resolved_content(c, known.deep_view()),
    );
    let mut out: Vec<Content> = Vec::new();
    let mut i: usize = 0;
    assert(all.take(0) =~= Seq::empty());
    assert(out.deep_view() =~= Seq::empty());
    while i < contents.len()
        invariant
            i <= contents@.len(),
            all == contents.deep_view().map_values(
                |c: ContentView| resolved_content(c, known.deep_view()),
            ),
            all_ok(all.take(i as int)) == Ok::<Seq<ContentView>, StopView>(out.deep_view()),
        decreases contents@.len() - i,
    {
        proof {
            all_ok_step(all, i as int);
        }
        let ghost before = out.deep_view();
        assert(contents.deep_view()[i as int] == contents@[i as int]@);
        let item = resolve_content(&contents[i], known)?;
        out.push(item);
        assert(out.deep_view() =~= before.push(item@));
        i += 1;
    }
    assert(all.take(all.len() as int) =~= all);
    Ok(out)
}

pub open spec fn resolved_output(output: OutputView, known: Contents) -> Result<
    OutputView,
    StopView,
> {
    match output {
        OutputView::Content(content) => match resolved_content(content, known) {
            Ok(found) => Ok(OutputView::Content(found)),
            Err(stop) => Err(stop),
        },
        OutputView::ProviderToolCall(call) => match resolved_contents(call.output, known) {
            Err(stop) => Err(stop),
            Ok(contents) => match resolved_value(call.data, known) {
                Err(stop) => Err(stop),
                Ok(data) => Ok(
                    OutputView::ProviderToolCall(
                        ProviderToolCallView { output: contents, data, ..call },
                    ),
                ),
            },
        },
        _ => Ok(output),
    }
}

pub fn resolve_output(output: &Output, known: &Vec<(String, ArtifactContent)>) -> (r: Result<
    Output,
    Stop,
>)
    ensures
        reached(r) == resolved_output(output@, known.deep_view()),
{
    match output {
        Output::Content(content) => Ok(Output::Content(resolve_content(content, known)?)),
        Output::ProviderToolCall(call) => {
            let contents = resolve_contents(&call.output, known)?;
            let data = resolve_value(&call.data, known)?;
            Ok(
                Output::ProviderToolCall(
                    ProviderToolCall {
                        id: call.id.clone(),
                        provider: call.provider.clone(),
                        name: call.name.clone(),
                        status: call.status,
                        output: contents,
                        data,
                    },
                ),
            )
        },
        _ => Ok(output.clone()),
    }
}

pub open spec fn resolved_outputs(outputs: Seq<OutputView>, known: Contents) -> Result<
    Seq<OutputView>,
    StopView,
> {
    all_ok(outputs.map_values(|o: OutputView| resolved_output(o, known)))
}

fn resolve_outputs(outputs: &Vec<Output>, known: &Vec<(String, ArtifactContent)>) -> (r: Result<
    Vec<Output>,
    Stop,
>)
    ensures
        reached(r) == resolved_outputs(outputs.deep_view(), known.deep_view()),
{
    let ghost all = outputs.deep_view().map_values(
        |o: OutputView| resolved_output(o, known.deep_view()),
    );
    let mut out: Vec<Output> = Vec::new();
    let mut i: usize = 0;
    assert(all.take(0) =~= Seq::empty());
    assert(out.deep_view() =~= Seq::empty());
    while i < outputs.len()
        invariant
            i <= outputs@.len(),
            all == outputs.deep_view().map_values(
                |o: OutputView| resolved_output(o, known.deep_view()),
            ),
            all_ok(all.take(i as int)) == Ok::<Seq<OutputView>, StopView>(out.deep_view()),
        decreases outputs@.len() - i,
    {
        proof {
            all_ok_step(all, i as int);
        }
        let ghost before = out.deep_view();
        assert(outputs.deep_view()[i as int] == outputs@[i as int]@);
        let item = resolve_output(&outputs[i], known)?;
        out.push(item);
        assert(out.deep_view() =~= before.push(item@));
        i += 1;
    }
    assert(all.take(all.len() as int) =~= all);
    Ok(out)
}

pub open spec fn resolved_outcome(outcome: RuntimeToolOutcomeView, known: Contents) -> Result<
    RuntimeToolOutcomeView,
    StopView,
> {
    match outcome {
        RuntimeToolOutcomeView::Success(content) => match resolved_contents(content, known) {
            Ok(found) => Ok(RuntimeToolOutcomeView::Success(found)),
            Err(stop) => Err(stop),
        },
        RuntimeToolOutcomeView::Accepted(content) => match resolved_contents(content, known) {
            Ok(found) => Ok(RuntimeToolOutcomeView::Accepted(found)),
            Err(stop) => Err(stop),
        },
        RuntimeToolOutcomeView::Waiting(content) => match resolved_contents(content, known) {
            Ok(found) => Ok(RuntimeToolOutcomeView::Waiting(found)),
            Err(stop) => Err(stop),
        },
        RuntimeToolOutcomeView::Failure { .. } => Ok(outcome),
    }
}

fn resolve_outcome(outcome: &RuntimeToolOutcome, known: &Vec<(String, ArtifactContent)>) -> (r:
    Result<RuntimeToolOutcome, Stop>)
    ensures
        match resolved_outcome(outcome@, known.deep_view()) {
            Ok(o) => r is Ok && r->Ok_0@ == o,
            Err(stop) => r is Err && r->Err_0@ == stop,
        },
{
    match outcome {
        RuntimeToolOutcome::Success(content) => Ok(
            RuntimeToolOutcome::Success(resolve_contents(content, known)?),
        ),
        RuntimeToolOutcome::Accepted(content) => Ok(
            RuntimeToolOutcome::Accepted(resolve_contents(content, known)?),
        ),
        RuntimeToolOutcome::Waiting(content) => Ok(
            RuntimeToolOutcome::Waiting(resolve_contents(content, known)?),
        ),
        RuntimeToolOutcome::Failure { .. } => Ok(outcome.clone()),
    }
}

pub open spec fn resolved_message(message: MessageView, known: Contents) -> Result<
    MessageView,
    StopView,
> {
    match message {
        MessageView::System(content) => match resolved_contents(content, known) {
            Ok(found) => Ok(MessageView::System(found)),
            Err(stop) => Err(stop),
        },
        MessageView::User(content) => match resolved_contents(content, known) {
            Ok(found) => Ok(MessageView::User(found)),
            Err(stop) => Err(stop),
        },
        MessageView::External(content) => match resolved_contents(content, known) {
            Ok(found) => Ok(MessageView::External(found)),
            Err(stop) => Err(stop),
        },
        MessageView::Assistant { output, provider_data } => match resolved_outputs(
            output,
            known,
        ) {
            Err(stop) => Err(stop),
            Ok(outputs) => match resolved_value(provider_data, known) {
                Err(stop) => Err(stop),
                Ok(data) => Ok(MessageView::Assistant { output: outputs, provider_data: data }),
            },
        },
        MessageView::RuntimeTool { call_id, outcome } => match resolved_outcome(outcome, known) {
            Ok(found) => Ok(MessageView::RuntimeTool { call_id, outcome: found }),
            Err(stop) => Err(stop),
        },
        MessageView::DelegationResult { .. } => Ok(message),
    }
}

pub fn resolve_message(message: &Message, known: &Vec<(String, ArtifactContent)>) -> (r: Result<
    Message,
    Stop,
>)
    ensures
        reached(r) == resolved_message(message@, known.deep_view()),
{
    match message {
        Message::System(content) => Ok(Message::System(resolve_contents(content, known)?)),
        Message::User(content) => Ok(Message::User(resolve_contents(content, known)?)),
        Message::External(content) => Ok(Message::External(resolve_contents(content, known)?)),
        Message::Assistant { output, provider_data } => {
            let outputs = resolve_outputs(output, known)?;
            let data = resolve_value(provider_data, known)?;
            Ok(Message::Assistant { output: outputs, provider_data: data })
        },
        Message::RuntimeTool { call_id, outcome } => {
            let found = resolve_outcome(outcome, known)?;
            Ok(Message::RuntimeTool { call_id: call_id.clone(), outcome: found })
        },
        Message::DelegationResult { .. } => Ok(message.clone()),
    }
}

/// The messages with every reference resolved, or the first thing to ask of the store.
pub open spec fn resolved_messages(messages: Seq<MessageView>, known: Contents) -> Result<
    Seq<MessageView>,
    StopView,
> {
    all_ok(messages.map_values(|m: MessageView| resolved_message(m, known)))
}

pub fn resolve_messages(messages: &Vec<Message>, known: &Vec<(String, ArtifactContent)>) -> (r:
    Result<Vec<Message>, Stop>)
    ensures
        reached(r) == resolved_messages(messages.deep_view(), known.deep_view()),
{
    let ghost all = messages.deep_view().map_values(
        |m: MessageView| resolved_message(m, known.deep_view()),
    );
    let mut out: Vec<Message> = Vec::new();
    let mut i: usize = 0;
    assert(all.take(0) =~= Seq::empty());
    assert(out.deep_view() =~= Seq::empty());
    while i < messages.len()
        invariant
            i <= messages@.len(),
            all == messages.deep_view().map_values(
                |m: MessageView| resolved_message(m, known.deep_view()),
            ),
            all_ok(all.take(i as int)) == Ok::<Seq<MessageView>, StopView>(out.deep_view()),
        decreases messages@.len() - i,
    {
        proof {
            all_ok_step(all, i as int);
        }
        let ghost before = out.deep_view();
        assert(messages.deep_view()[i as int] == messages@[i as int]@);
        let item = resolve_message(&messages[i], known)?;
        out.push(item);
        assert(out.deep_view() =~= before.push(item@));
        i += 1;
    }
    assert(all.take(all.len() as int) =~= all);
    Ok(out)
}

} // verus!
