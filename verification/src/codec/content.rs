//! The encoding of content parts, one shape per protocol.
use crate::encoding::{base64_encode, base64_text};
use crate::error::{all_ok, all_ok_step, fold_ok, fold_ok_step, invalid, seen, Error, ErrorView};
use crate::json::{Json, JsonView};
use crate::message::{
    Content, ContentView, Fidelity, MediaSource, MediaSourceView, Modality, ResourceInput,
    ResourceInputView, ResourceSource, ResourceSourceView, RuntimeToolCall, RuntimeToolCallView,
    RuntimeToolInput, RuntimeToolInputView, RuntimeToolOutcome, RuntimeToolOutcomeView,
};
use crate::model::Protocol;
use crate::text::{after_last, join, join4, tail_after};
use vstd::prelude::*;

verus! {

// ---------------------------------------------------------------------------------------
// Model
// ---------------------------------------------------------------------------------------
pub open spec fn data_url(media_type: Seq<char>, base64: Seq<char>) -> Seq<char> {
    "data:"@ + media_type + ";base64,"@ + base64
}

/// The URL of a media part.
pub open spec fn media_url(source: MediaSourceView) -> Result<Seq<char>, ErrorView> {
    match source {
        MediaSourceView::Url(url) => Ok(url),
        MediaSourceView::Inline { mime_type, base64 } => Ok(data_url(mime_type, base64)),
        MediaSourceView::Artifact { .. } => Err(
            ErrorView::Invalid(
                "host must resolve artifact references before model invocation"@,
            ),
        ),
    }
}

/// The URL of a resource.
pub open spec fn resource_url(input: ResourceInputView) -> Result<Seq<char>, ErrorView> {
    match input.source {
        ResourceSourceView::Url(url) => Ok(url),
        ResourceSourceView::Inline(bytes) => Ok(data_url(input.media_type, base64_text(bytes))),
        _ => Err(
            ErrorView::Invalid("resource requires resolution or provider-native encoding"@),
        ),
    }
}

pub open spec fn url_source(url: Seq<char>) -> JsonView {
    JsonView::empty().set("type"@, JsonView::text("url"@)).set("url"@, JsonView::text(url))
}

pub open spec fn base64_source(media_type: Seq<char>, base64: Seq<char>) -> JsonView {
    JsonView::empty().set("type"@, JsonView::text("base64"@)).set(
        "media_type"@,
        JsonView::text(media_type),
    ).set("data"@, JsonView::text(base64))
}

/// The `source` object of a media part in the Messages protocol.
pub open spec fn media_source(source: MediaSourceView) -> Result<JsonView, ErrorView> {
    match source {
        MediaSourceView::Url(url) => Ok(url_source(url)),
        MediaSourceView::Inline { mime_type, base64 } => Ok(base64_source(mime_type, base64)),
        MediaSourceView::Artifact { .. } => Err(
            ErrorView::Invalid("resolve artifact before model invocation"@),
        ),
    }
}

/// The `source` object of a resource in the Messages protocol.
pub open spec fn resource_source(input: ResourceInputView) -> Result<JsonView, ErrorView> {
    match input.source {
        ResourceSourceView::Url(url) => Ok(url_source(url)),
        ResourceSourceView::Inline(bytes) => Ok(
            base64_source(input.media_type, base64_text(bytes)),
        ),
        _ => Err(ErrorView::Invalid("resource must be resolved before encoding"@)),
    }
}

pub open spec fn optional_text(text: Option<Seq<char>>) -> JsonView {
    match text {
        Some(s) => JsonView::text(s),
        None => JsonView::Null,
    }
}

/// A part with a type and one more field.
pub open spec fn part(kind: Seq<char>, key: Seq<char>, value: JsonView) -> JsonView {
    JsonView::empty().set("type"@, JsonView::text(kind)).set(key, value)
}

pub open spec fn file_object(name: Option<Seq<char>>, url: Seq<char>) -> JsonView {
    JsonView::empty().set("filename"@, optional_text(name)).set("file_data"@, JsonView::text(url))
}

pub open spec fn audio_object(base64: Seq<char>, media_type: Seq<char>) -> JsonView {
    JsonView::empty().set("data"@, JsonView::text(base64)).set(
        "format"@,
        JsonView::text(after_last(media_type, '/')),
    )
}

pub open spec fn input_file(name: Option<Seq<char>>, url: Seq<char>) -> JsonView {
    part("input_file"@, "filename"@, optional_text(name)).set("file_data"@, JsonView::text(url))
}

pub open spec fn document(source: JsonView, name: Option<Seq<char>>) -> JsonView {
    part("document"@, "source"@, source).set("title"@, optional_text(name))
}

/// How a fidelity is named on the wire.
pub open spec fn detail(fidelity: Fidelity) -> Seq<char> {
    match fidelity {
        Fidelity::Economy => "low"@,
        Fidelity::High => "high"@,
        Fidelity::Original => "original"@,
    }
}

pub open spec fn with_detail(value: JsonView, fidelity: Option<Fidelity>) -> JsonView {
    match fidelity {
        Some(f) => value.set("detail"@, JsonView::text(detail(f))),
        None => value,
    }
}

pub open spec fn unsupported() -> ErrorView {
    ErrorView::Invalid("unsupported media for selected protocol"@)
}

/// A file part of a URL or of inline data.
pub open spec fn media_file(
    protocol: Protocol,
    source: MediaSourceView,
    name: Option<Seq<char>>,
) -> Result<JsonView, ErrorView> {
    match protocol {
        Protocol::Chat => match media_url(source) {
            Ok(url) => Ok(part("file"@, "file"@, file_object(name, url))),
            Err(e) => Err(e),
        },
        Protocol::Responses => match source {
            MediaSourceView::Url(url) => Ok(
                part("input_file"@, "file_url"@, JsonView::text(url)),
            ),
            _ => match media_url(source) {
                Ok(url) => Ok(input_file(name, url)),
                Err(e) => Err(e),
            },
        },
        Protocol::Messages => match media_source(source) {
            Ok(value) => Ok(document(value, name)),
            Err(e) => Err(e),
        },
    }
}

pub open spec fn media_image(protocol: Protocol, source: MediaSourceView) -> Result<
    JsonView,
    ErrorView,
> {
    match protocol {
        Protocol::Chat => match media_url(source) {
            Ok(url) => Ok(
                part(
                    "image_url"@,
                    "image_url"@,
                    JsonView::empty().set("url"@, JsonView::text(url)),
                ),
            ),
            Err(e) => Err(e),
        },
        Protocol::Responses => match media_url(source) {
            Ok(url) => Ok(part("input_image"@, "image_url"@, JsonView::text(url))),
            Err(e) => Err(e),
        },
        Protocol::Messages => match media_source(source) {
            Ok(value) => Ok(part("image"@, "source"@, value)),
            Err(e) => Err(e),
        },
    }
}

/// A resource, before its extension fields.
pub open spec fn resource_part(protocol: Protocol, input: ResourceInputView) -> Result<
    JsonView,
    ErrorView,
> {
    let modality_error = ErrorView::Invalid("unsupported resource modality"@);
    match protocol {
        Protocol::Chat => match input.modality {
            Modality::Image => match resource_url(input) {
                Ok(url) => Ok(
                    part(
                        "image_url"@,
                        "image_url"@,
                        with_detail(
                            JsonView::empty().set("url"@, JsonView::text(url)),
                            input.fidelity,
                        ),
                    ),
                ),
                Err(e) => Err(e),
            },
            Modality::File => match resource_url(input) {
                Ok(url) => Ok(part("file"@, "file"@, file_object(input.name, url))),
                Err(e) => Err(e),
            },
            Modality::Audio => match input.source {
                ResourceSourceView::Inline(bytes) => Ok(
                    part(
                        "input_audio"@,
                        "input_audio"@,
                        audio_object(base64_text(bytes), input.media_type),
                    ),
                ),
                _ => Err(ErrorView::Invalid("chat audio requires inline binary input"@)),
            },
            _ => Err(modality_error),
        },
        Protocol::Responses => match input.modality {
            Modality::Image => match resource_url(input) {
                Ok(url) => Ok(
                    with_detail(
                        part("input_image"@, "image_url"@, JsonView::text(url)),
                        input.fidelity,
                    ),
                ),
                Err(e) => Err(e),
            },
            Modality::File => match input.source {
                ResourceSourceView::Url(url) => Ok(
                    part("input_file"@, "file_url"@, JsonView::text(url)),
                ),
                ResourceSourceView::Provider { reference, .. } => Ok(
                    part("input_file"@, "file_id"@, JsonView::text(reference)),
                ),
                _ => match resource_url(input) {
                    Ok(url) => Ok(input_file(input.name, url)),
                    Err(e) => Err(e),
                },
            },
            _ => Err(modality_error),
        },
        Protocol::Messages => match resource_source(input) {
            Err(e) => Err(e),
            Ok(source) => match input.modality {
                Modality::Image => Ok(part("image"@, "source"@, source)),
                Modality::File => Ok(document(source, input.name)),
                _ => Err(modality_error),
            },
        },
    }
}

/// Adds a field that must not be there yet.
pub open spec fn add_field(target: JsonView, field: (Seq<char>, JsonView)) -> Result<
    JsonView,
    ErrorView,
> {
    if target.has(field.0) {
        Err(ErrorView::Invalid("resource extension overrides controlled field "@ + field.0))
    } else {
        Ok(target.set(field.0, field.1))
    }
}

pub open spec fn add_field_step() -> spec_fn(JsonView, (Seq<char>, JsonView)) -> Result<
    JsonView,
    ErrorView,
> {
    |target: JsonView, field: (Seq<char>, JsonView)| add_field(target, field)
}

/// Adds the fields that a resource holds for the protocol.
pub open spec fn extended(input: ResourceInputView, protocol: Protocol, target: JsonView) -> Result<
    JsonView,
    ErrorView,
> {
    match input.extensions.get_object(protocol.name()) {
        Some(fields) => fold_ok(fields, target, add_field_step()),
        None => Ok(target),
    }
}

/// The encoding of one content part. `output` tells what a model said from what it was told.
pub open spec fn content_json(protocol: Protocol, content: ContentView, output: bool) -> Result<
    JsonView,
    ErrorView,
> {
    match content {
        ContentView::Text(text) => Ok(
            part(
                if protocol != Protocol::Responses {
                    "text"@
                } else if output {
                    "output_text"@
                } else {
                    "input_text"@
                },
                "text"@,
                JsonView::text(text),
            ),
        ),
        ContentView::Opaque { data, .. } => Ok(data),
        ContentView::Image(source) => media_image(protocol, source),
        ContentView::File { source, name } => media_file(protocol, source, name),
        ContentView::Audio(source) => match source {
            MediaSourceView::Inline { mime_type, base64 } => if protocol == Protocol::Chat {
                Ok(part("input_audio"@, "input_audio"@, audio_object(base64, mime_type)))
            } else {
                Err(unsupported())
            },
            _ => Err(unsupported()),
        },
        ContentView::Video(_) => Err(unsupported()),
        ContentView::Resource(input) => match resource_part(protocol, input) {
            Ok(value) => extended(input, protocol, value),
            Err(e) => Err(e),
        },
    }
}

pub open spec fn content_results(
    protocol: Protocol,
    contents: Seq<ContentView>,
    output: bool,
) -> Seq<Result<JsonView, ErrorView>> {
    contents.map_values(|c: ContentView| content_json(protocol, c, output))
}

/// The encodings of all parts, or the first error.
pub open spec fn parts_json(protocol: Protocol, contents: Seq<ContentView>, output: bool) -> Result<
    Seq<JsonView>,
    ErrorView,
> {
    all_ok(content_results(protocol, contents, output))
}

/// What a tool reports back: its content, or the message of its failure.
pub open spec fn outcome_content(outcome: RuntimeToolOutcomeView) -> Seq<ContentView> {
    match outcome {
        RuntimeToolOutcomeView::Success(content) => content,
        RuntimeToolOutcomeView::Accepted(content) => content,
        RuntimeToolOutcomeView::Waiting(content) => content,
        RuntimeToolOutcomeView::Failure { message, .. } => seq![ContentView::Text(message)],
    }
}

pub open spec fn only_text(contents: Seq<ContentView>) -> bool {
    forall|i: int| 0 <= i < contents.len() ==> (#[trigger] contents[i]) is Text
}

/// The texts of the parts, a line break between them.
pub open spec fn lines(contents: Seq<ContentView>) -> Seq<char>
    decreases contents.len(),
{
    if contents.len() == 0 {
        Seq::empty()
    } else if contents.len() == 1 {
        contents[0]->Text_0
    } else {
        lines(contents.drop_last()) + "\n"@ + contents.last()->Text_0
    }
}

/// A tool result where the protocol takes a text: the lines, or the encoded parts where one
/// is no text.
pub open spec fn result_json(protocol: Protocol, outcome: RuntimeToolOutcomeView) -> Result<
    JsonView,
    ErrorView,
> {
    let contents = outcome_content(outcome);
    if only_text(contents) {
        Ok(JsonView::text(lines(contents)))
    } else {
        match parts_json(protocol, contents, false) {
            Ok(values) => Ok(JsonView::Array(values)),
            Err(e) => Err(e),
        }
    }
}

/// The input of a call as text.
pub open spec fn call_text(call: RuntimeToolCallView) -> Seq<char> {
    match call.input {
        RuntimeToolInputView::Structured(value) => crate::json::printed(value),
        RuntimeToolInputView::Freeform(text) => text,
    }
}

// ---------------------------------------------------------------------------------------
// Code
// ---------------------------------------------------------------------------------------
fn make_data_url(media_type: &str, base64: &str) -> (r: String)
    ensures
        r@ == data_url(media_type@, base64@),
{
    join4("data:", media_type, ";base64,", base64)
}

fn make_media_url(source: &MediaSource) -> (r: Result<String, Error>)
    ensures
        seen(r) == media_url(source@),
{
    match source {
        MediaSource::Url(url) => Ok(url.clone()),
        MediaSource::Inline { mime_type, base64 } => Ok(
            make_data_url(mime_type.as_str(), base64.as_str()),
        ),
        MediaSource::Artifact { .. } => Err(
            invalid("host must resolve artifact references before model invocation"),
        ),
    }
}

fn make_resource_url(input: &ResourceInput) -> (r: Result<String, Error>)
    ensures
        seen(r) == resource_url(input@),
{
    match &input.source {
        ResourceSource::Url(url) => Ok(url.clone()),
        ResourceSource::Inline(bytes) => {
            let data = base64_encode(bytes.as_slice());
            Ok(make_data_url(input.media_type.as_str(), data.as_str()))
        },
        _ => Err(invalid("resource requires resolution or provider-native encoding")),
    }
}

fn make_url_source(url: &str) -> (r: Json)
    ensures
        r@ == url_source(url@),
{
    Json::empty().with_text("type", "url").with_text("url", url)
}

fn make_base64_source(media_type: &str, base64: &str) -> (r: Json)
    ensures
        r@ == base64_source(media_type@, base64@),
{
    Json::empty().with_text("type", "base64").with_text("media_type", media_type).with_text(
        "data",
        base64,
    )
}

fn make_media_source(source: &MediaSource) -> (r: Result<Json, Error>)
    ensures
        seen(r) == media_source(source@),
{
    match source {
        MediaSource::Url(url) => Ok(make_url_source(url.as_str())),
        MediaSource::Inline { mime_type, base64 } => Ok(
            make_base64_source(mime_type.as_str(), base64.as_str()),
        ),
        MediaSource::Artifact { .. } => Err(invalid("resolve artifact before model invocation")),
    }
}

fn make_resource_source(input: &ResourceInput) -> (r: Result<Json, Error>)
    ensures
        seen(r) == resource_source(input@),
{
    match &input.source {
        ResourceSource::Url(url) => Ok(make_url_source(url.as_str())),
        ResourceSource::Inline(bytes) => {
            let data = base64_encode(bytes.as_slice());
            Ok(make_base64_source(input.media_type.as_str(), data.as_str()))
        },
        _ => Err(invalid("resource must be resolved before encoding")),
    }
}

fn make_optional_text(text: &Option<String>) -> (r: Json)
    ensures
        r@ == optional_text(text.deep_view()),
{
    match text {
        Some(s) => Json::text(s.as_str()),
        None => Json::Null,
    }
}

pub fn make_part(kind: &str, key: &str, value: Json) -> (r: Json)
    ensures
        r@ == part(kind@, key@, value@),
{
    Json::empty().with_text("type", kind).with(key, value)
}

fn make_file_object(name: &Option<String>, url: &str) -> (r: Json)
    ensures
        r@ == file_object(name.deep_view(), url@),
{
    Json::empty().with("filename", make_optional_text(name)).with_text("file_data", url)
}

fn make_audio_object(base64: &str, media_type: &str) -> (r: Json)
    ensures
        r@ == audio_object(base64@, media_type@),
{
    let format = tail_after(media_type, '/');
    Json::empty().with_text("data", base64).with_text("format", format.as_str())
}

fn make_input_file(name: &Option<String>, url: &str) -> (r: Json)
    ensures
        r@ == input_file(name.deep_view(), url@),
{
    make_part("input_file", "filename", make_optional_text(name)).with_text("file_data", url)
}

fn make_document(source: Json, name: &Option<String>) -> (r: Json)
    ensures
        r@ == document(source@, name.deep_view()),
{
    make_part("document", "source", source).with("title", make_optional_text(name))
}

fn add_detail(value: Json, fidelity: Option<Fidelity>) -> (r: Json)
    requires
        value@.assignable(),
    ensures
        r@ == with_detail(value@, fidelity),
{
    match fidelity {
        Some(Fidelity::Economy) => value.with_text("detail", "low"),
        Some(Fidelity::High) => value.with_text("detail", "high"),
        Some(Fidelity::Original) => value.with_text("detail", "original"),
        None => value,
    }
}

fn make_media_file(protocol: Protocol, source: &MediaSource, name: &Option<String>) -> (r: Result<
    Json,
    Error,
>)
    ensures
        seen(r) == media_file(protocol, source@, name.deep_view()),
{
    match protocol {
        Protocol::Chat => {
            let url = make_media_url(source)?;
            Ok(make_part("file", "file", make_file_object(name, url.as_str())))
        },
        Protocol::Responses => match source {
            MediaSource::Url(url) => Ok(
                make_part("input_file", "file_url", Json::text(url.as_str())),
            ),
            _ => {
                let url = make_media_url(source)?;
                Ok(make_input_file(name, url.as_str()))
            },
        },
        Protocol::Messages => {
            let value = make_media_source(source)?;
            Ok(make_document(value, name))
        },
    }
}

fn make_media_image(protocol: Protocol, source: &MediaSource) -> (r: Result<Json, Error>)
    ensures
        seen(r) == media_image(protocol, source@),
{
    match protocol {
        Protocol::Chat => {
            let url = make_media_url(source)?;
            Ok(
                make_part(
                    "image_url",
                    "image_url",
                    Json::empty().with_text("url", url.as_str()),
                ),
            )
        },
        Protocol::Responses => {
            let url = make_media_url(source)?;
            Ok(make_part("input_image", "image_url", Json::text(url.as_str())))
        },
        Protocol::Messages => {
            let value = make_media_source(source)?;
            Ok(make_part("image", "source", value))
        },
    }
}

fn make_resource_part(protocol: Protocol, input: &ResourceInput) -> (r: Result<Json, Error>)
    ensures
        seen(r) == resource_part(protocol, input@),
{
    match protocol {
        Protocol::Chat => match input.modality {
            Modality::Image => {
                let url = make_resource_url(input)?;
                let image = Json::empty().with_text("url", url.as_str());
                Ok(make_part("image_url", "image_url", add_detail(image, input.fidelity)))
            },
            Modality::File => {
                let url = make_resource_url(input)?;
                Ok(make_part("file", "file", make_file_object(&input.name, url.as_str())))
            },
            Modality::Audio => match &input.source {
                ResourceSource::Inline(bytes) => {
                    let data = base64_encode(bytes.as_slice());
                    Ok(
                        make_part(
                            "input_audio",
                            "input_audio",
                            make_audio_object(data.as_str(), input.media_type.as_str()),
                        ),
                    )
                },
                _ => Err(invalid("chat audio requires inline binary input")),
            },
            _ => Err(invalid("unsupported resource modality")),
        },
        Protocol::Responses => match input.modality {
            Modality::Image => {
                let url = make_resource_url(input)?;
                let value = make_part("input_image", "image_url", Json::text(url.as_str()));
                Ok(add_detail(value, input.fidelity))
            },
            Modality::File => match &input.source {
                ResourceSource::Url(url) => Ok(
                    make_part("input_file", "file_url", Json::text(url.as_str())),
                ),
                ResourceSource::Provider { reference, .. } => Ok(
                    make_part("input_file", "file_id", Json::text(reference.as_str())),
                ),
                _ => {
                    let url = make_resource_url(input)?;
                    Ok(make_input_file(&input.name, url.as_str()))
                },
            },
            _ => Err(invalid("unsupported resource modality")),
        },
        Protocol::Messages => {
            let source = make_resource_source(input)?;
            match input.modality {
                Modality::Image => Ok(make_part("image", "source", source)),
                Modality::File => Ok(make_document(source, &input.name)),
                _ => Err(invalid("unsupported resource modality")),
            }
        },
    }
}

fn resource_extensions(input: &ResourceInput, protocol: Protocol, target: Json) -> (r: Result<
    Json,
    Error,
>)
    requires
        target@.assignable(),
    ensures
        seen(r) == extended(input@, protocol, target@),
{
    match input.extensions.get_object(protocol.key()) {
        Some(fields) => {
            let ghost all = fields.deep_view();
            let ghost start = target@;
            let mut out = target;
            let mut i: usize = 0;
            assert(all.take(0) =~= Seq::empty());
            while i < fields.len()
                invariant
                    i <= fields@.len(),
                    all == fields.deep_view(),
                    start == target@,
                    out@.assignable(),
                    fold_ok(all.take(i as int), start, add_field_step()) == Ok::<
                        JsonView,
                        ErrorView,
                    >(out@),
                    input@.extensions.get_object(protocol.name()) == Some(all),
                    extended(input@, protocol, start) == fold_ok(all, start, add_field_step()),
                decreases fields@.len() - i,
            {
                proof {
                    fold_ok_step(all, start, add_field_step(), i as int);
                    assert(all[i as int] == (fields@[i as int].0@, fields@[i as int].1@));
                }
                if out.has(fields[i].0.as_str()) {
                    return Err(
                        Error::Invalid(
                            join(
                                "resource extension overrides controlled field ",
                                fields[i].0.as_str(),
                            ),
                        ),
                    );
                }
                out.set(fields[i].0.as_str(), fields[i].1.clone());
                i += 1;
            }
            assert(all.take(all.len() as int) =~= all);
            Ok(out)
        },
        None => Ok(target),
    }
}

/// Encodes one content part.
pub fn content(protocol: Protocol, value: &Content, output: bool) -> (r: Result<Json, Error>)
    ensures
        seen(r) == content_json(protocol, value@, output),
{
    match value {
        Content::Text(text) => {
            let kind = match protocol {
                Protocol::Responses => if output {
                    "output_text"
                } else {
                    "input_text"
                },
                _ => "text",
            };
            Ok(make_part(kind, "text", Json::text(text.as_str())))
        },
        Content::Opaque { data, .. } => Ok(data.clone()),
        Content::Image(source) => make_media_image(protocol, source),
        Content::File { source, name } => make_media_file(protocol, source, name),
        Content::Audio(source) => match source {
            MediaSource::Inline { mime_type, base64 } => match protocol {
                Protocol::Chat => Ok(
                    make_part(
                        "input_audio",
                        "input_audio",
                        make_audio_object(base64.as_str(), mime_type.as_str()),
                    ),
                ),
                _ => Err(invalid("unsupported media for selected protocol")),
            },
            _ => Err(invalid("unsupported media for selected protocol")),
        },
        Content::Video(_) => Err(invalid("unsupported media for selected protocol")),
        Content::Resource(input) => {
            let value = make_resource_part(protocol, input)?;
            resource_extensions(input, protocol, value)
        },
    }
}

/// Encodes content parts in order, up to the first that cannot be encoded.
pub fn parts(protocol: Protocol, values: &Vec<Content>, output: bool) -> (r: Result<
    Vec<Json>,
    Error,
>)
    ensures
        seen(r) == parts_json(protocol, values.deep_view(), output),
{
    let ghost results = content_results(protocol, values.deep_view(), output);
    let mut out: Vec<Json> = Vec::new();
    let mut i: usize = 0;
    assert(results.take(0) =~= Seq::empty());
    assert(out.deep_view() =~= Seq::empty());
    while i < values.len()
        invariant
            i <= values@.len(),
            results == content_results(protocol, values.deep_view(), output),
            all_ok(results.take(i as int)) == Ok::<Seq<JsonView>, ErrorView>(out.deep_view()),
        decreases values@.len() - i,
    {
        proof {
            all_ok_step(results, i as int);
            assert(results[i as int] == content_json(protocol, values@[i as int]@, output));
        }
        let ghost before = out.deep_view();
        let value = content(protocol, &values[i], output)?;
        out.push(value);
        assert(out.deep_view() =~= before.push(value@));
        i += 1;
    }
    assert(results.take(results.len() as int) =~= results);
    Ok(out)
}

/// Whether every part is a text.
fn all_text(values: &Vec<Content>) -> (r: bool)
    ensures
        r == only_text(values.deep_view()),
{
    let mut i: usize = 0;
    while i < values.len()
        invariant
            i <= values@.len(),
            forall|j: int| 0 <= j < i ==> (#[trigger] values.deep_view()[j]) is Text,
        decreases values@.len() - i,
    {
        match &values[i] {
            Content::Text(_) => {},
            _ => {
                assert(!(values.deep_view()[i as int] is Text));
                return false;
            },
        }
        i += 1;
    }
    true
}

fn join_lines(values: &Vec<Content>) -> (r: String)
    requires
        only_text(values.deep_view()),
    ensures
        r@ == lines(values.deep_view()),
{
    let ghost all = values.deep_view();
    let mut out = String::new();
    let mut i: usize = 0;
    assert(all.take(0) =~= Seq::empty());
    assert(out@ =~= lines(all.take(0)));
    while i < values.len()
        invariant
            i <= values@.len(),
            all == values.deep_view(),
            only_text(all),
            out@ == lines(all.take(i as int)),
        decreases values@.len() - i,
    {
        proof {
            let next = all.take(i + 1);
            assert(next.drop_last() =~= all.take(i as int));
            assert(next.last() == all[i as int]);
            assert(all[i as int] is Text);
            if i == 0 {
                assert(next[0] == all[0]);
            }
        }
        match &values[i] {
            Content::Text(text) => {
                if i > 0 {
                    out.append("\n");
                }
                out.append(text.as_str());
                assert(out@ =~= lines(all.take(i + 1)));
            },
            _ => {},
        }
        i += 1;
    }
    assert(all.take(all.len() as int) =~= all);
    out
}

/// Encodes a tool result where the protocol takes a text.
pub fn result_content(protocol: Protocol, outcome: &RuntimeToolOutcome) -> (r: Result<Json, Error>)
    ensures
        seen(r) == result_json(protocol, outcome@),
{
    match outcome {
        RuntimeToolOutcome::Failure { message, .. } => {
            assert(outcome_content(outcome@) =~= seq![ContentView::Text(message@)]);
            assert(lines(outcome_content(outcome@)) == message@);
            Ok(Json::text(message.as_str()))
        },
        RuntimeToolOutcome::Success(content) => text_or_parts(protocol, content),
        RuntimeToolOutcome::Accepted(content) => text_or_parts(protocol, content),
        RuntimeToolOutcome::Waiting(content) => text_or_parts(protocol, content),
    }
}

fn text_or_parts(protocol: Protocol, values: &Vec<Content>) -> (r: Result<Json, Error>)
    ensures
        seen(r) == result_json(protocol, RuntimeToolOutcomeView::Success(values.deep_view())),
{
    if all_text(values) {
        let text = join_lines(values);
        return Ok(Json::text(text.as_str()));
    }
    let encoded = parts(protocol, values, false)?;
    Ok(Json::array(encoded))
}

/// Encodes a tool result as parts.
pub fn outcome_parts(protocol: Protocol, outcome: &RuntimeToolOutcome) -> (r: Result<
    Vec<Json>,
    Error,
>)
    ensures
        seen(r) == parts_json(protocol, outcome_content(outcome@), false),
{
    match outcome {
        RuntimeToolOutcome::Failure { message, .. } => {
            let mut contents: Vec<Content> = Vec::new();
            contents.push(Content::Text(message.clone()));
            assert(contents.deep_view() =~= outcome_content(outcome@));
            parts(protocol, &contents, false)
        },
        RuntimeToolOutcome::Success(content) => parts(protocol, content, false),
        RuntimeToolOutcome::Accepted(content) => parts(protocol, content, false),
        RuntimeToolOutcome::Waiting(content) => parts(protocol, content, false),
    }
}

/// The input of a call as text.
pub fn call_input(call: &RuntimeToolCall) -> (r: String)
    ensures
        r@ == call_text(call@),
{
    match &call.input {
        RuntimeToolInput::Structured(value) => value.print(),
        RuntimeToolInput::Freeform(text) => text.clone(),
    }
}

} // verus!
