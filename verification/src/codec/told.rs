//! What a request tells the model: that everything said in a conversation stands in the
//! encoded request, where the protocol looks for it.
use crate::codec::content::{
    add_field_step, content_json, content_results, extended, lines, only_text, parts_json,
    resource_part,
};
use crate::codec::encode::{
    assembled_item, assembled_step, assistant_json, encoded_message, encoded_messages, encoded_step,
    flushed, freeform_ids, history_at, nothing_assembled, nothing_encoded, role_message,
    with_history, Assembled, Encoded, History,
};
use crate::codec::replay::assistant_replayed;
use crate::encoding::base64_text;
use crate::error::{all_ok_each, all_ok_from, fold_ok, ErrorView};
use crate::extension::{answer_at, AnswerView};
use crate::json::{printed, set_get, Fields, JsonView};
use crate::message::{
    ContentView, Fidelity, MediaSourceView, MessageView, Modality, OutputView, ResourceInputView,
    ResourceSourceView, RuntimeToolCallView, RuntimeToolInputView, RuntimeToolOutcomeView,
};
use crate::model::Protocol;
use crate::streaming::fields::{stands_nowhere, stands_once};
use crate::text::the_tail_is_behind_the_last_separator;
use vstd::prelude::*;

verus! {

// ---------------------------------------------------------------------------------------
// Parts
// ---------------------------------------------------------------------------------------
proof fn part_words_differ()
    ensures
        "type"@ != "text"@,
        "type"@ != "image_url"@,
        "type"@ != "url"@,
        "type"@ != "source"@,
        "type"@ != "media_type"@,
        "type"@ != "data"@,
        "type"@ != "file"@,
        "type"@ != "filename"@,
        "type"@ != "file_data"@,
        "type"@ != "file_url"@,
        "type"@ != "file_id"@,
        "type"@ != "input_audio"@,
        "type"@ != "format"@,
        "type"@ != "title"@,
        "type"@ != "detail"@,
        "text"@ != "image_url"@,
        "text"@ != "url"@,
        "text"@ != "source"@,
        "text"@ != "media_type"@,
        "text"@ != "data"@,
        "text"@ != "file"@,
        "text"@ != "filename"@,
        "text"@ != "file_data"@,
        "text"@ != "file_url"@,
        "text"@ != "file_id"@,
        "text"@ != "input_audio"@,
        "text"@ != "format"@,
        "text"@ != "title"@,
        "text"@ != "detail"@,
        "image_url"@ != "url"@,
        "image_url"@ != "source"@,
        "image_url"@ != "media_type"@,
        "image_url"@ != "data"@,
        "image_url"@ != "file"@,
        "image_url"@ != "filename"@,
        "image_url"@ != "file_data"@,
        "image_url"@ != "file_url"@,
        "image_url"@ != "file_id"@,
        "image_url"@ != "input_audio"@,
        "image_url"@ != "format"@,
        "image_url"@ != "title"@,
        "image_url"@ != "detail"@,
        "url"@ != "source"@,
        "url"@ != "media_type"@,
        "url"@ != "data"@,
        "url"@ != "file"@,
        "url"@ != "filename"@,
        "url"@ != "file_data"@,
        "url"@ != "file_url"@,
        "url"@ != "file_id"@,
        "url"@ != "input_audio"@,
        "url"@ != "format"@,
        "url"@ != "title"@,
        "url"@ != "detail"@,
        "source"@ != "media_type"@,
        "source"@ != "data"@,
        "source"@ != "file"@,
        "source"@ != "filename"@,
        "source"@ != "file_data"@,
        "source"@ != "file_url"@,
        "source"@ != "file_id"@,
        "source"@ != "input_audio"@,
        "source"@ != "format"@,
        "source"@ != "title"@,
        "source"@ != "detail"@,
        "media_type"@ != "data"@,
        "media_type"@ != "file"@,
        "media_type"@ != "filename"@,
        "media_type"@ != "file_data"@,
        "media_type"@ != "file_url"@,
        "media_type"@ != "file_id"@,
        "media_type"@ != "input_audio"@,
        "media_type"@ != "format"@,
        "media_type"@ != "title"@,
        "media_type"@ != "detail"@,
        "data"@ != "file"@,
        "data"@ != "filename"@,
        "data"@ != "file_data"@,
        "data"@ != "file_url"@,
        "data"@ != "file_id"@,
        "data"@ != "input_audio"@,
        "data"@ != "format"@,
        "data"@ != "title"@,
        "data"@ != "detail"@,
        "file"@ != "filename"@,
        "file"@ != "file_data"@,
        "file"@ != "file_url"@,
        "file"@ != "file_id"@,
        "file"@ != "input_audio"@,
        "file"@ != "format"@,
        "file"@ != "title"@,
        "file"@ != "detail"@,
        "filename"@ != "file_data"@,
        "filename"@ != "file_url"@,
        "filename"@ != "file_id"@,
        "filename"@ != "input_audio"@,
        "filename"@ != "format"@,
        "filename"@ != "title"@,
        "filename"@ != "detail"@,
        "file_data"@ != "file_url"@,
        "file_data"@ != "file_id"@,
        "file_data"@ != "input_audio"@,
        "file_data"@ != "format"@,
        "file_data"@ != "title"@,
        "file_data"@ != "detail"@,
        "file_url"@ != "file_id"@,
        "file_url"@ != "input_audio"@,
        "file_url"@ != "format"@,
        "file_url"@ != "title"@,
        "file_url"@ != "detail"@,
        "file_id"@ != "input_audio"@,
        "file_id"@ != "format"@,
        "file_id"@ != "title"@,
        "file_id"@ != "detail"@,
        "input_audio"@ != "format"@,
        "input_audio"@ != "title"@,
        "input_audio"@ != "detail"@,
        "format"@ != "title"@,
        "format"@ != "detail"@,
        "title"@ != "detail"@,
{
    reveal_strlit("type");
    reveal_strlit("text");
    reveal_strlit("image_url");
    reveal_strlit("url");
    reveal_strlit("source");
    reveal_strlit("media_type");
    reveal_strlit("data");
    reveal_strlit("file");
    reveal_strlit("filename");
    reveal_strlit("file_data");
    reveal_strlit("file_url");
    reveal_strlit("file_id");
    reveal_strlit("input_audio");
    reveal_strlit("format");
    reveal_strlit("title");
    reveal_strlit("detail");
    assert("type"@.len() == 4);
    assert("text"@.len() == 4);
    assert("image_url"@.len() == 9);
    assert("url"@.len() == 3);
    assert("source"@.len() == 6);
    assert("media_type"@.len() == 10);
    assert("data"@.len() == 4);
    assert("file"@.len() == 4);
    assert("filename"@.len() == 8);
    assert("file_data"@.len() == 9);
    assert("file_url"@.len() == 8);
    assert("file_id"@.len() == 7);
    assert("input_audio"@.len() == 11);
    assert("format"@.len() == 6);
    assert("title"@.len() == 5);
    assert("detail"@.len() == 6);
    assert("type"@[1] != "text"@[1]);
    assert("type"@[0] != "data"@[0]);
    assert("type"@[0] != "file"@[0]);
    assert("text"@[0] != "data"@[0]);
    assert("text"@[0] != "file"@[0]);
    assert("image_url"@[0] != "file_data"@[0]);
    assert("source"@[0] != "format"@[0]);
    assert("source"@[0] != "detail"@[0]);
    assert("data"@[0] != "file"@[0]);
    assert("filename"@[4] != "file_url"@[4]);
    assert("format"@[0] != "detail"@[0]);
}

/// A text part holds exactly its text, and is named as a text: in the Responses protocol as
/// what the model said or as what it was told.
pub proof fn text_parts_hold_their_text(protocol: Protocol, text: Seq<char>, output: bool)
    ensures
        content_json(protocol, ContentView::Text(text), output) matches Ok(value) && {
            &&& value.get_str("text"@) == Some(text)
            &&& value.get_str("type"@) == Some(
                match protocol {
                    Protocol::Responses => if output {
                        "output_text"@
                    } else {
                        "input_text"@
                    },
                    _ => "text"@,
                },
            )
        },
{
    broadcast use set_get;

    part_words_differ();
}

/// Whether parts tell a content: one part for each of its parts, in order, and for a text one
/// that holds exactly that text.
pub open spec fn tells(parts: Seq<JsonView>, contents: Seq<ContentView>) -> bool {
    &&& parts.len() == contents.len()
    &&& forall|i: int|
        0 <= i < contents.len() ==> (contents[i] matches ContentView::Text(text) ==> (
        #[trigger] parts[i]).get_str("text"@) == Some(text))
    &&& forall|i: int|
        0 <= i < contents.len() ==> (contents[i] matches ContentView::Opaque { data, .. }
            ==> #[trigger] parts[i] == data)
}

/// The parts of a content are told one by one, in order. Texts are always told.
pub proof fn contents_are_told(protocol: Protocol, contents: Seq<ContentView>, output: bool)
    ensures
        parts_json(protocol, contents, output) matches Ok(parts) ==> tells(parts, contents),
        only_text(contents) ==> parts_json(protocol, contents, output) is Ok,
{
    let results = content_results(protocol, contents, output);
    if only_text(contents) {
        let values = Seq::new(
            contents.len(),
            |i: int| content_json(protocol, contents[i], output)->Ok_0,
        );
        assert forall|i: int| 0 <= i < results.len() implies #[trigger] results[i] == Ok::<
            JsonView,
            ErrorView,
        >(values[i]) by {
            assert(contents[i] is Text);
        }
        all_ok_from(results, values);
    }
    if let Ok(parts) = parts_json(protocol, contents, output) {
        all_ok_each(results);
        assert forall|i: int| 0 <= i < contents.len() implies (contents[i]
            matches ContentView::Text(text) ==> (#[trigger] parts[i]).get_str("text"@) == Some(
            text,
        )) by {
            assert(results[i] == Ok::<JsonView, ErrorView>(parts[i]));
            if let ContentView::Text(text) = contents[i] {
                text_parts_hold_their_text(protocol, text, output);
            }
        }
        assert forall|i: int| 0 <= i < contents.len() implies (contents[i]
            matches ContentView::Opaque { data, .. } ==> #[trigger] parts[i] == data) by {
            assert(results[i] == Ok::<JsonView, ErrorView>(parts[i]));
        }
    }
}

/// Whether an image part shows what is at a URL.
pub open spec fn shows(protocol: Protocol, part: JsonView, url: Seq<char>) -> bool {
    match protocol {
        Protocol::Chat => part.get_str("type"@) == Some("image_url"@) && part.field(
            "image_url"@,
        ).get_str("url"@) == Some(url),
        Protocol::Responses => part.get_str("type"@) == Some("input_image"@) && part.get_str(
            "image_url"@,
        ) == Some(url),
        Protocol::Messages => part.get_str("type"@) == Some("image"@) && part.field(
            "source"@,
        ).get_str("type"@) == Some("url"@) && part.field("source"@).get_str("url"@) == Some(url),
    }
}

/// Whether an image part shows data that it carries itself.
pub open spec fn carries(
    protocol: Protocol,
    part: JsonView,
    media_type: Seq<char>,
    base64: Seq<char>,
) -> bool {
    match protocol {
        Protocol::Messages => part.get_str("type"@) == Some("image"@) && holds_data(
            part.field("source"@),
            media_type,
            base64,
        ),
        _ => shows(protocol, part, "data:"@ + media_type + ";base64,"@ + base64),
    }
}

pub open spec fn holds_data(source: JsonView, media_type: Seq<char>, base64: Seq<char>) -> bool {
    &&& source.get_str("type"@) == Some("base64"@)
    &&& source.get_str("media_type"@) == Some(media_type)
    &&& source.get_str("data"@) == Some(base64)
}

/// An image reaches the model by its URL, or with its data. A reference to an artifact
/// does not: it is resolved before.
pub proof fn images_reach_the_model(protocol: Protocol, source: MediaSourceView, output: bool)
    ensures
        match source {
            MediaSourceView::Url(url) => content_json(
                protocol,
                ContentView::Image(source),
                output,
            ) matches Ok(part) && shows(protocol, part, url),
            MediaSourceView::Inline { mime_type, base64 } => content_json(
                protocol,
                ContentView::Image(source),
                output,
            ) matches Ok(part) && carries(protocol, part, mime_type, base64),
            MediaSourceView::Artifact { .. } => content_json(
                protocol,
                ContentView::Image(source),
                output,
            ) is Err,
        },
{
    broadcast use set_get;

    part_words_differ();
}

/// Whether a part names a file.
pub open spec fn named(part: JsonView, key: Seq<char>, name: Option<Seq<char>>) -> bool {
    match name {
        Some(name) => part.get_str(key) == Some(name),
        None => part.get(key) == Some(JsonView::Null),
    }
}

/// Whether a file part holds a file by its URL.
pub open spec fn links(
    protocol: Protocol,
    part: JsonView,
    url: Seq<char>,
    name: Option<Seq<char>>,
) -> bool {
    match protocol {
        Protocol::Chat => part.get_str("type"@) == Some("file"@) && named(
            part.field("file"@),
            "filename"@,
            name,
        ) && part.field("file"@).get_str("file_data"@) == Some(url),
        Protocol::Responses => part.get_str("type"@) == Some("input_file"@) && part.get_str(
            "file_url"@,
        ) == Some(url),
        Protocol::Messages => part.get_str("type"@) == Some("document"@) && named(
            part,
            "title"@,
            name,
        ) && part.field("source"@).get_str("type"@) == Some("url"@) && part.field(
            "source"@,
        ).get_str("url"@) == Some(url),
    }
}

/// Whether a file part holds the data of a file.
pub open spec fn attaches(
    protocol: Protocol,
    part: JsonView,
    media_type: Seq<char>,
    base64: Seq<char>,
    name: Option<Seq<char>>,
) -> bool {
    let url = "data:"@ + media_type + ";base64,"@ + base64;
    match protocol {
        Protocol::Chat => links(protocol, part, url, name),
        Protocol::Responses => part.get_str("type"@) == Some("input_file"@) && named(
            part,
            "filename"@,
            name,
        ) && part.get_str("file_data"@) == Some(url),
        Protocol::Messages => part.get_str("type"@) == Some("document"@) && named(
            part,
            "title"@,
            name,
        ) && holds_data(part.field("source"@), media_type, base64),
    }
}

/// A file reaches the model by its URL, or with its data and its name.
pub proof fn files_reach_the_model(
    protocol: Protocol,
    source: MediaSourceView,
    name: Option<Seq<char>>,
    output: bool,
)
    ensures
        match source {
            MediaSourceView::Url(url) => content_json(
                protocol,
                ContentView::File { source, name },
                output,
            ) matches Ok(part) && links(protocol, part, url, name),
            MediaSourceView::Inline { mime_type, base64 } => content_json(
                protocol,
                ContentView::File { source, name },
                output,
            ) matches Ok(part) && attaches(protocol, part, mime_type, base64, name),
            MediaSourceView::Artifact { .. } => content_json(
                protocol,
                ContentView::File { source, name },
                output,
            ) is Err,
        },
{
    broadcast use set_get;

    part_words_differ();
}

/// Audio reaches the model where it is carried along in the Chat protocol, as its data and
/// its format; no protocol takes it otherwise, and none takes video.
pub proof fn audio_reaches_the_model(protocol: Protocol, source: MediaSourceView, output: bool)
    ensures
        content_json(protocol, ContentView::Video(source), output) is Err,
        match source {
            MediaSourceView::Inline { mime_type, base64 } => if protocol == Protocol::Chat {
                content_json(protocol, ContentView::Audio(source), output) matches Ok(part) && {
                    &&& part.get_str("type"@) == Some("input_audio"@)
                    &&& part.field("input_audio"@).get_str("data"@) == Some(base64)
                    &&& part.field("input_audio"@).get_str("format"@) matches Some(format)
                        && subtype(mime_type, format)
                }
            } else {
                content_json(protocol, ContentView::Audio(source), output) is Err
            },
            _ => content_json(protocol, ContentView::Audio(source), output) is Err,
        },
{
    broadcast use set_get;

    part_words_differ();
    if let MediaSourceView::Inline { mime_type, .. } = source {
        the_tail_is_behind_the_last_separator(mime_type, '/');
    }
}

/// Whether a text is what stands behind the last slash of another, or all of it where it has
/// no slash.
pub open spec fn subtype(whole: Seq<char>, tail: Seq<char>) -> bool {
    &&& tail.len() <= whole.len()
    &&& tail == whole.skip(whole.len() - tail.len())
    &&& !tail.contains('/')
    &&& tail.len() < whole.len() ==> whole[whole.len() - tail.len() - 1] == '/'
}

/// The fields that a resource adds to its part replace none that the part has.
pub proof fn extensions_replace_nothing(
    input: ResourceInputView,
    protocol: Protocol,
    target: JsonView,
    key: Seq<char>,
)
    requires
        target is Object,
        extended(input, protocol, target) is Ok,
        target.has(key),
    ensures
        extended(input, protocol, target)->Ok_0.get(key) == target.get(key),
{
    if let Some(fields) = input.extensions.get_object(protocol.name()) {
        additions_replace_nothing(fields, target, key);
    }
}

proof fn additions_replace_nothing(fields: Fields, target: JsonView, key: Seq<char>)
    requires
        target is Object,
        fold_ok(fields, target, add_field_step()) is Ok,
        target.has(key),
    ensures
        fold_ok(fields, target, add_field_step())->Ok_0.get(key) == target.get(key),
        fold_ok(fields, target, add_field_step())->Ok_0 is Object,
    decreases fields.len(),
{
    broadcast use set_get;

    if fields.len() > 0 {
        additions_replace_nothing(fields.drop_last(), target, key);
    }
}

/// A resource that is an image or a file reaches the model as the media do: by its URL, or with
/// the base64 text of its bytes. How closely an image is to be looked at is said beside it.
pub proof fn resources_reach_the_model(
    protocol: Protocol,
    input: ResourceInputView,
    output: bool,
    part: JsonView,
)
    requires
        content_json(protocol, ContentView::Resource(input), output) == Ok::<JsonView, ErrorView>(
            part,
        ),
    ensures
        input.modality == Modality::Image ==> match input.source {
            ResourceSourceView::Url(url) => shows(protocol, part, url),
            ResourceSourceView::Inline(bytes) => carries(
                protocol,
                part,
                input.media_type,
                base64_text(bytes),
            ),
            _ => false,
        },
        input.modality == Modality::File ==> match input.source {
            ResourceSourceView::Url(url) => links(protocol, part, url, input.name),
            ResourceSourceView::Inline(bytes) => attaches(
                protocol,
                part,
                input.media_type,
                base64_text(bytes),
                input.name,
            ),
            ResourceSourceView::Provider { reference, .. } => protocol == Protocol::Responses
                && part.get_str("file_id"@) == Some(reference),
            _ => false,
        },
        input.modality == Modality::Audio ==> protocol == Protocol::Chat && (input.source
            matches ResourceSourceView::Inline(bytes) && part.field("input_audio"@).get_str(
            "data"@,
        ) == Some(base64_text(bytes))),
        input.modality != Modality::Other && input.modality != Modality::Video,
        input.modality == Modality::Image && protocol != Protocol::Messages && input.fidelity is Some
            ==> {
            let holder = if protocol == Protocol::Chat {
                part.field("image_url"@)
            } else {
                part
            };
            holder.get_str("detail"@) == Some(match input.fidelity->0 {
                Fidelity::Economy => "low"@,
                Fidelity::High => "high"@,
                Fidelity::Original => "original"@,
            })
        },
{
    broadcast use set_get;

    part_words_differ();
    let plain = resource_part(protocol, input)->Ok_0;
    assert forall|key: Seq<char>| #[trigger] plain.has(key) implies part.get(key) == plain.get(
        key,
    ) by {
        extensions_replace_nothing(input, protocol, plain, key);
    }
    assert(plain.has("type"@));
    assert(plain.has("image_url"@) ==> part.get("image_url"@) == plain.get("image_url"@));
    assert(plain.has("detail"@) ==> part.get("detail"@) == plain.get("detail"@));
    assert(plain.has("file"@) ==> part.get("file"@) == plain.get("file"@));
    assert(plain.has("filename"@) ==> part.get("filename"@) == plain.get("filename"@));
    assert(plain.has("file_data"@) ==> part.get("file_data"@) == plain.get("file_data"@));
    assert(plain.has("file_url"@) ==> part.get("file_url"@) == plain.get("file_url"@));
    assert(plain.has("file_id"@) ==> part.get("file_id"@) == plain.get("file_id"@));
    assert(plain.has("input_audio"@) ==> part.get("input_audio"@) == plain.get("input_audio"@));
    assert(plain.has("source"@) ==> part.get("source"@) == plain.get("source"@));
    assert(plain.has("title"@) ==> part.get("title"@) == plain.get("title"@));
}

// ---------------------------------------------------------------------------------------
// Messages
// ---------------------------------------------------------------------------------------
pub(crate) proof fn message_words_differ()
    ensures
        "role"@ != "content"@,
        "role"@ != "tool_call_id"@,
        "role"@ != "tool_calls"@,
        "role"@ != "type"@,
        "role"@ != "call_id"@,
        "role"@ != "output"@,
        "role"@ != "tool_use_id"@,
        "role"@ != "is_error"@,
        "role"@ != "id"@,
        "role"@ != "name"@,
        "role"@ != "input"@,
        "role"@ != "arguments"@,
        "role"@ != "function"@,
        "role"@ != "text"@,
        "content"@ != "tool_call_id"@,
        "content"@ != "tool_calls"@,
        "content"@ != "type"@,
        "content"@ != "call_id"@,
        "content"@ != "output"@,
        "content"@ != "tool_use_id"@,
        "content"@ != "is_error"@,
        "content"@ != "id"@,
        "content"@ != "name"@,
        "content"@ != "input"@,
        "content"@ != "arguments"@,
        "content"@ != "function"@,
        "content"@ != "text"@,
        "tool_call_id"@ != "tool_calls"@,
        "tool_call_id"@ != "type"@,
        "tool_call_id"@ != "call_id"@,
        "tool_call_id"@ != "output"@,
        "tool_call_id"@ != "tool_use_id"@,
        "tool_call_id"@ != "is_error"@,
        "tool_call_id"@ != "id"@,
        "tool_call_id"@ != "name"@,
        "tool_call_id"@ != "input"@,
        "tool_call_id"@ != "arguments"@,
        "tool_call_id"@ != "function"@,
        "tool_call_id"@ != "text"@,
        "tool_calls"@ != "type"@,
        "tool_calls"@ != "call_id"@,
        "tool_calls"@ != "output"@,
        "tool_calls"@ != "tool_use_id"@,
        "tool_calls"@ != "is_error"@,
        "tool_calls"@ != "id"@,
        "tool_calls"@ != "name"@,
        "tool_calls"@ != "input"@,
        "tool_calls"@ != "arguments"@,
        "tool_calls"@ != "function"@,
        "tool_calls"@ != "text"@,
        "type"@ != "call_id"@,
        "type"@ != "output"@,
        "type"@ != "tool_use_id"@,
        "type"@ != "is_error"@,
        "type"@ != "id"@,
        "type"@ != "name"@,
        "type"@ != "input"@,
        "type"@ != "arguments"@,
        "type"@ != "function"@,
        "type"@ != "text"@,
        "call_id"@ != "output"@,
        "call_id"@ != "tool_use_id"@,
        "call_id"@ != "is_error"@,
        "call_id"@ != "id"@,
        "call_id"@ != "name"@,
        "call_id"@ != "input"@,
        "call_id"@ != "arguments"@,
        "call_id"@ != "function"@,
        "call_id"@ != "text"@,
        "output"@ != "tool_use_id"@,
        "output"@ != "is_error"@,
        "output"@ != "id"@,
        "output"@ != "name"@,
        "output"@ != "input"@,
        "output"@ != "arguments"@,
        "output"@ != "function"@,
        "output"@ != "text"@,
        "tool_use_id"@ != "is_error"@,
        "tool_use_id"@ != "id"@,
        "tool_use_id"@ != "name"@,
        "tool_use_id"@ != "input"@,
        "tool_use_id"@ != "arguments"@,
        "tool_use_id"@ != "function"@,
        "tool_use_id"@ != "text"@,
        "is_error"@ != "id"@,
        "is_error"@ != "name"@,
        "is_error"@ != "input"@,
        "is_error"@ != "arguments"@,
        "is_error"@ != "function"@,
        "is_error"@ != "text"@,
        "id"@ != "name"@,
        "id"@ != "input"@,
        "id"@ != "arguments"@,
        "id"@ != "function"@,
        "id"@ != "text"@,
        "name"@ != "input"@,
        "name"@ != "arguments"@,
        "name"@ != "function"@,
        "name"@ != "text"@,
        "input"@ != "arguments"@,
        "input"@ != "function"@,
        "input"@ != "text"@,
        "arguments"@ != "function"@,
        "arguments"@ != "text"@,
        "function"@ != "text"@,
{
    reveal_strlit("role");
    reveal_strlit("content");
    reveal_strlit("tool_call_id");
    reveal_strlit("tool_calls");
    reveal_strlit("type");
    reveal_strlit("call_id");
    reveal_strlit("output");
    reveal_strlit("tool_use_id");
    reveal_strlit("is_error");
    reveal_strlit("id");
    reveal_strlit("name");
    reveal_strlit("input");
    reveal_strlit("arguments");
    reveal_strlit("function");
    reveal_strlit("text");
    assert("role"@.len() == 4);
    assert("content"@.len() == 7);
    assert("tool_call_id"@.len() == 12);
    assert("tool_calls"@.len() == 10);
    assert("type"@.len() == 4);
    assert("call_id"@.len() == 7);
    assert("output"@.len() == 6);
    assert("tool_use_id"@.len() == 11);
    assert("is_error"@.len() == 8);
    assert("id"@.len() == 2);
    assert("name"@.len() == 4);
    assert("input"@.len() == 5);
    assert("arguments"@.len() == 9);
    assert("function"@.len() == 8);
    assert("text"@.len() == 4);
    assert("role"@[0] != "type"@[0]);
    assert("role"@[0] != "name"@[0]);
    assert("role"@[0] != "text"@[0]);
    assert("content"@[1] != "call_id"@[1]);
    assert("type"@[0] != "name"@[0]);
    assert("type"@[1] != "text"@[1]);
    assert("is_error"@[0] != "function"@[0]);
    assert("name"@[0] != "text"@[0]);
}

/// Nothing said, nothing sent.
pub proof fn an_empty_conversation_is_empty(protocol: Protocol, history: Seq<History>)
    ensures
        encoded_messages(protocol, Seq::empty(), history) matches Ok(encoded) && encoded.messages
            == Seq::<JsonView>::empty() && encoded.system == Seq::<JsonView>::empty(),
{
    assert(with_history(Seq::empty(), history) =~= Seq::empty());
}

/// What encoding a message adds to the messages in front of it.
proof fn one_message_more(
    protocol: Protocol,
    messages: Seq<MessageView>,
    message: MessageView,
    history: Seq<History>,
) -> (state: Encoded)
    requires
        encoded_messages(protocol, messages, history) is Ok,
    ensures
        fold_ok(with_history(messages, history), nothing_encoded(), encoded_step(protocol)) == Ok::<
            Encoded,
            ErrorView,
        >(state),
        encoded_messages(protocol, messages, history)->Ok_0 == flushed(state),
        encoded_messages(protocol, messages.push(message), history) == (match encoded_message(
            protocol,
            state,
            message,
            history_at(history, messages.len() as int),
        ) {
            Err(e) => Err::<Encoded, ErrorView>(e),
            Ok(after) => Ok(flushed(after)),
        }),
{
    let all = with_history(messages.push(message), history);
    let state = fold_ok(
        with_history(messages, history),
        nothing_encoded(),
        encoded_step(protocol),
    )->Ok_0;
    assert(all.drop_last() =~= with_history(messages, history));
    assert(encoded_step(protocol)(state, all.last()) == encoded_message(
        protocol,
        state,
        message,
        history_at(history, messages.len() as int),
    ));
    state
}

/// Tool results wait to be grouped only in the Messages protocol, and only until something
/// else is said.
proof fn results_wait(protocol: Protocol, messages: Seq<MessageView>, history: Seq<History>)
    requires
        encoded_messages(protocol, messages, history) is Ok,
    ensures
        fold_ok(
            with_history(messages, history),
            nothing_encoded(),
            encoded_step(protocol),
        )->Ok_0.results.len() > 0 <==> protocol == Protocol::Messages && messages.len() > 0
            && messages.last() is RuntimeTool,
    decreases messages.len(),
{
    if messages.len() > 0 {
        let before = messages.drop_last();
        let all = with_history(messages, history);
        assert(before.push(messages.last()) =~= messages);
        assert(all.drop_last() =~= with_history(before, history));
        assert(encoded_messages(protocol, before, history) is Ok);
        results_wait(protocol, before, history);
        let state = one_message_more(protocol, before, messages.last(), history);
        assert(encoded_step(protocol)(state, all.last()) == encoded_message(
            protocol,
            state,
            messages.last(),
            history_at(history, before.len() as int),
        ));
    }
}

/// Whether a message says a content in a role.
pub open spec fn says(message: JsonView, role: Seq<char>, contents: Seq<ContentView>) -> bool {
    &&& message.get_str("role"@) == Some(role)
    &&& message.get_array("content"@) matches Some(parts) && tells(parts, contents)
}

/// What a user says, or what reaches the model from outside, is one more message in the role
/// of the user, behind all that was said before. It is sent wherever its parts can be.
pub proof fn what_a_user_says_is_sent(
    protocol: Protocol,
    messages: Seq<MessageView>,
    contents: Seq<ContentView>,
    history: Seq<History>,
)
    requires
        encoded_messages(protocol, messages, history) is Ok,
    ensures
        ({
            let before = encoded_messages(protocol, messages, history)->Ok_0;
            &&& match encoded_messages(protocol, messages.push(MessageView::User(contents)), history) {
                Ok(after) => {
                    &&& after.messages.len() == before.messages.len() + 1
                    &&& after.messages.drop_last() == before.messages
                    &&& says(after.messages.last(), "user"@, contents)
                    &&& after.system == before.system
                },
                Err(_) => !only_text(contents),
            }
            &&& encoded_messages(protocol, messages.push(MessageView::External(contents)), history)
                == encoded_messages(protocol, messages.push(MessageView::User(contents)), history)
        }),
{
    broadcast use set_get;

    message_words_differ();
    contents_are_told(protocol, contents, false);
    let state = one_message_more(protocol, messages, MessageView::User(contents), history);
    let other = one_message_more(protocol, messages, MessageView::External(contents), history);
    if let Ok(parts) = parts_json(protocol, contents, false) {
        let before = flushed(state).messages;
        assert(before.push(role_message("user"@, parts)).drop_last() =~= before);
    }
}

/// What the system says is one more message in its role, or, where the Messages protocol keeps
/// it apart, stands behind all that the system said before.
pub proof fn what_the_system_says_is_sent(
    protocol: Protocol,
    messages: Seq<MessageView>,
    contents: Seq<ContentView>,
    history: Seq<History>,
)
    requires
        encoded_messages(protocol, messages, history) is Ok,
    ensures
        ({
            let before = encoded_messages(protocol, messages, history)->Ok_0;
            match encoded_messages(protocol, messages.push(MessageView::System(contents)), history) {
                Ok(after) => if protocol == Protocol::Messages {
                    &&& after.messages == before.messages
                    &&& after.system.len() == before.system.len() + contents.len()
                    &&& after.system.take(before.system.len() as int) == before.system
                    &&& tells(after.system.skip(before.system.len() as int), contents)
                } else {
                    &&& after.messages.len() == before.messages.len() + 1
                    &&& after.messages.drop_last() == before.messages
                    &&& says(after.messages.last(), "system"@, contents)
                    &&& after.system == before.system
                },
                Err(_) => !only_text(contents),
            }
        }),
{
    broadcast use set_get;

    message_words_differ();
    contents_are_told(protocol, contents, false);
    let state = one_message_more(protocol, messages, MessageView::System(contents), history);
    if let Ok(parts) = parts_json(protocol, contents, false) {
        let before = flushed(state);
        let system = before.system + parts;
        assert(system.take(before.system.len() as int) =~= before.system);
        assert(system.skip(before.system.len() as int) =~= parts);
        assert(before.messages.push(role_message("system"@, parts)).drop_last()
            =~= before.messages);
    }
}

/// What a tool has to say.
pub open spec fn reported(outcome: RuntimeToolOutcomeView) -> Seq<ContentView> {
    match outcome {
        RuntimeToolOutcomeView::Success(contents) => contents,
        RuntimeToolOutcomeView::Accepted(contents) => contents,
        RuntimeToolOutcomeView::Waiting(contents) => contents,
        RuntimeToolOutcomeView::Failure { message, .. } => seq![ContentView::Text(message)],
    }
}

/// Whether a text holds other texts, each from its start on, one behind the other with a line
/// break between two.
pub open spec fn lined_up(text: Seq<char>, contents: Seq<ContentView>, starts: Seq<int>) -> bool {
    &&& starts.len() == contents.len() + 1
    &&& starts[0] == 0
    &&& starts.last() == text.len() + 1
    &&& forall|i: int|
        0 <= i < contents.len() ==> {
            let end = (#[trigger] starts[i]) + contents[i]->Text_0.len();
            &&& 0 <= starts[i]
            &&& end <= text.len()
            &&& text.subrange(starts[i], end) == contents[i]->Text_0
            &&& starts[i + 1] == end + 1
            &&& end < text.len() ==> text[end] == '\n'
        }
}

pub open spec fn are_lines(text: Seq<char>, contents: Seq<ContentView>) -> bool {
    if contents.len() == 0 {
        text.len() == 0
    } else {
        exists|starts: Seq<int>| lined_up(text, contents, starts)
    }
}

proof fn lines_are_lined_up(contents: Seq<ContentView>) -> (starts: Seq<int>)
    requires
        contents.len() > 0,
        only_text(contents),
    ensures
        lined_up(lines(contents), contents, starts),
    decreases contents.len(),
{
    let text = lines(contents);
    if contents.len() == 1 {
        let starts = seq![0int, (text.len() + 1) as int];
        assert(text.subrange(0, text.len() as int) =~= text);
        starts
    } else {
        let front = contents.drop_last();
        assert forall|i: int| 0 <= i < front.len() implies (#[trigger] front[i]) is Text by {
            assert(contents[i] is Text);
        }
        let before = lines_are_lined_up(front);
        let starts = before.push((text.len() + 1) as int);
        let inner = lines(front);
        reveal_strlit("\n");
        assert(text == inner + "\n"@ + contents.last()->Text_0);
        assert forall|i: int| 0 <= i < contents.len() implies {
            let end = (#[trigger] starts[i]) + contents[i]->Text_0.len();
            &&& 0 <= starts[i]
            &&& end <= text.len()
            &&& text.subrange(starts[i], end) == contents[i]->Text_0
            &&& starts[i + 1] == end + 1
            &&& end < text.len() ==> text[end] == '\n'
        } by {
            let end = starts[i] + contents[i]->Text_0.len();
            if i < front.len() {
                assert(before[i] == starts[i]);
                assert(text.subrange(starts[i], end) =~= inner.subrange(starts[i], end));
            } else {
                assert(text.subrange(starts[i], end) =~= contents.last()->Text_0);
            }
        }
        starts
    }
}

proof fn reports_are_lines(contents: Seq<ContentView>)
    requires
        only_text(contents),
    ensures
        are_lines(lines(contents), contents),
{
    if contents.len() > 0 {
        let starts = lines_are_lined_up(contents);
        assert(lined_up(lines(contents), contents, starts));
    }
}

/// Whether a call with freeform input was made in a conversation.
pub open spec fn made_freeform(messages: Seq<MessageView>, call_id: Seq<char>) -> bool {
    exists|i: int|
        0 <= i < messages.len() && ((#[trigger] messages[i]) matches MessageView::Assistant {
            output,
            ..
        } && holds_freeform(output, call_id))
}

pub open spec fn holds_freeform(output: Seq<OutputView>, call_id: Seq<char>) -> bool {
    exists|j: int|
        0 <= j < output.len() && ((#[trigger] output[j]) matches OutputView::RuntimeToolCall(call)
            && call.id == call_id && call.input is Freeform)
}

proof fn freeform_ids_are_found(output: Seq<OutputView>, call_id: Seq<char>)
    ensures
        freeform_ids(output).contains(call_id) <==> holds_freeform(output, call_id),
    decreases output.len(),
{
    if output.len() > 0 {
        let front = output.drop_last();
        let ids = freeform_ids(front);
        freeform_ids_are_found(front, call_id);
        if holds_freeform(front, call_id) {
            let j = choose|j: int|
                0 <= j < front.len() && ((#[trigger] front[j]) matches OutputView::RuntimeToolCall(
                    call,
                ) && call.id == call_id && call.input is Freeform);
            assert(output[j] == front[j]);
        }
        if holds_freeform(output, call_id) {
            let j = choose|j: int|
                0 <= j < output.len() && ((
                #[trigger] output[j]) matches OutputView::RuntimeToolCall(call) && call.id
                    == call_id && call.input is Freeform);
            if j < front.len() {
                assert(front[j] == output[j]);
            }
        }
        if let OutputView::RuntimeToolCall(call) = output.last() {
            if call.input is Freeform {
                let all = ids.push(call.id);
                if all.contains(call_id) {
                    let k = choose|k: int| 0 <= k < all.len() && all[k] == call_id;
                    if k < ids.len() {
                        assert(ids[k] == call_id);
                    } else {
                        assert(output[output.len() - 1] == output.last());
                    }
                }
                if ids.contains(call_id) {
                    let k = choose|k: int| 0 <= k < ids.len() && ids[k] == call_id;
                    assert(all[k] == call_id);
                }
                assert(all[ids.len() as int] == call.id);
            }
        }
    } else {
        assert(!freeform_ids(output).contains(call_id));
    }
}

/// The calls with freeform input are those of the assistant, whenever it made them.
proof fn freeform_calls_are_known(
    protocol: Protocol,
    messages: Seq<MessageView>,
    history: Seq<History>,
    call_id: Seq<char>,
)
    requires
        encoded_messages(protocol, messages, history) is Ok,
    ensures
        encoded_messages(protocol, messages, history)->Ok_0.freeform.contains(call_id)
            <==> made_freeform(messages, call_id),
    decreases messages.len(),
{
    if messages.len() > 0 {
        let front = messages.drop_last();
        let last = messages.last();
        assert(front.push(last) =~= messages);
        assert(with_history(messages, history).drop_last() =~= with_history(front, history));
        freeform_calls_are_known(protocol, front, history, call_id);
        let state = one_message_more(protocol, front, last, history);
        let known = state.freeform;
        if made_freeform(front, call_id) {
            let i = choose|i: int|
                0 <= i < front.len() && ((#[trigger] front[i]) matches MessageView::Assistant {
                    output,
                    ..
                } && holds_freeform(output, call_id));
            assert(messages[i] == front[i]);
        }
        if made_freeform(messages, call_id) {
            let i = choose|i: int|
                0 <= i < messages.len() && ((
                #[trigger] messages[i]) matches MessageView::Assistant { output, .. }
                    && holds_freeform(output, call_id));
            if i < front.len() {
                assert(front[i] == messages[i]);
            }
        }
        if let MessageView::Assistant { output, .. } = last {
            let more = freeform_ids(output);
            let all = known + more;
            freeform_ids_are_found(output, call_id);
            if all.contains(call_id) {
                let k = choose|k: int| 0 <= k < all.len() && all[k] == call_id;
                if k < known.len() {
                    assert(known[k] == call_id);
                } else {
                    assert(more[k - known.len()] == call_id);
                    assert(messages[messages.len() - 1] == last);
                }
            }
            if known.contains(call_id) {
                let k = choose|k: int| 0 <= k < known.len() && known[k] == call_id;
                assert(all[k] == call_id);
            }
            if more.contains(call_id) {
                let k = choose|k: int| 0 <= k < more.len() && more[k] == call_id;
                assert(all[known.len() + k] == call_id);
            }
        }
    } else {
        assert(with_history(messages, history) =~= Seq::empty());
        assert(!nothing_encoded().freeform.contains(call_id));
    }
}

/// Whether a value is a report: a text alone stands as it is, several texts one line each, and
/// anything else as parts.
pub open spec fn is_report(value: JsonView, contents: Seq<ContentView>) -> bool {
    if contents.len() == 1 && contents[0] is Text {
        value.as_str() == Some(contents[0]->Text_0)
    } else if only_text(contents) {
        value.as_str() matches Some(text) && are_lines(text, contents)
    } else {
        value.as_array() matches Some(parts) && tells(parts, contents)
    }
}

/// The result of a tool is answered to its call, in the Chat and in the Responses protocol as
/// one more message, and it holds what the tool had to say.
pub proof fn a_result_answers_its_call(
    protocol: Protocol,
    messages: Seq<MessageView>,
    call_id: Seq<char>,
    outcome: RuntimeToolOutcomeView,
    history: Seq<History>,
)
    requires
        encoded_messages(protocol, messages, history) is Ok,
        protocol != Protocol::Messages,
    ensures
        ({
            let before = encoded_messages(protocol, messages, history)->Ok_0;
            let message = MessageView::RuntimeTool { call_id, outcome };
            match encoded_messages(protocol, messages.push(message), history) {
                Ok(after) => {
                    let last = after.messages.last();
                    &&& after.messages.len() == before.messages.len() + 1
                    &&& after.messages.drop_last() == before.messages
                    &&& after.system == before.system
                    &&& protocol == Protocol::Chat ==> {
                        &&& last.get_str("role"@) == Some("tool"@)
                        &&& last.get_str("tool_call_id"@) == Some(call_id)
                        &&& is_report(last.field("content"@), reported(outcome))
                    }
                    &&& protocol == Protocol::Responses ==> {
                        &&& last.get_str("type"@) == Some(
                            if made_freeform(messages, call_id) {
                                "custom_tool_call_output"@
                            } else {
                                "function_call_output"@
                            },
                        )
                        &&& last.get_str("call_id"@) == Some(call_id)
                        &&& is_report(last.field("output"@), reported(outcome))
                    }
                },
                Err(_) => !only_text(reported(outcome)),
            }
        }),
{
    broadcast use set_get;

    message_words_differ();
    contents_are_told(protocol, reported(outcome), false);
    let message = MessageView::RuntimeTool { call_id, outcome };
    let state = one_message_more(protocol, messages, message, history);
    results_wait(protocol, messages, history);
    freeform_calls_are_known(protocol, messages, history, call_id);
    if only_text(reported(outcome)) {
        reports_are_lines(reported(outcome));
    }
    if let Ok(after) = encoded_messages(protocol, messages.push(message), history) {
        assert(after.messages.drop_last() =~= state.messages);
    }
}

/// Whether a part answers a call of the Messages protocol.
pub open spec fn answers_call(
    part: JsonView,
    call_id: Seq<char>,
    outcome: RuntimeToolOutcomeView,
) -> bool {
    &&& part.get_str("type"@) == Some("tool_result"@)
    &&& part.get_str("tool_use_id"@) == Some(call_id)
    &&& part.get("is_error"@) == Some(JsonView::Bool(outcome is Failure))
    &&& part.get_array("content"@) matches Some(parts) && tells(parts, reported(outcome))
}

/// In the Messages protocol the results of tools that follow on each other stand in one
/// message of the user, in order, and each answers its call.
pub proof fn results_are_answered_together(
    messages: Seq<MessageView>,
    call_id: Seq<char>,
    outcome: RuntimeToolOutcomeView,
    history: Seq<History>,
)
    requires
        encoded_messages(Protocol::Messages, messages, history) is Ok,
    ensures
        ({
            let before = encoded_messages(Protocol::Messages, messages, history)->Ok_0;
            let message = MessageView::RuntimeTool { call_id, outcome };
            let together = messages.len() > 0 && messages.last() is RuntimeTool;
            match encoded_messages(Protocol::Messages, messages.push(message), history) {
                Ok(after) => {
                    &&& after.messages.len() > 0
                    &&& after.messages.last().get_str("role"@) == Some("user"@)
                    &&& after.messages.last().get_array("content"@) matches Some(parts) && {
                        &&& parts.len() > 0
                        &&& answers_call(parts.last(), call_id, outcome)
                        &&& if together {
                            before.messages.last().get_array("content"@) == Some(parts.drop_last())
                        } else {
                            parts.len() == 1
                        }
                    }
                    &&& after.messages.drop_last() == if together {
                        before.messages.drop_last()
                    } else {
                        before.messages
                    }
                    &&& after.system == before.system
                },
                Err(_) => !only_text(reported(outcome)),
            }
        }),
{
    broadcast use set_get;

    message_words_differ();
    let protocol = Protocol::Messages;
    contents_are_told(protocol, reported(outcome), false);
    let message = MessageView::RuntimeTool { call_id, outcome };
    let state = one_message_more(protocol, messages, message, history);
    results_wait(protocol, messages, history);
    if let Ok(after) = encoded_messages(protocol, messages.push(message), history) {
        assert(after.messages.drop_last() =~= state.messages);
        let parts = after.messages.last().get_array("content"@)->0;
        assert(parts.drop_last() =~= state.results);
        if state.results.len() > 0 {
            assert(flushed(state).messages.drop_last() =~= state.messages);
        }
    }
}

// ---------------------------------------------------------------------------------------
// What the assistant said
// ---------------------------------------------------------------------------------------
/// Whether a value states a call of the assistant.
pub open spec fn states_call(
    protocol: Protocol,
    value: JsonView,
    call: RuntimeToolCallView,
) -> bool {
    match protocol {
        Protocol::Chat => {
            &&& value.get_str("type"@) == Some("function"@)
            &&& value.get_str("id"@) == Some(call.id)
            &&& value.field("function"@).get_str("name"@) == Some(call.name)
            &&& value.field("function"@).get_str("arguments"@) == Some(
                match call.input {
                    RuntimeToolInputView::Structured(input) => printed(input),
                    RuntimeToolInputView::Freeform(input) => input,
                },
            )
        },
        Protocol::Responses => {
            &&& value.get_str("call_id"@) == Some(call.id)
            &&& value.get_str("name"@) == Some(call.name)
            &&& match call.input {
                RuntimeToolInputView::Structured(input) => value.get_str("type"@) == Some(
                    "function_call"@,
                ) && value.get_str("arguments"@) == Some(printed(input)),
                RuntimeToolInputView::Freeform(input) => value.get_str("type"@) == Some(
                    "custom_tool_call"@,
                ) && value.get_str("input"@) == Some(input),
            }
        },
        Protocol::Messages => {
            &&& value.get_str("type"@) == Some("tool_use"@)
            &&& value.get_str("id"@) == Some(call.id)
            &&& value.get_str("name"@) == Some(call.name)
            &&& call.input matches RuntimeToolInputView::Structured(input) && value.get("input"@)
                == Some(input)
        },
    }
}

/// Nothing said: a Chat message without content, and no item of the other protocols.
pub proof fn silence_is_sent_as_such(protocol: Protocol, answers: History)
    ensures
        assistant_json(protocol, Seq::empty(), answers) matches Ok(values) && if protocol
            == Protocol::Chat {
            values.len() == 1 && chat_says(values[0], Seq::empty(), None)
        } else {
            values.len() == 0
        },
{
    broadcast use set_get;

    message_words_differ();
}

/// Whether a Chat message of the assistant holds parts and calls.
pub open spec fn chat_says(
    message: JsonView,
    parts: Seq<JsonView>,
    calls: Option<Seq<JsonView>>,
) -> bool {
    &&& message.get_str("role"@) == Some("assistant"@)
    &&& message.get_array("content"@) == Some(parts)
    &&& message.get_array("tool_calls"@) == calls
}

proof fn one_item_more(
    protocol: Protocol,
    output: Seq<OutputView>,
    item: OutputView,
    answers: History,
) -> (state: Assembled)
    requires
        assistant_json(protocol, output, answers) is Ok,
    ensures
        fold_ok(output, nothing_assembled(), assembled_step(protocol, answers)) == Ok::<
            Assembled,
            ErrorView,
        >(state),
        fold_ok(output.push(item), nothing_assembled(), assembled_step(protocol, answers))
            == assembled_item(protocol, answers, state, item),
{
    let all = output.push(item);
    let step = assembled_step(protocol, answers);
    let state = fold_ok(output, nothing_assembled(), step)->Ok_0;
    assert(all.drop_last() =~= output);
    assert(step(state, all.last()) == assembled_item(protocol, answers, state, item));
    state
}

/// A text that the assistant said is sent behind what it said before: as a message of its own
/// in the Responses protocol, as a part of its message in the others.
pub proof fn what_the_assistant_says_is_sent(
    protocol: Protocol,
    output: Seq<OutputView>,
    text: Seq<char>,
    answers: History,
)
    requires
        assistant_json(protocol, output, answers) is Ok,
    ensures
        ({
            let before = assistant_json(protocol, output, answers)->Ok_0;
            let item = OutputView::Content(ContentView::Text(text));
            assistant_json(protocol, output.push(item), answers) matches Ok(after) && {
                let last = after.last();
                match protocol {
                    Protocol::Chat => {
                        &&& before.len() > 0 && after.len() == before.len()
                        &&& after.drop_last() == before.drop_last()
                        &&& before.last().get_array("content"@) matches Some(parts)
                            && last.get_array("content"@) matches Some(more) && {
                            &&& more.len() == parts.len() + 1
                            &&& more.drop_last() == parts
                            &&& more.last().get_str("text"@) == Some(text)
                            &&& more.last().get_str("type"@) == Some("text"@)
                            &&& chat_says(last, more, before.last().get_array("tool_calls"@))
                        }
                    },
                    Protocol::Responses => {
                        &&& after.len() == before.len() + 1
                        &&& after.drop_last() == before
                        &&& last.get_str("type"@) == Some("message"@)
                        &&& last.get_str("role"@) == Some("assistant"@)
                        &&& last.get_array("content"@) matches Some(parts) && parts.len() == 1
                            && parts[0].get_str("text"@) == Some(text) && parts[0].get_str("type"@)
                            == Some("output_text"@)
                    },
                    Protocol::Messages => {
                        &&& after.len() == before.len() + 1
                        &&& after.drop_last() == before
                        &&& last.get_str("text"@) == Some(text)
                        &&& last.get_str("type"@) == Some("text"@)
                    },
                }
            }
        }),
{
    broadcast use set_get;

    message_words_differ();
    text_parts_hold_their_text(protocol, text, true);
    let item = OutputView::Content(ContentView::Text(text));
    let state = one_item_more(protocol, output, item, answers);
    let before = assistant_json(protocol, output, answers)->Ok_0;
    let after = assistant_json(protocol, output.push(item), answers)->Ok_0;
    if protocol == Protocol::Chat {
        assert(after.drop_last() =~= state.values);
        assert(before.drop_last() =~= state.values);
        let value = content_json(protocol, ContentView::Text(text), true)->Ok_0;
        assert(state.contents.push(value).drop_last() =~= state.contents);
    } else {
        assert(after.drop_last() =~= before);
    }
}

/// A call of the assistant is sent behind what it said and called before. The Messages
/// protocol takes no call with freeform input.
pub proof fn what_the_assistant_calls_is_sent(
    protocol: Protocol,
    output: Seq<OutputView>,
    call: RuntimeToolCallView,
    answers: History,
)
    requires
        assistant_json(protocol, output, answers) is Ok,
    ensures
        ({
            let before = assistant_json(protocol, output, answers)->Ok_0;
            let item = OutputView::RuntimeToolCall(call);
            match assistant_json(protocol, output.push(item), answers) {
                Ok(after) => {
                    let last = after.last();
                    match protocol {
                        Protocol::Chat => {
                            let known = before.last().get_array("tool_calls"@);
                            &&& before.len() > 0 && after.len() == before.len()
                            &&& after.drop_last() == before.drop_last()
                            &&& before.last().get_array("content"@) matches Some(parts)
                                && last.get_array("tool_calls"@) matches Some(calls) && {
                                &&& calls.len() > 0
                                &&& calls.drop_last() == match known {
                                    Some(known) => known,
                                    None => Seq::empty(),
                                }
                                &&& states_call(protocol, calls.last(), call)
                                &&& chat_says(last, parts, Some(calls))
                            }
                        },
                        _ => {
                            &&& after.len() == before.len() + 1
                            &&& after.drop_last() == before
                            &&& states_call(protocol, last, call)
                        },
                    }
                },
                Err(_) => protocol == Protocol::Messages && call.input is Freeform,
            }
        }),
{
    broadcast use set_get;

    message_words_differ();
    let item = OutputView::RuntimeToolCall(call);
    let state = one_item_more(protocol, output, item, answers);
    let before = assistant_json(protocol, output, answers)->Ok_0;
    if let Ok(after) = assistant_json(protocol, output.push(item), answers) {
        if protocol == Protocol::Chat {
            assert(after.drop_last() =~= state.values);
            assert(before.drop_last() =~= state.values);
            let calls = after.last().get_array("tool_calls"@)->0;
            assert(calls.drop_last() =~= state.calls);
            if state.calls.len() == 0 {
                assert(state.calls =~= Seq::empty());
            }
        } else {
            assert(after.drop_last() =~= before);
        }
    }
}

/// What the assistant said and called stands behind all that was said before it: in the
/// Messages protocol as one message in its role. What is sent is the output itself, unless the
/// message brings along the response of this protocol that it came from.
pub proof fn the_assistant_has_its_turn(
    protocol: Protocol,
    messages: Seq<MessageView>,
    output: Seq<OutputView>,
    data: JsonView,
    history: Seq<History>,
)
    requires
        encoded_messages(protocol, messages, history) is Ok,
        data.get_str("protocol"@) != Some(protocol.name()),
    ensures
        ({
            let before = encoded_messages(protocol, messages, history)->Ok_0;
            let message = MessageView::Assistant { output, provider_data: data };
            match (
                assistant_json(protocol, output, history_at(history, messages.len() as int)),
                encoded_messages(protocol, messages.push(message), history),
            ) {
                (Ok(values), Ok(after)) => {
                    &&& after.system == before.system
                    &&& if protocol == Protocol::Messages {
                        &&& after.messages.len() == before.messages.len() + 1
                        &&& after.messages.drop_last() == before.messages
                        &&& after.messages.last().get_str("role"@) == Some("assistant"@)
                        &&& after.messages.last().get_array("content"@) == Some(values)
                    } else {
                        after.messages == before.messages + values
                    }
                },
                (Err(first), Err(second)) => first == second,
                _ => false,
            }
        }),
{
    broadcast use set_get;

    message_words_differ();
    let message = MessageView::Assistant { output, provider_data: data };
    let state = one_message_more(protocol, messages, message, history);
    let before = encoded_messages(protocol, messages, history)->Ok_0;
    if let Ok(after) = encoded_messages(protocol, messages.push(message), history) {
        if protocol == Protocol::Messages {
            assert(after.messages.drop_last() =~= before.messages);
        }
    }
}

/// What a provider's call stands for is sent behind what was said before it: as its adapter
/// says. A call that no adapter speaks for is not sent, nor is a delegation.
pub proof fn what_a_provider_called_is_sent(
    protocol: Protocol,
    output: Seq<OutputView>,
    item: OutputView,
    answers: History,
)
    requires
        assistant_json(protocol, output, answers) is Ok,
        item is ProviderToolCall || item is Delegation,
    ensures
        ({
            let before = assistant_json(protocol, output, answers)->Ok_0;
            let answer = answer_at(answers, provider_calls(output) as int);
            match assistant_json(protocol, output.push(item), answers) {
                Ok(after) => item is ProviderToolCall && (answer matches AnswerView::Claimed(items)
                    && if protocol == Protocol::Chat {
                    before.len() > 0 && after == before.drop_last() + items + seq![before.last()]
                } else {
                    after == before + items
                }),
                Err(_) => item is Delegation || !(answer is Claimed),
            }
        }),
{
    let state = one_item_more(protocol, output, item, answers);
    let before = assistant_json(protocol, output, answers)->Ok_0;
    provider_calls_are_counted(protocol, output, answers);
    if let Ok(after) = assistant_json(protocol, output.push(item), answers) {
        if protocol == Protocol::Chat {
            let items = answer_at(answers, state.asked as int)->Claimed_0;
            assert(before.drop_last() =~= state.values);
            assert(after =~= before.drop_last() + items + seq![before.last()]);
        }
    }
}

/// How many calls of providers an output holds.
pub open spec fn provider_calls(output: Seq<OutputView>) -> nat
    decreases output.len(),
{
    if output.len() == 0 {
        0
    } else {
        provider_calls(output.drop_last()) + if output.last() is ProviderToolCall {
            1nat
        } else {
            0nat
        }
    }
}

proof fn provider_calls_are_counted(protocol: Protocol, output: Seq<OutputView>, answers: History)
    ensures
        fold_ok(output, nothing_assembled(), assembled_step(protocol, answers)) matches Ok(state)
            ==> state.asked == provider_calls(output),
    decreases output.len(),
{
    if output.len() > 0 {
        provider_calls_are_counted(protocol, output.drop_last(), answers);
        let step = assembled_step(protocol, answers);
        if let Ok(state) = fold_ok(output.drop_last(), nothing_assembled(), step) {
            assert(step(state, output.last()) == assembled_item(
                protocol,
                answers,
                state,
                output.last(),
            ));
        }
    }
}

/// An assistant's message that brings along the response it came from is sent again as that
/// response, behind all that was said before.
pub proof fn the_assistant_is_replayed(
    protocol: Protocol,
    messages: Seq<MessageView>,
    output: Seq<OutputView>,
    data: JsonView,
    history: Seq<History>,
    values: Seq<JsonView>,
)
    requires
        encoded_messages(protocol, messages, history) is Ok,
        assistant_replayed(
            protocol,
            output,
            data,
            history_at(history, messages.len() as int),
        ) == Ok::<Option<Seq<JsonView>>, ErrorView>(Some(values)),
    ensures
        ({
            let before = encoded_messages(protocol, messages, history)->Ok_0;
            let message = MessageView::Assistant { output, provider_data: data };
            encoded_messages(protocol, messages.push(message), history) matches Ok(after) && {
                &&& after.system == before.system
                &&& if protocol == Protocol::Messages {
                    &&& after.messages.len() == before.messages.len() + 1
                    &&& after.messages.drop_last() == before.messages
                    &&& after.messages.last().get_str("role"@) == Some("assistant"@)
                    &&& after.messages.last().get_array("content"@) == Some(values)
                } else {
                    after.messages == before.messages + values
                }
            }
        }),
{
    broadcast use set_get;

    message_words_differ();
    let message = MessageView::Assistant { output, provider_data: data };
    let state = one_message_more(protocol, messages, message, history);
    let before = encoded_messages(protocol, messages, history)->Ok_0;
    if let Ok(after) = encoded_messages(protocol, messages.push(message), history) {
        if protocol == Protocol::Messages {
            assert(after.messages.drop_last() =~= before.messages);
        }
    }
}

/// A field that a resource adds to its part stands in it, with the value that it was given;
/// one that the part has already is refused.
pub proof fn extensions_are_sent(
    input: ResourceInputView,
    protocol: Protocol,
    target: JsonView,
    fields: Fields,
    k: int,
)
    requires
        target is Object,
        input.extensions.get_object(protocol.name()) == Some(fields),
        stands_once(fields, fields[k].0, k),
    ensures
        extended(input, protocol, target) matches Ok(part) ==> part.get(fields[k].0) == Some(
            fields[k].1,
        ) && !target.has(fields[k].0),
{
    additions_stand(fields, target, fields[k].0, k);
}

proof fn additions_stand(fields: Fields, target: JsonView, key: Seq<char>, k: int)
    requires
        target is Object,
    ensures
        fold_ok(fields, target, add_field_step()) matches Ok(part) ==> {
            &&& part is Object
            &&& stands_nowhere(fields, key) ==> part.get(key) == target.get(key)
            &&& stands_once(fields, key, k) ==> part.get(key) == Some(fields[k].1) && !target.has(
                key,
            )
        },
    decreases fields.len(),
{
    broadcast use set_get;

    if fields.len() > 0 {
        let front = fields.drop_last();
        additions_stand(front, target, key, k);
        assert(fields[fields.len() - 1] == fields.last());
        if stands_nowhere(fields, key) || (stands_once(fields, key, k) && k == fields.len() - 1) {
            assert forall|i: int| 0 <= i < front.len() implies (#[trigger] front[i]).0 != key by {
                assert(front[i] == fields[i]);
            }
            assert(stands_nowhere(front, key));
        } else if stands_once(fields, key, k) {
            assert(front[k] == fields[k]);
            assert forall|i: int| 0 <= i < front.len() && i != k implies (#[trigger] front[i]).0
                != key by {
                assert(front[i] == fields[i]);
            }
            assert(stands_once(front, key, k));
            assert(fields[fields.len() - 1].0 != key);
        }
    }
}

/// What became of a delegation is not told to these protocols: they refuse it.
pub proof fn delegations_are_not_told(
    protocol: Protocol,
    messages: Seq<MessageView>,
    message: MessageView,
    history: Seq<History>,
)
    requires
        encoded_messages(protocol, messages, history) is Ok,
        message is DelegationResult,
    ensures
        encoded_messages(protocol, messages.push(message), history) is Err,
{
    let state = one_message_more(protocol, messages, message, history);
}

} // verus!
