//! Live messages: history as text, context in fragments, and what the service says.
use crate::error::{all_ok, all_ok_step, invalid, seen, Error, ErrorView};
use crate::json::{lookup, Json, JsonView};
use crate::message::{Content, ContentView, Message, MessageView, Output, OutputView};
use crate::model::ModelRequest;
use crate::text::{decimal, fragments, join3, number, same, split_fragments};
use vstd::prelude::*;

verus! {

// ---------------------------------------------------------------------------------------
// History
// ---------------------------------------------------------------------------------------
/// The texts of a content, one behind the other, where it holds text alone.
pub open spec fn contents_text(contents: Seq<ContentView>) -> Result<Seq<char>, ErrorView>
    decreases contents.len(),
{
    if contents.len() == 0 {
        Ok(Seq::empty())
    } else {
        match contents_text(contents.drop_last()) {
            Err(e) => Err(e),
            Ok(text) => match contents.last() {
                ContentView::Text(more) => Ok(text + more),
                _ => Err(ErrorView::Invalid("Live history accepts text only"@)),
            },
        }
    }
}

pub open spec fn conversation_only() -> ErrorView {
    ErrorView::Invalid("Live history accepts conversation text only"@)
}

/// The contents of a model's output, where it holds nothing else.
pub open spec fn output_contents(output: Seq<OutputView>) -> Result<Seq<ContentView>, ErrorView> {
    if forall|i: int| 0 <= i < output.len() ==> (#[trigger] output[i]) is Content {
        Ok(Seq::new(output.len(), |i: int| output[i]->Content_0))
    } else {
        Err(conversation_only())
    }
}

/// The text of a message of the conversation.
pub open spec fn message_text(message: MessageView) -> Result<Seq<char>, ErrorView> {
    match message {
        MessageView::User(contents) => contents_text(contents),
        MessageView::System(contents) => contents_text(contents),
        MessageView::External(contents) => contents_text(contents),
        MessageView::Assistant { output, .. } => match output_contents(output) {
            Err(e) => Err(e),
            Ok(contents) => contents_text(contents),
        },
        _ => Err(conversation_only()),
    }
}

/// A content that is no text spoils the whole.
proof fn contents_text_fails(contents: Seq<ContentView>, n: int)
    requires
        0 <= n <= contents.len(),
        contents_text(contents.take(n)) is Err,
    ensures
        contents_text(contents) == contents_text(contents.take(n)),
    decreases contents.len() - n,
{
    if n < contents.len() {
        assert(contents.take(n + 1).drop_last() =~= contents.take(n));
        contents_text_fails(contents, n + 1);
    } else {
        assert(contents.take(n) =~= contents);
    }
}

/// The text that content parts hold.
pub fn text_of(contents: &Vec<Content>) -> (r: Result<String, Error>)
    ensures
        seen(r) == contents_text(contents.deep_view()),
{
    let ghost all = contents.deep_view();
    let mut text = String::new();
    let mut i: usize = 0;
    assert(all.take(0) =~= Seq::empty());
    while i < contents.len()
        invariant
            i <= contents.len(),
            all == contents.deep_view(),
            contents_text(all.take(i as int)) == Ok::<Seq<char>, ErrorView>(text@),
        decreases contents.len() - i,
    {
        proof {
            assert(all.take(i + 1).drop_last() =~= all.take(i as int));
            assert(all.take(i + 1).last() == all[i as int]);
            assert(all[i as int] == contents@[i as int]@);
        }
        match &contents[i] {
            Content::Text(more) => text.append(more.as_str()),
            _ => {
                proof {
                    contents_text_fails(all, i + 1);
                }
                return Err(invalid("Live history accepts text only"));
            },
        }
        i += 1;
    }
    assert(all.take(all.len() as int) =~= all);
    Ok(text)
}

fn contents_of(output: &Vec<Output>) -> (r: Result<Vec<Content>, Error>)
    ensures
        seen(r) == output_contents(output.deep_view()),
{
    let ghost all = output.deep_view();
    let mut contents: Vec<Content> = Vec::new();
    let mut i: usize = 0;
    while i < output.len()
        invariant
            i <= output.len(),
            all == output.deep_view(),
            contents.deep_view().len() == i,
            forall|j: int|
                0 <= j < i ==> (#[trigger] all[j]) is Content && contents.deep_view()[j]
                    == all[j]->Content_0,
        decreases output.len() - i,
    {
        assert(all[i as int] == output@[i as int]@);
        match &output[i] {
            Output::Content(content) => {
                let ghost before = contents.deep_view();
                contents.push(content.clone());
                assert(contents.deep_view() =~= before.push(all[i as int]->Content_0));
            },
            _ => {
                assert(!(all[i as int] is Content));
                return Err(invalid("Live history accepts conversation text only"));
            },
        }
        i += 1;
    }
    assert(contents.deep_view() =~= Seq::new(all.len(), |j: int| all[j]->Content_0));
    Ok(contents)
}

pub fn text(message: &Message) -> (r: Result<String, Error>)
    ensures
        seen(r) == message_text(message@),
{
    match message {
        Message::User(contents) => text_of(contents),
        Message::System(contents) => text_of(contents),
        Message::External(contents) => text_of(contents),
        Message::Assistant { output, .. } => {
            let contents = contents_of(output)?;
            text_of(&contents)
        },
        _ => Err(invalid("Live history accepts conversation text only")),
    }
}

/// Who speaks a message that a conversation begins with.
pub open spec fn initial_role(message: MessageView) -> Option<Seq<char>> {
    match message {
        MessageView::System(_) => Some("developer"@),
        MessageView::User(_) => Some("user"@),
        MessageView::External(_) => Some("user"@),
        MessageView::Assistant { .. } => Some("assistant"@),
        _ => None,
    }
}

pub open spec fn text_part(kind: Seq<char>, text: Seq<char>) -> JsonView {
    JsonView::empty().set("type"@, JsonView::text(kind)).set("text"@, JsonView::text(text))
}

pub open spec fn initial_item(message: MessageView) -> Result<JsonView, ErrorView> {
    match initial_role(message) {
        None => Err(ErrorView::Invalid("unsupported Live initial message"@)),
        Some(role) => match message_text(message) {
            Err(e) => Err(e),
            Ok(text) => Ok(
                JsonView::empty().set("type"@, JsonView::text("message"@)).set(
                    "role"@,
                    JsonView::text(role),
                ).set(
                    "content"@,
                    JsonView::Array(
                        seq![
                            text_part(
                                if message is Assistant {
                                    "output_text"@
                                } else {
                                    "input_text"@
                                },
                                text,
                            ),
                        ],
                    ),
                ),
            ),
        },
    }
}

/// What a conversation begins with.
pub open spec fn opening_items(messages: Seq<MessageView>) -> Result<Seq<JsonView>, ErrorView> {
    all_ok(Seq::new(messages.len(), |i: int| initial_item(messages[i])))
}

fn make_part(kind: &str, text: &str) -> (r: Json)
    ensures
        r@ == text_part(kind@, text@),
{
    Json::empty().with_text("type", kind).with_text("text", text)
}

fn make_item(message: &Message) -> (r: Result<Json, Error>)
    ensures
        seen(r) == initial_item(message@),
{
    let role = match message {
        Message::System(_) => "developer",
        Message::User(_) => "user",
        Message::External(_) => "user",
        Message::Assistant { .. } => "assistant",
        _ => return Err(invalid("unsupported Live initial message")),
    };
    let kind = match message {
        Message::Assistant { .. } => "output_text",
        _ => "input_text",
    };
    let text = text(message)?;
    let mut content: Vec<Json> = Vec::new();
    let part = make_part(kind, text.as_str());
    let ghost seen_part = part@;
    content.push(part);
    assert(content.deep_view() =~= seq![seen_part]);
    Ok(
        Json::empty().with_text("type", "message").with_text("role", role).with(
            "content",
            Json::array(content),
        ),
    )
}

pub fn initial_items(request: &ModelRequest) -> (r: Result<Vec<Json>, Error>)
    ensures
        seen(r) == opening_items(request.messages.deep_view()),
{
    let ghost messages = request.messages.deep_view();
    let ghost all = Seq::new(messages.len(), |i: int| initial_item(messages[i]));
    let mut items: Vec<Json> = Vec::new();
    let mut i: usize = 0;
    assert(all.take(0) =~= Seq::empty());
    assert(items.deep_view() =~= Seq::empty());
    while i < request.messages.len()
        invariant
            i <= request.messages.len(),
            messages == request.messages.deep_view(),
            all == Seq::new(messages.len(), |i: int| initial_item(messages[i])),
            all_ok(all.take(i as int)) == Ok::<Seq<JsonView>, ErrorView>(items.deep_view()),
        decreases request.messages.len() - i,
    {
        proof {
            all_ok_step(all, i as int);
            assert(messages[i as int] == request.messages@[i as int]@);
        }
        let item = make_item(&request.messages[i])?;
        let ghost before = items.deep_view();
        let ghost added = item@;
        items.push(item);
        assert(items.deep_view() =~= before.push(added));
        i += 1;
    }
    assert(all.take(all.len() as int) =~= all);
    Ok(items)
}

// ---------------------------------------------------------------------------------------
// Context
// ---------------------------------------------------------------------------------------
/// The most bytes of text that one message of context holds.
pub const FRAGMENT_BYTES: usize = 500;

/// One message of context.
pub open spec fn context_message(
    kind: Seq<char>,
    id: Seq<char>,
    index: nat,
    text: Seq<char>,
    delegation: Option<Seq<char>>,
    channel: Seq<char>,
) -> JsonView {
    let message = JsonView::empty().set("type"@, JsonView::text(kind)).set(
        "event_id"@,
        JsonView::text(id + ":"@ + decimal(index)),
    ).set("channel"@, JsonView::text(channel)).set(
        "content"@,
        JsonView::Array(seq![text_part("input_text"@, text)]),
    );
    match delegation {
        Some(item) => message.set("delegation_item_id"@, JsonView::text(item)),
        None => message,
    }
}

/// Context as messages: one for each fragment of the text, numbered from zero.
pub open spec fn context_messages(
    kind: Seq<char>,
    id: Seq<char>,
    text: Seq<char>,
    delegation: Option<Seq<char>>,
    channel: Seq<char>,
) -> Seq<JsonView> {
    let parts = fragments(text, FRAGMENT_BYTES as nat);
    Seq::new(
        parts.len(),
        |i: int| context_message(kind, id, i as nat, parts[i], delegation, channel),
    )
}

pub fn context(kind: &str, id: &str, text: &str, delegation: Option<&str>, channel: &str) -> (r: Vec<
    Json,
>)
    ensures
        r.deep_view() == context_messages(kind@, id@, text@, delegation.deep_view(), channel@),
{
    let parts = split_fragments(text, FRAGMENT_BYTES);
    let ghost all = parts.deep_view();
    let ghost item = delegation.deep_view();
    let mut messages: Vec<Json> = Vec::new();
    let mut i: usize = 0;
    while i < parts.len()
        invariant
            i <= parts.len(),
            all == parts.deep_view(),
            item == delegation.deep_view(),
            messages.deep_view().len() == i,
            forall|j: int|
                0 <= j < i ==> #[trigger] messages.deep_view()[j] == context_message(
                    kind@,
                    id@,
                    j as nat,
                    all[j],
                    item,
                    channel@,
                ),
        decreases parts.len() - i,
    {
        assert(all[i as int] == parts@[i as int]@);
        let digits = number(i as u64);
        let event_id = join3(id, ":", digits.as_str());
        let mut content: Vec<Json> = Vec::new();
        content.push(make_part("input_text", parts[i].as_str()));
        assert(content.deep_view() =~= seq![text_part("input_text"@, all[i as int])]);
        let message = Json::empty().with_text("type", kind).with_text(
            "event_id",
            event_id.as_str(),
        ).with_text("channel", channel).with("content", Json::array(content));
        let message = match delegation {
            Some(item) => message.with_text("delegation_item_id", item),
            None => message,
        };
        let ghost before = messages.deep_view();
        let ghost added = message@;
        messages.push(message);
        assert(messages.deep_view() =~= before.push(added));
        i += 1;
    }
    assert(messages.deep_view() =~= context_messages(
        kind@,
        id@,
        text@,
        delegation.deep_view(),
        channel@,
    ));
    messages
}

// ---------------------------------------------------------------------------------------
// What the service says
// ---------------------------------------------------------------------------------------
/// A field of a record: by its name where the record is an object, by its place where it is an
/// array of all fields.
pub open spec fn record_field(record: JsonView, name: Seq<char>, place: int, count: int) -> Option<
    JsonView,
> {
    match record {
        JsonView::Object(fields) => lookup(fields, name),
        JsonView::Array(items) => if items.len() == count {
            Some(items[place])
        } else {
            None
        },
        _ => None,
    }
}

pub open spec fn record_text(record: JsonView, name: Seq<char>, place: int, count: int) -> Option<
    Seq<char>,
> {
    match record_field(record, name, place, count) {
        Some(value) => value.as_str(),
        None => None,
    }
}

fn get_field<'a>(record: &'a Json, name: &str, place: usize, count: usize) -> (r: Option<&'a Json>)
    requires
        place < count,
    ensures
        r.deep_view() == record_field(record@, name@, place as int, count as int),
{
    broadcast use crate::json::group_json_views;

    match record {
        Json::Object(_) => record.get(name),
        Json::Array(items) => if items.len() == count {
            Some(&items[place])
        } else {
            None
        },
        _ => None,
    }
}

fn get_text(record: &Json, name: &str, place: usize, count: usize) -> (r: Option<String>)
    requires
        place < count,
    ensures
        r.deep_view() == record_text(record@, name@, place as int, count as int),
{
    match get_field(record, name, place, count) {
        Some(value) => match value.as_str() {
            Some(text) => Some(text.to_owned()),
            None => None,
        },
        None => None,
    }
}

#[derive(Debug, PartialEq, Eq)]
pub struct Turn {
    pub id: String,
    pub role: String,
    pub transcript: String,
}

#[derive(Debug, PartialEq, Eq)]
pub struct TextPart {
    pub kind: String,
    pub text: String,
}

pub struct TextPartView {
    pub kind: Seq<char>,
    pub text: Seq<char>,
}

impl DeepView for TextPart {
    type V = TextPartView;

    open spec fn deep_view(&self) -> TextPartView {
        TextPartView { kind: self.kind@, text: self.text@ }
    }
}

#[derive(Debug, PartialEq, Eq)]
pub struct Delegation {
    pub kind: String,
    pub id: String,
    pub target: String,
    pub content: Vec<TextPart>,
}

#[allow(inconsistent_fields)]
#[derive(Debug, PartialEq, Eq)]
pub enum ServerEvent {
    Started { session: Json },
    AudioPaused,
    AudioResumed,
    Turn(Turn),
    Delegation(Delegation),
    Closed { reason: String, usage: Json },
    Error { code: String, message: String },
    /// Anything else is observed and no more.
    Observation,
}

#[allow(inconsistent_fields)]
pub enum ServerEventView {
    Started { session: JsonView },
    AudioPaused,
    AudioResumed,
    Turn { id: Seq<char>, role: Seq<char>, transcript: Seq<char> },
    Delegation {
        kind: Seq<char>,
        id: Seq<char>,
        target: Seq<char>,
        content: Seq<TextPartView>,
    },
    Closed { reason: Seq<char>, usage: JsonView },
    Error { code: Seq<char>, message: Seq<char> },
    Observation,
}

impl View for ServerEvent {
    type V = ServerEventView;

    open spec fn view(&self) -> ServerEventView {
        match self {
            ServerEvent::Started { session } => ServerEventView::Started { session: session@ },
            ServerEvent::AudioPaused => ServerEventView::AudioPaused,
            ServerEvent::AudioResumed => ServerEventView::AudioResumed,
            ServerEvent::Turn(turn) => ServerEventView::Turn {
                id: turn.id@,
                role: turn.role@,
                transcript: turn.transcript@,
            },
            ServerEvent::Delegation(item) => ServerEventView::Delegation {
                kind: item.kind@,
                id: item.id@,
                target: item.target@,
                content: item.content.deep_view(),
            },
            ServerEvent::Closed { reason, usage } => ServerEventView::Closed {
                reason: reason@,
                usage: usage@,
            },
            ServerEvent::Error { code, message } => ServerEventView::Error {
                code: code@,
                message: message@,
            },
            ServerEvent::Observation => ServerEventView::Observation,
        }
    }
}

impl DeepView for ServerEvent {
    type V = ServerEventView;

    open spec fn deep_view(&self) -> ServerEventView {
        self@
    }
}

/// The kind of an event: its field `type`, or the first item where it is an array.
pub open spec fn event_kind(value: JsonView) -> Option<Seq<char>> {
    match value {
        JsonView::Object(fields) => match lookup(fields, "type"@) {
            Some(kind) => kind.as_str(),
            None => None,
        },
        JsonView::Array(items) => if items.len() > 0 {
            items[0].as_str()
        } else {
            None
        },
        _ => None,
    }
}

/// A field of an event: in an array, the fields follow the kind.
pub open spec fn event_field(value: JsonView, name: Seq<char>, place: int, count: int) -> Option<
    JsonView,
> {
    record_field(value, name, place + 1, count + 1)
}

pub open spec fn read_part(value: JsonView) -> Option<TextPartView> {
    match (record_text(value, "type"@, 0, 2), record_text(value, "text"@, 1, 2)) {
        (Some(kind), Some(text)) => Some(TextPartView { kind, text }),
        _ => None,
    }
}

pub open spec fn read_parts(items: Seq<JsonView>) -> Option<Seq<TextPartView>> {
    if forall|i: int| 0 <= i < items.len() ==> read_part(#[trigger] items[i]) is Some {
        Some(Seq::new(items.len(), |i: int| read_part(items[i])->0))
    } else {
        None
    }
}

pub open spec fn read_turn(value: JsonView) -> Option<ServerEventView> {
    match (
        record_text(value, "id"@, 0, 3),
        record_text(value, "role"@, 1, 3),
        record_text(value, "transcript"@, 2, 3),
    ) {
        (Some(id), Some(role), Some(transcript)) => Some(
            ServerEventView::Turn { id, role, transcript },
        ),
        _ => None,
    }
}

pub open spec fn read_delegation(value: JsonView) -> Option<ServerEventView> {
    let content = match record_field(value, "content"@, 3, 4) {
        Some(JsonView::Array(items)) => read_parts(items),
        _ => None,
    };
    match (
        record_text(value, "type"@, 0, 4),
        record_text(value, "id"@, 1, 4),
        record_text(value, "target"@, 2, 4),
        content,
    ) {
        (Some(kind), Some(id), Some(target), Some(content)) => Some(
            ServerEventView::Delegation { kind, id, target, content },
        ),
        _ => None,
    }
}

pub open spec fn read_error(value: JsonView) -> Option<ServerEventView> {
    match (record_text(value, "code"@, 0, 2), record_text(value, "message"@, 1, 2)) {
        (Some(code), Some(message)) => Some(ServerEventView::Error { code, message }),
        _ => None,
    }
}

/// The event that a value is, where its fields are what its kind asks for.
pub open spec fn read_event(value: JsonView) -> Option<ServerEventView> {
    match event_kind(value) {
        None => None,
        Some(kind) => if kind == "session.started"@ {
            match event_field(value, "session"@, 0, 1) {
                Some(session) => Some(ServerEventView::Started { session }),
                None => None,
            }
        } else if kind == "input_audio.paused"@ {
            Some(ServerEventView::AudioPaused)
        } else if kind == "input_audio.resumed"@ {
            Some(ServerEventView::AudioResumed)
        } else if kind == "turn.done"@ {
            match event_field(value, "turn"@, 0, 1) {
                Some(turn) => read_turn(turn),
                None => None,
            }
        } else if kind == "delegation.created"@ {
            match event_field(value, "item"@, 0, 1) {
                Some(item) => read_delegation(item),
                None => None,
            }
        } else if kind == "session.closed"@ {
            match (
                event_field(value, "reason"@, 0, 2),
                event_field(value, "usage"@, 1, 2),
            ) {
                (Some(JsonView::Text(reason)), Some(usage)) => Some(
                    ServerEventView::Closed { reason, usage },
                ),
                _ => None,
            }
        } else if kind == "error"@ {
            match event_field(value, "error"@, 0, 1) {
                Some(error) => read_error(error),
                None => None,
            }
        } else {
            Some(ServerEventView::Observation)
        },
    }
}

fn part(value: &Json) -> (r: Option<TextPart>)
    ensures
        r.deep_view() == read_part(value@),
{
    let kind = get_text(value, "type", 0, 2)?;
    let text = get_text(value, "text", 1, 2)?;
    Some(TextPart { kind, text })
}

fn parts(items: &Vec<Json>) -> (r: Option<Vec<TextPart>>)
    ensures
        r.deep_view() == read_parts(items.deep_view()),
{
    let ghost all = items.deep_view();
    let mut out: Vec<TextPart> = Vec::new();
    let mut i: usize = 0;
    while i < items.len()
        invariant
            i <= items.len(),
            all == items.deep_view(),
            out.deep_view().len() == i,
            forall|j: int|
                0 <= j < i ==> read_part(#[trigger] all[j]) == Some(out.deep_view()[j]),
        decreases items.len() - i,
    {
        assert(all[i as int] == items@[i as int]@);
        match part(&items[i]) {
            Some(part) => {
                let ghost before = out.deep_view();
                let ghost added = part.deep_view();
                out.push(part);
                assert(out.deep_view() =~= before.push(added));
            },
            None => {
                assert(read_part(all[i as int]) is None);
                return None;
            },
        }
        i += 1;
    }
    assert(out.deep_view() =~= Seq::new(all.len(), |j: int| read_part(all[j])->0));
    Some(out)
}

fn turn(value: &Json) -> (r: Option<ServerEvent>)
    ensures
        r.deep_view() == read_turn(value@),
{
    let id = get_text(value, "id", 0, 3)?;
    let role = get_text(value, "role", 1, 3)?;
    let transcript = get_text(value, "transcript", 2, 3)?;
    Some(ServerEvent::Turn(Turn { id, role, transcript }))
}

fn delegation(value: &Json) -> (r: Option<ServerEvent>)
    ensures
        r.deep_view() == read_delegation(value@),
{
    let kind = get_text(value, "type", 0, 4)?;
    let id = get_text(value, "id", 1, 4)?;
    let target = get_text(value, "target", 2, 4)?;
    let items = get_field(value, "content", 3, 4)?.as_array()?;
    let content = parts(items)?;
    Some(ServerEvent::Delegation(Delegation { kind, id, target, content }))
}

fn error(value: &Json) -> (r: Option<ServerEvent>)
    ensures
        r.deep_view() == read_error(value@),
{
    let code = get_text(value, "code", 0, 2)?;
    let message = get_text(value, "message", 1, 2)?;
    Some(ServerEvent::Error { code, message })
}

/// Reads an event of the service.
pub fn server_event(value: &Json) -> (r: Option<ServerEvent>)
    ensures
        r.deep_view() == read_event(value@),
{
    broadcast use crate::json::group_json_views;

    let kind = match value {
        Json::Object(_) => value.get_str("type")?,
        Json::Array(items) => {
            if items.len() == 0 {
                return None;
            }
            items[0].as_str()?
        },
        _ => return None,
    };
    if same(kind, "session.started") {
        let session = get_field(value, "session", 1, 2)?.clone();
        Some(ServerEvent::Started { session })
    } else if same(kind, "input_audio.paused") {
        Some(ServerEvent::AudioPaused)
    } else if same(kind, "input_audio.resumed") {
        Some(ServerEvent::AudioResumed)
    } else if same(kind, "turn.done") {
        turn(get_field(value, "turn", 1, 2)?)
    } else if same(kind, "delegation.created") {
        delegation(get_field(value, "item", 1, 2)?)
    } else if same(kind, "session.closed") {
        let reason = get_text(value, "reason", 1, 3)?;
        let usage = get_field(value, "usage", 2, 3)?.clone();
        Some(ServerEvent::Closed { reason, usage })
    } else if same(kind, "error") {
        error(get_field(value, "error", 1, 2)?)
    } else {
        Some(ServerEvent::Observation)
    }
}

} // verus!
