//! Normalized output of a provider tool, and the native items that replay it.
use crate::encoding::{base64_bytes, base64_decode};
use crate::error::{all_ok, invalid, seen, Error, ErrorView};
use crate::json::{group_json_views, lookup, Json, JsonView};
use crate::message::{
    Content, ContentView, Modality, Output, OutputView, ProviderToolCall, ProviderToolCallView,
    ProviderToolStatus, ResourceInput, ResourceInputView, ResourceSource, ResourceSourceView,
};
use crate::provider_tools::record::{
    all_of, read_record, record_of, written_record_is_read, Readable,
};
use crate::text::{decimal, join, join4, number, same};
use vstd::prelude::*;

verus! {

/// The field of a call's data that holds its replay.
pub const REPLAY_KEY: &'static str = "$zhir_provider_replay";

/// A native field that a part of the normalized output was read from.
#[derive(Debug, PartialEq, Eq)]
pub struct MediaBinding {
    pub content_index: usize,
    pub pointer: String,
}

pub struct MediaBindingView {
    pub content_index: usize,
    pub pointer: Seq<char>,
}

impl View for MediaBinding {
    type V = MediaBindingView;

    open spec fn view(&self) -> MediaBindingView {
        MediaBindingView { content_index: self.content_index, pointer: self.pointer@ }
    }
}

impl DeepView for MediaBinding {
    type V = MediaBindingView;

    open spec fn deep_view(&self) -> MediaBindingView {
        self@
    }
}

/// The native items of a call, and which of their fields hold media.
#[derive(Debug, PartialEq, Eq)]
pub struct Replay {
    pub items: Vec<Json>,
    pub media: Vec<MediaBinding>,
}

pub struct ReplayView {
    pub items: Seq<JsonView>,
    pub media: Seq<MediaBindingView>,
}

impl View for Replay {
    type V = ReplayView;

    open spec fn view(&self) -> ReplayView {
        ReplayView { items: self.items.deep_view(), media: self.media.deep_view() }
    }
}

impl DeepView for Replay {
    type V = ReplayView;

    open spec fn deep_view(&self) -> ReplayView {
        self@
    }
}

// ---------------------------------------------------------------------------------------
// The written form
// ---------------------------------------------------------------------------------------
/// The object with two fields.
pub open spec fn two_fields(
    first: Seq<char>,
    a: JsonView,
    second: Seq<char>,
    b: JsonView,
) -> JsonView {
    JsonView::Object(seq![(first, a), (second, b)])
}

fn with_two_fields(first: &str, a: Json, second: &str, b: Json) -> (r: Json)
    ensures
        r@ == two_fields(first@, a@, second@, b@),
{
    broadcast use group_json_views;

    let mut fields: Vec<(String, Json)> = Vec::new();
    fields.push((first.to_owned(), a));
    fields.push((second.to_owned(), b));
    assert(fields.deep_view() =~= seq![(first@, a@), (second@, b@)]);
    Json::Object(fields)
}

impl MediaBindingView {
    pub open spec fn written(self) -> JsonView {
        two_fields(
            "content_index"@,
            JsonView::uint(self.content_index as u64),
            "pointer"@,
            JsonView::text(self.pointer),
        )
    }
}

impl ReplayView {
    pub open spec fn written(self) -> JsonView {
        two_fields(
            "items"@,
            JsonView::Array(self.items),
            "media"@,
            JsonView::Array(self.media.map_values(|m: MediaBindingView| m.written())),
        )
    }
}

fn write_bindings(media: &Vec<MediaBinding>) -> (r: Vec<Json>)
    ensures
        r.deep_view() == media.deep_view().map_values(|m: MediaBindingView| m.written()),
{
    let ghost all = media.deep_view().map_values(|m: MediaBindingView| m.written());
    let mut out: Vec<Json> = Vec::new();
    let mut i: usize = 0;
    while i < media.len()
        invariant
            i <= media@.len(),
            all == media.deep_view().map_values(|m: MediaBindingView| m.written()),
            out.deep_view() == all.take(i as int),
        decreases media@.len() - i,
    {
        let ghost before = out.deep_view();
        let binding = &media[i];
        assert(media.deep_view()[i as int] == binding@);
        let written = with_two_fields(
            "content_index",
            Json::uint(binding.content_index as u64),
            "pointer",
            Json::text(&binding.pointer),
        );
        out.push(written);
        assert(out.deep_view() =~= before.push(written@));
        assert(all.take(i + 1) =~= all.take(i as int).push(all[i as int]));
        i += 1;
    }
    assert(all.take(all.len() as int) =~= all);
    out
}

fn write_replay(replay: Replay) -> (r: Json)
    ensures
        r@ == replay@.written(),
{
    let media = write_bindings(&replay.media);
    with_two_fields("items", Json::array(replay.items), "media", Json::array(media))
}

// ---------------------------------------------------------------------------------------
// Reading it
// ---------------------------------------------------------------------------------------
impl Readable for MediaBinding {
    open spec fn of(value: JsonView) -> Result<MediaBindingView, Seq<char>> {
        match record_of::<usize, String>(
            value,
            "MediaBinding"@,
            "content_index"@,
            "pointer"@,
        ) {
            Ok((content_index, pointer)) => Ok(MediaBindingView { content_index, pointer }),
            Err(message) => Err(message),
        }
    }

    fn read(value: &Json) -> (r: Result<MediaBinding, String>) {
        proof {
            binding_keys_differ();
        }
        let (content_index, pointer) = read_record::<usize, String>(
            value,
            "MediaBinding",
            "content_index",
            "pointer",
        )?;
        Ok(MediaBinding { content_index, pointer })
    }
}

proof fn binding_keys_differ()
    ensures
        "content_index"@ != "pointer"@,
{
    reveal_strlit("content_index");
    reveal_strlit("pointer");
    assert("content_index"@.len() != "pointer"@.len());
}

proof fn replay_keys_differ()
    ensures
        "items"@ != "media"@,
{
    reveal_strlit("items");
    reveal_strlit("media");
    assert("items"@[0] == 'i');
    assert("media"@[0] == 'm');
}

/// The replay that a value holds. What is wrong with one that holds none is told.
pub open spec fn replay_of(value: JsonView) -> Result<ReplayView, ErrorView> {
    match record_of::<Vec<Json>, Vec<MediaBinding>>(value, "Replay"@, "items"@, "media"@) {
        Ok((items, media)) => Ok(ReplayView { items, media }),
        Err(message) => Err(ErrorView::Protocol("invalid provider replay: "@ + message)),
    }
}

fn read_replay(value: &Json) -> (r: Result<Replay, Error>)
    ensures
        seen(r) == replay_of(value@),
{
    proof {
        replay_keys_differ();
    }
    match read_record::<Vec<Json>, Vec<MediaBinding>>(value, "Replay", "items", "media") {
        Ok((items, media)) => Ok(Replay { items, media }),
        Err(message) => Err(Error::Protocol(join("invalid provider replay: ", &message))),
    }
}

/// The replay that the data of a call holds, if it holds one.
pub open spec fn call_replay(call: ProviderToolCallView) -> Result<Option<ReplayView>, ErrorView> {
    match call.data.get(REPLAY_KEY@) {
        Some(value) => match replay_of(value) {
            Ok(replay) => Ok(Some(replay)),
            Err(e) => Err(e),
        },
        None => Ok(None),
    }
}

/// Reads the replay of a call.
pub fn replay(call: &ProviderToolCall) -> (r: Result<Option<Replay>, Error>)
    ensures
        seen(r) == call_replay(call@),
{
    match call.data.get(REPLAY_KEY) {
        Some(value) => Ok(Some(read_replay(value)?)),
        None => Ok(None),
    }
}

// ---------------------------------------------------------------------------------------
// Building output
// ---------------------------------------------------------------------------------------
/// Builds normalized output and its native replay together. Each media path is local to
/// the native item that was appended last.
#[derive(Debug, PartialEq, Eq)]
pub struct ProviderOutput {
    call: ProviderToolCall,
    replay: Replay,
}

pub struct ProviderOutputView {
    pub call: ProviderToolCallView,
    pub replay: ReplayView,
}

impl View for ProviderOutput {
    type V = ProviderOutputView;

    closed spec fn view(&self) -> ProviderOutputView {
        ProviderOutputView { call: self.call@, replay: self.replay@ }
    }
}

impl DeepView for ProviderOutput {
    type V = ProviderOutputView;

    open spec fn deep_view(&self) -> ProviderOutputView {
        self@
    }
}

/// The path of a field of a native item, among all native items of the call.
pub open spec fn item_path(index: nat, pointer: Seq<char>) -> Seq<char> {
    "/items/"@ + decimal(index) + pointer
}

impl ProviderOutputView {
    /// Whether a native field is bound to a part of the output.
    pub open spec fn bound(self, path: Seq<char>) -> bool {
        exists|i: int|
            0 <= i < self.replay.media.len() && (#[trigger] self.replay.media[i]).pointer == path
    }

    pub open spec fn with_item(self, item: JsonView) -> ProviderOutputView {
        ProviderOutputView {
            replay: ReplayView { items: self.replay.items.push(item), ..self.replay },
            ..self
        }
    }

    pub open spec fn with_content(self, content: ContentView) -> ProviderOutputView {
        ProviderOutputView {
            call: ProviderToolCallView { output: self.call.output.push(content), ..self.call },
            ..self
        }
    }

    /// The output with a base64 field of the last native item copied into it.
    pub open spec fn with_media(
        self,
        pointer: Seq<char>,
        media_type: Seq<char>,
        modality: Modality,
    ) -> Result<ProviderOutputView, ErrorView> {
        let items = self.replay.items;
        if items.len() == 0 {
            Err(ErrorView::Invalid("append a native item before binding media"@))
        } else {
            let index = (items.len() - 1) as nat;
            match items.last().pointer(pointer) {
                Some(JsonView::Text(base64)) => if base64.len() == 0 {
                    Err(not_media())
                } else {
                    match base64_bytes(base64) {
                        Err(message) => Err(ErrorView::Protocol(message)),
                        Ok(bytes) => if self.bound(item_path(index, pointer)) {
                            Err(ErrorView::Invalid("native media path is already bound"@))
                        } else {
                            let resource = ResourceInputView {
                                id: self.call.id + ":"@ + decimal(index) + ":"@ + pointer,
                                media_type,
                                modality,
                                name: None,
                                source: ResourceSourceView::Inline(bytes),
                                metadata: JsonView::empty(),
                                fidelity: None,
                                extensions: JsonView::empty(),
                            };
                            let binding = MediaBindingView {
                                content_index: self.call.output.len() as usize,
                                pointer: item_path(index, pointer),
                            };
                            let output = self.with_content(ContentView::Resource(resource));
                            Ok(
                                ProviderOutputView {
                                    replay: ReplayView {
                                        media: self.replay.media.push(binding),
                                        ..self.replay
                                    },
                                    ..output
                                },
                            )
                        },
                    }
                },
                _ => Err(not_media()),
            }
        }
    }

    /// The call, with the replay in its data.
    pub open spec fn finished(self) -> ProviderToolCallView {
        ProviderToolCallView {
            data: JsonView::Object(seq![(REPLAY_KEY@, self.replay.written())]),
            ..self.call
        }
    }
}

pub open spec fn not_media() -> ErrorView {
    ErrorView::Invalid("media path must address a nonempty base64 string in the native item"@)
}

/// The field of an item that holds media: text, and not empty.
fn media_text<'a>(item: &'a Json, pointer: &str) -> (r: Option<&'a str>)
    ensures
        match r {
            Some(text) => item@.pointer(pointer@) == Some(JsonView::Text(text@)) && text@.len()
                > 0,
            None => match item@.pointer(pointer@) {
                Some(JsonView::Text(text)) => text.len() == 0,
                _ => true,
            },
        },
{
    match item.pointer(pointer) {
        Some(Json::Text(text)) => if same(text, "") {
            proof {
                reveal_strlit("");
            }
            None
        } else {
            proof {
                reveal_strlit("");
                if text@.len() == 0 {
                    assert(text@ =~= ""@);
                }
            }
            Some(text.as_str())
        },
        _ => None,
    }
}

impl ProviderOutput {
    /// Output of a call, without content and without native items.
    pub fn new(provider: String, name: String, id: String, status: ProviderToolStatus) -> (r: Self)
        ensures
            r@ == (ProviderOutputView {
                call: ProviderToolCallView {
                    id: id@,
                    provider: provider@,
                    name: name@,
                    status,
                    output: Seq::empty(),
                    data: JsonView::Null,
                },
                replay: ReplayView { items: Seq::empty(), media: Seq::empty() },
            }),
    {
        let r = ProviderOutput {
            call: ProviderToolCall {
                id,
                provider,
                name,
                status,
                output: Vec::new(),
                data: Json::Null,
            },
            replay: Replay { items: Vec::new(), media: Vec::new() },
        };
        assert(r.call.output.deep_view() =~= Seq::empty());
        assert(r.replay.items.deep_view() =~= Seq::empty());
        assert(r.replay.media.deep_view() =~= Seq::empty());
        r
    }

    /// Appends a native replay item, with any fields that only its owner reads.
    pub fn native(self, item: Json) -> (r: Self)
        ensures
            r@ == self@.with_item(item@),
    {
        let mut out = self;
        out.replay.items.push(item);
        assert(out.replay.items.deep_view() =~= self.replay.items.deep_view().push(item@));
        out
    }

    pub fn content(self, content: Content) -> (r: Self)
        ensures
            r@ == self@.with_content(content@),
    {
        let mut out = self;
        out.call.output.push(content);
        assert(out.call.output.deep_view() =~= self.call.output.deep_view().push(content@));
        out
    }

    fn is_bound(&self, path: &str) -> (r: bool)
        ensures
            r == self@.bound(path@),
    {
        let mut i: usize = 0;
        while i < self.replay.media.len()
            invariant
                i <= self.replay.media@.len(),
                forall|j: int| 0 <= j < i ==> (#[trigger] self@.replay.media[j]).pointer != path@,
            decreases self.replay.media@.len() - i,
        {
            assert(self@.replay.media[i as int] == self.replay.media@[i as int]@);
            if same(&self.replay.media[i].pointer, path) {
                return true;
            }
            i += 1;
        }
        false
    }

    /// Copies a base64 field of the last native item into the output and remembers where
    /// it came from.
    pub fn media(self, pointer: &str, media_type: String, modality: Modality) -> (r: Result<
        Self,
        Error,
    >)
        ensures
            seen(r) == self@.with_media(pointer@, media_type@, modality),
    {
        let count: usize = self.replay.items.len();
        if count == 0 {
            return Err(invalid("append a native item before binding media"));
        }
        let index: usize = count - 1;
        assert(self@.replay.items.last() == self.replay.items@[index as int]@);
        let base64 = match media_text(&self.replay.items[index], pointer) {
            Some(text) => text,
            None => {
                return Err(
                    invalid("media path must address a nonempty base64 string in the native item"),
                );
            },
        };
        let bytes = match base64_decode(base64) {
            Ok(bytes) => bytes,
            Err(message) => {
                return Err(Error::Protocol(message));
            },
        };
        let digits = number(index as u64);
        let path = join(&join("/items/", &digits), pointer);
        if self.is_bound(&path) {
            return Err(invalid("native media path is already bound"));
        }
        let resource = ResourceInput {
            id: join(&join4(&self.call.id, ":", &digits, ":"), pointer),
            media_type,
            modality,
            name: None,
            source: ResourceSource::Inline(bytes),
            metadata: Json::empty(),
            fidelity: None,
            extensions: Json::empty(),
        };
        let binding = MediaBinding { content_index: self.call.output.len(), pointer: path };
        let mut out = self.content(Content::Resource(resource));
        let ghost before = out.replay.media.deep_view();
        out.replay.media.push(binding);
        assert(out.replay.media.deep_view() =~= before.push(binding@));
        Ok(out)
    }

    /// The call as an output item.
    pub fn finish(self) -> (r: Output)
        ensures
            r@ == OutputView::ProviderToolCall(self@.finished()),
    {
        broadcast use group_json_views;

        let written = write_replay(self.replay);
        let mut fields: Vec<(String, Json)> = Vec::new();
        fields.push((REPLAY_KEY.to_owned(), written));
        assert(fields.deep_view() =~= seq![(REPLAY_KEY@, self.replay@.written())]);
        let mut call = self.call;
        call.data = Json::Object(fields);
        Output::ProviderToolCall(call)
    }

    /// The native items that stand for a call in the history.
    pub fn replay(call: &ProviderToolCall) -> (r: Result<Vec<Json>, Error>)
        ensures
            seen(r) == replayed(call@),
    {
        match replay(call)? {
            Some(found) => Ok(found.items),
            None => Err(invalid("provider call has no canonical replay payload")),
        }
    }
}

/// The native items that stand for a call, where its data holds them.
pub open spec fn replayed(call: ProviderToolCallView) -> Result<Seq<JsonView>, ErrorView> {
    match call_replay(call) {
        Ok(Some(replay)) => Ok(replay.items),
        Ok(None) => Err(ErrorView::Invalid("provider call has no canonical replay payload"@)),
        Err(e) => Err(e),
    }
}

// ---------------------------------------------------------------------------------------
// Laws
// ---------------------------------------------------------------------------------------
proof fn items_read_back(items: Seq<JsonView>)
    ensures
        all_ok(all_of::<Json>(items)) == Ok::<Seq<JsonView>, Seq<char>>(items),
    decreases items.len(),
{
    if items.len() == 0 {
        assert(items =~= Seq::empty());
    } else {
        items_read_back(items.drop_last());
        assert(all_of::<Json>(items).drop_last() =~= all_of::<Json>(items.drop_last()));
        assert(items =~= items.drop_last().push(items.last()));
    }
}

proof fn bindings_read_back(media: Seq<MediaBindingView>)
    ensures
        all_ok(
            all_of::<MediaBinding>(media.map_values(|m: MediaBindingView| m.written())),
        ) == Ok::<Seq<MediaBindingView>, Seq<char>>(media),
    decreases media.len(),
{
    let written = media.map_values(|m: MediaBindingView| m.written());
    if media.len() == 0 {
        assert(media =~= Seq::empty());
    } else {
        let last = media.last();
        binding_keys_differ();
        written_record_is_read::<usize, String>(
            "MediaBinding"@,
            "content_index"@,
            JsonView::uint(last.content_index as u64),
            "pointer"@,
            JsonView::text(last.pointer),
        );
        assert(MediaBinding::of(last.written()) == Ok::<MediaBindingView, Seq<char>>(last));
        bindings_read_back(media.drop_last());
        assert(all_of::<MediaBinding>(written).drop_last() =~= all_of::<MediaBinding>(
            media.drop_last().map_values(|m: MediaBindingView| m.written()),
        ));
        assert(media =~= media.drop_last().push(last));
    }
}

/// What was built replays: the data of a finished call holds its native items and its
/// media bindings, and reading it gives them back.
pub proof fn finished_output_replays(output: ProviderOutputView)
    ensures
        call_replay(output.finished()) == Ok::<Option<ReplayView>, ErrorView>(
            Some(output.replay),
        ),
        replayed(output.finished()) == Ok::<Seq<JsonView>, ErrorView>(output.replay.items),
{
    let written = output.replay.written();
    let media = output.replay.media.map_values(|m: MediaBindingView| m.written());
    assert(lookup(seq![(REPLAY_KEY@, written)], REPLAY_KEY@) == Some(written));
    replay_keys_differ();
    items_read_back(output.replay.items);
    bindings_read_back(output.replay.media);
    written_record_is_read::<Vec<Json>, Vec<MediaBinding>>(
        "Replay"@,
        "items"@,
        JsonView::Array(output.replay.items),
        "media"@,
        JsonView::Array(media),
    );
}

/// A native field is bound once: what was bound stays bound, and binding it again fails.
pub proof fn paths_are_bound_once(
    output: ProviderOutputView,
    pointer: Seq<char>,
    media_type: Seq<char>,
    modality: Modality,
    again: Seq<char>,
    as_modality: Modality,
)
    requires
        output.with_media(pointer, media_type, modality) is Ok,
    ensures
        output.with_media(pointer, media_type, modality)->Ok_0.with_media(
            pointer,
            again,
            as_modality,
        ) == Err::<ProviderOutputView, ErrorView>(
            ErrorView::Invalid("native media path is already bound"@),
        ),
        forall|path: Seq<char>| #[trigger]
            output.bound(path) ==> output.with_media(
                pointer,
                media_type,
                modality,
            )->Ok_0.bound(path),
{
    let next = output.with_media(pointer, media_type, modality)->Ok_0;
    let index = (output.replay.items.len() - 1) as nat;
    assert(next.replay.media.last().pointer == item_path(index, pointer));
    assert(next.bound(item_path(index, pointer)));
    assert forall|path: Seq<char>| #[trigger] output.bound(path) implies next.bound(path) by {
        let i = choose|i: int|
            0 <= i < output.replay.media.len() && (#[trigger] output.replay.media[i]).pointer
                == path;
        assert(next.replay.media[i].pointer == path);
    }
}

/// Media of a native item is handed out behind all other output: with the bytes that the field
/// writes in base64, and with the type that was given. It is bound to the field that it came
/// from, and the native items stay as they are.
pub proof fn media_is_handed_out(
    output: ProviderOutputView,
    pointer: Seq<char>,
    media_type: Seq<char>,
    modality: Modality,
)
    requires
        output.call.output.len() <= usize::MAX,
    ensures
        output.with_media(pointer, media_type, modality) matches Ok(next) ==> {
            let all = next.call.output;
            let binding = next.replay.media.last();
            &&& output.replay.items.len() > 0
            &&& all.len() == output.call.output.len() + 1
            &&& all.drop_last() == output.call.output
            &&& all.last() matches ContentView::Resource(resource) && {
                &&& resource.media_type == media_type
                &&& resource.modality == modality
                &&& resource.source matches ResourceSourceView::Inline(bytes)
                    && output.replay.items.last().pointer(pointer) matches Some(
                    JsonView::Text(base64),
                ) && base64_bytes(base64) == Ok::<Seq<u8>, Seq<char>>(bytes)
            }
            &&& next.replay.items == output.replay.items
            &&& next.replay.media.len() == output.replay.media.len() + 1
            &&& next.replay.media.drop_last() == output.replay.media
            &&& binding.content_index == output.call.output.len()
            &&& binding.pointer == "/items/"@ + decimal((output.replay.items.len() - 1) as nat)
                + pointer
            &&& next.call.id == output.call.id && next.call.status == output.call.status
        },
{
    if let Ok(next) = output.with_media(pointer, media_type, modality) {
        assert(next.call.output.drop_last() =~= output.call.output);
        assert(next.replay.media.drop_last() =~= output.replay.media);
    }
}

/// A finished call is the call that was built, and nothing that was built is lost.
pub proof fn a_finished_call_is_what_was_built(
    output: ProviderOutputView,
    item: JsonView,
    content: ContentView,
)
    ensures
        output.finished().output == output.call.output,
        output.finished().id == output.call.id,
        output.finished().provider == output.call.provider,
        output.finished().name == output.call.name,
        output.finished().status == output.call.status,
        replayed(output.with_item(item).finished()) matches Ok(items) && items.len()
            == output.replay.items.len() + 1 && items.drop_last() == output.replay.items
            && items.last() == item,
        output.with_content(content).finished().output.len() == output.call.output.len() + 1,
        output.with_content(content).finished().output.drop_last() == output.call.output,
        output.with_content(content).finished().output.last() == content,
{
    finished_output_replays(output.with_item(item));
    assert(output.replay.items.push(item).drop_last() =~= output.replay.items);
    assert(output.call.output.push(content).drop_last() =~= output.call.output);
}

} // verus!
