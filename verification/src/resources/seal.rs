//! Resources in the output of a model, sealed in a store.
use crate::command::{SessionEventBody, SessionEventBodyView};
use crate::encoding::{base64_encode, base64_text, hex, sha256, sha256_digest, to_hex};
use crate::error::{fold_ok, fold_ok_step, protocol, ErrorView};
use crate::json::{
    field_is_smaller, group_json_views, item_is_smaller, Fields, Json, JsonView,
};
use crate::markers::{contains, holds_text};
use crate::message::{
    Content, ContentView, Output, OutputView, ProviderToolCall, ProviderToolCallView,
    ResourceInputView, ResourceSource, ResourceSourceView,
};
use crate::provider_tools::output::{
    call_replay, replay, MediaBinding, MediaBindingView, REPLAY_KEY,
};
use crate::resources::{mark, marker, reached, Stop, StopView, CHUNK_BYTES};
use crate::text::{has_prefix, is_empty, join3, same, starts_with};
use vstd::prelude::*;
use vstd::slice::{slice_subrange, slice_to_vec};
use vstd::utf8::encode_utf8;

verus! {

/// What the store made of a resource: its type and source, and the reference under which it
/// is found again.
#[derive(Debug, PartialEq, Eq)]
pub struct Sealed {
    pub media_type: String,
    pub source: ResourceSource,
    pub reference: Json,
}

pub struct SealedView {
    pub media_type: Seq<char>,
    pub source: ResourceSourceView,
    pub reference: JsonView,
}

impl View for Sealed {
    type V = SealedView;

    open spec fn view(&self) -> SealedView {
        SealedView {
            media_type: self.media_type@,
            source: self.source@,
            reference: self.reference@,
        }
    }
}

impl DeepView for Sealed {
    type V = SealedView;

    open spec fn deep_view(&self) -> SealedView {
        self@
    }
}

// ---------------------------------------------------------------------------------------
// Keys and chunks
// ---------------------------------------------------------------------------------------
/// The key of a resource: it depends on the type and the bytes.
pub open spec fn seal_key(media_type: Seq<char>, bytes: Seq<u8>) -> Seq<char> {
    hex(sha256(encode_utf8(media_type) + seq![0u8] + bytes))
}

fn key_of(media_type: &str, bytes: &Vec<u8>) -> (r: String)
    ensures
        r@ == seal_key(media_type@, bytes@),
{
    let mut all = slice_to_vec(media_type.as_bytes());
    all.push(0);
    let mut rest = crate::message::copy_bytes(bytes);
    all.append(&mut rest);
    assert(all@ =~= encode_utf8(media_type@) + seq![0u8] + bytes@);
    to_hex(&sha256_digest(&all))
}

/// The chunks in which bytes are written: all of one size, but for the last.
pub open spec fn chunks_of(bytes: Seq<u8>, size: nat) -> Seq<Seq<u8>>
    decreases bytes.len(),
{
    if bytes.len() == 0 || size == 0 {
        Seq::empty()
    } else if bytes.len() <= size {
        seq![bytes]
    } else {
        seq![bytes.take(size as int)] + chunks_of(bytes.skip(size as int), size)
    }
}

/// Splits bytes into the chunks in which they are written.
pub fn chunks(bytes: &Vec<u8>) -> (r: Vec<Vec<u8>>)
    ensures
        r.deep_view() == chunks_of(bytes@, CHUNK_BYTES as nat),
{
    let ghost all = chunks_of(bytes@, CHUNK_BYTES as nat);
    let mut out: Vec<Vec<u8>> = Vec::new();
    let mut i: usize = 0;
    assert(bytes@.skip(0) =~= bytes@);
    assert(out.deep_view() + all =~= all);
    while i < bytes.len()
        invariant
            i <= bytes@.len(),
            all == chunks_of(bytes@, CHUNK_BYTES as nat),
            all == out.deep_view() + chunks_of(bytes@.skip(i as int), CHUNK_BYTES as nat),
        decreases bytes@.len() - i,
    {
        let ghost before = out.deep_view();
        let ghost rest = bytes@.skip(i as int);
        let left: usize = bytes.len() - i;
        let n: usize = if left <= CHUNK_BYTES {
            left
        } else {
            CHUNK_BYTES
        };
        let chunk = slice_to_vec(slice_subrange(bytes.as_slice(), i, i + n));
        assert(chunk@ =~= rest.take(n as int));
        assert(chunk.deep_view() =~= chunk@);
        out.push(chunk);
        assert(out.deep_view() =~= before.push(rest.take(n as int)));
        assert(bytes@.skip(i + n) =~= rest.skip(n as int));
        if left <= CHUNK_BYTES {
            assert(rest.take(n as int) =~= rest);
            assert(rest.skip(n as int) =~= Seq::empty());
        }
        assert(out.deep_view() + chunks_of(bytes@.skip(i + n), CHUNK_BYTES as nat) =~= before
            + chunks_of(rest, CHUNK_BYTES as nat));
        i += n;
    }
    assert(bytes@.skip(i as int) =~= Seq::empty());
    assert(out.deep_view() =~= all);
    out
}

// ---------------------------------------------------------------------------------------
// Parts
// ---------------------------------------------------------------------------------------
/// The payload of an inline resource.
pub open spec fn inline_bytes(content: ContentView) -> Option<Seq<u8>> {
    match content {
        ContentView::Resource(input) => match input.source {
            ResourceSourceView::Inline(bytes) => Some(bytes),
            _ => None,
        },
        _ => None,
    }
}

/// A payload that was sealed: its text in native data, and its reference.
pub struct Kept {
    pub payload: String,
    pub reference: Json,
}

pub struct KeptView {
    pub payload: Seq<char>,
    pub reference: JsonView,
}

impl View for Kept {
    type V = KeptView;

    open spec fn view(&self) -> KeptView {
        KeptView { payload: self.payload@, reference: self.reference@ }
    }
}

impl DeepView for Kept {
    type V = KeptView;

    open spec fn deep_view(&self) -> KeptView {
        self@
    }
}

/// A part, sealed where it holds a resource inline: by the next answer of the store.
pub open spec fn sealed_content(content: ContentView, used: nat, seals: Seq<SealedView>) -> Result<
    (ContentView, Option<KeptView>),
    StopView,
> {
    match content {
        ContentView::Resource(input) => match input.source {
            ResourceSourceView::Inline(bytes) => if used >= seals.len() {
                Err(StopView::Seal { key: seal_key(input.media_type, bytes), resource: input })
            } else {
                let seal = seals[used as int];
                if seal.media_type != input.media_type {
                    Err(
                        StopView::Failed(ErrorView::Protocol("resource store changed media type"@)),
                    )
                } else if seal.source is Inline {
                    Err(
                        StopView::Failed(
                            ErrorView::Protocol("resource store did not seal output"@),
                        ),
                    )
                } else {
                    Ok(
                        (
                            ContentView::Resource(
                                ResourceInputView { source: seal.source, ..input },
                            ),
                            Some(
                                KeptView {
                                    payload: base64_text(bytes),
                                    reference: seal.reference,
                                },
                            ),
                        ),
                    )
                }
            },
            _ => Ok((content, None)),
        },
        _ => Ok((content, None)),
    }
}

pub fn save_content(content: &Content, used: usize, seals: &Vec<Sealed>) -> (r: Result<
    (Content, Option<Kept>),
    Stop,
>)
    ensures
        reached(r) == sealed_content(content@, used as nat, seals.deep_view()),
        r is Ok && (r->Ok_0).1 is Some ==> used < seals@.len(),
{
    match content {
        Content::Resource(input) => match &input.source {
            ResourceSource::Inline(bytes) => {
                if used >= seals.len() {
                    return Err(
                        Stop::Seal {
                            key: key_of(&input.media_type, bytes),
                            resource: input.clone(),
                        },
                    );
                }
                let seal = &seals[used];
                assert(seals.deep_view()[used as int] == seal@);
                if !same(&seal.media_type, &input.media_type) {
                    return Err(Stop::Failed(protocol("resource store changed media type")));
                }
                let open = match &seal.source {
                    ResourceSource::Inline(_) => true,
                    _ => false,
                };
                if open {
                    return Err(Stop::Failed(protocol("resource store did not seal output")));
                }
                let mut resource = input.clone();
                resource.source = seal.source.clone();
                Ok(
                    (
                        Content::Resource(resource),
                        Some(
                            Kept {
                                payload: base64_encode(bytes),
                                reference: seal.reference.clone(),
                            },
                        ),
                    ),
                )
            },
            _ => Ok((content.clone(), None)),
        },
        _ => Ok((content.clone(), None)),
    }
}

/// One part more.
pub open spec fn content_step(seals: Seq<SealedView>) -> spec_fn(
    (Seq<ContentView>, nat),
    ContentView,
) -> Result<(Seq<ContentView>, nat), StopView> {
    |state: (Seq<ContentView>, nat), content: ContentView|
        match sealed_content(content, state.1, seals) {
            Ok((found, None)) => Ok((state.0.push(found), state.1)),
            Ok((found, Some(_))) => Ok((state.0.push(found), state.1 + 1)),
            Err(stop) => Err(stop),
        }
}

/// All parts sealed, in order.
pub open spec fn sealed_contents(contents: Seq<ContentView>, seals: Seq<SealedView>) -> Result<
    Seq<ContentView>,
    StopView,
> {
    match fold_ok(contents, (Seq::empty(), 0), content_step(seals)) {
        Ok((found, _)) => Ok(found),
        Err(stop) => Err(stop),
    }
}

fn save_contents(contents: &Vec<Content>, seals: &Vec<Sealed>) -> (r: Result<Vec<Content>, Stop>)
    ensures
        reached(r) == sealed_contents(contents.deep_view(), seals.deep_view()),
{
    let ghost all = contents.deep_view();
    let ghost step = content_step(seals.deep_view());
    let ghost start = (Seq::<ContentView>::empty(), 0nat);
    let total: usize = seals.len();
    let mut used: usize = 0;
    let mut out: Vec<Content> = Vec::new();
    let mut i: usize = 0;
    assert(all.take(0) =~= Seq::empty());
    assert(out.deep_view() =~= Seq::empty());
    while i < contents.len()
        invariant
            i <= contents@.len(),
            all == contents.deep_view(),
            step == content_step(seals.deep_view()),
            start == (Seq::<ContentView>::empty(), 0nat),
            fold_ok(all.take(i as int), start, step) == Ok::<(Seq<ContentView>, nat), StopView>(
                (out.deep_view(), used as nat),
            ),
            used <= total == seals@.len(),
        decreases contents@.len() - i,
    {
        proof {
            fold_ok_step(all, start, step, i as int);
        }
        let ghost before = out.deep_view();
        assert(all[i as int] == contents@[i as int]@);
        let (item, kept) = save_content(&contents[i], used, seals)?;
        if kept.is_some() {
            used += 1;
        }
        out.push(item);
        assert(out.deep_view() =~= before.push(item@));
        i += 1;
    }
    assert(all.take(all.len() as int) =~= all);
    Ok(out)
}

// ---------------------------------------------------------------------------------------
// Calls
// ---------------------------------------------------------------------------------------
/// The binding of a part, if it has one.
pub open spec fn bound(bindings: Seq<MediaBindingView>, index: usize) -> Option<nat>
    decreases bindings.len(),
{
    if bindings.len() == 0 {
        None
    } else if bindings[0].content_index == index {
        Some(0)
    } else {
        match bound(bindings.skip(1), index) {
            Some(i) => Some((i + 1) as nat),
            None => None,
        }
    }
}

fn find_binding(bindings: &Vec<MediaBinding>, index: usize) -> (r: Option<usize>)
    ensures
        match r {
            Some(i) => bound(bindings.deep_view(), index) == Some(i as nat) && i < bindings@.len(),
            None => bound(bindings.deep_view(), index) is None,
        },
{
    let ghost all = bindings.deep_view();
    let mut i: usize = 0;
    assert(all.skip(0) =~= all);
    while i < bindings.len()
        invariant
            i <= bindings@.len(),
            all == bindings.deep_view(),
            bound(all, index) == (match bound(all.skip(i as int), index) {
                Some(k) => Some((k + i) as nat),
                None => None,
            }),
        decreases bindings@.len() - i,
    {
        assert(all.skip(i as int)[0] == bindings@[i as int]@);
        if bindings[i].content_index == index {
            return Some(i);
        }
        assert(all.skip(i as int).skip(1) =~= all.skip(i + 1));
        i += 1;
    }
    None
}

/// The bindings with one more: each part at most once, and native items only.
pub open spec fn bind() -> spec_fn(Seq<MediaBindingView>, MediaBindingView) -> Result<
    Seq<MediaBindingView>,
    StopView,
> {
    |bindings: Seq<MediaBindingView>, binding: MediaBindingView|
        if !has_prefix(binding.pointer, "/items/"@) || bound(bindings, binding.content_index)
            is Some {
            Err(
                StopView::Failed(
                    ErrorView::Protocol("invalid or duplicate resource replay binding"@),
                ),
            )
        } else {
            Ok(bindings.push(binding))
        }
}

/// The bindings of a call.
pub open spec fn call_bindings(call: ProviderToolCallView) -> Result<
    Seq<MediaBindingView>,
    StopView,
> {
    match call_replay(call) {
        Err(e) => Err(StopView::Failed(e)),
        Ok(None) => Ok(Seq::empty()),
        Ok(Some(replay)) => fold_ok(replay.media, Seq::empty(), bind()),
    }
}

fn bind_all(media: Vec<MediaBinding>) -> (r: Result<Vec<MediaBinding>, Stop>)
    ensures
        reached(r) == fold_ok(media.deep_view(), Seq::empty(), bind()),
{
    let ghost all = media.deep_view();
    let ghost start = Seq::<MediaBindingView>::empty();
    let mut out: Vec<MediaBinding> = Vec::new();
    let mut i: usize = 0;
    assert(all.take(0) =~= Seq::empty());
    assert(out.deep_view() =~= Seq::empty());
    while i < media.len()
        invariant
            i <= media@.len(),
            all == media.deep_view(),
            start == Seq::<MediaBindingView>::empty(),
            fold_ok(all.take(i as int), start, bind()) == Ok::<Seq<MediaBindingView>, StopView>(
                out.deep_view(),
            ),
        decreases media@.len() - i,
    {
        proof {
            fold_ok_step(all, start, bind(), i as int);
        }
        let binding = &media[i];
        assert(all[i as int] == binding@);
        if !starts_with(&binding.pointer, "/items/") || find_binding(
            &out,
            binding.content_index,
        ).is_some() {
            return Err(Stop::Failed(protocol("invalid or duplicate resource replay binding")));
        }
        let ghost before = out.deep_view();
        let copied = MediaBinding {
            content_index: binding.content_index,
            pointer: binding.pointer.clone(),
        };
        out.push(copied);
        assert(out.deep_view() =~= before.push(copied@));
        i += 1;
    }
    assert(all.take(all.len() as int) =~= all);
    Ok(out)
}

fn read_bindings(call: &ProviderToolCall) -> (r: Result<Vec<MediaBinding>, Stop>)
    ensures
        reached(r) == call_bindings(call@),
{
    match replay(call) {
        Err(e) => Err(Stop::Failed(e)),
        Ok(None) => {
            let none: Vec<MediaBinding> = Vec::new();
            assert(none.deep_view() =~= Seq::empty());
            Ok(none)
        },
        Ok(Some(found)) => bind_all(found.media),
    }
}

/// A call of which some parts were sealed.
pub struct Parts {
    pub output: Vec<Content>,
    pub data: Json,
    pub bindings: Vec<MediaBinding>,
    pub payloads: Vec<String>,
}

pub struct PartsView {
    pub output: Seq<ContentView>,
    pub data: JsonView,
    pub bindings: Seq<MediaBindingView>,
    pub payloads: Seq<Seq<char>>,
}

impl View for Parts {
    type V = PartsView;

    open spec fn view(&self) -> PartsView {
        PartsView {
            output: self.output.deep_view(),
            data: self.data@,
            bindings: self.bindings.deep_view(),
            payloads: self.payloads.deep_view(),
        }
    }
}

impl DeepView for Parts {
    type V = PartsView;

    open spec fn deep_view(&self) -> PartsView {
        self@
    }
}

/// The path of a bound field in the data of a call.
pub open spec fn field_path(pointer: Seq<char>) -> Seq<char> {
    "/"@ + REPLAY_KEY@ + pointer
}

pub open spec fn unbound() -> ErrorView {
    ErrorView::Protocol("unbound resource remains in provider replay"@)
}

/// The data and the bindings after a part was sealed: its native field becomes a marker, and
/// without a binding no field may hold it.
pub open spec fn sealed_field(
    data: JsonView,
    bindings: Seq<MediaBindingView>,
    kept: KeptView,
    index: usize,
) -> Result<(JsonView, Seq<MediaBindingView>), StopView> {
    match bound(bindings, index) {
        None => if holds_text(data, kept.payload) {
            Err(StopView::Failed(unbound()))
        } else {
            Ok((data, bindings))
        },
        Some(k) => {
            let path = field_path(bindings[k as int].pointer);
            match data.pointer(path) {
                None => Err(
                    StopView::Failed(ErrorView::Protocol("resource replay pointer not found"@)),
                ),
                Some(found) => if found != JsonView::Text(kept.payload) {
                    Err(
                        StopView::Failed(
                            ErrorView::Protocol("resource replay payload mismatch"@),
                        ),
                    )
                } else {
                    let changed = match data.put(path, marker(kept.reference)) {
                        Some(changed) => changed,
                        None => data,
                    };
                    Ok((changed, bindings.remove(k as int)))
                },
            }
        },
    }
}

/// A call with one part more sealed.
pub open spec fn seal_part(seals: Seq<SealedView>) -> spec_fn(PartsView, ContentView) -> Result<
    PartsView,
    StopView,
> {
    |parts: PartsView, content: ContentView|
        match sealed_content(content, parts.payloads.len(), seals) {
            Err(stop) => Err(stop),
            Ok((changed, None)) => Ok(PartsView { output: parts.output.push(changed), ..parts }),
            Ok((changed, Some(kept))) => match sealed_field(
                parts.data,
                parts.bindings,
                kept,
                parts.output.len() as usize,
            ) {
                Ok((data, bindings)) => Ok(
                    PartsView {
                        output: parts.output.push(changed),
                        data,
                        bindings,
                        payloads: parts.payloads.push(kept.payload),
                    },
                ),
                Err(stop) => Err(stop),
            },
        }
}

/// Whether native data holds a payload that was sealed and is not empty.
pub open spec fn remains(data: JsonView, payloads: Seq<Seq<char>>) -> bool {
    exists|i: int|
        0 <= i < payloads.len() && (#[trigger] payloads[i]).len() > 0 && holds_text(
            data,
            payloads[i],
        )
}

fn seal_field(data: &mut Json, bindings: &mut Vec<MediaBinding>, kept: Kept, index: usize) -> (r:
    Result<(), Stop>)
    ensures
        match sealed_field(old(data)@, old(bindings).deep_view(), kept@, index) {
            Ok((changed, after)) => r is Ok && final(data)@ == changed
                && final(bindings).deep_view() == after,
            Err(stop) => r is Err && r->Err_0@ == stop,
        },
{
    match find_binding(bindings, index) {
        None => {
            if contains(data, &kept.payload) {
                return Err(Stop::Failed(protocol("unbound resource remains in provider replay")));
            }
        },
        Some(k) => {
            let ghost before = bindings.deep_view();
            assert(before[k as int] == bindings@[k as int]@);
            let path = join3("/", REPLAY_KEY, &bindings[k].pointer);
            match data.pointer(&path) {
                None => {
                    return Err(Stop::Failed(protocol("resource replay pointer not found")));
                },
                Some(found) => {
                    let matching = match found {
                        Json::Text(text) => same(text, &kept.payload),
                        _ => false,
                    };
                    if !matching {
                        return Err(Stop::Failed(protocol("resource replay payload mismatch")));
                    }
                },
            }
            let _ = data.put(&path, mark(kept.reference));
            let _ = bindings.remove(k);
            assert(bindings.deep_view() =~= before.remove(k as int));
        },
    }
    Ok(())
}

fn seal_parts(contents: &Vec<Content>, start: Parts, seals: &Vec<Sealed>) -> (r: Result<
    Parts,
    Stop,
>)
    requires
        start.payloads@.len() <= seals@.len(),
    ensures
        reached(r) == fold_ok(contents.deep_view(), start@, seal_part(seals.deep_view())),
{
    let ghost all = contents.deep_view();
    let ghost first = start@;
    let ghost step = seal_part(seals.deep_view());
    let mut parts = start;
    let mut i: usize = 0;
    assert(all.take(0) =~= Seq::empty());
    while i < contents.len()
        invariant
            i <= contents@.len(),
            all == contents.deep_view(),
            first == start@,
            step == seal_part(seals.deep_view()),
            fold_ok(all.take(i as int), first, step) == Ok::<PartsView, StopView>(parts@),
        decreases contents@.len() - i,
    {
        proof {
            fold_ok_step(all, first, step, i as int);
        }
        assert(all[i as int] == contents@[i as int]@);
        let ghost before = parts@;
        let index: usize = parts.output.len();
        let used: usize = parts.payloads.len();
        let (changed, kept) = save_content(&contents[i], used, seals)?;
        match kept {
            Some(kept) => {
                let payload = kept.payload.clone();
                seal_field(&mut parts.data, &mut parts.bindings, kept, index)?;
                parts.payloads.push(payload);
                assert(parts.payloads.deep_view() =~= before.payloads.push(payload@));
            },
            None => {},
        }
        parts.output.push(changed);
        assert(parts.output.deep_view() =~= before.output.push(changed@));
        i += 1;
    }
    assert(all.take(all.len() as int) =~= all);
    Ok(parts)
}

fn payload_remains(data: &Json, payloads: &Vec<String>) -> (r: bool)
    ensures
        r == remains(data@, payloads.deep_view()),
{
    let ghost all = payloads.deep_view();
    let mut i: usize = 0;
    while i < payloads.len()
        invariant
            i <= payloads@.len(),
            all == payloads.deep_view(),
            forall|j: int|
                0 <= j < i ==> (#[trigger] all[j]).len() == 0 || !holds_text(data@, all[j]),
        decreases payloads@.len() - i,
    {
        assert(all[i as int] == payloads@[i as int]@);
        if !is_empty(&payloads[i]) && contains(data, &payloads[i]) {
            return true;
        }
        i += 1;
    }
    false
}

/// A call with its resources sealed.
pub open spec fn sealed_call(call: ProviderToolCallView, seals: Seq<SealedView>) -> Result<
    ProviderToolCallView,
    StopView,
> {
    match call_bindings(call) {
        Err(stop) => Err(stop),
        Ok(bindings) => match fold_ok(
            call.output,
            PartsView { output: Seq::empty(), data: call.data, bindings, payloads: Seq::empty() },
            seal_part(seals),
        ) {
            Err(stop) => Err(stop),
            Ok(parts) => if remains(parts.data, parts.payloads) {
                Err(StopView::Failed(unbound()))
            } else if parts.bindings.len() > 0 {
                Err(
                    StopView::Failed(
                        ErrorView::Protocol("resource binding has no inline output"@),
                    ),
                )
            } else {
                Ok(ProviderToolCallView { output: parts.output, data: parts.data, ..call })
            },
        },
    }
}

fn save_call(call: &ProviderToolCall, seals: &Vec<Sealed>) -> (r: Result<ProviderToolCall, Stop>)
    ensures
        reached(r) == sealed_call(call@, seals.deep_view()),
{
    let bindings = read_bindings(call)?;
    let start = Parts {
        output: Vec::new(),
        data: call.data.clone(),
        bindings,
        payloads: Vec::new(),
    };
    assert(start.output.deep_view() =~= Seq::empty());
    assert(start.payloads.deep_view() =~= Seq::empty());
    let parts = seal_parts(&call.output, start, seals)?;
    if payload_remains(&parts.data, &parts.payloads) {
        return Err(Stop::Failed(protocol("unbound resource remains in provider replay")));
    }
    if parts.bindings.len() > 0 {
        return Err(Stop::Failed(protocol("resource binding has no inline output")));
    }
    Ok(
        ProviderToolCall {
            id: call.id.clone(),
            provider: call.provider.clone(),
            name: call.name.clone(),
            status: call.status,
            output: parts.output,
            data: parts.data,
        },
    )
}

/// An output item with its resources sealed.
pub open spec fn sealed_output(output: OutputView, seals: Seq<SealedView>) -> Result<
    OutputView,
    StopView,
> {
    match output {
        OutputView::Content(content) => match sealed_content(content, 0, seals) {
            Ok((found, _)) => Ok(OutputView::Content(found)),
            Err(stop) => Err(stop),
        },
        OutputView::ProviderToolCall(call) => match sealed_call(call, seals) {
            Ok(found) => Ok(OutputView::ProviderToolCall(found)),
            Err(stop) => Err(stop),
        },
        _ => Ok(output),
    }
}

pub fn save_output(output: &Output, seals: &Vec<Sealed>) -> (r: Result<Output, Stop>)
    ensures
        reached(r) == sealed_output(output@, seals.deep_view()),
{
    match output {
        Output::Content(content) => {
            let (found, _) = save_content(content, 0, seals)?;
            Ok(Output::Content(found))
        },
        Output::ProviderToolCall(call) => Ok(Output::ProviderToolCall(save_call(call, seals)?)),
        _ => Ok(output.clone()),
    }
}

// ---------------------------------------------------------------------------------------
// Events
// ---------------------------------------------------------------------------------------
/// The digest by which a payload is known again in native data.
pub open spec fn payload_digest(bytes: Seq<u8>) -> Seq<u8> {
    sha256(encode_utf8(base64_text(bytes)))
}

/// The digests of the inline resources among parts.
pub open spec fn digests_of(contents: Seq<ContentView>) -> Set<Seq<u8>>
    decreases contents.len(),
{
    if contents.len() == 0 {
        Set::empty()
    } else {
        match inline_bytes(contents.last()) {
            Some(bytes) => digests_of(contents.drop_last()).insert(payload_digest(bytes)),
            None => digests_of(contents.drop_last()),
        }
    }
}

/// The digests of the inline resources of an output item.
pub open spec fn output_digests(output: OutputView) -> Set<Seq<u8>> {
    match output {
        OutputView::Content(content) => digests_of(seq![content]),
        OutputView::ProviderToolCall(call) => digests_of(call.output),
        _ => Set::empty(),
    }
}

/// Whether native data holds a text with one of the digests.
pub open spec fn holds_sealed(value: JsonView, digests: Set<Seq<u8>>) -> bool
    decreases value,
{
    match value {
        JsonView::Text(text) => digests.contains(sha256(encode_utf8(text))),
        JsonView::Array(items) => exists|i: int|
            0 <= i < items.len() && holds_sealed(#[trigger] items[i], digests),
        JsonView::Object(fields) => exists|i: int|
            0 <= i < fields.len() && holds_sealed((#[trigger] fields[i]).1, digests),
        _ => false,
    }
}

proof fn sealed_in_item(items: Seq<JsonView>, digests: Set<Seq<u8>>, i: int)
    requires
        0 <= i < items.len(),
        holds_sealed(items[i], digests),
    ensures
        holds_sealed(JsonView::Array(items), digests),
{
    let value = JsonView::Array(items);
    assert(holds_sealed(value->Array_0[i], digests));
}

proof fn sealed_in_field(fields: Fields, digests: Set<Seq<u8>>, i: int)
    requires
        0 <= i < fields.len(),
        holds_sealed(fields[i].1, digests),
    ensures
        holds_sealed(JsonView::Object(fields), digests),
{
    let value = JsonView::Object(fields);
    assert(holds_sealed(value->Object_0[i].1, digests));
}

fn same_bytes(a: &Vec<u8>, b: &Vec<u8>) -> (r: bool)
    ensures
        r == (a@ == b@),
{
    if a.len() != b.len() {
        return false;
    }
    let mut i: usize = 0;
    while i < a.len()
        invariant
            i <= a@.len(),
            a@.len() == b@.len(),
            forall|j: int| 0 <= j < i ==> a@[j] == b@[j],
        decreases a@.len() - i,
    {
        if a[i] != b[i] {
            return false;
        }
        i += 1;
    }
    assert(a@ =~= b@);
    true
}

fn is_among(digests: &Vec<Vec<u8>>, digest: &Vec<u8>) -> (r: bool)
    ensures
        r == digests.deep_view().to_set().contains(digest@),
{
    let ghost all = digests.deep_view();
    let mut i: usize = 0;
    while i < digests.len()
        invariant
            i <= digests@.len(),
            all == digests.deep_view(),
            forall|j: int| 0 <= j < i ==> #[trigger] all[j] != digest@,
        decreases digests@.len() - i,
    {
        assert(all[i as int] == digests@[i as int].deep_view());
        assert(digests@[i as int].deep_view() =~= digests@[i as int]@);
        if same_bytes(&digests[i], digest) {
            assert(all.contains(digest@));
            return true;
        }
        i += 1;
    }
    assert(!all.contains(digest@));
    false
}

fn contains_sealed_payload(value: &Json, digests: &Vec<Vec<u8>>) -> (r: bool)
    ensures
        r == holds_sealed(value@, digests.deep_view().to_set()),
    decreases value,
{
    broadcast use group_json_views;

    match value {
        Json::Text(text) => is_among(digests, &sha256_digest(text.as_str().as_bytes())),
        Json::Array(items) => {
            let mut i: usize = 0;
            while i < items.len()
                invariant
                    i <= items@.len(),
                    *value == Json::Array(*items),
                    value@ == JsonView::Array(items.deep_view()),
                    forall|j: int|
                        0 <= j < i ==> !holds_sealed(
                            #[trigger] items.deep_view()[j],
                            digests.deep_view().to_set(),
                        ),
                decreases items@.len() - i,
            {
                proof {
                    item_is_smaller(*value, i as int);
                }
                assert(items.deep_view()[i as int] == items@[i as int]@);
                if contains_sealed_payload(&items[i], digests) {
                    proof {
                        sealed_in_item(items.deep_view(), digests.deep_view().to_set(), i as int);
                    }
                    return true;
                }
                i += 1;
            }
            false
        },
        Json::Object(fields) => {
            let mut i: usize = 0;
            while i < fields.len()
                invariant
                    i <= fields@.len(),
                    *value == Json::Object(*fields),
                    value@ == JsonView::Object(fields.deep_view()),
                    forall|j: int|
                        0 <= j < i ==> !holds_sealed(
                            (#[trigger] fields.deep_view()[j]).1,
                            digests.deep_view().to_set(),
                        ),
                decreases fields@.len() - i,
            {
                proof {
                    field_is_smaller(*value, i as int);
                }
                assert(fields.deep_view()[i as int].1 == fields@[i as int].1@);
                if contains_sealed_payload(&fields[i].1, digests) {
                    proof {
                        sealed_in_field(
                            fields.deep_view(),
                            digests.deep_view().to_set(),
                            i as int,
                        );
                    }
                    return true;
                }
                i += 1;
            }
            false
        },
        _ => false,
    }
}

/// The output of a session, of which resources are sealed. Payloads of a turn are remembered
/// until it ends.
pub struct SealedOutput {
    payloads: Vec<Vec<u8>>,
}

impl View for SealedOutput {
    type V = Set<Seq<u8>>;

    closed spec fn view(&self) -> Set<Seq<u8>> {
        self.payloads.deep_view().to_set()
    }
}

/// What becomes of an event.
#[derive(Debug, PartialEq, Eq)]
pub enum Event {
    Output(Output),
    OperationFinished(Vec<Content>),
    Unchanged,
}

pub enum EventView {
    Output(OutputView),
    OperationFinished(Seq<ContentView>),
    Unchanged,
}

impl View for Event {
    type V = EventView;

    open spec fn view(&self) -> EventView {
        match self {
            Event::Output(output) => EventView::Output(output@),
            Event::OperationFinished(content) => EventView::OperationFinished(content.deep_view()),
            Event::Unchanged => EventView::Unchanged,
        }
    }
}

impl DeepView for Event {
    type V = EventView;

    open spec fn deep_view(&self) -> EventView {
        self@
    }
}

/// The payloads that are remembered after an event, and what becomes of it.
pub open spec fn received(
    payloads: Set<Seq<u8>>,
    body: SessionEventBodyView,
    seals: Seq<SealedView>,
) -> (Set<Seq<u8>>, Result<EventView, StopView>) {
    match body {
        SessionEventBodyView::Output { output, .. } => (
            payloads.union(output_digests(output)),
            match sealed_output(output, seals) {
                Ok(found) => Ok(EventView::Output(found)),
                Err(stop) => Err(stop),
            },
        ),
        SessionEventBodyView::OperationFinished(content) => (
            payloads,
            match sealed_contents(content, seals) {
                Ok(found) => Ok(EventView::OperationFinished(found)),
                Err(stop) => Err(stop),
            },
        ),
        SessionEventBodyView::TurnFinished { end, .. } => if holds_sealed(end.provider_data, payloads) {
            (
                payloads,
                Err(
                    StopView::Failed(
                        ErrorView::Protocol(
                            "inline resource remains in native turn data; declare its replay binding"@,
                        ),
                    ),
                ),
            )
        } else {
            (Set::empty(), Ok(EventView::Unchanged))
        },
        _ => (payloads, Ok(EventView::Unchanged)),
    }
}

impl SealedOutput {
    pub fn new() -> (r: SealedOutput)
        ensures
            r@ == Set::<Seq<u8>>::empty(),
    {
        let r = SealedOutput { payloads: Vec::new() };
        assert(r.payloads.deep_view() =~= Seq::empty());
        assert(r@ =~= Set::empty());
        r
    }

    fn remember(&mut self, content: &Content)
        ensures
            final(self)@ == (match inline_bytes(content@) {
                Some(bytes) => old(self)@.insert(payload_digest(bytes)),
                None => old(self)@,
            }),
    {
        match content {
            Content::Resource(input) => match &input.source {
                ResourceSource::Inline(bytes) => {
                    let text = base64_encode(bytes);
                    let digest = sha256_digest(text.as_str().as_bytes());
                    let ghost before = self.payloads.deep_view();
                    self.payloads.push(digest);
                    proof {
                        assert(digest.deep_view() =~= digest@);
                        let after = self.payloads.deep_view();
                        assert(after =~= before.push(digest@));
                        assert(after.to_set() =~= before.to_set().insert(digest@)) by {
                            assert forall|d: Seq<u8>| #[trigger]
                                after.contains(d) == (before.contains(d) || d == digest@) by {
                                if before.contains(d) {
                                    let i = choose|i: int|
                                        0 <= i < before.len() && before[i] == d;
                                    assert(after[i] == d);
                                }
                                assert(after[before.len() as int] == digest@);
                            }
                        }
                    }
                },
                _ => {},
            },
            _ => {},
        }
    }

    fn remember_all(&mut self, contents: &Vec<Content>)
        ensures
            final(self)@ == old(self)@.union(digests_of(contents.deep_view())),
    {
        let ghost all = contents.deep_view();
        let mut i: usize = 0;
        assert(all.take(0) =~= Seq::empty());
        assert(self@ =~= old(self)@.union(Set::empty()));
        while i < contents.len()
            invariant
                i <= contents@.len(),
                all == contents.deep_view(),
                self@ == old(self)@.union(digests_of(all.take(i as int))),
            decreases contents@.len() - i,
        {
            assert(all[i as int] == contents@[i as int]@);
            assert(all.take(i + 1).drop_last() =~= all.take(i as int));
            self.remember(&contents[i]);
            assert(self@ =~= old(self)@.union(digests_of(all.take(i + 1))));
            i += 1;
        }
        assert(all.take(all.len() as int) =~= all);
    }

    /// Takes an event: resources in it are sealed, and native data of a turn may hold none
    /// of them.
    pub fn receive(&mut self, body: &SessionEventBody, seals: &Vec<Sealed>) -> (r: Result<
        Event,
        Stop,
    >)
        ensures
            (final(self)@, reached(r)) == received(old(self)@, body@, seals.deep_view()),
    {
        match body {
            SessionEventBody::Output { output, .. } => {
                match output {
                    Output::Content(content) => {
                        self.remember(content);
                        proof {
                            let one = seq![content@];
                            assert(one.drop_last() =~= Seq::empty());
                            assert(digests_of(one.drop_last()) =~= Set::empty());
                            assert(one.last() == content@);
                            assert(self@ =~= old(self)@.union(digests_of(one)));
                        }
                    },
                    Output::ProviderToolCall(call) => {
                        self.remember_all(&call.output);
                    },
                    _ => {
                        assert(self@ =~= old(self)@.union(Set::empty()));
                    },
                }
                let found = save_output(output, seals)?;
                Ok(Event::Output(found))
            },
            SessionEventBody::OperationFinished(content) => {
                let found = save_contents(content, seals)?;
                Ok(Event::OperationFinished(found))
            },
            SessionEventBody::TurnFinished { end, .. } => {
                if contains_sealed_payload(&end.provider_data, &self.payloads) {
                    return Err(
                        Stop::Failed(
                            protocol(
                                "inline resource remains in native turn data; declare its replay binding",
                            ),
                        ),
                    );
                }
                self.payloads = Vec::new();
                assert(self.payloads.deep_view() =~= Seq::empty());
                assert(self@ =~= Set::empty());
                Ok(Event::Unchanged)
            },
            _ => Ok(Event::Unchanged),
        }
    }
}

} // verus!
