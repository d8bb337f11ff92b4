//! Media in a response, replaced by references.
use crate::artifacts::replay::{
    among, bindings, bindings_of, contains_payload, holds_payload, locate, located, Location,
    LocationView,
};
use crate::artifacts::resolve::{replace_source, source, source_of, with_source};
use crate::artifacts::{
    find, mark, marker, position, reached, ArtifactContent, ArtifactContentView, ArtifactRef,
    ArtifactRefView, References, Stop, StopView,
};
use crate::encoding::{hex, sha256, sha256_digest, to_hex};
use crate::error::{fold_ok, fold_ok_step, protocol, Error, ErrorView};
use crate::json::{printed, Json, JsonView};
use crate::message::{
    Content, ContentView, MediaSource, MediaSourceView, Output, OutputView, ProviderToolCall,
    ProviderToolCallView,
};
use crate::model::{TurnOutput, TurnOutputView};
use crate::text::{is_empty, join, same};
use vstd::prelude::*;
use vstd::utf8::encode_utf8;

verus! {

/// The key of a payload: what is stored under it depends on the run, the type and the bytes.
pub open spec fn artifact_key(run_id: Seq<char>, mime_type: Seq<char>, base64: Seq<char>) -> Seq<
    char,
> {
    hex(
        sha256(
            encode_utf8(
                printed(
                    JsonView::Array(
                        seq![
                            JsonView::Text(run_id),
                            JsonView::Text(mime_type),
                            JsonView::Text(base64),
                        ],
                    ),
                ),
            ),
        ),
    )
}

fn key_of(run_id: &str, mime_type: &str, base64: &str) -> (r: String)
    ensures
        r@ == artifact_key(run_id@, mime_type@, base64@),
{
    let mut parts: Vec<Json> = Vec::new();
    parts.push(Json::text(run_id));
    parts.push(Json::text(mime_type));
    parts.push(Json::text(base64));
    assert(parts.deep_view() =~= seq![
        JsonView::Text(run_id@),
        JsonView::Text(mime_type@),
        JsonView::Text(base64@),
    ]);
    let text = Json::array(parts).print();
    to_hex(&sha256_digest(text.as_str().as_bytes()))
}

/// The reference that stands for a payload: the store is asked once per key.
pub open spec fn reference_for(
    mime_type: Seq<char>,
    base64: Seq<char>,
    run_id: Seq<char>,
    known: References,
) -> Result<ArtifactRefView, StopView> {
    let key = artifact_key(run_id, mime_type, base64);
    match find(known, key) {
        None => Err(
            StopView::Store { key, content: ArtifactContentView { mime_type, base64 } },
        ),
        Some(reference) => if reference.id.len() == 0 || reference.mime_type != mime_type {
            Err(
                StopView::Failed(
                    ErrorView::Artifact {
                        id: reference.id,
                        message: "artifact store returned an invalid reference"@,
                    },
                ),
            )
        } else {
            Ok(reference)
        },
    }
}

fn find_reference(
    mime_type: &str,
    base64: &str,
    run_id: &str,
    known: &Vec<(String, ArtifactRef)>,
) -> (r: Result<ArtifactRef, Stop>)
    ensures
        reached(r) == reference_for(mime_type@, base64@, run_id@, known.deep_view()),
{
    let key = key_of(run_id, mime_type, base64);
    let reference = match position(known, &key) {
        Some(i) => &known[i].1,
        None => {
            return Err(
                Stop::Store {
                    key,
                    content: ArtifactContent {
                        mime_type: mime_type.to_owned(),
                        base64: base64.to_owned(),
                    },
                },
            );
        },
    };
    if is_empty(&reference.id) || !same(&reference.mime_type, mime_type) {
        return Err(
            Stop::Failed(
                Error::Artifact {
                    id: reference.id.clone(),
                    message: "artifact store returned an invalid reference".to_owned(),
                },
            ),
        );
    }
    Ok(reference.clone())
}

// ---------------------------------------------------------------------------------------
// Parts
// ---------------------------------------------------------------------------------------
/// A media part that was stored: its reference and its payload.
pub struct Kept {
    pub reference: ArtifactRef,
    pub base64: String,
}

pub struct KeptView {
    pub reference: ArtifactRefView,
    pub base64: Seq<char>,
}

impl View for Kept {
    type V = KeptView;

    open spec fn view(&self) -> KeptView {
        KeptView { reference: self.reference@, base64: self.base64@ }
    }
}

impl DeepView for Kept {
    type V = KeptView;

    open spec fn deep_view(&self) -> KeptView {
        self@
    }
}

/// The payload of an inline media part: its type and its base64 text.
pub open spec fn inline_payload(content: ContentView) -> Option<(Seq<char>, Seq<char>)> {
    match source_of(content) {
        Some(MediaSourceView::Inline { mime_type, base64 }) => Some((mime_type, base64)),
        _ => None,
    }
}

/// A part with an inline payload replaced by a reference.
pub open spec fn referenced(content: ContentView, reference: ArtifactRefView) -> ContentView {
    with_source(
        content,
        MediaSourceView::Artifact { id: reference.id, mime_type: reference.mime_type },
    )
}

/// A part, kept where it holds an inline payload.
pub open spec fn kept_part(content: ContentView, run_id: Seq<char>, known: References) -> Result<
    (ContentView, Option<KeptView>),
    StopView,
> {
    match inline_payload(content) {
        Some((mime_type, base64)) => match reference_for(mime_type, base64, run_id, known) {
            Ok(reference) => Ok(
                (referenced(content, reference), Some(KeptView { reference, base64 })),
            ),
            Err(stop) => Err(stop),
        },
        None => Ok((content, None)),
    }
}

fn keep_part(content: &Content, run_id: &str, known: &Vec<(String, ArtifactRef)>) -> (r: Result<
    (Content, Option<Kept>),
    Stop,
>)
    ensures
        reached(r) == kept_part(content@, run_id@, known.deep_view()),
{
    match source(content) {
        Some(MediaSource::Inline { mime_type, base64 }) => {
            let reference = find_reference(mime_type, base64, run_id, known)?;
            let replaced = replace_source(
                content,
                MediaSource::Artifact {
                    id: reference.id.clone(),
                    mime_type: reference.mime_type.clone(),
                },
            );
            Ok((replaced, Some(Kept { reference, base64: base64.clone() })))
        },
        _ => Ok((content.clone(), None)),
    }
}

// ---------------------------------------------------------------------------------------
// Calls
// ---------------------------------------------------------------------------------------
/// The bindings that are left, the native fields that were claimed and the payloads that
/// were stored.
pub struct Ledger {
    pub locations: Vec<Location>,
    pub claimed: Vec<String>,
    pub payloads: Vec<String>,
}

pub struct LedgerView {
    pub locations: Seq<LocationView>,
    pub claimed: Seq<Seq<char>>,
    pub payloads: Seq<Seq<char>>,
}

impl View for Ledger {
    type V = LedgerView;

    open spec fn view(&self) -> LedgerView {
        LedgerView {
            locations: self.locations.deep_view(),
            claimed: self.claimed.deep_view(),
            payloads: self.payloads.deep_view(),
        }
    }
}

/// A call of which some parts were saved.
pub struct Parts {
    pub output: Vec<Content>,
    pub data: Json,
    pub ledger: Ledger,
}

pub struct PartsView {
    pub output: Seq<ContentView>,
    pub data: JsonView,
    pub ledger: LedgerView,
}

impl View for Parts {
    type V = PartsView;

    open spec fn view(&self) -> PartsView {
        PartsView {
            output: self.output.deep_view(),
            data: self.data@,
            ledger: self.ledger@,
        }
    }
}

impl DeepView for Parts {
    type V = PartsView;

    open spec fn deep_view(&self) -> PartsView {
        self@
    }
}

/// The native field of a payload, replaced by a marker.
pub open spec fn marked_field(data: JsonView, location: LocationView, kept: KeptView) -> Result<
    JsonView,
    StopView,
> {
    match data.pointer(location.local()) {
        None => Err(
            StopView::Failed(
                ErrorView::Protocol("artifact replay path not found: "@ + location.path()),
            ),
        ),
        Some(found) => if found != JsonView::Text(kept.base64) {
            Err(
                StopView::Failed(
                    ErrorView::Protocol("artifact replay payload mismatch at "@ + location.path()),
                ),
            )
        } else {
            match data.put(location.local(), marker(kept.reference)) {
                Some(changed) => Ok(changed),
                None => Ok(data),
            }
        },
    }
}

/// The data and the ledger after a part was stored.
pub open spec fn claimed_field(
    data: JsonView,
    ledger: LedgerView,
    kept: KeptView,
    output: usize,
    content: usize,
) -> Result<(JsonView, LedgerView), StopView> {
    let payloads = ledger.payloads.push(kept.base64);
    match located(ledger.locations, output, content) {
        None => Ok((data, LedgerView { payloads, ..ledger })),
        Some(k) => {
            let location = ledger.locations[k as int];
            if ledger.claimed.contains(location.path()) {
                Err(
                    StopView::Failed(
                        ErrorView::Protocol(
                            "artifact replay bindings must identify unique protocol payload fields"@,
                        ),
                    ),
                )
            } else {
                match marked_field(data, location, kept) {
                    Ok(changed) => Ok(
                        (
                            changed,
                            LedgerView {
                                locations: ledger.locations.remove(k as int),
                                claimed: ledger.claimed.push(location.path()),
                                payloads,
                            },
                        ),
                    ),
                    Err(stop) => Err(stop),
                }
            }
        },
    }
}

/// A call with one part more saved.
pub open spec fn save_part(output: usize, run_id: Seq<char>, known: References) -> spec_fn(
    PartsView,
    ContentView,
) -> Result<PartsView, StopView> {
    |parts: PartsView, content: ContentView|
        match kept_part(content, run_id, known) {
            Err(stop) => Err(stop),
            Ok((changed, None)) => Ok(
                PartsView { output: parts.output.push(changed), ..parts },
            ),
            Ok((changed, Some(kept))) => match claimed_field(
                parts.data,
                parts.ledger,
                kept,
                output,
                parts.output.len() as usize,
            ) {
                Ok((data, ledger)) => Ok(
                    PartsView { output: parts.output.push(changed), data, ledger },
                ),
                Err(stop) => Err(stop),
            },
        }
}

fn mark_field(data: &mut Json, location: &Location, kept: &Kept) -> (r: Result<(), Stop>)
    ensures
        match marked_field(old(data)@, location@, kept@) {
            Ok(changed) => r is Ok && final(data)@ == changed,
            Err(stop) => r is Err && r->Err_0@ == stop,
        },
{
    let local = location.local();
    match data.pointer(&local) {
        None => {
            return Err(
                Stop::Failed(
                    Error::Protocol(join("artifact replay path not found: ", &location.path())),
                ),
            );
        },
        Some(found) => {
            let matching = match found {
                Json::Text(text) => same(text, &kept.base64),
                _ => false,
            };
            if !matching {
                return Err(
                    Stop::Failed(
                        Error::Protocol(
                            join("artifact replay payload mismatch at ", &location.path()),
                        ),
                    ),
                );
            }
        },
    }
    let _ = data.put(&local, mark(&kept.reference));
    Ok(())
}

fn claim_field(data: &mut Json, ledger: &mut Ledger, kept: Kept, output: usize, content: usize) -> (r:
    Result<(), Stop>)
    ensures
        match claimed_field(old(data)@, old(ledger)@, kept@, output, content) {
            Ok((changed, after)) => r is Ok && final(data)@ == changed && final(ledger)@ == after,
            Err(stop) => r is Err && r->Err_0@ == stop,
        },
{
    match locate(&ledger.locations, output, content) {
        None => {},
        Some(k) => {
            let ghost before = ledger.locations.deep_view();
            assert(before[k as int] == ledger.locations@[k as int]@);
            let path = ledger.locations[k].path();
            if among(&ledger.claimed, &path) {
                return Err(
                    Stop::Failed(
                        protocol(
                            "artifact replay bindings must identify unique protocol payload fields",
                        ),
                    ),
                );
            }
            mark_field(data, &ledger.locations[k], &kept)?;
            let _ = ledger.locations.remove(k);
            assert(ledger.locations.deep_view() =~= before.remove(k as int));
            ledger.claimed.push(path);
            assert(ledger.claimed.deep_view() =~= old(ledger).claimed.deep_view().push(path@));
        },
    }
    ledger.payloads.push(kept.base64);
    assert(ledger.payloads.deep_view() =~= old(ledger).payloads.deep_view().push(kept.base64@));
    Ok(())
}

fn keep_parts(
    contents: &Vec<Content>,
    start: Parts,
    output: usize,
    run_id: &str,
    known: &Vec<(String, ArtifactRef)>,
) -> (r: Result<Parts, Stop>)
    ensures
        reached(r) == fold_ok(
            contents.deep_view(),
            start@,
            save_part(output, run_id@, known.deep_view()),
        ),
{
    let ghost all = contents.deep_view();
    let ghost first = start@;
    let ghost step = save_part(output, run_id@, known.deep_view());
    let mut parts = start;
    let mut i: usize = 0;
    assert(all.take(0) =~= Seq::empty());
    while i < contents.len()
        invariant
            i <= contents@.len(),
            all == contents.deep_view(),
            first == start@,
            step == save_part(output, run_id@, known.deep_view()),
            fold_ok(all.take(i as int), first, step) == Ok::<PartsView, StopView>(parts@),
        decreases contents@.len() - i,
    {
        proof {
            fold_ok_step(all, first, step, i as int);
        }
        assert(all[i as int] == contents@[i as int]@);
        let ghost before = parts@;
        let index: usize = parts.output.len();
        let (changed, kept) = keep_part(&contents[i], run_id, known)?;
        match kept {
            Some(kept) => {
                claim_field(&mut parts.data, &mut parts.ledger, kept, output, index)?;
            },
            None => {},
        }
        parts.output.push(changed);
        assert(parts.output.deep_view() =~= before.output.push(changed@));
        i += 1;
    }
    assert(all.take(all.len() as int) =~= all);
    Ok(parts)
}

// ---------------------------------------------------------------------------------------
// Responses
// ---------------------------------------------------------------------------------------
/// Output items of which some were saved.
pub struct Items {
    pub output: Vec<Output>,
    pub ledger: Ledger,
}

pub struct ItemsView {
    pub output: Seq<OutputView>,
    pub ledger: LedgerView,
}

impl View for Items {
    type V = ItemsView;

    open spec fn view(&self) -> ItemsView {
        ItemsView { output: self.output.deep_view(), ledger: self.ledger@ }
    }
}

impl DeepView for Items {
    type V = ItemsView;

    open spec fn deep_view(&self) -> ItemsView {
        self@
    }
}

/// One output item saved.
pub open spec fn saved_item(
    item: OutputView,
    ledger: LedgerView,
    index: usize,
    run_id: Seq<char>,
    known: References,
) -> Result<(OutputView, LedgerView), StopView> {
    match item {
        OutputView::Content(content) => match kept_part(content, run_id, known) {
            Err(stop) => Err(stop),
            Ok((changed, None)) => Ok((OutputView::Content(changed), ledger)),
            Ok((changed, Some(kept))) => Ok(
                (
                    OutputView::Content(changed),
                    LedgerView { payloads: ledger.payloads.push(kept.base64), ..ledger },
                ),
            ),
        },
        OutputView::ProviderToolCall(call) => match fold_ok(
            call.output,
            PartsView { output: Seq::empty(), data: call.data, ledger },
            save_part(index, run_id, known),
        ) {
            Err(stop) => Err(stop),
            Ok(parts) => Ok(
                (
                    OutputView::ProviderToolCall(
                        ProviderToolCallView { output: parts.output, data: parts.data, ..call },
                    ),
                    parts.ledger,
                ),
            ),
        },
        _ => Ok((item, ledger)),
    }
}

/// The output with one item more saved.
pub open spec fn save_item(run_id: Seq<char>, known: References) -> spec_fn(
    ItemsView,
    OutputView,
) -> Result<ItemsView, StopView> {
    |items: ItemsView, item: OutputView|
        match saved_item(item, items.ledger, items.output.len() as usize, run_id, known) {
            Err(stop) => Err(stop),
            Ok((changed, ledger)) => Ok(ItemsView { output: items.output.push(changed), ledger }),
        }
}

/// Whether the native data of an item still holds a payload.
pub open spec fn leaks(item: OutputView, payloads: Seq<Seq<char>>) -> bool {
    item matches OutputView::ProviderToolCall(call) && holds_payload(call.data, payloads)
}

/// Whether native data of a response still holds a payload.
pub open spec fn leaking(
    provider_data: JsonView,
    output: Seq<OutputView>,
    payloads: Seq<Seq<char>>,
) -> bool {
    holds_payload(provider_data, payloads) || exists|i: int|
        0 <= i < output.len() && leaks(#[trigger] output[i], payloads)
}

/// The output items saved, with the payloads that were stored.
pub open spec fn saved_items(output: Seq<OutputView>, run_id: Seq<char>, known: References) -> Result<
    ItemsView,
    StopView,
> {
    match bindings_of(output) {
        Err(e) => Err(StopView::Failed(e)),
        Ok(locations) => fold_ok(
            output,
            ItemsView {
                output: Seq::empty(),
                ledger: LedgerView {
                    locations,
                    claimed: Seq::empty(),
                    payloads: Seq::empty(),
                },
            },
            save_item(run_id, known),
        ),
    }
}

/// A response with every inline media part replaced by a reference, or the first thing to
/// ask of the store.
pub open spec fn saved(response: TurnOutputView, run_id: Seq<char>, known: References) -> Result<
    TurnOutputView,
    StopView,
> {
    match saved_items(response.output, run_id, known) {
        Err(stop) => Err(stop),
        Ok(items) => if items.ledger.locations.len() > 0 {
            Err(
                StopView::Failed(
                    ErrorView::Protocol("artifact binding does not address an inline output"@),
                ),
            )
        } else if leaking(response.provider_data, items.output, items.ledger.payloads) {
            Err(
                StopView::Failed(
                    ErrorView::Protocol(
                        "inline artifact remains in protocol replay data; declare media in ProviderOutput"@,
                    ),
                ),
            )
        } else {
            Ok(TurnOutputView { output: items.output, ..response })
        },
    }
}

fn keep_item(
    item: &Output,
    ledger: Ledger,
    index: usize,
    run_id: &str,
    known: &Vec<(String, ArtifactRef)>,
) -> (r: Result<(Output, Ledger), Stop>)
    ensures
        match saved_item(item@, ledger@, index, run_id@, known.deep_view()) {
            Ok((changed, after)) => r is Ok && (r->Ok_0).0@ == changed && (r->Ok_0).1@ == after,
            Err(stop) => r is Err && r->Err_0@ == stop,
        },
{
    match item {
        Output::Content(content) => {
            let (changed, kept) = keep_part(content, run_id, known)?;
            let mut after = ledger;
            match kept {
                Some(kept) => {
                    after.payloads.push(kept.base64);
                    assert(after.payloads.deep_view() =~= ledger.payloads.deep_view().push(
                        kept.base64@,
                    ));
                },
                None => {},
            }
            Ok((Output::Content(changed), after))
        },
        Output::ProviderToolCall(call) => {
            let start = Parts { output: Vec::new(), data: call.data.clone(), ledger };
            assert(start.output.deep_view() =~= Seq::empty());
            let parts = keep_parts(&call.output, start, index, run_id, known)?;
            Ok(
                (
                    Output::ProviderToolCall(
                        ProviderToolCall {
                            id: call.id.clone(),
                            provider: call.provider.clone(),
                            name: call.name.clone(),
                            status: call.status,
                            output: parts.output,
                            data: parts.data,
                        },
                    ),
                    parts.ledger,
                ),
            )
        },
        _ => Ok((item.clone(), ledger)),
    }
}

fn keep_items(
    output: &Vec<Output>,
    locations: Vec<Location>,
    run_id: &str,
    known: &Vec<(String, ArtifactRef)>,
) -> (r: Result<Items, Stop>)
    ensures
        reached(r) == fold_ok(
            output.deep_view(),
            ItemsView {
                output: Seq::empty(),
                ledger: LedgerView {
                    locations: locations.deep_view(),
                    claimed: Seq::empty(),
                    payloads: Seq::empty(),
                },
            },
            save_item(run_id@, known.deep_view()),
        ),
{
    let ghost all = output.deep_view();
    let ghost step = save_item(run_id@, known.deep_view());
    let ghost first = ItemsView {
        output: Seq::empty(),
        ledger: LedgerView {
            locations: locations.deep_view(),
            claimed: Seq::empty(),
            payloads: Seq::empty(),
        },
    };
    let mut out: Vec<Output> = Vec::new();
    let mut ledger = Ledger { locations, claimed: Vec::new(), payloads: Vec::new() };
    let mut i: usize = 0;
    assert(all.take(0) =~= Seq::empty());
    assert(out.deep_view() =~= Seq::empty());
    assert(ledger.claimed.deep_view() =~= Seq::empty());
    assert(ledger.payloads.deep_view() =~= Seq::empty());
    while i < output.len()
        invariant
            i <= output@.len(),
            out@.len() == i,
            all == output.deep_view(),
            first.output == Seq::<OutputView>::empty(),
            first.ledger.locations == locations.deep_view(),
            first.ledger.claimed == Seq::<Seq<char>>::empty(),
            first.ledger.payloads == Seq::<Seq<char>>::empty(),
            step == save_item(run_id@, known.deep_view()),
            fold_ok(all.take(i as int), first, step) == Ok::<ItemsView, StopView>(
                ItemsView { output: out.deep_view(), ledger: ledger@ },
            ),
        decreases output@.len() - i,
    {
        proof {
            fold_ok_step(all, first, step, i as int);
        }
        assert(all[i as int] == output@[i as int]@);
        let ghost before = out.deep_view();
        let (changed, after) = keep_item(&output[i], ledger, i, run_id, known)?;
        ledger = after;
        out.push(changed);
        assert(out.deep_view() =~= before.push(changed@));
        i += 1;
    }
    assert(all.take(all.len() as int) =~= all);
    Ok(Items { output: out, ledger })
}

fn is_leaking(provider_data: &Json, output: &Vec<Output>, payloads: &Vec<String>) -> (r: bool)
    ensures
        r == leaking(provider_data@, output.deep_view(), payloads.deep_view()),
{
    if contains_payload(provider_data, payloads) {
        return true;
    }
    let mut i: usize = 0;
    while i < output.len()
        invariant
            i <= output@.len(),
            !holds_payload(provider_data@, payloads.deep_view()),
            forall|j: int|
                0 <= j < i ==> !leaks(#[trigger] output.deep_view()[j], payloads.deep_view()),
        decreases output@.len() - i,
    {
        assert(output.deep_view()[i as int] == output@[i as int]@);
        let found = match &output[i] {
            Output::ProviderToolCall(call) => contains_payload(&call.data, payloads),
            _ => false,
        };
        if found {
            assert(leaks(output.deep_view()[i as int], payloads.deep_view()));
            return true;
        }
        i += 1;
    }
    false
}

/// Replaces every inline media part of a response by a reference.
pub fn save_response(response: &TurnOutput, run_id: &str, known: &Vec<(String, ArtifactRef)>) -> (r:
    Result<TurnOutput, Stop>)
    ensures
        reached(r) == saved(response@, run_id@, known.deep_view()),
{
    let locations = match bindings(&response.output) {
        Ok(locations) => locations,
        Err(e) => {
            return Err(Stop::Failed(e));
        },
    };
    let items = keep_items(&response.output, locations, run_id, known)?;
    if items.ledger.locations.len() > 0 {
        return Err(Stop::Failed(protocol("artifact binding does not address an inline output")));
    }
    if is_leaking(&response.provider_data, &items.output, &items.ledger.payloads) {
        return Err(
            Stop::Failed(
                protocol(
                    "inline artifact remains in protocol replay data; declare media in ProviderOutput",
                ),
            ),
        );
    }
    Ok(
        TurnOutput {
            output: items.output,
            usage: response.usage,
            provider_turn_pending: response.provider_turn_pending,
            provider_data: response.provider_data.clone(),
            model_id: crate::message::copy_text(&response.model_id),
            response_id: crate::message::copy_text(&response.response_id),
            finish_reason: crate::message::copy_text(&response.finish_reason),
        },
    )
}

} // verus!
