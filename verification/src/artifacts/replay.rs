//! Which native fields hold the media of a response.
use crate::error::{fold_ok, fold_ok_step, protocol, seen, Error, ErrorView};
use crate::artifacts::ARTIFACT_KEY;
use crate::json::{field_is_smaller, group_json_views, item_is_smaller, lookup, Json, JsonView};
use crate::message::{Output, OutputView};
use crate::provider_tools::output::{
    call_replay, replay, MediaBinding, MediaBindingView, REPLAY_KEY,
};
use crate::text::{decimal, has_prefix, join3, join4, number, same, starts_with};
use vstd::prelude::*;

verus! {

/// A part of the output of a call, and the native field that it was read from.
#[derive(Debug, PartialEq, Eq)]
pub struct Location {
    pub output_index: usize,
    pub content_index: usize,
    pub pointer: String,
}

pub struct LocationView {
    pub output_index: usize,
    pub content_index: usize,
    pub pointer: Seq<char>,
}

impl View for Location {
    type V = LocationView;

    open spec fn view(&self) -> LocationView {
        LocationView {
            output_index: self.output_index,
            content_index: self.content_index,
            pointer: self.pointer@,
        }
    }
}

impl DeepView for Location {
    type V = LocationView;

    open spec fn deep_view(&self) -> LocationView {
        self@
    }
}

impl LocationView {
    /// The path of the field in the data of its call.
    pub open spec fn local(self) -> Seq<char> {
        "/"@ + REPLAY_KEY@ + self.pointer
    }

    /// The path of the field in the response.
    pub open spec fn path(self) -> Seq<char> {
        "/output/"@ + decimal(self.output_index as nat) + "/call/data"@ + self.local()
    }
}

impl Location {
    pub fn local(&self) -> (r: String)
        ensures
            r@ == self@.local(),
    {
        join3("/", REPLAY_KEY, &self.pointer)
    }

    pub fn path(&self) -> (r: String)
        ensures
            r@ == self@.path(),
    {
        join4("/output/", &number(self.output_index as u64), "/call/data", &self.local())
    }
}

/// The location of a part, if it has one.
pub open spec fn located(locations: Seq<LocationView>, output: usize, content: usize) -> Option<
    nat,
>
    decreases locations.len(),
{
    if locations.len() == 0 {
        None
    } else if locations[0].output_index == output && locations[0].content_index == content {
        Some(0)
    } else {
        match located(locations.skip(1), output, content) {
            Some(i) => Some((i + 1) as nat),
            None => None,
        }
    }
}

pub(crate) fn locate(locations: &Vec<Location>, output: usize, content: usize) -> (r: Option<usize>)
    ensures
        match r {
            Some(i) => located(locations.deep_view(), output, content) == Some(i as nat) && i
                < locations@.len(),
            None => located(locations.deep_view(), output, content) is None,
        },
{
    let ghost all = locations.deep_view();
    let mut i: usize = 0;
    assert(all.skip(0) =~= all);
    while i < locations.len()
        invariant
            i <= locations@.len(),
            all == locations.deep_view(),
            located(all, output, content) == (match located(all.skip(i as int), output, content) {
                Some(k) => Some((k + i) as nat),
                None => None,
            }),
        decreases locations@.len() - i,
    {
        assert(all.skip(i as int)[0] == locations@[i as int]@);
        if locations[i].output_index == output && locations[i].content_index == content {
            return Some(i);
        }
        assert(all.skip(i as int).skip(1) =~= all.skip(i + 1));
        i += 1;
    }
    None
}

// ---------------------------------------------------------------------------------------
// Bindings
// ---------------------------------------------------------------------------------------
/// The locations with one binding more.
pub open spec fn bind(output: usize) -> spec_fn(Seq<LocationView>, MediaBindingView) -> Result<
    Seq<LocationView>,
    ErrorView,
> {
    |locations: Seq<LocationView>, binding: MediaBindingView|
        if !has_prefix(binding.pointer, "/items/"@) {
            Err(ErrorView::Protocol("media binding must address native replay items"@))
        } else if located(locations, output, binding.content_index) is Some {
            Err(ErrorView::Protocol("duplicate provider media binding"@))
        } else {
            Ok(
                locations.push(
                    LocationView {
                        output_index: output,
                        content_index: binding.content_index,
                        pointer: binding.pointer,
                    },
                ),
            )
        }
}

/// The locations with those of one output item more.
pub open spec fn bind_output(locations: Seq<LocationView>, output: OutputView, index: usize) -> Result<
    Seq<LocationView>,
    ErrorView,
> {
    match output {
        OutputView::ProviderToolCall(call) => match call_replay(call) {
            Ok(Some(replay)) => fold_ok(replay.media, locations, bind(index)),
            Ok(None) => Ok(locations),
            Err(e) => Err(e),
        },
        _ => Ok(locations),
    }
}

/// The locations of all output items.
pub open spec fn bindings_of(outputs: Seq<OutputView>) -> Result<Seq<LocationView>, ErrorView>
    decreases outputs.len(),
{
    if outputs.len() == 0 {
        Ok(Seq::empty())
    } else {
        match bindings_of(outputs.drop_last()) {
            Ok(locations) => bind_output(
                locations,
                outputs.last(),
                (outputs.len() - 1) as usize,
            ),
            Err(e) => Err(e),
        }
    }
}

proof fn first_failed_binding(outputs: Seq<OutputView>, n: int)
    requires
        0 <= n <= outputs.len(),
        bindings_of(outputs.take(n)) is Err,
    ensures
        bindings_of(outputs) == bindings_of(outputs.take(n)),
    decreases outputs.len() - n,
{
    if n < outputs.len() {
        assert(outputs.take(n + 1).drop_last() =~= outputs.take(n));
        first_failed_binding(outputs, n + 1);
    } else {
        assert(outputs.take(n) =~= outputs);
    }
}

fn bind_media(locations: Vec<Location>, media: &Vec<MediaBinding>, index: usize) -> (r: Result<
    Vec<Location>,
    Error,
>)
    ensures
        seen(r) == fold_ok(media.deep_view(), locations.deep_view(), bind(index)),
{
    let ghost all = media.deep_view();
    let ghost start = locations.deep_view();
    let mut out = locations;
    let mut i: usize = 0;
    assert(all.take(0) =~= Seq::empty());
    while i < media.len()
        invariant
            i <= media@.len(),
            all == media.deep_view(),
            start == locations.deep_view(),
            fold_ok(all.take(i as int), start, bind(index)) == Ok::<Seq<LocationView>, ErrorView>(
                out.deep_view(),
            ),
        decreases media@.len() - i,
    {
        let binding = &media[i];
        assert(all[i as int] == binding@);
        proof {
            fold_ok_step(all, start, bind(index), i as int);
        }
        if !starts_with(&binding.pointer, "/items/") {
            return Err(protocol("media binding must address native replay items"));
        }
        if locate(&out, index, binding.content_index).is_some() {
            return Err(protocol("duplicate provider media binding"));
        }
        let ghost before = out.deep_view();
        let location = Location {
            output_index: index,
            content_index: binding.content_index,
            pointer: binding.pointer.clone(),
        };
        out.push(location);
        assert(out.deep_view() =~= before.push(location@));
        i += 1;
    }
    assert(all.take(all.len() as int) =~= all);
    Ok(out)
}

/// Where the media of output items came from: each part at most once, and native items only.
pub fn bindings(outputs: &Vec<Output>) -> (r: Result<Vec<Location>, Error>)
    ensures
        seen(r) == bindings_of(outputs.deep_view()),
{
    let ghost all = outputs.deep_view();
    let mut locations: Vec<Location> = Vec::new();
    let mut i: usize = 0;
    assert(all.take(0) =~= Seq::empty());
    assert(locations.deep_view() =~= Seq::empty());
    while i < outputs.len()
        invariant
            i <= outputs@.len(),
            all == outputs.deep_view(),
            bindings_of(all.take(i as int)) == Ok::<Seq<LocationView>, ErrorView>(
                locations.deep_view(),
            ),
        decreases outputs@.len() - i,
    {
        assert(all[i as int] == outputs@[i as int]@);
        assert(all.take(i + 1).drop_last() =~= all.take(i as int));
        proof {
            if bindings_of(all.take(i + 1)) is Err {
                first_failed_binding(all, i + 1);
            }
        }
        match &outputs[i] {
            Output::ProviderToolCall(call) => {
                match replay(call)? {
                    Some(found) => {
                        locations = bind_media(locations, &found.media, i)?;
                    },
                    None => {},
                }
            },
            _ => {},
        }
        i += 1;
    }
    assert(all.take(all.len() as int) =~= all);
    Ok(locations)
}

// ---------------------------------------------------------------------------------------
// What remains
// ---------------------------------------------------------------------------------------
/// Whether a value holds one of the payloads as a text, outside of markers.
pub open spec fn holds_payload(value: JsonView, payloads: Seq<Seq<char>>) -> bool
    decreases value,
{
    match value {
        JsonView::Text(text) => payloads.contains(text),
        JsonView::Array(items) => exists|i: int|
            0 <= i < items.len() && holds_payload(#[trigger] items[i], payloads),
        JsonView::Object(fields) => lookup(fields, ARTIFACT_KEY@) is None && exists|i: int|
            0 <= i < fields.len() && holds_payload((#[trigger] fields[i]).1, payloads),
        _ => false,
    }
}

proof fn payload_in_item(items: Seq<JsonView>, payloads: Seq<Seq<char>>, i: int)
    requires
        0 <= i < items.len(),
        holds_payload(items[i], payloads),
    ensures
        holds_payload(JsonView::Array(items), payloads),
{
    let value = JsonView::Array(items);
    assert(holds_payload(value->Array_0[i], payloads));
}

/// Whether a text is among those.
pub(crate) fn among(texts: &Vec<String>, text: &str) -> (r: bool)
    ensures
        r == texts.deep_view().contains(text@),
{
    let mut i: usize = 0;
    while i < texts.len()
        invariant
            i <= texts@.len(),
            forall|j: int| 0 <= j < i ==> #[trigger] texts.deep_view()[j] != text@,
        decreases texts@.len() - i,
    {
        assert(texts.deep_view()[i as int] == texts@[i as int]@);
        if same(&texts[i], text) {
            return true;
        }
        i += 1;
    }
    false
}

/// Whether a value holds one of the payloads.
pub fn contains_payload(value: &Json, payloads: &Vec<String>) -> (r: bool)
    ensures
        r == holds_payload(value@, payloads.deep_view()),
    decreases value,
{
    broadcast use group_json_views;

    match value {
        Json::Text(text) => among(payloads, text),
        Json::Array(items) => {
            let mut i: usize = 0;
            while i < items.len()
                invariant
                    i <= items@.len(),
                    *value == Json::Array(*items),
                    value@ == JsonView::Array(items.deep_view()),
                    forall|j: int|
                        0 <= j < i ==> !holds_payload(
                            #[trigger] items.deep_view()[j],
                            payloads.deep_view(),
                        ),
                decreases items@.len() - i,
            {
                proof {
                    item_is_smaller(*value, i as int);
                }
                assert(items.deep_view()[i as int] == items@[i as int]@);
                if contains_payload(&items[i], payloads) {
                    proof {
                        payload_in_item(items.deep_view(), payloads.deep_view(), i as int);
                    }
                    return true;
                }
                i += 1;
            }
            false
        },
        Json::Object(fields) => {
            if value.has(ARTIFACT_KEY) {
                return false;
            }
            let mut i: usize = 0;
            while i < fields.len()
                invariant
                    i <= fields@.len(),
                    *value == Json::Object(*fields),
                    value@ == JsonView::Object(fields.deep_view()),
                    lookup(fields.deep_view(), ARTIFACT_KEY@) is None,
                    forall|j: int|
                        0 <= j < i ==> !holds_payload(
                            (#[trigger] fields.deep_view()[j]).1,
                            payloads.deep_view(),
                        ),
                decreases fields@.len() - i,
            {
                proof {
                    field_is_smaller(*value, i as int);
                }
                assert(fields.deep_view()[i as int].1 == fields@[i as int].1@);
                if contains_payload(&fields[i].1, payloads) {
                    return true;
                }
                i += 1;
            }
            false
        },
        _ => false,
    }
}

} // verus!
