//! Stored resources, resolved to their bytes within a budget.
use crate::encoding::{base64_encode, base64_text};
use crate::error::{fold_ok, fold_ok_step, invalid, protocol, ErrorView};
use crate::json::{
    field_is_smaller, group_json_views, item_is_smaller, lookup, Fields, Json, JsonView,
};
use crate::message::{
    copy_bytes, Content, ContentView, Message, MessageView, Output, OutputView, ProviderToolCall,
    ProviderToolCallView, ResourceInputView, ResourceSource, ResourceSourceView,
    RuntimeToolOutcome, RuntimeToolOutcomeView,
};
use crate::resources::{reached, too_large, Reference, ReferenceView, Stop, StopView, RESOURCE_KEY};
use vstd::prelude::*;

verus! {

/// The bytes that may still be held, and how many answers of the store were used.
#[derive(Debug, Clone, Copy, PartialEq, Eq, Structural)]
pub struct Purse {
    pub left: usize,
    pub used: usize,
}

pub struct PurseView {
    pub left: nat,
    pub used: nat,
}

impl View for Purse {
    type V = PurseView;

    open spec fn view(&self) -> PurseView {
        PurseView { left: self.left as nat, used: self.used as nat }
    }
}

impl DeepView for Purse {
    type V = PurseView;

    open spec fn deep_view(&self) -> PurseView {
        self@
    }
}

/// The bytes of a resource: the next answer of the store, taken out of the budget.
pub open spec fn taken(reference: ReferenceView, purse: PurseView, loads: Seq<Seq<u8>>) -> Result<
    (Seq<u8>, PurseView),
    StopView,
> {
    if purse.used >= loads.len() {
        Err(StopView::Open { reference, limit: purse.left as usize })
    } else {
        let bytes = loads[purse.used as int];
        if bytes.len() > purse.left {
            Err(StopView::Failed(too_large()))
        } else {
            Ok(
                (
                    bytes,
                    PurseView { left: (purse.left - bytes.len()) as nat, used: purse.used + 1 },
                ),
            )
        }
    }
}

fn take(reference: Reference, purse: Purse, loads: &Vec<Vec<u8>>) -> (r: Result<
    (Vec<u8>, Purse),
    Stop,
>)
    ensures
        match taken(reference@, purse@, loads.deep_view()) {
            Ok((bytes, after)) => r is Ok && (r->Ok_0).0@ == bytes && (r->Ok_0).1@ == after,
            Err(stop) => r is Err && r->Err_0@ == stop,
        },
{
    if purse.used >= loads.len() {
        return Err(Stop::Open { reference, limit: purse.left });
    }
    let bytes = &loads[purse.used];
    assert(loads.deep_view()[purse.used as int] == bytes.deep_view());
    assert(bytes.deep_view() =~= bytes@);
    if bytes.len() > purse.left {
        return Err(
            Stop::Failed(
                invalid("resource exceeds input materialization limit; use media streaming"),
            ),
        );
    }
    Ok((copy_bytes(bytes), Purse { left: purse.left - bytes.len(), used: purse.used + 1 }))
}

// ---------------------------------------------------------------------------------------
// Native data
// ---------------------------------------------------------------------------------------
/// The payload that a marker stands for.
pub open spec fn resolved_marker(
    fields: Fields,
    reference: JsonView,
    purse: PurseView,
    loads: Seq<Seq<u8>>,
) -> Result<(JsonView, PurseView), StopView> {
    if fields.len() != 1 {
        Err(StopView::Failed(ErrorView::Protocol("invalid resource replay marker"@)))
    } else {
        match taken(ReferenceView::Marker(reference), purse, loads) {
            Ok((bytes, after)) => Ok((JsonView::Text(base64_text(bytes)), after)),
            Err(stop) => Err(stop),
        }
    }
}

/// Native data with each marker replaced by the payload that it stands for.
pub open spec fn resolved_value(value: JsonView, purse: PurseView, loads: Seq<Seq<u8>>) -> Result<
    (JsonView, PurseView),
    StopView,
>
    decreases value,
{
    match value {
        JsonView::Object(fields) => match lookup(fields, RESOURCE_KEY@) {
            Some(reference) => resolved_marker(fields, reference, purse, loads),
            None => match resolved_fields(fields, purse, loads) {
                Ok((found, after)) => Ok((JsonView::Object(found), after)),
                Err(stop) => Err(stop),
            },
        },
        JsonView::Array(items) => match resolved_items(items, purse, loads) {
            Ok((found, after)) => Ok((JsonView::Array(found), after)),
            Err(stop) => Err(stop),
        },
        _ => Ok((value, purse)),
    }
}

pub open spec fn resolved_items(items: Seq<JsonView>, purse: PurseView, loads: Seq<Seq<u8>>) -> Result<
    (Seq<JsonView>, PurseView),
    StopView,
>
    decreases items,
{
    if items.len() == 0 {
        Ok((Seq::empty(), purse))
    } else {
        match resolved_items(items.drop_last(), purse, loads) {
            Err(stop) => Err(stop),
            Ok((found, between)) => match resolved_value(items.last(), between, loads) {
                Err(stop) => Err(stop),
                Ok((item, after)) => Ok((found.push(item), after)),
            },
        }
    }
}

pub open spec fn resolved_fields(fields: Fields, purse: PurseView, loads: Seq<Seq<u8>>) -> Result<
    (Fields, PurseView),
    StopView,
>
    decreases fields,
{
    if fields.len() == 0 {
        Ok((Seq::empty(), purse))
    } else {
        match resolved_fields(fields.drop_last(), purse, loads) {
            Err(stop) => Err(stop),
            Ok((found, between)) => match resolved_value(fields.last().1, between, loads) {
                Err(stop) => Err(stop),
                Ok((item, after)) => Ok((found.push((fields.last().0, item)), after)),
            },
        }
    }
}

proof fn items_stop(items: Seq<JsonView>, purse: PurseView, loads: Seq<Seq<u8>>, n: int)
    requires
        0 <= n <= items.len(),
        resolved_items(items.take(n), purse, loads) is Err,
    ensures
        resolved_items(items, purse, loads) == resolved_items(items.take(n), purse, loads),
    decreases items.len() - n,
{
    if n < items.len() {
        assert(items.take(n + 1).drop_last() =~= items.take(n));
        items_stop(items, purse, loads, n + 1);
    } else {
        assert(items.take(n) =~= items);
    }
}

proof fn fields_stop(fields: Fields, purse: PurseView, loads: Seq<Seq<u8>>, n: int)
    requires
        0 <= n <= fields.len(),
        resolved_fields(fields.take(n), purse, loads) is Err,
    ensures
        resolved_fields(fields, purse, loads) == resolved_fields(fields.take(n), purse, loads),
    decreases fields.len() - n,
{
    if n < fields.len() {
        assert(fields.take(n + 1).drop_last() =~= fields.take(n));
        fields_stop(fields, purse, loads, n + 1);
    } else {
        assert(fields.take(n) =~= fields);
    }
}

fn resolve_marker(
    fields: &Vec<(String, Json)>,
    reference: &Json,
    purse: Purse,
    loads: &Vec<Vec<u8>>,
) -> (r: Result<(Json, Purse), Stop>)
    ensures
        reached(r) == resolved_marker(fields.deep_view(), reference@, purse@, loads.deep_view()),
{
    if fields.len() != 1 {
        return Err(Stop::Failed(protocol("invalid resource replay marker")));
    }
    let (bytes, after) = take(Reference::Marker(reference.clone()), purse, loads)?;
    Ok((Json::Text(base64_encode(&bytes)), after))
}

/// Replaces each marker in native data by the payload that it stands for.
pub fn resolve_value(value: &Json, purse: Purse, loads: &Vec<Vec<u8>>) -> (r: Result<
    (Json, Purse),
    Stop,
>)
    ensures
        reached(r) == resolved_value(value@, purse@, loads.deep_view()),
    decreases value,
{
    broadcast use group_json_views;

    match value {
        Json::Object(fields) => {
            match value.get(RESOURCE_KEY) {
                Some(reference) => {
                    return resolve_marker(fields, reference, purse, loads);
                },
                None => {},
            }
            let ghost all = fields.deep_view();
            let mut now = purse;
            let mut out: Vec<(String, Json)> = Vec::new();
            let mut i: usize = 0;
            assert(all.take(0) =~= Seq::empty());
            assert(out.deep_view() =~= Seq::empty());
            while i < fields.len()
                invariant
                    i <= fields@.len(),
                    *value == Json::Object(*fields),
                    all == fields.deep_view(),
                    value@ == JsonView::Object(all),
                    lookup(all, RESOURCE_KEY@) is None,
                    resolved_fields(all.take(i as int), purse@, loads.deep_view()) == Ok::<
                        (Fields, PurseView),
                        StopView,
                    >((out.deep_view(), now@)),
                decreases fields@.len() - i,
            {
                proof {
                    field_is_smaller(*value, i as int);
                    assert(all.take(i + 1).drop_last() =~= all.take(i as int));
                    assert(all[i as int] == (fields@[i as int].0@, fields@[i as int].1@));
                    if resolved_fields(all.take(i + 1), purse@, loads.deep_view()) is Err {
                        fields_stop(all, purse@, loads.deep_view(), i + 1);
                    }
                }
                let ghost before = out.deep_view();
                let (item, after) = resolve_value(&fields[i].1, now, loads)?;
                out.push((fields[i].0.clone(), item));
                assert(out.deep_view() =~= before.push((fields@[i as int].0@, item@)));
                now = after;
                i += 1;
            }
            assert(all.take(all.len() as int) =~= all);
            Ok((Json::Object(out), now))
        },
        Json::Array(items) => {
            let ghost all = items.deep_view();
            let mut now = purse;
            let mut out: Vec<Json> = Vec::new();
            let mut i: usize = 0;
            assert(all.take(0) =~= Seq::empty());
            assert(out.deep_view() =~= Seq::empty());
            while i < items.len()
                invariant
                    i <= items@.len(),
                    *value == Json::Array(*items),
                    all == items.deep_view(),
                    value@ == JsonView::Array(all),
                    resolved_items(all.take(i as int), purse@, loads.deep_view()) == Ok::<
                        (Seq<JsonView>, PurseView),
                        StopView,
                    >((out.deep_view(), now@)),
                decreases items@.len() - i,
            {
                proof {
                    item_is_smaller(*value, i as int);
                    assert(all.take(i + 1).drop_last() =~= all.take(i as int));
                    assert(all[i as int] == items@[i as int]@);
                    if resolved_items(all.take(i + 1), purse@, loads.deep_view()) is Err {
                        items_stop(all, purse@, loads.deep_view(), i + 1);
                    }
                }
                let ghost before = out.deep_view();
                let (item, after) = resolve_value(&items[i], now, loads)?;
                out.push(item);
                assert(out.deep_view() =~= before.push(item@));
                now = after;
                i += 1;
            }
            assert(all.take(all.len() as int) =~= all);
            Ok((Json::Array(out), now))
        },
        _ => Ok((value.clone(), purse)),
    }
}

// ---------------------------------------------------------------------------------------
// Messages
// ---------------------------------------------------------------------------------------
/// A part with its bytes at hand: stored ones are taken from the store, and inline ones
/// count against the budget too.
pub open spec fn resolved_content(
    content: ContentView,
    purse: PurseView,
    loads: Seq<Seq<u8>>,
) -> Result<(ContentView, PurseView), StopView> {
    match content {
        ContentView::Resource(input) => match input.source {
            ResourceSourceView::Stored(_) => match taken(
                ReferenceView::Part(input),
                purse,
                loads,
            ) {
                Ok((bytes, after)) => Ok(
                    (
                        ContentView::Resource(
                            ResourceInputView {
                                source: ResourceSourceView::Inline(bytes),
                                ..input
                            },
                        ),
                        after,
                    ),
                ),
                Err(stop) => Err(stop),
            },
            ResourceSourceView::Inline(bytes) => if bytes.len() > purse.left {
                Err(
                    StopView::Failed(
                        ErrorView::Invalid("resource exceeds input materialization limit"@),
                    ),
                )
            } else {
                Ok((content, PurseView { left: (purse.left - bytes.len()) as nat, ..purse }))
            },
            _ => Ok((content, purse)),
        },
        _ => Ok((content, purse)),
    }
}

pub fn resolve_content(content: &Content, purse: Purse, loads: &Vec<Vec<u8>>) -> (r: Result<
    (Content, Purse),
    Stop,
>)
    ensures
        reached(r) == resolved_content(content@, purse@, loads.deep_view()),
{
    match content {
        Content::Resource(input) => match &input.source {
            ResourceSource::Stored(_) => {
                let (bytes, after) = take(Reference::Part(input.clone()), purse, loads)?;
                let mut found = input.clone();
                found.source = ResourceSource::Inline(bytes);
                Ok((Content::Resource(found), after))
            },
            ResourceSource::Inline(bytes) => {
                if bytes.len() > purse.left {
                    return Err(
                        Stop::Failed(invalid("resource exceeds input materialization limit")),
                    );
                }
                Ok(
                    (content.clone(), Purse { left: purse.left - bytes.len(), used: purse.used }),
                )
            },
            _ => Ok((content.clone(), purse)),
        },
        _ => Ok((content.clone(), purse)),
    }
}

/// One part more.
pub open spec fn content_step(loads: Seq<Seq<u8>>) -> spec_fn(
    (Seq<ContentView>, PurseView),
    ContentView,
) -> Result<(Seq<ContentView>, PurseView), StopView> {
    |state: (Seq<ContentView>, PurseView), content: ContentView|
        match resolved_content(content, state.1, loads) {
            Ok((found, after)) => Ok((state.0.push(found), after)),
            Err(stop) => Err(stop),
        }
}

pub open spec fn resolved_contents(
    contents: Seq<ContentView>,
    purse: PurseView,
    loads: Seq<Seq<u8>>,
) -> Result<(Seq<ContentView>, PurseView), StopView> {
    fold_ok(contents, (Seq::empty(), purse), content_step(loads))
}

pub fn resolve_contents(contents: &Vec<Content>, purse: Purse, loads: &Vec<Vec<u8>>) -> (r: Result<
    (Vec<Content>, Purse),
    Stop,
>)
    ensures
        reached(r) == resolved_contents(contents.deep_view(), purse@, loads.deep_view()),
{
    let ghost all = contents.deep_view();
    let ghost step = content_step(loads.deep_view());
    let ghost start = (Seq::<ContentView>::empty(), purse@);
    let mut now = purse;
    let mut out: Vec<Content> = Vec::new();
    let mut i: usize = 0;
    assert(all.take(0) =~= Seq::empty());
    assert(out.deep_view() =~= Seq::empty());
    while i < contents.len()
        invariant
            i <= contents@.len(),
            all == contents.deep_view(),
            step == content_step(loads.deep_view()),
            start == (Seq::<ContentView>::empty(), purse@),
            fold_ok(all.take(i as int), start, step) == Ok::<
                (Seq<ContentView>, PurseView),
                StopView,
            >((out.deep_view(), now@)),
        decreases contents@.len() - i,
    {
        proof {
            fold_ok_step(all, start, step, i as int);
        }
        let ghost before = out.deep_view();
        assert(all[i as int] == contents@[i as int]@);
        let (item, after) = resolve_content(&contents[i], now, loads)?;
        out.push(item);
        assert(out.deep_view() =~= before.push(item@));
        now = after;
        i += 1;
    }
    assert(all.take(all.len() as int) =~= all);
    Ok((out, now))
}

pub open spec fn resolved_output(output: OutputView, purse: PurseView, loads: Seq<Seq<u8>>) -> Result<
    (OutputView, PurseView),
    StopView,
> {
    match output {
        OutputView::Content(content) => match resolved_content(content, purse, loads) {
            Ok((found, after)) => Ok((OutputView::Content(found), after)),
            Err(stop) => Err(stop),
        },
        OutputView::ProviderToolCall(call) => match resolved_contents(
            call.output,
            purse,
            loads,
        ) {
            Err(stop) => Err(stop),
            Ok((contents, between)) => match resolved_value(call.data, between, loads) {
                Err(stop) => Err(stop),
                Ok((data, after)) => Ok(
                    (
                        OutputView::ProviderToolCall(
                            ProviderToolCallView { output: contents, data, ..call },
                        ),
                        after,
                    ),
                ),
            },
        },
        _ => Ok((output, purse)),
    }
}

pub fn resolve_output(output: &Output, purse: Purse, loads: &Vec<Vec<u8>>) -> (r: Result<
    (Output, Purse),
    Stop,
>)
    ensures
        reached(r) == resolved_output(output@, purse@, loads.deep_view()),
{
    match output {
        Output::Content(content) => {
            let (found, after) = resolve_content(content, purse, loads)?;
            Ok((Output::Content(found), after))
        },
        Output::ProviderToolCall(call) => {
            let (contents, between) = resolve_contents(&call.output, purse, loads)?;
            let (data, after) = resolve_value(&call.data, between, loads)?;
            Ok(
                (
                    Output::ProviderToolCall(
                        ProviderToolCall {
                            id: call.id.clone(),
                            provider: call.provider.clone(),
                            name: call.name.clone(),
                            status: call.status,
                            output: contents,
                            data,
                        },
                    ),
                    after,
                ),
            )
        },
        _ => Ok((output.clone(), purse)),
    }
}

/// One output item more.
pub open spec fn output_step(loads: Seq<Seq<u8>>) -> spec_fn(
    (Seq<OutputView>, PurseView),
    OutputView,
) -> Result<(Seq<OutputView>, PurseView), StopView> {
    |state: (Seq<OutputView>, PurseView), output: OutputView|
        match resolved_output(output, state.1, loads) {
            Ok((found, after)) => Ok((state.0.push(found), after)),
            Err(stop) => Err(stop),
        }
}

pub open spec fn resolved_outputs(
    outputs: Seq<OutputView>,
    purse: PurseView,
    loads: Seq<Seq<u8>>,
) -> Result<(Seq<OutputView>, PurseView), StopView> {
    fold_ok(outputs, (Seq::empty(), purse), output_step(loads))
}

fn resolve_outputs(outputs: &Vec<Output>, purse: Purse, loads: &Vec<Vec<u8>>) -> (r: Result<
    (Vec<Output>, Purse),
    Stop,
>)
    ensures
        reached(r) == resolved_outputs(outputs.deep_view(), purse@, loads.deep_view()),
{
    let ghost all = outputs.deep_view();
    let ghost step = output_step(loads.deep_view());
    let ghost start = (Seq::<OutputView>::empty(), purse@);
    let mut now = purse;
    let mut out: Vec<Output> = Vec::new();
    let mut i: usize = 0;
    assert(all.take(0) =~= Seq::empty());
    assert(out.deep_view() =~= Seq::empty());
    while i < outputs.len()
        invariant
            i <= outputs@.len(),
            all == outputs.deep_view(),
            step == output_step(loads.deep_view()),
            start == (Seq::<OutputView>::empty(), purse@),
            fold_ok(all.take(i as int), start, step) == Ok::<
                (Seq<OutputView>, PurseView),
                StopView,
            >((out.deep_view(), now@)),
        decreases outputs@.len() - i,
    {
        proof {
            fold_ok_step(all, start, step, i as int);
        }
        let ghost before = out.deep_view();
        assert(all[i as int] == outputs@[i as int]@);
        let (item, after) = resolve_output(&outputs[i], now, loads)?;
        out.push(item);
        assert(out.deep_view() =~= before.push(item@));
        now = after;
        i += 1;
    }
    assert(all.take(all.len() as int) =~= all);
    Ok((out, now))
}

pub open spec fn resolved_message(message: MessageView, purse: PurseView, loads: Seq<Seq<u8>>) -> Result<
    (MessageView, PurseView),
    StopView,
> {
    match message {
        MessageView::System(content) => match resolved_contents(content, purse, loads) {
            Ok((found, after)) => Ok((MessageView::System(found), after)),
            Err(stop) => Err(stop),
        },
        MessageView::User(content) => match resolved_contents(content, purse, loads) {
            Ok((found, after)) => Ok((MessageView::User(found), after)),
            Err(stop) => Err(stop),
        },
        MessageView::External(content) => match resolved_contents(content, purse, loads) {
            Ok((found, after)) => Ok((MessageView::External(found), after)),
            Err(stop) => Err(stop),
        },
        MessageView::Assistant { output, provider_data } => match resolved_outputs(
            output,
            purse,
            loads,
        ) {
            Err(stop) => Err(stop),
            Ok((outputs, between)) => match resolved_value(provider_data, between, loads) {
                Err(stop) => Err(stop),
                Ok((data, after)) => Ok(
                    (MessageView::Assistant { output: outputs, provider_data: data }, after),
                ),
            },
        },
        MessageView::RuntimeTool {
            call_id,
            outcome: RuntimeToolOutcomeView::Success(content),
        } => match resolved_contents(content, purse, loads) {
            Ok((found, after)) => Ok(
                (
                    MessageView::RuntimeTool {
                        call_id,
                        outcome: RuntimeToolOutcomeView::Success(found),
                    },
                    after,
                ),
            ),
            Err(stop) => Err(stop),
        },
        _ => Ok((message, purse)),
    }
}

pub fn resolve_message(message: &Message, purse: Purse, loads: &Vec<Vec<u8>>) -> (r: Result<
    (Message, Purse),
    Stop,
>)
    ensures
        reached(r) == resolved_message(message@, purse@, loads.deep_view()),
{
    match message {
        Message::System(content) => {
            let (found, after) = resolve_contents(content, purse, loads)?;
            Ok((Message::System(found), after))
        },
        Message::User(content) => {
            let (found, after) = resolve_contents(content, purse, loads)?;
            Ok((Message::User(found), after))
        },
        Message::External(content) => {
            let (found, after) = resolve_contents(content, purse, loads)?;
            Ok((Message::External(found), after))
        },
        Message::Assistant { output, provider_data } => {
            let (outputs, between) = resolve_outputs(output, purse, loads)?;
            let (data, after) = resolve_value(provider_data, between, loads)?;
            Ok((Message::Assistant { output: outputs, provider_data: data }, after))
        },
        Message::RuntimeTool { call_id, outcome: RuntimeToolOutcome::Success(content) } => {
            let (found, after) = resolve_contents(content, purse, loads)?;
            Ok(
                (
                    Message::RuntimeTool {
                        call_id: call_id.clone(),
                        outcome: RuntimeToolOutcome::Success(found),
                    },
                    after,
                ),
            )
        },
        _ => Ok((message.clone(), purse)),
    }
}

/// One message more.
pub open spec fn message_step(loads: Seq<Seq<u8>>) -> spec_fn(
    (Seq<MessageView>, PurseView),
    MessageView,
) -> Result<(Seq<MessageView>, PurseView), StopView> {
    |state: (Seq<MessageView>, PurseView), message: MessageView|
        match resolved_message(message, state.1, loads) {
            Ok((found, after)) => Ok((state.0.push(found), after)),
            Err(stop) => Err(stop),
        }
}

/// The messages of a request with stored inputs resolved, within one budget.
pub open spec fn resolved_messages(
    messages: Seq<MessageView>,
    limit: usize,
    loads: Seq<Seq<u8>>,
) -> Result<Seq<MessageView>, StopView> {
    match fold_ok(
        messages,
        (Seq::empty(), PurseView { left: limit as nat, used: 0 }),
        message_step(loads),
    ) {
        Ok((found, _)) => Ok(found),
        Err(stop) => Err(stop),
    }
}

pub fn resolve_messages(messages: &Vec<Message>, limit: usize, loads: &Vec<Vec<u8>>) -> (r: Result<
    Vec<Message>,
    Stop,
>)
    ensures
        reached(r) == resolved_messages(messages.deep_view(), limit, loads.deep_view()),
{
    let ghost all = messages.deep_view();
    let ghost step = message_step(loads.deep_view());
    let ghost start = (
        Seq::<MessageView>::empty(),
        PurseView { left: limit as nat, used: 0 },
    );
    let mut now = Purse { left: limit, used: 0 };
    let mut out: Vec<Message> = Vec::new();
    let mut i: usize = 0;
    assert(all.take(0) =~= Seq::empty());
    assert(out.deep_view() =~= Seq::empty());
    while i < messages.len()
        invariant
            i <= messages@.len(),
            all == messages.deep_view(),
            step == message_step(loads.deep_view()),
            start == (
                Seq::<MessageView>::empty(),
                PurseView { left: limit as nat, used: 0 },
            ),
            fold_ok(all.take(i as int), start, step) == Ok::<
                (Seq<MessageView>, PurseView),
                StopView,
            >((out.deep_view(), now@)),
        decreases messages@.len() - i,
    {
        proof {
            fold_ok_step(all, start, step, i as int);
        }
        let ghost before = out.deep_view();
        assert(all[i as int] == messages@[i as int]@);
        let (item, after) = resolve_message(&messages[i], now, loads)?;
        out.push(item);
        assert(out.deep_view() =~= before.push(item@));
        now = after;
        i += 1;
    }
    assert(all.take(all.len() as int) =~= all);
    Ok(out)
}

} // verus!
