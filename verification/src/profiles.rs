//! Negotiated profiles on the wire: an endpoint maps what was negotiated to fields of its own.
use crate::error::{
    all_ok, all_ok_each, all_ok_step, fold_ok, fold_ok_step, invalid, seen, Error, ErrorView,
};
use crate::json::{alike, set_get, Json, JsonView};
use crate::message::{
    Content, ContentView, Fidelity, Message, MessageView, Output, OutputView, ResourceInputView,
    RuntimeToolOutcome, RuntimeToolOutcomeView,
};
use crate::text::{join, join3, same};
use vstd::prelude::*;

verus! {

// ---------------------------------------------------------------------------------------
// Mappings
// ---------------------------------------------------------------------------------------
/// What a negotiated value is on the wire: a field of the request, and its value.
#[derive(Debug, Clone, PartialEq, Eq)]
pub struct ProfileMapping {
    pub key: String,
    pub value: Json,
    pub field: String,
    pub wire_value: Json,
}

pub struct ProfileMappingView {
    pub key: Seq<char>,
    pub value: JsonView,
    pub field: Seq<char>,
    pub wire_value: JsonView,
}

impl View for ProfileMapping {
    type V = ProfileMappingView;

    open spec fn view(&self) -> ProfileMappingView {
        ProfileMappingView {
            key: self.key@,
            value: self.value@,
            field: self.field@,
            wire_value: self.wire_value@,
        }
    }
}

impl DeepView for ProfileMapping {
    type V = ProfileMappingView;

    open spec fn deep_view(&self) -> ProfileMappingView {
        self@
    }
}

/// Whether a field belongs to the protocol alone.
pub open spec fn protocol_field(field: Seq<char>) -> bool {
    field == "model"@ || field == "messages"@ || field == "input"@ || field == "tools"@ || field
        == "stream"@
}

impl ProfileMapping {
    /// A mapping. It needs a key and a field, and cannot take one of the protocol's own.
    pub fn new(key: String, value: Json, field: String, wire_value: Json) -> (r: Result<
        ProfileMapping,
        Error,
    >)
        ensures
            seen(r) == (if key@.len() == 0 || field@.len() == 0 || protocol_field(field@) {
                Err(ErrorView::Invalid("invalid profile mapping"@))
            } else {
                Ok(
                    ProfileMappingView {
                        key: key@,
                        value: value@,
                        field: field@,
                        wire_value: wire_value@,
                    },
                )
            }),
    {
        let name = field.as_str();
        if key.as_str().unicode_len() == 0 || name.unicode_len() == 0 || same(name, "model")
            || same(name, "messages") || same(name, "input") || same(name, "tools") || same(
            name,
            "stream",
        ) {
            return Err(invalid("invalid profile mapping"));
        }
        Ok(ProfileMapping { key, value, field, wire_value })
    }
}

/// What a negotiated entry is about.
#[derive(Debug, Clone, Copy, PartialEq, Eq, Structural)]
pub enum Subject {
    Interaction,
    ResourceFidelity,
    Other,
}

/// An entry of a negotiated profile.
#[derive(Debug, Clone, PartialEq, Eq)]
pub struct Selected {
    pub key: String,
    pub value: Json,
    pub subject: Subject,
}

pub struct SelectedView {
    pub key: Seq<char>,
    pub value: JsonView,
    pub subject: Subject,
}

impl View for Selected {
    type V = SelectedView;

    open spec fn view(&self) -> SelectedView {
        SelectedView { key: self.key@, value: self.value@, subject: self.subject }
    }
}

impl DeepView for Selected {
    type V = SelectedView;

    open spec fn deep_view(&self) -> SelectedView {
        self@
    }
}

pub open spec fn maps(mapping: ProfileMappingView, key: Seq<char>, value: JsonView) -> bool {
    mapping.key == key && alike(mapping.value, value)
}

/// The first mapping of a negotiated value.
pub open spec fn mapping_of(mappings: Seq<ProfileMappingView>, key: Seq<char>, value: JsonView) -> Option<
    ProfileMappingView,
>
    decreases mappings.len(),
{
    if mappings.len() == 0 {
        None
    } else if maps(mappings[0], key, value) {
        Some(mappings[0])
    } else {
        mapping_of(mappings.drop_first(), key, value)
    }
}

pub fn find_mapping<'a>(mappings: &'a Vec<ProfileMapping>, key: &str, value: &Json) -> (r: Option<
    &'a ProfileMapping,
>)
    ensures
        r.deep_view() == mapping_of(mappings.deep_view(), key@, value@),
{
    let ghost all = mappings.deep_view();
    let mut i: usize = 0;
    assert(all.skip(0) =~= all);
    while i < mappings.len()
        invariant
            i <= mappings.len(),
            all == mappings.deep_view(),
            mapping_of(all, key@, value@) == mapping_of(all.skip(i as int), key@, value@),
        decreases mappings.len() - i,
    {
        proof {
            assert(all[i as int] == mappings@[i as int]@);
            assert(all.skip(i as int)[0] == all[i as int]);
            assert(all.skip(i as int).drop_first() =~= all.skip(i + 1));
        }
        if same(mappings[i].key.as_str(), key) && mappings[i].value.same(value) {
            return Some(&mappings[i]);
        }
        i += 1;
    }
    None
}

/// Whether an entry needs no mapping: a turn-based interaction, and the fidelity of a resource
/// where the protocol carries it with the image.
pub open spec fn built_in(entry: SelectedView, images: bool) -> bool {
    (entry.subject == Subject::Interaction && entry.value == JsonView::text("turn_based"@)) || (
    images && entry.subject == Subject::ResourceFidelity)
}

pub open spec fn mapped(
    entry: SelectedView,
    mappings: Seq<ProfileMappingView>,
    images: bool,
) -> Result<(), ErrorView> {
    if built_in(entry, images) || mapping_of(mappings, entry.key, entry.value) is Some {
        Ok(())
    } else {
        Err(ErrorView::Invalid("negotiated "@ + entry.key + " has no endpoint mapping"@))
    }
}

fn is_built_in(entry: &Selected, images: bool) -> (r: bool)
    ensures
        r == built_in(entry@, images),
{
    let turn_based = match entry.value.as_str() {
        Some(text) => same(text, "turn_based"),
        None => false,
    };
    (entry.subject == Subject::Interaction && turn_based) || (images && entry.subject
        == Subject::ResourceFidelity)
}

/// The first entry that the endpoint cannot carry, if there is one.
pub open spec fn first_unmapped(
    selected: Seq<SelectedView>,
    mappings: Seq<ProfileMappingView>,
    images: bool,
) -> Result<(), ErrorView>
    decreases selected.len(),
{
    if selected.len() == 0 {
        Ok(())
    } else {
        match mapped(selected[0], mappings, images) {
            Err(e) => Err(e),
            Ok(_) => first_unmapped(selected.drop_first(), mappings, images),
        }
    }
}

/// Checks that an endpoint carries all that was negotiated.
pub fn negotiate(selected: &Vec<Selected>, mappings: &Vec<ProfileMapping>, images: bool) -> (r:
    Result<(), Error>)
    ensures
        crate::error::checked(r) == first_unmapped(
            selected.deep_view(),
            mappings.deep_view(),
            images,
        ),
{
    let ghost all = selected.deep_view();
    let mut i: usize = 0;
    assert(all.skip(0) =~= all);
    while i < selected.len()
        invariant
            i <= selected.len(),
            all == selected.deep_view(),
            first_unmapped(all, mappings.deep_view(), images) == first_unmapped(
                all.skip(i as int),
                mappings.deep_view(),
                images,
            ),
        decreases selected.len() - i,
    {
        proof {
            assert(all[i as int] == selected@[i as int]@);
            assert(all.skip(i as int)[0] == all[i as int]);
            assert(all.skip(i as int).drop_first() =~= all.skip(i + 1));
        }
        let entry = &selected[i];
        if !is_built_in(entry, images) && find_mapping(
            mappings,
            entry.key.as_str(),
            &entry.value,
        ).is_none() {
            return Err(
                Error::Invalid(
                    join3("negotiated ", entry.key.as_str(), " has no endpoint mapping"),
                ),
            );
        }
        i += 1;
    }
    Ok(())
}

// ---------------------------------------------------------------------------------------
// Fields
// ---------------------------------------------------------------------------------------
/// A request body, and the fields that negotiation set in it.
pub struct ControlledView {
    pub body: JsonView,
    pub fields: Seq<(Seq<char>, JsonView)>,
}

/// One negotiated entry is set in the body, where it has a mapping.
pub open spec fn set_entry(mappings: Seq<ProfileMappingView>) -> spec_fn(
    ControlledView,
    SelectedView,
) -> Result<ControlledView, ErrorView> {
    |state: ControlledView, entry: SelectedView|
        match mapping_of(mappings, entry.key, entry.value) {
            None => Ok(state),
            Some(mapping) => if state.body.get(mapping.field) matches Some(existing) && !alike(
                existing,
                mapping.wire_value,
            ) {
                Err(ErrorView::Invalid("profile conflicts with "@ + mapping.field))
            } else {
                Ok(
                    ControlledView {
                        body: state.body.set(mapping.field, mapping.wire_value),
                        fields: state.fields.push((mapping.field, mapping.wire_value)),
                    },
                )
            },
        }
}

pub open spec fn controlled(
    body: JsonView,
    selected: Seq<SelectedView>,
    mappings: Seq<ProfileMappingView>,
) -> Result<ControlledView, ErrorView> {
    fold_ok(selected, ControlledView { body, fields: Seq::empty() }, set_entry(mappings))
}

/// Sets what was negotiated in a request body, and tells which fields those are.
pub fn fields(body: Json, selected: &Vec<Selected>, mappings: &Vec<ProfileMapping>) -> (r: Result<
    (Json, Vec<(String, Json)>),
    Error,
>)
    requires
        body@.assignable(),
    ensures
        match controlled(body@, selected.deep_view(), mappings.deep_view()) {
            Ok(view) => r is Ok && (r->Ok_0).0@ == view.body && (r->Ok_0).1.deep_view()
                == view.fields && (body@ is Object ==> view.body is Object),
            Err(e) => r is Err && r->Err_0@ == e,
        },
{
    let ghost start = ControlledView { body: body@, fields: Seq::empty() };
    let ghost all = selected.deep_view();
    let ghost maps_view = mappings.deep_view();
    let ghost step = set_entry(maps_view);
    let mut out = body;
    let mut set: Vec<(String, Json)> = Vec::new();
    let mut i: usize = 0;
    assert(all.take(0) =~= Seq::empty());
    assert(set.deep_view() =~= Seq::empty());
    while i < selected.len()
        invariant
            i <= selected.len(),
            all == selected.deep_view(),
            maps_view == mappings.deep_view(),
            step == set_entry(maps_view),
            start == (ControlledView { body: body@, fields: Seq::empty() }),
            out@.assignable(),
            body@ is Object ==> out@ is Object,
            fold_ok(all.take(i as int), start, step) == Ok::<ControlledView, ErrorView>(
                ControlledView { body: out@, fields: set.deep_view() },
            ),
        decreases selected.len() - i,
    {
        proof {
            fold_ok_step(all, start, step, i as int);
            assert(all[i as int] == selected@[i as int]@);
        }
        let entry = &selected[i];
        if let Some(mapping) = find_mapping(mappings, entry.key.as_str(), &entry.value) {
            let conflict = match out.get(mapping.field.as_str()) {
                Some(existing) => !existing.same(&mapping.wire_value),
                None => false,
            };
            if conflict {
                return Err(Error::Invalid(join("profile conflicts with ", mapping.field.as_str())));
            }
            out.set(mapping.field.as_str(), mapping.wire_value.clone());
            let ghost before = set.deep_view();
            set.push((mapping.field.clone(), mapping.wire_value.clone()));
            assert(set.deep_view() =~= before.push((mapping.field@, mapping.wire_value@)));
        }
        i += 1;
    }
    assert(all.take(all.len() as int) =~= all);
    Ok((out, set))
}

/// Whether a body holds all fields that were set in it.
pub open spec fn holds_fields(body: JsonView, fields: Seq<(Seq<char>, JsonView)>) -> bool {
    forall|i: int| 0 <= i < fields.len() ==> holds_field(body, #[trigger] fields[i])
}

pub open spec fn holds_field(body: JsonView, field: (Seq<char>, JsonView)) -> bool {
    body.get(field.0) matches Some(value) && alike(value, field.1)
}

/// Checks that negotiated fields still stand in a body.
pub fn check_fields(body: &Json, fields: &Vec<(String, Json)>) -> (r: Result<(), Error>)
    ensures
        r is Ok <==> holds_fields(body@, fields.deep_view()),
        r is Err ==> r->Err_0@ == ErrorView::Invalid("extension changed negotiated profile"@),
{
    let ghost all = fields.deep_view();
    let mut i: usize = 0;
    while i < fields.len()
        invariant
            i <= fields.len(),
            all == fields.deep_view(),
            forall|j: int| 0 <= j < i ==> holds_field(body@, #[trigger] all[j]),
        decreases fields.len() - i,
    {
        assert(all[i as int] == (fields@[i as int].0@, fields@[i as int].1@));
        let stands = match body.get(fields[i].0.as_str()) {
            Some(value) => value.same(&fields[i].1),
            None => false,
        };
        if !stands {
            assert(!holds_field(body@, all[i as int]));
            return Err(invalid("extension changed negotiated profile"));
        }
        i += 1;
    }
    Ok(())
}

// ---------------------------------------------------------------------------------------
// Fidelity
// ---------------------------------------------------------------------------------------
/// The fidelities that were negotiated, by the identity of the resource; one that cannot be
/// read is its reader's message.
pub type FidelitiesView = Seq<(Seq<char>, Result<Fidelity, Seq<char>>)>;

pub open spec fn fidelities_view(fidelities: Seq<(String, Result<Fidelity, String>)>) -> FidelitiesView {
    Seq::new(
        fidelities.len(),
        |i: int|
            (
                fidelities[i].0@,
                match fidelities[i].1 {
                    Ok(fidelity) => Ok(fidelity),
                    Err(message) => Err(message@),
                },
            ),
    )
}

pub open spec fn fidelity_of(fidelities: FidelitiesView, id: Seq<char>) -> Result<
    Option<Fidelity>,
    ErrorView,
>
    decreases fidelities.len(),
{
    if fidelities.len() == 0 {
        Ok(None)
    } else if fidelities[0].0 == id {
        match fidelities[0].1 {
            Ok(fidelity) => Ok(Some(fidelity)),
            Err(message) => Err(ErrorView::Invalid(message)),
        }
    } else {
        fidelity_of(fidelities.drop_first(), id)
    }
}

fn find_fidelity(fidelities: &Vec<(String, Result<Fidelity, String>)>, id: &str) -> (r: Result<
    Option<Fidelity>,
    Error,
>)
    ensures
        match fidelity_of(fidelities_view(fidelities@), id@) {
            Ok(fidelity) => r is Ok && r->Ok_0 == fidelity,
            Err(e) => r is Err && r->Err_0@ == e,
        },
{
    let ghost all = fidelities_view(fidelities@);
    let mut i: usize = 0;
    assert(all.skip(0) =~= all);
    while i < fidelities.len()
        invariant
            i <= fidelities.len(),
            all == fidelities_view(fidelities@),
            fidelity_of(all, id@) == fidelity_of(all.skip(i as int), id@),
        decreases fidelities.len() - i,
    {
        proof {
            assert(all.skip(i as int)[0] == all[i as int]);
            assert(all.skip(i as int).drop_first() =~= all.skip(i + 1));
        }
        if same(fidelities[i].0.as_str(), id) {
            return match &fidelities[i].1 {
                Ok(fidelity) => Ok(Some(*fidelity)),
                Err(message) => Err(Error::Invalid(message.clone())),
            };
        }
        i += 1;
    }
    Ok(None)
}

/// A resource that asked for a fidelity gets the negotiated one; other content stays.
pub open spec fn apply_content(fidelities: FidelitiesView, content: ContentView) -> Result<
    ContentView,
    ErrorView,
> {
    match content {
        ContentView::Resource(input) => if input.fidelity is None {
            Ok(content)
        } else {
            match fidelity_of(fidelities, input.id) {
                Err(e) => Err(e),
                Ok(fidelity) => Ok(
                    ContentView::Resource(ResourceInputView { fidelity, ..input }),
                ),
            }
        },
        _ => Ok(content),
    }
}

pub open spec fn apply_contents(fidelities: FidelitiesView, contents: Seq<ContentView>) -> Result<
    Seq<ContentView>,
    ErrorView,
> {
    all_ok(Seq::new(contents.len(), |i: int| apply_content(fidelities, contents[i])))
}

pub open spec fn apply_output(fidelities: FidelitiesView, output: OutputView) -> Result<
    OutputView,
    ErrorView,
> {
    match output {
        OutputView::Content(content) => match apply_content(fidelities, content) {
            Ok(content) => Ok(OutputView::Content(content)),
            Err(e) => Err(e),
        },
        _ => Ok(output),
    }
}

pub open spec fn apply_outputs(fidelities: FidelitiesView, output: Seq<OutputView>) -> Result<
    Seq<OutputView>,
    ErrorView,
> {
    all_ok(Seq::new(output.len(), |i: int| apply_output(fidelities, output[i])))
}

/// A message with the negotiated fidelities in it.
pub open spec fn apply_message(fidelities: FidelitiesView, message: MessageView) -> Result<
    MessageView,
    ErrorView,
> {
    match message {
        MessageView::System(contents) => match apply_contents(fidelities, contents) {
            Ok(contents) => Ok(MessageView::System(contents)),
            Err(e) => Err(e),
        },
        MessageView::User(contents) => match apply_contents(fidelities, contents) {
            Ok(contents) => Ok(MessageView::User(contents)),
            Err(e) => Err(e),
        },
        MessageView::External(contents) => match apply_contents(fidelities, contents) {
            Ok(contents) => Ok(MessageView::External(contents)),
            Err(e) => Err(e),
        },
        MessageView::Assistant { output, provider_data } => match apply_outputs(
            fidelities,
            output,
        ) {
            Ok(output) => Ok(MessageView::Assistant { output, provider_data }),
            Err(e) => Err(e),
        },
        MessageView::RuntimeTool { call_id, outcome: RuntimeToolOutcomeView::Success(contents) } => {
            match apply_contents(fidelities, contents) {
                Ok(contents) => Ok(
                    MessageView::RuntimeTool {
                        call_id,
                        outcome: RuntimeToolOutcomeView::Success(contents),
                    },
                ),
                Err(e) => Err(e),
            }
        },
        _ => Ok(message),
    }
}

pub open spec fn apply_messages(fidelities: FidelitiesView, messages: Seq<MessageView>) -> Result<
    Seq<MessageView>,
    ErrorView,
> {
    all_ok(Seq::new(messages.len(), |i: int| apply_message(fidelities, messages[i])))
}

type Fidelities = Vec<(String, Result<Fidelity, String>)>;

fn content_with(fidelities: &Fidelities, content: &Content) -> (r: Result<Content, Error>)
    ensures
        seen(r) == apply_content(fidelities_view(fidelities@), content@),
{
    let mut out = content.clone();
    if let Content::Resource(input) = &mut out {
        if input.fidelity.is_some() {
            input.fidelity = find_fidelity(fidelities, input.id.as_str())?;
        }
    }
    Ok(out)
}

fn contents_with(fidelities: &Fidelities, contents: &Vec<Content>) -> (r: Result<Vec<Content>, Error>)
    ensures
        seen(r) == apply_contents(fidelities_view(fidelities@), contents.deep_view()),
{
    let ghost view = fidelities_view(fidelities@);
    let ghost given = contents.deep_view();
    let ghost all = Seq::new(given.len(), |i: int| apply_content(view, given[i]));
    let mut out: Vec<Content> = Vec::new();
    let mut i: usize = 0;
    assert(all.take(0) =~= Seq::empty());
    assert(out.deep_view() =~= Seq::empty());
    while i < contents.len()
        invariant
            i <= contents.len(),
            view == fidelities_view(fidelities@),
            given == contents.deep_view(),
            all == Seq::new(given.len(), |i: int| apply_content(view, given[i])),
            all_ok(all.take(i as int)) == Ok::<Seq<ContentView>, ErrorView>(out.deep_view()),
        decreases contents.len() - i,
    {
        proof {
            all_ok_step(all, i as int);
            assert(given[i as int] == contents@[i as int]@);
        }
        let item = content_with(fidelities, &contents[i])?;
        let ghost before = out.deep_view();
        let ghost added = item@;
        out.push(item);
        assert(out.deep_view() =~= before.push(added));
        i += 1;
    }
    assert(all.take(all.len() as int) =~= all);
    Ok(out)
}

fn outputs_with(fidelities: &Fidelities, output: &Vec<Output>) -> (r: Result<Vec<Output>, Error>)
    ensures
        seen(r) == apply_outputs(fidelities_view(fidelities@), output.deep_view()),
{
    let ghost view = fidelities_view(fidelities@);
    let ghost given = output.deep_view();
    let ghost all = Seq::new(given.len(), |i: int| apply_output(view, given[i]));
    let mut out: Vec<Output> = Vec::new();
    let mut i: usize = 0;
    assert(all.take(0) =~= Seq::empty());
    assert(out.deep_view() =~= Seq::empty());
    while i < output.len()
        invariant
            i <= output.len(),
            view == fidelities_view(fidelities@),
            given == output.deep_view(),
            all == Seq::new(given.len(), |i: int| apply_output(view, given[i])),
            all_ok(all.take(i as int)) == Ok::<Seq<OutputView>, ErrorView>(out.deep_view()),
        decreases output.len() - i,
    {
        proof {
            all_ok_step(all, i as int);
            assert(given[i as int] == output@[i as int]@);
        }
        let item = match &output[i] {
            Output::Content(part) => Output::Content(content_with(fidelities, part)?),
            other => other.clone(),
        };
        let ghost before = out.deep_view();
        let ghost added = item@;
        out.push(item);
        assert(out.deep_view() =~= before.push(added));
        i += 1;
    }
    assert(all.take(all.len() as int) =~= all);
    Ok(out)
}

fn message_with(fidelities: &Fidelities, message: &Message) -> (r: Result<Message, Error>)
    ensures
        seen(r) == apply_message(fidelities_view(fidelities@), message@),
{
    match message {
        Message::System(list) => Ok(Message::System(contents_with(fidelities, list)?)),
        Message::User(list) => Ok(Message::User(contents_with(fidelities, list)?)),
        Message::External(list) => Ok(Message::External(contents_with(fidelities, list)?)),
        Message::Assistant { output, provider_data } => Ok(
            Message::Assistant {
                output: outputs_with(fidelities, output)?,
                provider_data: provider_data.clone(),
            },
        ),
        Message::RuntimeTool { call_id, outcome: RuntimeToolOutcome::Success(list) } => Ok(
            Message::RuntimeTool {
                call_id: call_id.clone(),
                outcome: RuntimeToolOutcome::Success(contents_with(fidelities, list)?),
            },
        ),
        other => Ok(other.clone()),
    }
}

/// Sets the negotiated fidelities in the messages of a request.
pub fn apply(messages: &Vec<Message>, fidelities: &Vec<(String, Result<Fidelity, String>)>) -> (r:
    Result<Vec<Message>, Error>)
    ensures
        seen(r) == apply_messages(fidelities_view(fidelities@), messages.deep_view()),
{
    let ghost view = fidelities_view(fidelities@);
    let ghost given = messages.deep_view();
    let ghost all = Seq::new(given.len(), |i: int| apply_message(view, given[i]));
    let mut out: Vec<Message> = Vec::new();
    let mut i: usize = 0;
    assert(all.take(0) =~= Seq::empty());
    assert(out.deep_view() =~= Seq::empty());
    while i < messages.len()
        invariant
            i <= messages.len(),
            view == fidelities_view(fidelities@),
            given == messages.deep_view(),
            all == Seq::new(given.len(), |i: int| apply_message(view, given[i])),
            all_ok(all.take(i as int)) == Ok::<Seq<MessageView>, ErrorView>(out.deep_view()),
        decreases messages.len() - i,
    {
        proof {
            all_ok_step(all, i as int);
            assert(given[i as int] == messages@[i as int]@);
        }
        let item = message_with(fidelities, &messages[i])?;
        let ghost before = out.deep_view();
        let ghost added = item@;
        out.push(item);
        assert(out.deep_view() =~= before.push(added));
        i += 1;
    }
    assert(all.take(all.len() as int) =~= all);
    Ok(out)
}

// ---------------------------------------------------------------------------------------
// Laws
// ---------------------------------------------------------------------------------------
/// Every field that negotiation set stands in the body that comes out.
pub proof fn controlled_fields_stand(
    body: JsonView,
    selected: Seq<SelectedView>,
    mappings: Seq<ProfileMappingView>,
)
    requires
        body is Object,
    ensures
        controlled(body, selected, mappings) matches Ok(state) ==> state.body is Object
            && holds_fields(state.body, state.fields),
    decreases selected.len(),
{
    let start = ControlledView { body, fields: Seq::empty() };
    let step = set_entry(mappings);
    if selected.len() > 0 && controlled(body, selected, mappings) is Ok {
        controlled_fields_stand(body, selected.drop_last(), mappings);
        let before = controlled(body, selected.drop_last(), mappings)->Ok_0;
        let after = controlled(body, selected, mappings)->Ok_0;
        if let Some(mapping) = mapping_of(mappings, selected.last().key, selected.last().value) {
            assert forall|i: int| 0 <= i < after.fields.len() implies holds_field(
                after.body,
                #[trigger] after.fields[i],
            ) by {
                set_get(before.body, mapping.field, mapping.wire_value, after.fields[i].0);
                if i < before.fields.len() {
                    assert(before.fields[i] == after.fields[i]);
                }
            }
        }
    }
}

/// Negotiation sets no other field, and a field that was there still compares equal.
pub proof fn controlled_changes_nothing_else(
    body: JsonView,
    selected: Seq<SelectedView>,
    mappings: Seq<ProfileMappingView>,
    key: Seq<char>,
)
    requires
        body is Object,
    ensures
        controlled(body, selected, mappings) matches Ok(state) ==> {
            &&& body.get(key) matches Some(value) ==> holds_field(state.body, (key, value))
            &&& (forall|i: int| 0 <= i < state.fields.len() ==> (#[trigger] state.fields[i]).0
                != key) ==> state.body.get(key) == body.get(key)
        },
    decreases selected.len(),
{
    if selected.len() > 0 && controlled(body, selected, mappings) is Ok {
        controlled_changes_nothing_else(body, selected.drop_last(), mappings, key);
        controlled_fields_stand(body, selected.drop_last(), mappings);
        let before = controlled(body, selected.drop_last(), mappings)->Ok_0;
        let after = controlled(body, selected, mappings)->Ok_0;
        if let Some(mapping) = mapping_of(mappings, selected.last().key, selected.last().value) {
            set_get(before.body, mapping.field, mapping.wire_value, key);
            assert(after.fields[before.fields.len() as int] == (mapping.field, mapping.wire_value));
            assert(forall|i: int|
                0 <= i < before.fields.len() ==> before.fields[i] == after.fields[i]);
        }
    }
}

/// A negotiated value is mapped by the first mapping of its key and of a value like it, and by
/// none where there is none.
pub proof fn the_first_mapping_counts(
    mappings: Seq<ProfileMappingView>,
    key: Seq<char>,
    value: JsonView,
    k: int,
)
    requires
        0 <= k <= mappings.len(),
        forall|i: int|
            0 <= i < k ==> !((#[trigger] mappings[i]).key == key && alike(mappings[i].value, value)),
        k < mappings.len() ==> mappings[k].key == key && alike(mappings[k].value, value),
    ensures
        mapping_of(mappings, key, value) == (if k < mappings.len() {
            Some(mappings[k])
        } else {
            None
        }),
    decreases k,
{
    if k > 0 {
        assert(!maps(mappings[0], key, value));
        let rest = mappings.drop_first();
        assert forall|i: int| 0 <= i < k - 1 implies !((#[trigger] rest[i]).key == key && alike(
            rest[i].value,
            value,
        )) by {
            assert(rest[i] == mappings[i + 1]);
        }
        the_first_mapping_counts(rest, key, value, k - 1);
    }
}

/// Every negotiated entry that an endpoint maps stands in the body: in the field of its
/// mapping, with the value of its mapping.
pub proof fn negotiated_entries_are_sent(
    body: JsonView,
    selected: Seq<SelectedView>,
    mappings: Seq<ProfileMappingView>,
    i: int,
    mapping: ProfileMappingView,
)
    requires
        body is Object,
        0 <= i < selected.len(),
        mapping_of(mappings, selected[i].key, selected[i].value) == Some(mapping),
    ensures
        controlled(body, selected, mappings) matches Ok(state) ==> state.fields.contains(
            (mapping.field, mapping.wire_value),
        ) && (state.body.get(mapping.field) matches Some(value) && alike(value, mapping.wire_value)),
    decreases selected.len(),
{
    if let Ok(state) = controlled(body, selected, mappings) {
        let front = selected.drop_last();
        let before = controlled(body, front, mappings)->Ok_0;
        let field = (mapping.field, mapping.wire_value);
        if i < front.len() {
            assert(front[i] == selected[i]);
            negotiated_entries_are_sent(body, front, mappings, i, mapping);
            let j = choose|j: int| 0 <= j < before.fields.len() && before.fields[j] == field;
            assert(state.fields[j] == field);
        } else {
            assert(state.fields[before.fields.len() as int] == field);
        }
        controlled_fields_stand(body, selected, mappings);
        let j = choose|j: int| 0 <= j < state.fields.len() && state.fields[j] == field;
        assert(holds_field(state.body, state.fields[j]));
    }
}

/// A profile fits an endpoint if and only if each of its entries has a mapping or needs none:
/// an interaction by turns needs none, nor does the fidelity of a resource where images carry
/// it.
pub proof fn a_profile_fits_where_all_is_mapped(
    selected: Seq<SelectedView>,
    mappings: Seq<ProfileMappingView>,
    images: bool,
)
    ensures
        first_unmapped(selected, mappings, images) is Ok <==> forall|i: int|
            0 <= i < selected.len() ==> {
                ||| mapping_of(mappings, (#[trigger] selected[i]).key, selected[i].value) is Some
                ||| selected[i].subject == Subject::Interaction && selected[i].value
                    == JsonView::text("turn_based"@)
                ||| images && selected[i].subject == Subject::ResourceFidelity
            },
    decreases selected.len(),
{
    if selected.len() > 0 {
        let rest = selected.drop_first();
        a_profile_fits_where_all_is_mapped(rest, mappings, images);
        if first_unmapped(selected, mappings, images) is Ok {
            assert forall|i: int| 0 <= i < selected.len() implies {
                ||| mapping_of(mappings, (#[trigger] selected[i]).key, selected[i].value) is Some
                ||| selected[i].subject == Subject::Interaction && selected[i].value
                    == JsonView::text("turn_based"@)
                ||| images && selected[i].subject == Subject::ResourceFidelity
            } by {
                if i > 0 {
                    assert(rest[i - 1] == selected[i]);
                }
            }
        } else if mapped(selected[0], mappings, images) is Ok {
            let j = choose|j: int|
                0 <= j < rest.len() && !(mapping_of(
                    mappings,
                    (#[trigger] rest[j]).key,
                    rest[j].value,
                ) is Some || (rest[j].subject == Subject::Interaction && rest[j].value
                    == JsonView::text("turn_based"@)) || (images && rest[j].subject
                    == Subject::ResourceFidelity));
            assert(selected[j + 1] == rest[j]);
        }
    }
}

/// The fidelity of a resource is the first one that was negotiated for its identity.
pub proof fn the_first_fidelity_counts(fidelities: FidelitiesView, id: Seq<char>, k: int)
    requires
        0 <= k <= fidelities.len(),
        forall|i: int| 0 <= i < k ==> (#[trigger] fidelities[i]).0 != id,
        k < fidelities.len() ==> fidelities[k].0 == id,
    ensures
        match fidelity_of(fidelities, id) {
            Ok(Some(fidelity)) => k < fidelities.len() && fidelities[k].1 == Ok::<
                Fidelity,
                Seq<char>,
            >(fidelity),
            Ok(None) => k == fidelities.len(),
            Err(_) => k < fidelities.len() && fidelities[k].1 is Err,
        },
    decreases k,
{
    if k > 0 {
        assert(fidelities[0].0 != id);
        let rest = fidelities.drop_first();
        assert forall|i: int| 0 <= i < k - 1 implies (#[trigger] rest[i]).0 != id by {
            assert(rest[i] == fidelities[i + 1]);
        }
        the_first_fidelity_counts(rest, id, k - 1);
    }
}

/// Whether a content part is another with the negotiated fidelity in it.
pub open spec fn settled(
    fidelities: FidelitiesView,
    before: ContentView,
    after: ContentView,
) -> bool {
    match before {
        ContentView::Resource(input) => after matches ContentView::Resource(settled) && {
            &&& settled == (ResourceInputView { fidelity: settled.fidelity, ..input })
            &&& input.fidelity is None ==> settled.fidelity is None
            &&& input.fidelity is Some ==> fidelity_of(fidelities, input.id) == Ok::<
                Option<Fidelity>,
                ErrorView,
            >(settled.fidelity)
        },
        _ => after == before,
    }
}

pub open spec fn all_settled(
    fidelities: FidelitiesView,
    before: Seq<ContentView>,
    after: Seq<ContentView>,
) -> bool {
    &&& before.len() == after.len()
    &&& forall|i: int|
        0 <= i < before.len() ==> settled(fidelities, #[trigger] before[i], after[i])
}

proof fn contents_are_settled(fidelities: FidelitiesView, contents: Seq<ContentView>)
    ensures
        apply_contents(fidelities, contents) matches Ok(after) ==> all_settled(
            fidelities,
            contents,
            after,
        ),
{
    if let Ok(after) = apply_contents(fidelities, contents) {
        let results = Seq::new(contents.len(), |i: int| apply_content(fidelities, contents[i]));
        all_ok_each(results);
        assert forall|i: int| 0 <= i < contents.len() implies settled(
            fidelities,
            #[trigger] contents[i],
            after[i],
        ) by {
            assert(results[i] == Ok::<ContentView, ErrorView>(after[i]));
        }
    }
}

/// A message is sent with the negotiated fidelities in it, and is otherwise what it was: who
/// says it, what it says, and in which order.
pub proof fn a_message_is_otherwise_the_same(fidelities: FidelitiesView, message: MessageView)
    ensures
        apply_message(fidelities, message) matches Ok(after) ==> match message {
            MessageView::System(contents) => after matches MessageView::System(settled)
                && all_settled(fidelities, contents, settled),
            MessageView::User(contents) => after matches MessageView::User(settled) && all_settled(
                fidelities,
                contents,
                settled,
            ),
            MessageView::External(contents) => after matches MessageView::External(settled)
                && all_settled(fidelities, contents, settled),
            MessageView::Assistant { output, provider_data } => after
                matches MessageView::Assistant { output: said, provider_data: data } && data
                == provider_data && said.len() == output.len() && forall|i: int|
                0 <= i < output.len() ==> (match #[trigger] output[i] {
                    OutputView::Content(content) => said[i] matches OutputView::Content(given)
                        && settled(fidelities, content, given),
                    other => said[i] == other,
                }),
            MessageView::RuntimeTool { call_id, outcome } => after matches MessageView::RuntimeTool {
                call_id: answered,
                outcome: told,
            } && answered == call_id && match outcome {
                RuntimeToolOutcomeView::Success(contents) => told
                    matches RuntimeToolOutcomeView::Success(settled) && all_settled(
                    fidelities,
                    contents,
                    settled,
                ),
                _ => told == outcome,
            },
            _ => after == message,
        },
{
    match message {
        MessageView::System(contents) => contents_are_settled(fidelities, contents),
        MessageView::User(contents) => contents_are_settled(fidelities, contents),
        MessageView::External(contents) => contents_are_settled(fidelities, contents),
        MessageView::RuntimeTool { outcome: RuntimeToolOutcomeView::Success(contents), .. } => {
            contents_are_settled(fidelities, contents);
        },
        MessageView::Assistant { output, .. } => {
            if let Ok(said) = apply_outputs(fidelities, output) {
                let results = Seq::new(output.len(), |i: int| apply_output(fidelities, output[i]));
                all_ok_each(results);
                assert forall|i: int| 0 <= i < output.len() implies (match #[trigger] output[i] {
                    OutputView::Content(content) => said[i] matches OutputView::Content(given)
                        && settled(fidelities, content, given),
                    other => said[i] == other,
                }) by {
                    assert(results[i] == Ok::<OutputView, ErrorView>(said[i]));
                }
            }
        },
        _ => {},
    }
}

} // verus!
