//! Transformed sessions: a context may be rewritten on its way, the configuration may not.
use crate::command::{HistoryEntry, HistoryEntryView};
use crate::error::{invalid, seen, Error, ErrorView};
use crate::json::{levelled, Json, JsonView};
use crate::message::MessageView;
use crate::model::{
    InputSpec, InputSpecView, ModelRequest, Profile, ProfileView, ProviderToolSpec,
    ProviderToolSpecView, ResponseFormat, ResponseFormatView, RuntimeToolSpec,
    RuntimeToolSpecView, ToolChoice, ToolChoiceView,
};
use crate::text::{decimal, join4, number, same};
use vstd::prelude::*;

verus! {

/// All of a request but its messages, as it is compared.
pub struct ConfigurationView {
    pub runtime_tools: Seq<RuntimeToolSpecView>,
    pub provider_tools: Seq<ProviderToolSpecView>,
    pub tool_choice: ToolChoiceView,
    pub response_format: Option<ResponseFormatView>,
    pub profile: ProfileView,
    pub stream: bool,
}

pub open spec fn levelled_optional(value: Option<JsonView>) -> Option<JsonView> {
    match value {
        Some(value) => Some(levelled(value)),
        None => None,
    }
}

pub open spec fn levelled_tool(tool: RuntimeToolSpecView) -> RuntimeToolSpecView {
    RuntimeToolSpecView {
        input: match tool.input {
            InputSpecView::Structured(schema) => InputSpecView::Structured(levelled(schema)),
            InputSpecView::Freeform(syntax) => InputSpecView::Freeform(levelled_optional(syntax)),
        },
        ..tool
    }
}

pub open spec fn levelled_provider_tool(tool: ProviderToolSpecView) -> ProviderToolSpecView {
    ProviderToolSpecView { options: levelled(tool.options), ..tool }
}

pub open spec fn levelled_tools(tools: Seq<RuntimeToolSpecView>) -> Seq<RuntimeToolSpecView> {
    tools.map_values(|tool: RuntimeToolSpecView| levelled_tool(tool))
}

pub open spec fn levelled_provider_tools(tools: Seq<ProviderToolSpecView>) -> Seq<
    ProviderToolSpecView,
> {
    tools.map_values(|tool: ProviderToolSpecView| levelled_provider_tool(tool))
}

pub open spec fn levelled_format(format: Option<ResponseFormatView>) -> Option<
    ResponseFormatView,
> {
    match format {
        Some(ResponseFormatView::Schema { name, schema }) => Some(
            ResponseFormatView::Schema { name, schema: levelled(schema) },
        ),
        _ => format,
    }
}

pub open spec fn levelled_profile(profile: ProfileView) -> ProfileView {
    ProfileView {
        temperature: levelled_optional(profile.temperature),
        extensions: levelled(profile.extensions),
        ..profile
    }
}

pub open spec fn configuration(request: ModelRequest) -> ConfigurationView {
    ConfigurationView {
        runtime_tools: levelled_tools(request.runtime_tools.deep_view()),
        provider_tools: levelled_provider_tools(request.provider_tools.deep_view()),
        tool_choice: request.tool_choice@,
        response_format: levelled_format(request.response_format.deep_view()),
        profile: levelled_profile(request.profile@),
        stream: request.stream,
    }
}

fn same_optional(a: &Option<Json>, b: &Option<Json>) -> (r: bool)
    ensures
        r == (levelled_optional(a.deep_view()) == levelled_optional(b.deep_view())),
{
    match (a, b) {
        (Some(a), Some(b)) => a.same(b),
        (None, None) => true,
        _ => false,
    }
}

fn same_tool(a: &RuntimeToolSpec, b: &RuntimeToolSpec) -> (r: bool)
    ensures
        r == (levelled_tool(a@) == levelled_tool(b@)),
{
    let inputs = match (&a.input, &b.input) {
        (InputSpec::Structured(a), InputSpec::Structured(b)) => a.same(b),
        (InputSpec::Freeform(a), InputSpec::Freeform(b)) => same_optional(a, b),
        _ => false,
    };
    inputs && same(a.name.as_str(), b.name.as_str()) && same(
        a.description.as_str(),
        b.description.as_str(),
    )
}

fn same_provider_tool(a: &ProviderToolSpec, b: &ProviderToolSpec) -> (r: bool)
    ensures
        r == (levelled_provider_tool(a@) == levelled_provider_tool(b@)),
{
    same(a.provider.as_str(), b.provider.as_str()) && same(a.name.as_str(), b.name.as_str())
        && a.options.same(&b.options)
}

fn same_tools(a: &Vec<RuntimeToolSpec>, b: &Vec<RuntimeToolSpec>) -> (r: bool)
    ensures
        r == (levelled_tools(a.deep_view()) == levelled_tools(b.deep_view())),
{
    let ghost left = levelled_tools(a.deep_view());
    let ghost right = levelled_tools(b.deep_view());
    if a.len() != b.len() {
        assert(left.len() != right.len());
        return false;
    }
    let mut i: usize = 0;
    while i < a.len()
        invariant
            i <= a.len(),
            a@.len() == b@.len(),
            left == levelled_tools(a.deep_view()),
            right == levelled_tools(b.deep_view()),
            forall|j: int| 0 <= j < i ==> (#[trigger] left[j]) == right[j],
        decreases a.len() - i,
    {
        assert(left[i as int] == levelled_tool(a@[i as int]@));
        assert(right[i as int] == levelled_tool(b@[i as int]@));
        if !same_tool(&a[i], &b[i]) {
            return false;
        }
        i += 1;
    }
    assert(left =~= right);
    true
}

fn same_provider_tools(a: &Vec<ProviderToolSpec>, b: &Vec<ProviderToolSpec>) -> (r: bool)
    ensures
        r == (levelled_provider_tools(a.deep_view()) == levelled_provider_tools(b.deep_view())),
{
    let ghost left = levelled_provider_tools(a.deep_view());
    let ghost right = levelled_provider_tools(b.deep_view());
    if a.len() != b.len() {
        assert(left.len() != right.len());
        return false;
    }
    let mut i: usize = 0;
    while i < a.len()
        invariant
            i <= a.len(),
            a@.len() == b@.len(),
            left == levelled_provider_tools(a.deep_view()),
            right == levelled_provider_tools(b.deep_view()),
            forall|j: int| 0 <= j < i ==> (#[trigger] left[j]) == right[j],
        decreases a.len() - i,
    {
        assert(left[i as int] == levelled_provider_tool(a@[i as int]@));
        assert(right[i as int] == levelled_provider_tool(b@[i as int]@));
        if !same_provider_tool(&a[i], &b[i]) {
            return false;
        }
        i += 1;
    }
    assert(left =~= right);
    true
}

fn same_choice(a: &ToolChoice, b: &ToolChoice) -> (r: bool)
    ensures
        r == (a@ == b@),
{
    match (a, b) {
        (ToolChoice::Auto, ToolChoice::Auto) => true,
        (ToolChoice::Forbidden, ToolChoice::Forbidden) => true,
        (ToolChoice::Required, ToolChoice::Required) => true,
        (ToolChoice::RuntimeTool(a), ToolChoice::RuntimeTool(b)) => same(a.as_str(), b.as_str()),
        (
            ToolChoice::ProviderTool { provider: p, name: n },
            ToolChoice::ProviderTool { provider: q, name: m },
        ) => same(p.as_str(), q.as_str()) && same(n.as_str(), m.as_str()),
        _ => false,
    }
}

fn same_format(a: &Option<ResponseFormat>, b: &Option<ResponseFormat>) -> (r: bool)
    ensures
        r == (levelled_format(a.deep_view()) == levelled_format(b.deep_view())),
{
    match (a, b) {
        (None, None) => true,
        (Some(ResponseFormat::Json), Some(ResponseFormat::Json)) => true,
        (
            Some(ResponseFormat::Schema { name: n, schema: s }),
            Some(ResponseFormat::Schema { name: m, schema: t }),
        ) => same(n.as_str(), m.as_str()) && s.same(t),
        _ => false,
    }
}

fn same_number(a: Option<u64>, b: Option<u64>) -> (r: bool)
    ensures
        r == (a == b),
{
    match (a, b) {
        (Some(a), Some(b)) => a == b,
        (None, None) => true,
        _ => false,
    }
}

fn same_profile(a: &Profile, b: &Profile) -> (r: bool)
    ensures
        r == (levelled_profile(a@) == levelled_profile(b@)),
{
    let parallel = match (a.parallel_runtime_tools, b.parallel_runtime_tools) {
        (Some(a), Some(b)) => a == b,
        (None, None) => true,
        _ => false,
    };
    parallel && same_optional(&a.temperature, &b.temperature) && same_number(
        a.max_output_tokens,
        b.max_output_tokens,
    ) && same_number(a.seed, b.seed) && a.extensions.same(&b.extensions)
}

/// Whether two requests differ in their messages at most.
pub fn same_configuration(a: &ModelRequest, b: &ModelRequest) -> (r: bool)
    ensures
        r == (configuration(*a) == configuration(*b)),
{
    a.stream == b.stream && same_tools(&a.runtime_tools, &b.runtime_tools) && same_provider_tools(
        &a.provider_tools,
        &b.provider_tools,
    ) && same_choice(&a.tool_choice, &b.tool_choice) && same_format(
        &a.response_format,
        &b.response_format,
    ) && same_profile(&a.profile, &b.profile)
}

/// The entry of a rewritten message, by the revision of its context and its place in it.
pub open spec fn projected_entry(context_revision: u64, index: nat, message: MessageView) -> HistoryEntryView {
    HistoryEntryView {
        id: "projection:"@ + decimal(context_revision as nat) + ":"@ + decimal(index),
        origin: None,
        message,
    }
}

pub open spec fn projected(context_revision: u64, messages: Seq<MessageView>) -> Seq<
    HistoryEntryView,
> {
    Seq::new(
        messages.len(),
        |i: int| projected_entry(context_revision, i as nat, messages[i]),
    )
}

/// The entries of a context that was rewritten. What was prepared may differ from the current
/// request in its messages alone.
pub fn project(current: &ModelRequest, prepared: ModelRequest, context_revision: u64) -> (r: Result<
    Vec<HistoryEntry>,
    Error,
>)
    ensures
        seen(r) == (if configuration(prepared) == configuration(*current) {
            Ok(projected(context_revision, prepared.messages.deep_view()))
        } else {
            Err(ErrorView::Invalid("context transform changed session configuration"@))
        }),
{
    if !same_configuration(&prepared, current) {
        return Err(invalid("context transform changed session configuration"));
    }
    let revision = number(context_revision);
    let ghost all = prepared.messages.deep_view();
    let mut entries: Vec<HistoryEntry> = Vec::new();
    let mut i: usize = 0;
    while i < prepared.messages.len()
        invariant
            i <= prepared.messages.len(),
            all == prepared.messages.deep_view(),
            revision@ == decimal(context_revision as nat),
            entries.deep_view().len() == i,
            forall|j: int|
                0 <= j < i ==> #[trigger] entries.deep_view()[j] == projected_entry(
                    context_revision,
                    j as nat,
                    all[j],
                ),
            configuration(prepared) == configuration(*current),
        decreases prepared.messages.len() - i,
    {
        assert(all[i as int] == prepared.messages@[i as int]@);
        let index = number(i as u64);
        let entry = HistoryEntry {
            id: join4("projection:", revision.as_str(), ":", index.as_str()),
            origin: None,
            message: prepared.messages[i].clone(),
        };
        let ghost before = entries.deep_view();
        let ghost added = entry@;
        entries.push(entry);
        assert(entries.deep_view() =~= before.push(added));
        i += 1;
    }
    assert(entries.deep_view() =~= projected(context_revision, all));
    Ok(entries)
}

/// A rewritten context holds the rewritten messages in their order.
pub proof fn projections_keep_the_messages(context_revision: u64, messages: Seq<MessageView>)
    ensures
        projected(context_revision, messages).len() == messages.len(),
        forall|i: int|
            0 <= i < messages.len() ==> (#[trigger] projected(
                context_revision,
                messages,
            )[i]).message == messages[i],
{
}

} // verus!
