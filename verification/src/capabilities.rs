//! What a model can do, and presets for models that all do the same.
use crate::error::{invalid, Error, ErrorView};
use crate::json::{alike, Json, JsonView};
use crate::model::Protocol;
use crate::text::same;
use vstd::prelude::*;

verus! {

#[derive(Debug, Clone, Copy, PartialEq, Eq, Structural)]
pub enum Capability {
    StructuredTools,
    FreeformTools,
    ProviderTools,
    ParallelTools,
    ParallelControl,
    Streaming,
    Usage,
    StructuredOutput,
    JsonMode,
    Duplex,
    ConversationItems,
    Delegation,
    InterruptOutput,
    FlushInput,
    InputAudioControl,
    Steering,
    AsyncResults,
    Resume,
    ExplicitGeneration,
    ResponseEvents,
    LocalProjection,
    ReplaceContext,
    ProfileUpdates,
}

/// What a model supports. `constraints` lists, per profile key, the values it supports.
#[derive(Debug, PartialEq, Eq)]
pub struct CapabilitySet {
    pub input_modalities: Vec<String>,
    pub output_modalities: Vec<String>,
    pub features: Vec<Capability>,
    pub tool_choices: Vec<String>,
    pub constraints: Vec<(String, Vec<Json>)>,
    pub extensions: Json,
}

pub type ConstraintsView = Seq<(Seq<char>, Seq<JsonView>)>;

pub struct CapabilitySetView {
    pub input_modalities: Seq<Seq<char>>,
    pub output_modalities: Seq<Seq<char>>,
    pub features: Set<Capability>,
    pub tool_choices: Seq<Seq<char>>,
    pub constraints: ConstraintsView,
    pub extensions: JsonView,
}

impl View for CapabilitySet {
    type V = CapabilitySetView;

    open spec fn view(&self) -> CapabilitySetView {
        CapabilitySetView {
            input_modalities: self.input_modalities.deep_view(),
            output_modalities: self.output_modalities.deep_view(),
            features: self.features@.to_set(),
            tool_choices: self.tool_choices.deep_view(),
            constraints: self.constraints.deep_view(),
            extensions: self.extensions@,
        }
    }
}

impl DeepView for CapabilitySet {
    type V = CapabilitySetView;

    open spec fn deep_view(&self) -> CapabilitySetView {
        self@
    }
}

// ---------------------------------------------------------------------------------------
// Features
// ---------------------------------------------------------------------------------------
pub fn holds_feature(features: &Vec<Capability>, feature: Capability) -> (r: bool)
    ensures
        r == features@.to_set().contains(feature),
{
    let mut i: usize = 0;
    while i < features.len()
        invariant
            i <= features.len(),
            forall|j: int| 0 <= j < i ==> features@[j] != feature,
        decreases features.len() - i,
    {
        if features[i] == feature {
            assert(features@.contains(feature));
            return true;
        }
        i += 1;
    }
    assert(!features@.contains(feature));
    false
}

/// Adds a feature, unless it is there.
pub fn add_feature(features: &mut Vec<Capability>, feature: Capability)
    ensures
        final(features)@.to_set() == old(features)@.to_set().insert(feature),
{
    if holds_feature(features, feature) {
        assert(features@.to_set() =~= features@.to_set().insert(feature));
        return;
    }
    let ghost before = features@;
    features.push(feature);
    proof {
        let after = before.push(feature);
        assert forall|c: Capability| after.to_set().contains(c) <==> before.to_set().insert(
            feature,
        ).contains(c) by {
            if after.contains(c) {
                let i = choose|i: int| 0 <= i < after.len() && after[i] == c;
                if i < before.len() {
                    assert(before[i] == c);
                }
            }
            if before.contains(c) {
                let i = choose|i: int| 0 <= i < before.len() && before[i] == c;
                assert(after[i] == c);
            }
            assert(after[before.len() as int] == feature);
        }
        assert(after.to_set() =~= before.to_set().insert(feature));
    }
}

/// Adds features that are not there yet.
pub fn add_features(features: &mut Vec<Capability>, added: &Vec<Capability>)
    ensures
        final(features)@.to_set() == old(features)@.to_set().union(added@.to_set()),
{
    let ghost start = features@.to_set();
    let mut i: usize = 0;
    assert(added@.take(0).to_set() =~= Set::empty());
    assert(start =~= start.union(added@.take(0).to_set()));
    while i < added.len()
        invariant
            i <= added.len(),
            features@.to_set() == start.union(added@.take(i as int).to_set()),
        decreases added.len() - i,
    {
        add_feature(features, added[i]);
        proof {
            let shorter = added@.take(i as int);
            let longer = added@.take(i + 1);
            assert(longer =~= shorter.push(added@[i as int]));
            assert forall|c: Capability| longer.to_set().contains(c) <==> shorter.to_set().insert(
                added@[i as int],
            ).contains(c) by {
                if longer.contains(c) {
                    let k = choose|k: int| 0 <= k < longer.len() && longer[k] == c;
                    if k < shorter.len() {
                        assert(shorter[k] == c);
                    }
                }
                if shorter.contains(c) {
                    let k = choose|k: int| 0 <= k < shorter.len() && shorter[k] == c;
                    assert(longer[k] == c);
                }
                assert(longer[i as int] == added@[i as int]);
            }
            assert(longer.to_set() =~= shorter.to_set().insert(added@[i as int]));
            assert(features@.to_set() =~= start.union(longer.to_set()));
        }
        i += 1;
    }
    assert(added@.take(added@.len() as int) =~= added@);
}

// ---------------------------------------------------------------------------------------
// Values
// ---------------------------------------------------------------------------------------
/// A list with a value, unless it holds the value already.
pub open spec fn with_value<T>(values: Seq<T>, value: T) -> Seq<T> {
    if values.contains(value) {
        values
    } else {
        values.push(value)
    }
}

/// A list with those of other values that it does not hold, in their order.
pub open spec fn with_values<T>(values: Seq<T>, added: Seq<T>) -> Seq<T>
    decreases added.len(),
{
    if added.len() == 0 {
        values
    } else {
        with_value(with_values(values, added.drop_last()), added.last())
    }
}

pub fn holds_text(values: &Vec<String>, value: &str) -> (r: bool)
    ensures
        r == values.deep_view().contains(value@),
{
    let ghost all = values.deep_view();
    let mut i: usize = 0;
    while i < values.len()
        invariant
            i <= values.len(),
            all == values.deep_view(),
            forall|j: int| 0 <= j < i ==> all[j] != value@,
        decreases values.len() - i,
    {
        assert(all[i as int] == values@[i as int]@);
        if same(values[i].as_str(), value) {
            return true;
        }
        i += 1;
    }
    false
}

fn add_texts(values: &mut Vec<String>, added: &Vec<String>)
    ensures
        final(values).deep_view() == with_values(old(values).deep_view(), added.deep_view()),
{
    let ghost start = values.deep_view();
    let ghost all = added.deep_view();
    let mut i: usize = 0;
    assert(all.take(0) =~= Seq::empty());
    while i < added.len()
        invariant
            i <= added.len(),
            all == added.deep_view(),
            values.deep_view() == with_values(start, all.take(i as int)),
        decreases added.len() - i,
    {
        proof {
            assert(all.take(i + 1).drop_last() =~= all.take(i as int));
            assert(all.take(i + 1).last() == all[i as int]);
            assert(all[i as int] == added@[i as int]@);
        }
        if !holds_text(values, added[i].as_str()) {
            let ghost before = values.deep_view();
            values.push(added[i].clone());
            assert(values.deep_view() =~= before.push(all[i as int]));
        }
        i += 1;
    }
    assert(all.take(all.len() as int) =~= all);
}

/// Whether one of the values compares equal to a value.
pub open spec fn lists(values: Seq<JsonView>, value: JsonView) -> bool {
    exists|i: int| 0 <= i < values.len() && alike(#[trigger] values[i], value)
}

/// A list with those of other values that it does not list, in their order.
pub open spec fn with_jsons(values: Seq<JsonView>, added: Seq<JsonView>) -> Seq<JsonView>
    decreases added.len(),
{
    if added.len() == 0 {
        values
    } else {
        let list = with_jsons(values, added.drop_last());
        if lists(list, added.last()) {
            list
        } else {
            list.push(added.last())
        }
    }
}

pub fn holds_json(values: &Vec<Json>, value: &Json) -> (r: bool)
    ensures
        r == lists(values.deep_view(), value@),
{
    let ghost all = values.deep_view();
    let mut i: usize = 0;
    while i < values.len()
        invariant
            i <= values.len(),
            all == values.deep_view(),
            forall|j: int| 0 <= j < i ==> !alike(#[trigger] all[j], value@),
        decreases values.len() - i,
    {
        assert(all[i as int] == values@[i as int]@);
        if values[i].same(value) {
            return true;
        }
        i += 1;
    }
    false
}

fn add_jsons(values: &mut Vec<Json>, added: &Vec<Json>)
    ensures
        final(values).deep_view() == with_jsons(old(values).deep_view(), added.deep_view()),
{
    let ghost start = values.deep_view();
    let ghost all = added.deep_view();
    let mut i: usize = 0;
    assert(all.take(0) =~= Seq::empty());
    while i < added.len()
        invariant
            i <= added.len(),
            all == added.deep_view(),
            values.deep_view() == with_jsons(start, all.take(i as int)),
        decreases added.len() - i,
    {
        proof {
            assert(all.take(i + 1).drop_last() =~= all.take(i as int));
            assert(all.take(i + 1).last() == all[i as int]);
            assert(all[i as int] == added@[i as int]@);
        }
        if !holds_json(values, &added[i]) {
            let ghost before = values.deep_view();
            values.push(added[i].clone());
            assert(values.deep_view() =~= before.push(all[i as int]));
        }
        i += 1;
    }
    assert(all.take(all.len() as int) =~= all);
}

// ---------------------------------------------------------------------------------------
// Constraints
// ---------------------------------------------------------------------------------------
/// Where a key stands in constraints: behind the last where it is absent.
pub open spec fn constraint_position(constraints: ConstraintsView, key: Seq<char>) -> nat
    decreases constraints.len(),
{
    if constraints.len() == 0 {
        0
    } else {
        let before = constraint_position(constraints.drop_last(), key);
        if before < constraints.len() - 1 {
            before
        } else if constraints.last().0 == key {
            (constraints.len() - 1) as nat
        } else {
            constraints.len()
        }
    }
}

/// Constraints in which a key lists more values: those of its list that are new, or a new list.
pub open spec fn with_constraint(
    constraints: ConstraintsView,
    key: Seq<char>,
    values: Seq<JsonView>,
) -> ConstraintsView {
    let i = constraint_position(constraints, key) as int;
    if i < constraints.len() {
        constraints.update(i, (key, with_jsons(constraints[i].1, values)))
    } else {
        constraints.push((key, with_jsons(Seq::empty(), values)))
    }
}

pub open spec fn with_constraints(constraints: ConstraintsView, added: ConstraintsView) -> ConstraintsView
    decreases added.len(),
{
    if added.len() == 0 {
        constraints
    } else {
        with_constraint(
            with_constraints(constraints, added.drop_last()),
            added.last().0,
            added.last().1,
        )
    }
}

proof fn position_grows(constraints: ConstraintsView, key: Seq<char>, n: int)
    requires
        0 <= n <= constraints.len(),
        constraint_position(constraints.take(n), key) < n,
    ensures
        constraint_position(constraints, key) == constraint_position(constraints.take(n), key),
    decreases constraints.len() - n,
{
    if n < constraints.len() {
        assert(constraints.take(n + 1).drop_last() =~= constraints.take(n));
        position_grows(constraints, key, n + 1);
    } else {
        assert(constraints.take(n) =~= constraints);
    }
}

fn find_constraint(constraints: &Vec<(String, Vec<Json>)>, key: &str) -> (r: usize)
    ensures
        r == constraint_position(constraints.deep_view(), key@),
        r <= constraints@.len(),
        r < constraints@.len() ==> constraints@[r as int].0@ == key@,
{
    let ghost all = constraints.deep_view();
    let mut i: usize = 0;
    assert(all.take(0) =~= Seq::empty());
    while i < constraints.len()
        invariant
            i <= constraints.len(),
            all == constraints.deep_view(),
            constraint_position(all.take(i as int), key@) == i,
        decreases constraints.len() - i,
    {
        proof {
            assert(all.take(i + 1).drop_last() =~= all.take(i as int));
            assert(all.take(i + 1).last() == all[i as int]);
            assert(all[i as int].0 == constraints@[i as int].0@);
        }
        if same(constraints[i].0.as_str(), key) {
            proof {
                position_grows(all, key@, i + 1);
            }
            return i;
        }
        i += 1;
    }
    assert(all.take(all.len() as int) =~= all);
    i
}

/// Adds values to the list of a key.
pub fn add_constraint(constraints: &mut Vec<(String, Vec<Json>)>, key: &str, values: &Vec<Json>)
    ensures
        final(constraints).deep_view() == with_constraint(
            old(constraints).deep_view(),
            key@,
            values.deep_view(),
        ),
{
    let ghost before = constraints.deep_view();
    let i = find_constraint(constraints, key);
    let mut list: Vec<Json> = Vec::new();
    assert(list.deep_view() =~= Seq::empty());
    if i < constraints.len() {
        let ghost raw = constraints@;
        let mut entry = constraints.remove(i);
        let ghost old_list = entry.1.deep_view();
        assert(before[i as int].1 == old_list);
        add_jsons(&mut entry.1, values);
        let ghost added = (entry.0@, entry.1.deep_view());
        constraints.insert(i, entry);
        assert(constraints.deep_view() =~= before.update(i as int, added));
    } else {
        add_jsons(&mut list, values);
        let ghost added = (key@, list.deep_view());
        constraints.push((key.to_owned(), list));
        assert(constraints.deep_view() =~= before.push(added));
    }
}

/// Constraints in which a key lists one more value, whether or not it was there.
pub open spec fn with_pushed(
    constraints: ConstraintsView,
    key: Seq<char>,
    value: JsonView,
) -> ConstraintsView {
    let i = constraint_position(constraints, key) as int;
    if i < constraints.len() {
        constraints.update(i, (key, constraints[i].1.push(value)))
    } else {
        constraints.push((key, seq![value]))
    }
}

/// Appends a value to the list of a key.
pub fn push_constraint(constraints: &mut Vec<(String, Vec<Json>)>, key: &str, value: Json)
    ensures
        final(constraints).deep_view() == with_pushed(
            old(constraints).deep_view(),
            key@,
            value@,
        ),
{
    let ghost before = constraints.deep_view();
    let ghost pushed = value@;
    let i = find_constraint(constraints, key);
    if i < constraints.len() {
        let mut entry = constraints.remove(i);
        let ghost list = entry.1.deep_view();
        assert(before[i as int].1 == list);
        entry.1.push(value);
        assert(entry.1.deep_view() =~= list.push(pushed));
        let ghost added = (entry.0@, entry.1.deep_view());
        constraints.insert(i, entry);
        assert(constraints.deep_view() =~= before.update(i as int, added));
    } else {
        let mut list: Vec<Json> = Vec::new();
        list.push(value);
        assert(list.deep_view() =~= seq![pushed]);
        let ghost added = (key@, list.deep_view());
        constraints.push((key.to_owned(), list));
        assert(constraints.deep_view() =~= before.push(added));
    }
}

fn add_constraints(constraints: &mut Vec<(String, Vec<Json>)>, added: &Vec<(String, Vec<Json>)>)
    ensures
        final(constraints).deep_view() == with_constraints(
            old(constraints).deep_view(),
            added.deep_view(),
        ),
{
    let ghost start = constraints.deep_view();
    let ghost all = added.deep_view();
    let mut i: usize = 0;
    assert(all.take(0) =~= Seq::empty());
    while i < added.len()
        invariant
            i <= added.len(),
            all == added.deep_view(),
            constraints.deep_view() == with_constraints(start, all.take(i as int)),
        decreases added.len() - i,
    {
        proof {
            assert(all.take(i + 1).drop_last() =~= all.take(i as int));
            assert(all.take(i + 1).last() == all[i as int]);
            assert(all[i as int] == (added@[i as int].0@, added@[i as int].1.deep_view()));
        }
        add_constraint(constraints, added[i].0.as_str(), &added[i].1);
        i += 1;
    }
    assert(all.take(all.len() as int) =~= all);
}

// ---------------------------------------------------------------------------------------
// Sets of capabilities
// ---------------------------------------------------------------------------------------
impl CapabilitySetView {
    pub open spec fn supports(self, feature: Capability) -> bool {
        self.features.contains(feature)
    }

    /// What either of two models supports. Extensions stay those of the first.
    pub open spec fn joined(self, other: CapabilitySetView) -> CapabilitySetView {
        CapabilitySetView {
            input_modalities: with_values(self.input_modalities, other.input_modalities),
            output_modalities: with_values(self.output_modalities, other.output_modalities),
            features: self.features.union(other.features),
            tool_choices: with_values(self.tool_choices, other.tool_choices),
            constraints: with_constraints(self.constraints, other.constraints),
            extensions: self.extensions,
        }
    }
}

fn copy_texts(values: &Vec<String>) -> (r: Vec<String>)
    ensures
        r.deep_view() == values.deep_view(),
{
    let mut out: Vec<String> = Vec::new();
    let mut i: usize = 0;
    while i < values.len()
        invariant
            i <= values.len(),
            out.deep_view() =~= values.deep_view().take(i as int),
        decreases values.len() - i,
    {
        let ghost before = out.deep_view();
        out.push(values[i].clone());
        assert(out.deep_view() =~= before.push(values.deep_view()[i as int]));
        i += 1;
    }
    assert(values.deep_view().take(values@.len() as int) =~= values.deep_view());
    out
}

fn copy_jsons(values: &Vec<Json>) -> (r: Vec<Json>)
    ensures
        r.deep_view() == values.deep_view(),
{
    let mut out: Vec<Json> = Vec::new();
    let mut i: usize = 0;
    while i < values.len()
        invariant
            i <= values.len(),
            out.deep_view() =~= values.deep_view().take(i as int),
        decreases values.len() - i,
    {
        let ghost before = out.deep_view();
        out.push(values[i].clone());
        assert(out.deep_view() =~= before.push(values.deep_view()[i as int]));
        i += 1;
    }
    assert(values.deep_view().take(values@.len() as int) =~= values.deep_view());
    out
}

fn copy_constraints(constraints: &Vec<(String, Vec<Json>)>) -> (r: Vec<(String, Vec<Json>)>)
    ensures
        r.deep_view() == constraints.deep_view(),
{
    let mut out: Vec<(String, Vec<Json>)> = Vec::new();
    let mut i: usize = 0;
    while i < constraints.len()
        invariant
            i <= constraints.len(),
            out.deep_view() =~= constraints.deep_view().take(i as int),
        decreases constraints.len() - i,
    {
        let ghost before = out.deep_view();
        out.push((constraints[i].0.clone(), copy_jsons(&constraints[i].1)));
        assert(out.deep_view() =~= before.push(constraints.deep_view()[i as int]));
        i += 1;
    }
    assert(constraints.deep_view().take(constraints@.len() as int) =~= constraints.deep_view());
    out
}

impl Clone for CapabilitySet {
    fn clone(&self) -> (r: CapabilitySet)
        ensures
            r@ == self@,
    {
        let mut features: Vec<Capability> = Vec::new();
        assert(features@.to_set() =~= Set::empty());
        add_features(&mut features, &self.features);
        assert(features@.to_set() =~= self.features@.to_set());
        CapabilitySet {
            input_modalities: copy_texts(&self.input_modalities),
            output_modalities: copy_texts(&self.output_modalities),
            features,
            tool_choices: copy_texts(&self.tool_choices),
            constraints: copy_constraints(&self.constraints),
            extensions: self.extensions.clone(),
        }
    }
}

impl CapabilitySet {
    pub fn supports(&self, feature: Capability) -> (r: bool)
        ensures
            r == self@.supports(feature),
    {
        holds_feature(&self.features, feature)
    }

    /// Adds what another model supports.
    pub fn join(&mut self, other: &CapabilitySet)
        ensures
            final(self)@ == old(self)@.joined(other@),
    {
        add_features(&mut self.features, &other.features);
        add_texts(&mut self.input_modalities, &other.input_modalities);
        add_texts(&mut self.output_modalities, &other.output_modalities);
        add_texts(&mut self.tool_choices, &other.tool_choices);
        add_constraints(&mut self.constraints, &other.constraints);
    }
}

// ---------------------------------------------------------------------------------------
// Presets
// ---------------------------------------------------------------------------------------
/// Capabilities without constraints and extensions.
pub open spec fn preset(
    input: Seq<Seq<char>>,
    output: Seq<Seq<char>>,
    features: Set<Capability>,
    choices: Seq<Seq<char>>,
) -> CapabilitySetView {
    CapabilitySetView {
        input_modalities: input,
        output_modalities: output,
        features,
        tool_choices: choices,
        constraints: Seq::empty(),
        extensions: JsonView::empty(),
    }
}

fn make_preset(
    input_modalities: Vec<String>,
    output_modalities: Vec<String>,
    features: Vec<Capability>,
    tool_choices: Vec<String>,
) -> (r: CapabilitySet)
    ensures
        r@ == preset(
            input_modalities.deep_view(),
            output_modalities.deep_view(),
            features@.to_set(),
            tool_choices.deep_view(),
        ),
{
    let constraints: Vec<(String, Vec<Json>)> = Vec::new();
    assert(constraints.deep_view() =~= Seq::empty());
    CapabilitySet {
        input_modalities,
        output_modalities,
        features,
        tool_choices,
        constraints,
        extensions: Json::empty(),
    }
}

/// The features of a model that is called with text and runtime tools.
pub open spec fn tool_features() -> Set<Capability> {
    set![
        Capability::StructuredTools,
        Capability::ParallelTools,
        Capability::ParallelControl,
        Capability::Streaming,
        Capability::Usage,
    ]
}

pub open spec fn text_tools() -> CapabilitySetView {
    preset(
        seq!["text"@],
        seq!["text"@],
        tool_features(),
        seq!["auto"@, "none"@, "required"@, "runtime_tool"@],
    )
}

/// Text in and out, with structured runtime tools; constraints are up to the caller.
pub fn text_tool_calling() -> (r: CapabilitySet)
    ensures
        r@ == text_tools(),
{
    let input: Vec<String> = vec!["text".to_owned()];
    let output: Vec<String> = vec!["text".to_owned()];
    let mut features: Vec<Capability> = Vec::new();
    assert(features@.to_set() =~= Set::empty());
    add_feature(&mut features, Capability::StructuredTools);
    add_feature(&mut features, Capability::ParallelTools);
    add_feature(&mut features, Capability::ParallelControl);
    add_feature(&mut features, Capability::Streaming);
    add_feature(&mut features, Capability::Usage);
    let choices: Vec<String> = vec![
        "auto".to_owned(),
        "none".to_owned(),
        "required".to_owned(),
        "runtime_tool".to_owned(),
    ];
    assert(features@.to_set() =~= tool_features());
    assert(input.deep_view() =~= seq!["text"@]);
    assert(output.deep_view() =~= seq!["text"@]);
    assert(choices.deep_view() =~= seq!["auto"@, "none"@, "required"@, "runtime_tool"@]);
    make_preset(input, output, features, choices)
}

/// The capabilities of an HTTP protocol: text tools, images and files, and what it adds.
pub open spec fn protocol_set(
    features: Set<Capability>,
    audio: bool,
    provider_tools: bool,
) -> CapabilitySetView {
    let caps = text_tools();
    let input = caps.input_modalities + seq!["image"@, "file"@];
    CapabilitySetView {
        input_modalities: if audio {
            input.push("audio"@)
        } else {
            input
        },
        features: caps.features.union(features),
        tool_choices: if provider_tools {
            caps.tool_choices.push("provider_tool"@)
        } else {
            caps.tool_choices
        },
        ..caps
    }
}

pub fn capabilities(features: &Vec<Capability>, audio: bool, provider_tools: bool) -> (r:
    CapabilitySet)
    ensures
        r@ == protocol_set(features@.to_set(), audio, provider_tools),
{
    let mut caps = text_tool_calling();
    let ghost input = caps.input_modalities.deep_view();
    caps.input_modalities.push("image".to_owned());
    caps.input_modalities.push("file".to_owned());
    assert(caps.input_modalities.deep_view() =~= input + seq!["image"@, "file"@]);
    add_features(&mut caps.features, features);
    if audio {
        let ghost before = caps.input_modalities.deep_view();
        caps.input_modalities.push("audio".to_owned());
        assert(caps.input_modalities.deep_view() =~= before.push("audio"@));
    }
    if provider_tools {
        let ghost before = caps.tool_choices.deep_view();
        caps.tool_choices.push("provider_tool".to_owned());
        assert(caps.tool_choices.deep_view() =~= before.push("provider_tool"@));
    }
    caps
}

/// What the Messages protocol supports.
pub fn messages_capabilities() -> (r: CapabilitySet)
    ensures
        r@ == protocol_set(
            set![Capability::StructuredOutput, Capability::ProviderTools],
            false,
            true,
        ),
{
    let mut features: Vec<Capability> = Vec::new();
    assert(features@.to_set() =~= Set::empty());
    add_feature(&mut features, Capability::StructuredOutput);
    add_feature(&mut features, Capability::ProviderTools);
    assert(features@.to_set() =~= set![Capability::StructuredOutput, Capability::ProviderTools]);
    capabilities(&features, false, true)
}

/// What the Responses protocol supports.
pub fn responses_capabilities() -> (r: CapabilitySet)
    ensures
        r@ == protocol_set(
            set![
                Capability::StructuredOutput,
                Capability::JsonMode,
                Capability::ProviderTools,
                Capability::FreeformTools,
            ],
            false,
            true,
        ),
{
    let mut features: Vec<Capability> = Vec::new();
    assert(features@.to_set() =~= Set::empty());
    add_feature(&mut features, Capability::StructuredOutput);
    add_feature(&mut features, Capability::JsonMode);
    add_feature(&mut features, Capability::ProviderTools);
    add_feature(&mut features, Capability::FreeformTools);
    assert(features@.to_set() =~= set![
        Capability::StructuredOutput,
        Capability::JsonMode,
        Capability::ProviderTools,
        Capability::FreeformTools,
    ]);
    capabilities(&features, false, true)
}

/// The defaults of a protocol.
pub open spec fn protocol_defaults(protocol: Protocol) -> CapabilitySetView {
    match protocol {
        Protocol::Chat => text_tools(),
        Protocol::Responses => protocol_set(
            set![
                Capability::StructuredOutput,
                Capability::JsonMode,
                Capability::ProviderTools,
                Capability::FreeformTools,
            ],
            false,
            true,
        ),
        Protocol::Messages => protocol_set(
            set![Capability::StructuredOutput, Capability::ProviderTools],
            false,
            true,
        ),
    }
}

/// What a protocol can do unless an endpoint says otherwise.
pub fn protocol_capabilities(protocol: Protocol) -> (r: CapabilitySet)
    ensures
        r@ == protocol_defaults(protocol),
{
    match protocol {
        Protocol::Chat => text_tool_calling(),
        Protocol::Responses => responses_capabilities(),
        Protocol::Messages => messages_capabilities(),
    }
}

/// What MiniMax synthesis supports: text in, audio out.
pub fn synthesis_capabilities() -> (r: CapabilitySet)
    ensures
        r@ == preset(
            seq!["text"@],
            seq!["audio"@],
            set![
                Capability::Streaming,
                Capability::Duplex,
                Capability::Steering,
                Capability::InterruptOutput,
            ],
            seq!["auto"@, "none"@],
        ),
{
    let input: Vec<String> = vec!["text".to_owned()];
    let output: Vec<String> = vec!["audio".to_owned()];
    let mut features: Vec<Capability> = Vec::new();
    assert(features@.to_set() =~= Set::empty());
    add_feature(&mut features, Capability::Streaming);
    add_feature(&mut features, Capability::Duplex);
    add_feature(&mut features, Capability::Steering);
    add_feature(&mut features, Capability::InterruptOutput);
    let choices: Vec<String> = vec!["auto".to_owned(), "none".to_owned()];
    assert(features@.to_set() =~= set![
        Capability::Streaming,
        Capability::Duplex,
        Capability::Steering,
        Capability::InterruptOutput,
    ]);
    assert(input.deep_view() =~= seq!["text"@]);
    assert(output.deep_view() =~= seq!["audio"@]);
    assert(choices.deep_view() =~= seq!["auto"@, "none"@]);
    make_preset(input, output, features, choices)
}

/// What a Live conversation supports: text and audio both ways, and delegations.
pub fn live_capabilities() -> (r: CapabilitySet)
    ensures
        r@ == preset(
            seq!["text"@, "audio"@],
            seq!["text"@, "audio"@],
            set![
                Capability::Streaming,
                Capability::Duplex,
                Capability::Steering,
                Capability::InputAudioControl,
                Capability::AsyncResults,
                Capability::ConversationItems,
                Capability::Delegation,
            ],
            seq!["auto"@, "none"@],
        ),
{
    let input: Vec<String> = vec!["text".to_owned(), "audio".to_owned()];
    let output: Vec<String> = vec!["text".to_owned(), "audio".to_owned()];
    let mut features: Vec<Capability> = Vec::new();
    assert(features@.to_set() =~= Set::empty());
    add_feature(&mut features, Capability::Streaming);
    add_feature(&mut features, Capability::Duplex);
    add_feature(&mut features, Capability::Steering);
    add_feature(&mut features, Capability::InputAudioControl);
    add_feature(&mut features, Capability::AsyncResults);
    add_feature(&mut features, Capability::ConversationItems);
    add_feature(&mut features, Capability::Delegation);
    let choices: Vec<String> = vec!["auto".to_owned(), "none".to_owned()];
    assert(features@.to_set() =~= set![
        Capability::Streaming,
        Capability::Duplex,
        Capability::Steering,
        Capability::InputAudioControl,
        Capability::AsyncResults,
        Capability::ConversationItems,
        Capability::Delegation,
    ]);
    assert(input.deep_view() =~= seq!["text"@, "audio"@]);
    assert(output.deep_view() =~= seq!["text"@, "audio"@]);
    assert(choices.deep_view() =~= seq!["auto"@, "none"@]);
    make_preset(input, output, features, choices)
}

// ---------------------------------------------------------------------------------------
// Exchange sessions
// ---------------------------------------------------------------------------------------
/// What a session made of single exchanges cannot do.
pub open spec fn beyond_exchanges() -> Set<Capability> {
    set![
        Capability::Duplex,
        Capability::ConversationItems,
        Capability::Delegation,
        Capability::InterruptOutput,
        Capability::FlushInput,
        Capability::InputAudioControl,
        Capability::Steering,
        Capability::AsyncResults,
        Capability::Resume,
    ]
}

/// Refuses capabilities that a session made of single exchanges cannot keep up.
pub fn validate_capabilities(capabilities: &CapabilitySet) -> (r: Result<(), Error>)
    ensures
        r is Ok <==> capabilities@.features.disjoint(beyond_exchanges()),
        r is Err ==> r->Err_0@ == ErrorView::Invalid(
            "exchange session advertises unsupported session capabilities"@,
        ),
{
    let ghost beyond = beyond_exchanges();
    if capabilities.supports(Capability::Duplex) || capabilities.supports(
        Capability::ConversationItems,
    ) || capabilities.supports(Capability::Delegation) || capabilities.supports(
        Capability::InterruptOutput,
    ) || capabilities.supports(Capability::FlushInput) || capabilities.supports(
        Capability::InputAudioControl,
    ) || capabilities.supports(Capability::Steering) || capabilities.supports(
        Capability::AsyncResults,
    ) || capabilities.supports(Capability::Resume) {
        proof {
            let features = capabilities@.features;
            assert(features.contains(Capability::Duplex) ==> beyond.contains(Capability::Duplex));
            assert(exists|c: Capability| features.contains(c) && beyond.contains(c)) by {
                if features.contains(Capability::Duplex) {
                } else if features.contains(Capability::ConversationItems) {
                    assert(beyond.contains(Capability::ConversationItems));
                } else if features.contains(Capability::Delegation) {
                    assert(beyond.contains(Capability::Delegation));
                } else if features.contains(Capability::InterruptOutput) {
                    assert(beyond.contains(Capability::InterruptOutput));
                } else if features.contains(Capability::FlushInput) {
                    assert(beyond.contains(Capability::FlushInput));
                } else if features.contains(Capability::InputAudioControl) {
                    assert(beyond.contains(Capability::InputAudioControl));
                } else if features.contains(Capability::Steering) {
                    assert(beyond.contains(Capability::Steering));
                } else if features.contains(Capability::AsyncResults) {
                    assert(beyond.contains(Capability::AsyncResults));
                } else {
                    assert(beyond.contains(Capability::Resume));
                }
            }
        }
        return Err(invalid("exchange session advertises unsupported session capabilities"));
    }
    Ok(())
}

/// The features that every session made of single exchanges has.
pub open spec fn exchange_features() -> Set<Capability> {
    set![
        Capability::ExplicitGeneration,
        Capability::ResponseEvents,
        Capability::LocalProjection,
        Capability::ReplaceContext,
        Capability::ProfileUpdates,
    ]
}

/// Adds what every session made of single exchanges can do.
pub fn add_exchange_features(capabilities: &mut CapabilitySet)
    ensures
        final(capabilities)@ == (CapabilitySetView {
            features: old(capabilities)@.features.union(exchange_features()),
            ..old(capabilities)@
        }),
{
    let ghost before = capabilities.features@.to_set();
    add_feature(&mut capabilities.features, Capability::ExplicitGeneration);
    add_feature(&mut capabilities.features, Capability::ResponseEvents);
    add_feature(&mut capabilities.features, Capability::LocalProjection);
    add_feature(&mut capabilities.features, Capability::ReplaceContext);
    add_feature(&mut capabilities.features, Capability::ProfileUpdates);
    assert(capabilities.features@.to_set() =~= before.union(exchange_features()));
}

// ---------------------------------------------------------------------------------------
// Laws
// ---------------------------------------------------------------------------------------
proof fn with_values_holds_both<T>(values: Seq<T>, added: Seq<T>, x: T)
    ensures
        with_values(values, added).contains(x) <==> values.contains(x) || added.contains(x),
    decreases added.len(),
{
    if added.len() > 0 {
        let shorter = added.drop_last();
        with_values_holds_both(values, shorter, x);
        let list = with_values(values, shorter);
        if added.contains(x) {
            let i = choose|i: int| 0 <= i < added.len() && added[i] == x;
            if i < shorter.len() {
                assert(shorter[i] == x);
            }
        }
        if shorter.contains(x) {
            let i = choose|i: int| 0 <= i < shorter.len() && shorter[i] == x;
            assert(added[i] == x);
        }
        let longer = list.push(added.last());
        if longer.contains(x) {
            let i = choose|i: int| 0 <= i < longer.len() && longer[i] == x;
            if i < list.len() {
                assert(list[i] == x);
            }
        }
        if list.contains(x) {
            let i = choose|i: int| 0 <= i < list.len() && list[i] == x;
            assert(longer[i] == x);
        }
        assert(longer[list.len() as int] == added.last());
        assert(added[added.len() - 1] == added.last());
    }
}

/// A feature, a modality or a tool choice is there after a join if and only if one of the two
/// models has it.
pub proof fn join_is_union(
    a: CapabilitySetView,
    b: CapabilitySetView,
    feature: Capability,
    name: Seq<char>,
)
    ensures
        a.joined(b).supports(feature) <==> a.supports(feature) || b.supports(feature),
        a.joined(b).input_modalities.contains(name) <==> a.input_modalities.contains(name)
            || b.input_modalities.contains(name),
        a.joined(b).output_modalities.contains(name) <==> a.output_modalities.contains(name)
            || b.output_modalities.contains(name),
        a.joined(b).tool_choices.contains(name) <==> a.tool_choices.contains(name)
            || b.tool_choices.contains(name),
{
    with_values_holds_both(a.input_modalities, b.input_modalities, name);
    with_values_holds_both(a.output_modalities, b.output_modalities, name);
    with_values_holds_both(a.tool_choices, b.tool_choices, name);
}

/// What the protocols support without more: all of them tools with structured input, streams
/// and counts; freeform input and JSON without a schema only Responses; a schema and tools of
/// providers all but Chat. Images and files come with the latter too.
pub proof fn protocols_support_their_own(protocol: Protocol)
    ensures
        ({
            let caps = protocol_defaults(protocol);
            &&& caps.supports(Capability::StructuredTools)
            &&& caps.supports(Capability::ParallelTools)
            &&& caps.supports(Capability::ParallelControl)
            &&& caps.supports(Capability::Streaming)
            &&& caps.supports(Capability::Usage)
            &&& caps.supports(Capability::FreeformTools) <==> protocol == Protocol::Responses
            &&& caps.supports(Capability::JsonMode) <==> protocol == Protocol::Responses
            &&& caps.supports(Capability::StructuredOutput) <==> protocol != Protocol::Chat
            &&& caps.supports(Capability::ProviderTools) <==> protocol != Protocol::Chat
            &&& !caps.supports(Capability::Duplex)
            &&& caps.input_modalities.contains("text"@)
            &&& caps.output_modalities.contains("text"@)
            &&& protocol != Protocol::Chat ==> caps.input_modalities.contains("image"@)
                && caps.input_modalities.contains("file"@) && caps.tool_choices.contains(
                "provider_tool"@,
            )
            &&& caps.tool_choices.contains("auto"@) && caps.tool_choices.contains("none"@)
            &&& caps.tool_choices.contains("required"@) && caps.tool_choices.contains(
                "runtime_tool"@,
            )
        }),
{
    let caps = protocol_defaults(protocol);
    let plain = text_tools();
    assert(plain.input_modalities[0] == "text"@);
    assert(plain.output_modalities[0] == "text"@);
    assert(caps.input_modalities[0] == "text"@);
    assert(caps.output_modalities[0] == "text"@);
    assert(caps.tool_choices[0] == "auto"@);
    assert(caps.tool_choices[1] == "none"@);
    assert(caps.tool_choices[2] == "required"@);
    assert(caps.tool_choices[3] == "runtime_tool"@);
    if protocol != Protocol::Chat {
        assert(caps.input_modalities[1] == "image"@);
        assert(caps.input_modalities[2] == "file"@);
        assert(caps.tool_choices[4] == "provider_tool"@);
    }
}

/// Whether constraints list a value under a key.
pub open spec fn constrains(constraints: ConstraintsView, key: Seq<char>, value: JsonView) -> bool {
    exists|i: int|
        0 <= i < constraints.len() && (#[trigger] constraints[i]).0 == key && lists(
            constraints[i].1,
            value,
        )
}

proof fn all_are_listed(values: Seq<JsonView>, added: Seq<JsonView>, value: JsonView)
    ensures
        lists(with_jsons(values, added), value) <==> lists(values, value) || lists(added, value),
    decreases added.len(),
{
    if added.len() > 0 {
        let front = added.drop_last();
        let last = added.last();
        let list = with_jsons(values, front);
        all_are_listed(values, front, value);
        assert(added[added.len() - 1] == last);
        if lists(front, value) {
            let i = choose|i: int| 0 <= i < front.len() && alike(#[trigger] front[i], value);
            assert(added[i] == front[i]);
        }
        if lists(added, value) {
            let i = choose|i: int| 0 <= i < added.len() && alike(#[trigger] added[i], value);
            if i < front.len() {
                assert(front[i] == added[i]);
            }
        }
        if lists(list, last) {
            let i = choose|i: int| 0 <= i < list.len() && alike(#[trigger] list[i], last);
            if alike(last, value) {
                assert(alike(list[i], value));
            }
        } else {
            let all = list.push(last);
            assert(all[list.len() as int] == last);
            if lists(list, value) {
                let i = choose|i: int| 0 <= i < list.len() && alike(#[trigger] list[i], value);
                assert(all[i] == list[i]);
            }
            if lists(all, value) {
                let i = choose|i: int| 0 <= i < all.len() && alike(#[trigger] all[i], value);
                if i < list.len() {
                    assert(list[i] == all[i]);
                }
            }
        }
    } else {
        assert(!lists(added, value));
    }
}

proof fn position_is_of_the_key(constraints: ConstraintsView, key: Seq<char>)
    ensures
        ({
            let i = constraint_position(constraints, key) as int;
            &&& i <= constraints.len()
            &&& i < constraints.len() ==> constraints[i].0 == key
        }),
    decreases constraints.len(),
{
    if constraints.len() > 0 {
        position_is_of_the_key(constraints.drop_last(), key);
    }
}

proof fn one_constraint_more(
    constraints: ConstraintsView,
    under: Seq<char>,
    values: Seq<JsonView>,
    key: Seq<char>,
    value: JsonView,
)
    ensures
        constrains(with_constraint(constraints, under, values), key, value) <==> constrains(
            constraints,
            key,
            value,
        ) || (key == under && lists(values, value)),
{
    let k = constraint_position(constraints, under) as int;
    let all = with_constraint(constraints, under, values);
    position_is_of_the_key(constraints, under);
    if k < constraints.len() {
        all_are_listed(constraints[k].1, values, value);
    } else {
        all_are_listed(Seq::empty(), values, value);
        assert(!lists(Seq::empty(), value));
    }
    if constrains(constraints, key, value) {
        let i = choose|i: int|
            0 <= i < constraints.len() && (#[trigger] constraints[i]).0 == key && lists(
                constraints[i].1,
                value,
            );
        assert(all[i].0 == key && lists(all[i].1, value));
    }
    if key == under && lists(values, value) {
        assert(all[k].0 == key && lists(all[k].1, value));
    }
    if constrains(all, key, value) {
        let i = choose|i: int|
            0 <= i < all.len() && (#[trigger] all[i]).0 == key && lists(all[i].1, value);
        if i != k {
            assert(constraints[i] == all[i]);
        } else if k < constraints.len() && lists(constraints[k].1, value) {
            assert(constraints[k].0 == key);
        }
    }
}

/// A value is listed under a key after a join if and only if one of the two models lists it.
pub proof fn join_lists_what_either_lists(
    a: CapabilitySetView,
    b: CapabilitySetView,
    key: Seq<char>,
    value: JsonView,
)
    ensures
        constrains(a.joined(b).constraints, key, value) <==> constrains(a.constraints, key, value)
            || constrains(b.constraints, key, value),
{
    constraints_join(a.constraints, b.constraints, key, value);
}

proof fn constraints_join(
    constraints: ConstraintsView,
    added: ConstraintsView,
    key: Seq<char>,
    value: JsonView,
)
    ensures
        constrains(with_constraints(constraints, added), key, value) <==> constrains(
            constraints,
            key,
            value,
        ) || constrains(added, key, value),
    decreases added.len(),
{
    if added.len() > 0 {
        let front = added.drop_last();
        let last = added.last();
        constraints_join(constraints, front, key, value);
        one_constraint_more(with_constraints(constraints, front), last.0, last.1, key, value);
        assert(added[added.len() - 1] == last);
        if constrains(front, key, value) {
            let i = choose|i: int|
                0 <= i < front.len() && (#[trigger] front[i]).0 == key && lists(front[i].1, value);
            assert(added[i] == front[i]);
        }
        if constrains(added, key, value) {
            let i = choose|i: int|
                0 <= i < added.len() && (#[trigger] added[i]).0 == key && lists(added[i].1, value);
            if i < front.len() {
                assert(front[i] == added[i]);
            }
        }
    } else {
        assert(!constrains(added, key, value));
    }
}

} // verus!
