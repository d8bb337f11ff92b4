//! Assembly of a streamed Chat response.
use crate::codec::adapter::{usage, usage_of};
use crate::error::{protocol, Error, ErrorView};
use crate::json::{insert_lookup, Fields, Json, JsonView};
use crate::model::{ModelDelta, ModelDeltaView, Protocol};
use crate::slots::{slot_get, slot_put, slot_values, slots_ascend, Slots};
use crate::streaming::fields::{append, append_values, appended, copied, copy_fields, fields_of};
use vstd::prelude::*;

verus! {

/// A tool call as far as it has come in.
pub struct CallParts {
    pub id: Option<Json>,
    pub name: String,
    pub arguments: String,
}

pub struct CallPartsView {
    pub id: Option<JsonView>,
    pub name: Seq<char>,
    pub arguments: Seq<char>,
}

impl DeepView for CallParts {
    type V = CallPartsView;

    open spec fn deep_view(&self) -> CallPartsView {
        CallPartsView {
            id: self.id.deep_view(),
            name: self.name@,
            arguments: self.arguments@,
        }
    }
}

impl CallPartsView {
    pub open spec fn empty() -> CallPartsView {
        CallPartsView { id: None, name: Seq::empty(), arguments: Seq::empty() }
    }

    /// The call on the wire.
    pub open spec fn json(self) -> JsonView {
        let value = JsonView::empty().set("type"@, JsonView::text("function"@)).set(
            "function"@,
            JsonView::empty().set("name"@, JsonView::text(self.name)).set(
                "arguments"@,
                JsonView::text(self.arguments),
            ),
        );
        match self.id {
            Some(id) => value.set("id"@, id),
            None => value,
        }
    }
}

/// A Chat response as far as it has come in: its fields but for the choices, the one choice,
/// its tool calls by index, and whether the stream said that it is complete.
pub struct ChatView {
    pub fields: JsonView,
    pub choice: JsonView,
    pub calls: Seq<(u64, CallPartsView)>,
    pub done: bool,
}

/// The text at a path.
pub open spec fn path_str(value: JsonView, path: Seq<char>) -> Option<Seq<char>> {
    match value.pointer(path) {
        Some(v) => v.as_str(),
        None => None,
    }
}

pub open spec fn or_empty(text: Option<Seq<char>>) -> Seq<char> {
    match text {
        Some(s) => s,
        None => Seq::empty(),
    }
}

/// One fragment of log probabilities: lists grow, other values are replaced.
pub open spec fn merged_logprob(target: JsonView, field: (Seq<char>, JsonView)) -> JsonView {
    match field.1 {
        JsonView::Array(tokens) => {
            let existing = match target.get_array(field.0) {
                Some(items) => items,
                None => Seq::empty(),
            };
            target.set(field.0, JsonView::Array(existing + tokens))
        },
        JsonView::Null => target,
        value => target.set(field.0, value),
    }
}

pub open spec fn merged_logprobs(target: JsonView, fields: Fields) -> JsonView
    decreases fields.len(),
{
    if fields.len() == 0 {
        target
    } else {
        merged_logprob(merged_logprobs(target, fields.drop_last()), fields.last())
    }
}

/// A choice with the fields and the log probabilities of a fragment.
pub open spec fn extended_choice(choice: JsonView, fragment: JsonView) -> JsonView {
    let next = copied(choice, fields_of(fragment), "delta"@, "logprobs"@);
    match fragment.get_object("logprobs"@) {
        Some(fields) => next.set("logprobs"@, merged_logprobs(next.field("logprobs"@), fields)),
        None => next,
    }
}

/// A choice with a text appended to its message.
pub open spec fn with_text(choice: JsonView, key: Seq<char>, text: Seq<char>) -> JsonView {
    choice.set("message"@, appended(choice.field("message"@), key, text))
}

/// Whether a text of a fragment can be appended: the message is not of some other kind.
pub open spec fn text_fits(choice: JsonView, delta: JsonView) -> bool {
    delta.get_str("content"@) is Some || delta.get_str("reasoning_content"@) is Some
        ==> choice.field("message"@).assignable()
}

/// A choice with the texts of a fragment appended.
pub open spec fn with_texts(choice: JsonView, delta: JsonView) -> JsonView {
    let said = match delta.get_str("content"@) {
        Some(text) => with_text(choice, "content"@, text),
        None => choice,
    };
    match delta.get_str("reasoning_content"@) {
        Some(text) => with_text(said, "reasoning_content"@, text),
        None => said,
    }
}

pub open spec fn text_deltas(delta: JsonView) -> Seq<ModelDeltaView> {
    let said = match delta.get_str("content"@) {
        Some(text) => seq![ModelDeltaView::Text { output_index: 0, text }],
        None => Seq::empty(),
    };
    match delta.get_str("reasoning_content"@) {
        Some(text) => said.push(ModelDeltaView::Reasoning { output_index: 0, text }),
        None => said,
    }
}

/// The parts of a call with a fragment added.
pub open spec fn with_fragment(parts: CallPartsView, fragment: JsonView) -> CallPartsView {
    CallPartsView {
        id: match fragment.get("id"@) {
            Some(id) => Some(id),
            None => parts.id,
        },
        name: parts.name + or_empty(path_str(fragment, "/function/name"@)),
        arguments: parts.arguments + or_empty(path_str(fragment, "/function/arguments"@)),
    }
}

pub open spec fn call_delta(index: u64, fragment: JsonView) -> ModelDeltaView {
    ModelDeltaView::RuntimeTool {
        output_index: (index + 1) as u64,
        id: fragment.get_str("id"@),
        name: path_str(fragment, "/function/name"@),
        input: or_empty(path_str(fragment, "/function/arguments"@)),
    }
}

/// The outcome of fragments of calls: the calls after them, and the deltas or the error.
pub struct CallsPushed {
    pub calls: Seq<(u64, CallPartsView)>,
    pub result: Result<Seq<ModelDeltaView>, ErrorView>,
}

/// Adds fragments of calls, up to the first without an index. There is none where an index
/// has no successor.
pub open spec fn with_calls(
    calls: Seq<(u64, CallPartsView)>,
    fragments: Seq<JsonView>,
) -> Option<CallsPushed>
    decreases fragments.len(),
{
    if fragments.len() == 0 {
        Some(CallsPushed { calls, result: Ok(Seq::empty()) })
    } else {
        match with_calls(calls, fragments.drop_last()) {
            None => None,
            Some(before) => match before.result {
                Err(e) => Some(before),
                Ok(deltas) => {
                    let fragment = fragments.last();
                    match fragment.get_u64("index"@) {
                        None => Some(
                            CallsPushed {
                                calls: before.calls,
                                result: Err(
                                    ErrorView::Protocol("stream tool call missing index"@),
                                ),
                            },
                        ),
                        Some(index) => if index == u64::MAX {
                            None
                        } else {
                            let parts = match slot_get(before.calls, index) {
                                Some(parts) => parts,
                                None => CallPartsView::empty(),
                            };
                            Some(
                                CallsPushed {
                                    calls: slot_put(
                                        before.calls,
                                        index,
                                        with_fragment(parts, fragment),
                                    ),
                                    result: Ok(deltas.push(call_delta(index, fragment))),
                                },
                            )
                        },
                    }
                },
            },
        }
    }
}

pub open spec fn usage_deltas(event: JsonView) -> Seq<ModelDeltaView> {
    match event.present("usage"@) {
        Some(value) => seq![ModelDeltaView::Usage(usage_of(Protocol::Chat, value))],
        None => Seq::empty(),
    }
}

impl ChatView {
    pub open spec fn initial() -> ChatView {
        ChatView {
            fields: JsonView::empty(),
            choice: JsonView::empty().set(
                "message"@,
                JsonView::empty().set("role"@, JsonView::text("assistant"@)).set(
                    "content"@,
                    JsonView::text(""@),
                ),
            ).set("finish_reason"@, JsonView::Null),
            calls: Seq::empty(),
            done: false,
        }
    }

    pub open spec fn wf(self) -> bool {
        &&& self.fields is Object
        &&& self.choice is Object
        &&& self.choice.field("logprobs"@).assignable()
        &&& slots_ascend(self.calls)
    }

    /// The response after an event, and the deltas or the error. There is none where the
    /// event would write into a value that holds no fields, or counts past the last index.
    pub open spec fn pushed(self, event: JsonView) -> Option<
        (ChatView, Result<Seq<ModelDeltaView>, ErrorView>),
    > {
        let fields = copied(self.fields, fields_of(event), "choices"@, "choices"@);
        let counted = usage_deltas(event);
        match event.pointer("/choices/0"@) {
            None => Some((ChatView { fields, ..self }, Ok(counted))),
            Some(fragment) => {
                let choice = extended_choice(self.choice, fragment);
                match fragment.get("delta"@) {
                    None => Some((ChatView { fields, choice, ..self }, Ok(counted))),
                    Some(delta) => if !text_fits(choice, delta) {
                        None
                    } else {
                        let said = ChatView { fields, choice: with_texts(choice, delta), ..self };
                        let deltas = counted + text_deltas(delta);
                        match delta.get_array("tool_calls"@) {
                            None => Some((said, Ok(deltas))),
                            Some(fragments) => match with_calls(self.calls, fragments) {
                                None => None,
                                Some(pushed) => Some(
                                    (
                                        ChatView { calls: pushed.calls, ..said },
                                        match pushed.result {
                                            Ok(more) => Ok(deltas + more),
                                            Err(e) => Err(e),
                                        },
                                    ),
                                ),
                            },
                        }
                    },
                }
            },
        }
    }

    pub open spec fn call_values(self) -> Seq<JsonView> {
        slot_values(self.calls).map_values(|c: CallPartsView| c.json())
    }

    pub open spec fn finished_choice(self) -> JsonView {
        if self.calls.len() == 0 {
            self.choice
        } else {
            self.choice.set(
                "message"@,
                self.choice.field("message"@).set(
                    "tool_calls"@,
                    JsonView::Array(self.call_values()),
                ),
            )
        }
    }

    /// The assembled response. There is none where calls would be written into a message
    /// that holds no fields.
    pub open spec fn finished(self) -> Option<Result<JsonView, ErrorView>> {
        if !self.done {
            Some(Err(ErrorView::Protocol("model stream ended before complete response"@)))
        } else if self.calls.len() > 0 && !self.choice.field("message"@).assignable() {
            None
        } else {
            Some(
                Ok(
                    self.fields.set(
                        "choices"@,
                        JsonView::Array(seq![self.finished_choice()]),
                    ),
                ),
            )
        }
    }
}

/// A Chat response while it comes in.
pub struct State {
    fields: Json,
    choice: Json,
    calls: Slots<CallParts>,
    done: bool,
}

impl View for State {
    type V = ChatView;

    closed spec fn view(&self) -> ChatView {
        ChatView {
            fields: self.fields@,
            choice: self.choice@,
            calls: self.calls.deep_view(),
            done: self.done,
        }
    }
}

fn extend_list(target: &mut Json, key: &str, tokens: &Vec<Json>)
    requires
        old(target)@.assignable(),
    ensures
        final(target)@ == merged_logprob(
            old(target)@,
            (key@, JsonView::Array(tokens.deep_view())),
        ),
        final(target)@.assignable(),
{
    broadcast use crate::json::group_json_views;

    if target.get_array(key).is_some() {
        match target.get_mut(key) {
            Some(Json::Array(items)) => append_values(items, tokens),
            _ => {},
        }
    } else {
        let mut values: Vec<Json> = Vec::new();
        append_values(&mut values, tokens);
        assert(values.deep_view() =~= Seq::<JsonView>::empty() + tokens.deep_view());
        target.set(key, Json::array(values));
    }
}

fn merge_logprobs(target: &mut Json, fields: &Vec<(String, Json)>)
    requires
        old(target)@.assignable(),
    ensures
        final(target)@ == merged_logprobs(old(target)@, fields.deep_view()),
        final(target)@.assignable(),
{
    let ghost all = fields.deep_view();
    let ghost start = target@;
    let mut i: usize = 0;
    assert(all.take(0) =~= Seq::empty());
    while i < fields.len()
        invariant
            i <= fields@.len(),
            all == fields.deep_view(),
            target@ == merged_logprobs(start, all.take(i as int)),
            target@.assignable(),
        decreases fields@.len() - i,
    {
        proof {
            assert(all.take(i + 1).drop_last() =~= all.take(i as int));
            assert(all.take(i + 1).last() == (fields@[i as int].0@, fields@[i as int].1@));
        }
        let key = fields[i].0.as_str();
        match fields[i].1.as_array() {
            Some(tokens) => extend_list(target, key, tokens),
            None => {
                if !fields[i].1.is_null() {
                    target.set(key, fields[i].1.clone());
                }
            },
        }
        i += 1;
    }
    assert(all.take(all.len() as int) =~= all);
}

fn path_text<'a>(value: &'a Json, path: &str) -> (r: Option<&'a str>)
    ensures
        r.deep_view() == path_str(value@, path@),
{
    match value.pointer(path) {
        Some(v) => v.as_str(),
        None => None,
    }
}

fn owned(text: Option<&str>) -> (r: Option<String>)
    ensures
        r.deep_view() == text.deep_view(),
{
    match text {
        Some(s) => Some(s.to_owned()),
        None => None,
    }
}

fn text_or_empty(text: Option<&str>) -> (r: &str)
    ensures
        r@ == or_empty(text.deep_view()),
{
    match text {
        Some(s) => s,
        None => {
            proof {
                reveal_strlit("");
            }
            assert(""@ =~= Seq::empty());
            ""
        },
    }
}

fn call_json(parts: &CallParts) -> (r: Json)
    ensures
        r@ == parts.deep_view().json(),
{
    let function = Json::empty().with_text("name", parts.name.as_str()).with_text(
        "arguments",
        parts.arguments.as_str(),
    );
    let value = Json::empty().with_text("type", "function").with("function", function);
    match &parts.id {
        Some(id) => value.with("id", id.clone()),
        None => value,
    }
}

impl State {
    pub fn new() -> (r: State)
        ensures
            r@ == ChatView::initial(),
            r@.wf(),
    {
        proof {
            initial_is_wf();
        }
        let message = Json::empty().with_text("role", "assistant").with_text("content", "");
        State {
            fields: Json::empty(),
            choice: Json::empty().with("message", message).with("finish_reason", Json::Null),
            calls: Slots::new(),
            done: false,
        }
    }

    /// Notes that the stream is complete.
    pub fn done(&mut self)
        ensures
            final(self)@ == (ChatView { done: true, ..old(self)@ }),
    {
        self.done = true;
    }

    fn extend_choice(&mut self, fragment: &Json)
        requires
            old(self)@.wf(),
        ensures
            final(self)@ == (ChatView {
                choice: extended_choice(old(self)@.choice, fragment@),
                ..old(self)@
            }),
            final(self)@.wf(),
    {
        let ghost before = self.choice@;
        copy_fields(&mut self.choice, fragment, "delta", "logprobs");
        proof {
            copied_keeps(before, fields_of(fragment@), "delta"@, "logprobs"@, "logprobs"@);
        }
        match fragment.get_object("logprobs") {
            Some(fields) => {
                let ghost next = self.choice@;
                if self.choice.has("logprobs") {
                    match self.choice.get_mut("logprobs") {
                        Some(logprobs) => merge_logprobs(logprobs, fields),
                        None => {},
                    }
                } else {
                    let mut logprobs = Json::Null;
                    merge_logprobs(&mut logprobs, fields);
                    self.choice.set("logprobs", logprobs);
                }
                proof {
                    insert_lookup(
                        next->Object_0,
                        "logprobs"@,
                        merged_logprobs(next.field("logprobs"@), fields.deep_view()),
                        "logprobs"@,
                    );
                    merged_logprobs_assignable(next.field("logprobs"@), fields.deep_view());
                }
            },
            None => {},
        }
    }

    fn append_text(&mut self, key: &str, text: &str)
        requires
            old(self)@.wf(),
            old(self)@.choice.field("message"@).assignable(),
        ensures
            final(self)@ == (ChatView {
                choice: with_text(old(self)@.choice, key@, text@),
                ..old(self)@
            }),
            final(self)@.wf(),
            final(self)@.choice.field("message"@).assignable(),
    {
        let ghost before = self.choice@;
        if self.choice.has("message") {
            match self.choice.get_mut("message") {
                Some(message) => append(message, key, text),
                None => {},
            }
        } else {
            let mut message = Json::Null;
            append(&mut message, key, text);
            self.choice.set("message", message);
        }
        proof {
            reveal_strlit("message");
            reveal_strlit("logprobs");
            assert("message"@.len() != "logprobs"@.len());
            insert_lookup(
                before->Object_0,
                "message"@,
                appended(before.field("message"@), key@, text@),
                "logprobs"@,
            );
        }
    }

    fn texts(&mut self, delta: &Json, deltas: &mut Vec<ModelDelta>)
        requires
            old(self)@.wf(),
            text_fits(old(self)@.choice, delta@),
        ensures
            final(self)@ == (ChatView {
                choice: with_texts(old(self)@.choice, delta@),
                ..old(self)@
            }),
            final(self)@.wf(),
            final(deltas).deep_view() == old(deltas).deep_view() + text_deltas(delta@),
    {
        let ghost start = deltas.deep_view();
        match delta.get_str("content") {
            Some(text) => {
                self.append_text("content", text);
                deltas.push(ModelDelta::Text { output_index: 0, text: text.to_owned() });
            },
            None => {},
        }
        match delta.get_str("reasoning_content") {
            Some(text) => {
                self.append_text("reasoning_content", text);
                deltas.push(ModelDelta::Reasoning { output_index: 0, text: text.to_owned() });
            },
            None => {},
        }
        assert(deltas.deep_view() =~= start + text_deltas(delta@));
    }

    fn call(&mut self, index: u64, fragment: &Json) -> (r: ModelDelta)
        requires
            old(self)@.wf(),
            index < u64::MAX,
        ensures
            final(self)@ == (ChatView {
                calls: slot_put(
                    old(self)@.calls,
                    index,
                    with_fragment(
                        match slot_get(old(self)@.calls, index) {
                            Some(parts) => parts,
                            None => CallPartsView::empty(),
                        },
                        fragment@,
                    ),
                ),
                ..old(self)@
            }),
            final(self)@.wf(),
            r@ == call_delta(index, fragment@),
    {
        let name = path_text(fragment, "/function/name");
        let input = text_or_empty(path_text(fragment, "/function/arguments"));
        let mut parts = match self.calls.get(index) {
            Some(parts) => CallParts {
                id: copy_json(&parts.id),
                name: parts.name.clone(),
                arguments: parts.arguments.clone(),
            },
            None => CallParts { id: None, name: String::new(), arguments: String::new() },
        };
        match fragment.get("id") {
            Some(id) => {
                parts.id = Some(id.clone());
            },
            None => {},
        }
        parts.name.append(text_or_empty(name));
        parts.arguments.append(input);
        self.calls.put(index, parts);
        ModelDelta::RuntimeTool {
            output_index: index + 1,
            id: owned(fragment.get_str("id")),
            name: owned(name),
            input: input.to_owned(),
        }
    }

    /// Adds fragments of calls. The result is none where an index has no successor.
    fn push_calls(&mut self, fragments: &Vec<Json>, deltas: &mut Vec<ModelDelta>) -> (r: Option<
        Result<(), Error>,
    >)
        requires
            old(self)@.wf(),
        ensures
            r is None <==> with_calls(old(self)@.calls, fragments.deep_view()) is None,
            with_calls(old(self)@.calls, fragments.deep_view()) matches Some(pushed) ==> {
                &&& final(self)@ == (ChatView { calls: pushed.calls, ..old(self)@ })
                &&& final(self)@.wf()
                &&& match pushed.result {
                    Ok(more) => r->0 is Ok && final(deltas).deep_view() == old(deltas).deep_view()
                        + more,
                    Err(e) => r->0 is Err && r->0->Err_0@ == e,
                }
            },
    {
        let ghost all = fragments.deep_view();
        let ghost start = self@;
        let ghost given = deltas.deep_view();
        let ghost mut more: Seq<ModelDeltaView> = Seq::empty();
        let mut i: usize = 0;
        assert(all.take(0) =~= Seq::empty());
        assert(given + more =~= given);
        while i < fragments.len()
            invariant
                i <= fragments@.len(),
                all == fragments.deep_view(),
                start == old(self)@,
                given == old(deltas).deep_view(),
                self@ == (ChatView { calls: self@.calls, ..start }),
                self@.wf(),
                with_calls(start.calls, all.take(i as int)) == Some(
                    CallsPushed { calls: self@.calls, result: Ok(more) },
                ),
                deltas.deep_view() == given + more,
            decreases fragments@.len() - i,
        {
            let fragment = &fragments[i];
            proof {
                assert(all.take(i + 1).drop_last() =~= all.take(i as int));
                assert(all.take(i + 1).last() == fragment@);
                with_calls_settled(start.calls, all, i + 1);
            }
            match fragment.get_u64("index") {
                None => {
                    return Some(Err(protocol("stream tool call missing index")));
                },
                Some(index) => {
                    if index == u64::MAX {
                        return None;
                    }
                    let ghost before = deltas.deep_view();
                    let delta = self.call(index, fragment);
                    deltas.push(delta);
                    proof {
                        assert(deltas.deep_view() =~= before.push(delta@));
                        more = more.push(delta@);
                        assert(deltas.deep_view() =~= given + more);
                    }
                },
            }
            i += 1;
        }
        assert(all.take(all.len() as int) =~= all);
        Some(Ok(()))
    }

    /// Takes an event of the stream and hands back its deltas. The result is none where the
    /// event would write into a value that holds no fields, or counts past the last index;
    /// the state is then of no use.
    pub fn push(&mut self, event: &Json) -> (r: Option<Result<Vec<ModelDelta>, Error>>)
        requires
            old(self)@.wf(),
        ensures
            r is None <==> old(self)@.pushed(event@) is None,
            old(self)@.pushed(event@) matches Some(pushed) ==> final(self)@ == pushed.0
                && final(self)@.wf() && crate::error::seen(r->0) == pushed.1,
    {
        copy_fields(&mut self.fields, event, "choices", "choices");
        let mut deltas: Vec<ModelDelta> = Vec::new();
        match event.present("usage") {
            Some(value) => deltas.push(ModelDelta::Usage(usage(Protocol::Chat, value))),
            None => {},
        }
        assert(deltas.deep_view() =~= usage_deltas(event@));
        let fragment = match event.pointer("/choices/0") {
            Some(fragment) => fragment,
            None => return Some(Ok(deltas)),
        };
        self.extend_choice(fragment);
        let delta = match fragment.get("delta") {
            Some(delta) => delta,
            None => return Some(Ok(deltas)),
        };
        let spoken = delta.get_str("content").is_some() || delta.get_str(
            "reasoning_content",
        ).is_some();
        if spoken {
            let fits = match self.choice.get("message") {
                Some(message) => message.is_assignable(),
                None => true,
            };
            if !fits {
                return None;
            }
        }
        self.texts(delta, &mut deltas);
        match delta.get_array("tool_calls") {
            None => Some(Ok(deltas)),
            Some(fragments) => match self.push_calls(fragments, &mut deltas) {
                None => None,
                Some(Ok(())) => Some(Ok(deltas)),
                Some(Err(e)) => Some(Err(e)),
            },
        }
    }

    fn call_list(&self) -> (r: Vec<Json>)
        ensures
            r.deep_view() == self@.call_values(),
    {
        let mut values: Vec<Json> = Vec::new();
        let mut i: usize = 0;
        while i < self.calls.len()
            invariant
                i <= self@.calls.len(),
                values.deep_view() =~= self@.call_values().take(i as int),
            decreases self@.calls.len() - i,
        {
            let ghost before = values.deep_view();
            let (_, parts) = self.calls.at(i);
            let value = call_json(parts);
            values.push(value);
            assert(values.deep_view() =~= before.push(value@));
            i += 1;
        }
        assert(self@.call_values().take(self@.calls.len() as int) =~= self@.call_values());
        values
    }

    /// Ends the stream and hands back the assembled response. The result is none where calls
    /// would be written into a message that holds no fields.
    pub fn finish(self) -> (r: Option<Result<Json, Error>>)
        requires
            self@.wf(),
        ensures
            r is None <==> self@.finished() is None,
            self@.finished() matches Some(result) ==> crate::error::seen(r->0) == result,
    {
        if !self.done {
            return Some(Err(protocol("model stream ended before complete response")));
        }
        let calls = self.call_list();
        assert(calls.deep_view().len() == calls@.len());
        let mut choice = self.choice;
        if calls.len() > 0 {
            if choice.has("message") {
                match choice.get_mut("message") {
                    Some(message) => {
                        if !message.is_assignable() {
                            return None;
                        }
                        message.set("tool_calls", Json::array(calls));
                    },
                    None => {},
                }
            } else {
                choice.set("message", Json::Null.with("tool_calls", Json::array(calls)));
            }
        }
        let mut choices: Vec<Json> = Vec::new();
        choices.push(choice);
        assert(choices.deep_view() =~= seq![self@.finished_choice()]);
        Some(Ok(self.fields.with("choices", Json::array(choices))))
    }
}

fn copy_json(value: &Option<Json>) -> (r: Option<Json>)
    ensures
        r.deep_view() == value.deep_view(),
{
    match value {
        Some(v) => Some(v.clone()),
        None => None,
    }
}

proof fn initial_is_wf()
    ensures
        ChatView::initial().wf(),
{
    reveal_strlit("message");
    reveal_strlit("logprobs");
    reveal_strlit("finish_reason");
    let message = JsonView::empty().set("role"@, JsonView::text("assistant"@)).set(
        "content"@,
        JsonView::text(""@),
    );
    let first = JsonView::empty().set("message"@, message);
    insert_lookup(JsonView::empty()->Object_0, "message"@, message, "logprobs"@);
    insert_lookup(first->Object_0, "finish_reason"@, JsonView::Null, "logprobs"@);
    assert("message"@.len() != "logprobs"@.len());
    assert("finish_reason"@.len() != "logprobs"@.len());
}

proof fn copied_keeps(
    target: JsonView,
    fields: Fields,
    skip: Seq<char>,
    skip_too: Seq<char>,
    key: Seq<char>,
)
    requires
        target is Object,
        key == skip || key == skip_too,
    ensures
        copied(target, fields, skip, skip_too) is Object,
        copied(target, fields, skip, skip_too).get(key) == target.get(key),
    decreases fields.len(),
{
    if fields.len() > 0 {
        copied_keeps(target, fields.drop_last(), skip, skip_too, key);
        let before = copied(target, fields.drop_last(), skip, skip_too);
        insert_lookup(before->Object_0, fields.last().0, fields.last().1, key);
    }
}

proof fn merged_logprobs_assignable(target: JsonView, fields: Fields)
    requires
        target.assignable(),
    ensures
        merged_logprobs(target, fields).assignable(),
    decreases fields.len(),
{
    if fields.len() > 0 {
        merged_logprobs_assignable(target, fields.drop_last());
    }
}

proof fn with_calls_settled(calls: Seq<(u64, CallPartsView)>, fragments: Seq<JsonView>, n: int)
    requires
        0 <= n <= fragments.len(),
    ensures
        with_calls(calls, fragments.take(n)) is None ==> with_calls(calls, fragments) is None,
        with_calls(calls, fragments.take(n)) matches Some(pushed) ==> pushed.result is Err
            ==> with_calls(calls, fragments) == Some(pushed),
    decreases fragments.len() - n,
{
    if n < fragments.len() {
        assert(fragments.take(n + 1).drop_last() =~= fragments.take(n));
        with_calls_settled(calls, fragments, n + 1);
    } else {
        assert(fragments.take(n) =~= fragments);
    }
}

} // verus!
