//! Assembly of a streamed Messages response.
use crate::codec::adapter::{usage, usage_of};
use crate::error::{protocol, seen, Error, ErrorView};
use crate::json::{json_text, Json, JsonView};
use crate::model::{ModelDelta, ModelDeltaView, Protocol};
use crate::slots::{slot_get, slot_put, slot_remove, slot_values, slots_ascend, Slots};
use crate::streaming::fields::{append, appended, overlaid, overlay};
use crate::text::same;
use vstd::prelude::*;

verus! {

/// A Messages response as far as it has come in: its fields, its content blocks and the
/// input text of blocks that is not complete yet, by index, and whether it is complete.
pub struct MessagesView {
    pub value: JsonView,
    pub blocks: Seq<(u64, JsonView)>,
    pub partial: Seq<(u64, Seq<char>)>,
    pub done: bool,
}

pub type Outcome = Option<(MessagesView, Result<Seq<ModelDeltaView>, ErrorView>)>;

pub open spec fn or_zero(n: Option<u64>) -> u64 {
    match n {
        Some(n) => n,
        None => 0,
    }
}

impl MessagesView {
    pub open spec fn initial() -> MessagesView {
        MessagesView {
            value: JsonView::empty().set("content"@, JsonView::Array(Seq::empty())).set(
                "usage"@,
                JsonView::empty(),
            ),
            blocks: Seq::empty(),
            partial: Seq::empty(),
            done: false,
        }
    }

    pub open spec fn wf(self) -> bool {
        slots_ascend(self.blocks) && slots_ascend(self.partial)
    }

    pub open spec fn quiet(self) -> Outcome {
        Some((self, Ok(Seq::empty())))
    }

    pub open spec fn refused(self, message: Seq<char>) -> Outcome {
        Some((self, Err(ErrorView::Protocol(message))))
    }

    pub open spec fn with_block(self, index: u64, block: JsonView) -> MessagesView {
        MessagesView { blocks: slot_put(self.blocks, index, block), ..self }
    }

    pub open spec fn partial_input(self, index: u64) -> Seq<char> {
        match slot_get(self.partial, index) {
            Some(text) => text,
            None => Seq::empty(),
        }
    }

    /// A block begins.
    pub open spec fn block_started(self, index: u64, event: JsonView) -> Outcome {
        match event.get("content_block"@) {
            None => self.refused("missing content block"@),
            Some(block) => if slot_get(self.blocks, index) is Some {
                self.with_block(index, block).refused("duplicate content block"@)
            } else {
                self.with_block(index, block).quiet()
            },
        }
    }

    /// A block with a text appended to one of its fields.
    pub open spec fn block_appended(
        self,
        index: u64,
        key: Seq<char>,
        text: Seq<char>,
        deltas: Seq<ModelDeltaView>,
    ) -> Outcome {
        let block = slot_get(self.blocks, index)->0;
        if block.assignable() {
            Some((self.with_block(index, appended(block, key, text)), Ok(deltas)))
        } else {
            None
        }
    }

    /// A fragment of a block.
    pub open spec fn block_delta(self, index: u64, delta: JsonView) -> Outcome {
        match slot_get(self.blocks, index) {
            None => self.refused("delta before block start"@),
            Some(block) => {
                let kind = delta.str_or_empty("type"@);
                if kind == "text_delta"@ {
                    let text = delta.str_or_empty("text"@);
                    self.block_appended(
                        index,
                        "text"@,
                        text,
                        seq![ModelDeltaView::Text { output_index: index, text }],
                    )
                } else if kind == "thinking_delta"@ {
                    let text = delta.str_or_empty("thinking"@);
                    self.block_appended(
                        index,
                        "thinking"@,
                        text,
                        seq![ModelDeltaView::Reasoning { output_index: index, text }],
                    )
                } else if kind == "signature_delta"@ {
                    self.block_appended(
                        index,
                        "signature"@,
                        delta.str_or_empty("signature"@),
                        Seq::empty(),
                    )
                } else if kind == "input_json_delta"@ {
                    let input = delta.str_or_empty("partial_json"@);
                    Some(
                        (
                            MessagesView {
                                partial: slot_put(
                                    self.partial,
                                    index,
                                    self.partial_input(index) + input,
                                ),
                                ..self
                            },
                            Ok(
                                seq![
                                    ModelDeltaView::RuntimeTool {
                                        output_index: index,
                                        id: block.get_str("id"@),
                                        name: block.get_str("name"@),
                                        input,
                                    },
                                ],
                            ),
                        ),
                    )
                } else {
                    self.quiet()
                }
            },
        }
    }

    /// A block ends whose input came in as text. `input` is what the text reads as.
    pub open spec fn input_completed(
        self,
        index: u64,
        input: Result<JsonView, Seq<char>>,
    ) -> Outcome {
        match slot_get(self.blocks, index) {
            None => self.refused("unknown block stop"@),
            Some(block) => match input {
                Err(message) => self.refused(message),
                Ok(value) => if block.assignable() {
                    self.with_block(index, block.set("input"@, value)).quiet()
                } else {
                    None
                },
            },
        }
    }

    /// A block ends.
    pub open spec fn block_stopped(self, index: u64) -> Outcome {
        match slot_get(self.partial, index) {
            None => self.quiet(),
            Some(text) => MessagesView {
                partial: slot_remove(self.partial, index),
                ..self
            }.input_completed(index, json_text(text)),
        }
    }

    /// Fields of the message.
    pub open spec fn message_delta(self, event: JsonView) -> Outcome {
        let first = match event.get_object("delta"@) {
            Some(fields) => fields,
            None => Seq::empty(),
        };
        if first.len() > 0 && !self.value.assignable() {
            None
        } else {
            let value = overlaid(self.value, first);
            match event.get_object("usage"@) {
                None => MessagesView { value, ..self }.quiet(),
                Some(fields) => if fields.len() == 0 {
                    MessagesView { value, ..self }.counted()
                } else if !value.assignable() || !value.field("usage"@).assignable() {
                    None
                } else {
                    MessagesView {
                        value: value.set("usage"@, overlaid(value.field("usage"@), fields)),
                        ..self
                    }.counted()
                },
            }
        }
    }

    /// The usage so far is reported.
    pub open spec fn counted(self) -> Outcome {
        Some(
            (
                self,
                Ok(
                    seq![
                        ModelDeltaView::Usage(
                            usage_of(Protocol::Messages, self.value.field("usage"@)),
                        ),
                    ],
                ),
            ),
        )
    }

    /// The response after an event, and the deltas or the error. There is none where the
    /// event would write into a value that holds no fields.
    pub open spec fn pushed(self, event: JsonView) -> Outcome {
        let index = or_zero(event.get_u64("index"@));
        let kind = event.str_or_empty("type"@);
        if kind == "message_start"@ {
            match event.get("message"@) {
                None => self.refused("missing streamed message"@),
                Some(value) => MessagesView { value, ..self }.quiet(),
            }
        } else if kind == "content_block_start"@ {
            self.block_started(index, event)
        } else if kind == "content_block_delta"@ {
            self.block_delta(index, event.field("delta"@))
        } else if kind == "content_block_stop"@ {
            self.block_stopped(index)
        } else if kind == "message_delta"@ {
            self.message_delta(event)
        } else if kind == "message_stop"@ {
            MessagesView { done: true, ..self }.quiet()
        } else {
            self.quiet()
        }
    }

    /// The assembled response. There is none where the message holds no fields.
    pub open spec fn finished(self) -> Option<Result<JsonView, ErrorView>> {
        if !self.done || self.partial.len() > 0 {
            Some(Err(ErrorView::Protocol("model stream ended before complete response"@)))
        } else if !self.value.assignable() {
            None
        } else {
            Some(
                Ok(self.value.set("content"@, JsonView::Array(slot_values(self.blocks)))),
            )
        }
    }
}

/// A Messages response while it comes in.
pub struct State {
    value: Json,
    blocks: Slots<Json>,
    partial: Slots<String>,
    done: bool,
}

impl View for State {
    type V = MessagesView;

    closed spec fn view(&self) -> MessagesView {
        MessagesView {
            value: self.value@,
            blocks: self.blocks.deep_view(),
            partial: self.partial.deep_view(),
            done: self.done,
        }
    }
}

/// What an executable step reports, next to what the model says.
pub open spec fn agrees(
    state: MessagesView,
    result: Option<Result<Vec<ModelDelta>, Error>>,
    outcome: Outcome,
) -> bool {
    match outcome {
        None => result is None,
        Some(expected) => result is Some && seen(result->0) == expected.1 && state == expected.0
            && state.wf(),
    }
}

fn nothing() -> (r: Option<Result<Vec<ModelDelta>, Error>>)
    ensures
        r is Some && seen(r->0) == Ok::<Seq<ModelDeltaView>, ErrorView>(Seq::empty()),
{
    let deltas: Vec<ModelDelta> = Vec::new();
    assert(deltas.deep_view() =~= Seq::empty());
    Some(Ok(deltas))
}

fn one(delta: ModelDelta) -> (r: Option<Result<Vec<ModelDelta>, Error>>)
    ensures
        r is Some && seen(r->0) == Ok::<Seq<ModelDeltaView>, ErrorView>(seq![delta@]),
{
    let mut deltas: Vec<ModelDelta> = Vec::new();
    deltas.push(delta);
    assert(deltas.deep_view() =~= seq![delta@]);
    Some(Ok(deltas))
}

fn get_text(value: &Json, key: &str) -> (r: Option<String>)
    ensures
        r.deep_view() == value@.get_str(key@),
{
    match value.get_str(key) {
        Some(s) => Some(s.to_owned()),
        None => None,
    }
}

impl State {
    pub fn new() -> (r: State)
        ensures
            r@ == MessagesView::initial(),
            r@.wf(),
    {
        let content: Vec<Json> = Vec::new();
        assert(content.deep_view() =~= Seq::empty());
        State {
            value: Json::empty().with("content", Json::array(content)).with(
                "usage",
                Json::empty(),
            ),
            blocks: Slots::new(),
            partial: Slots::new(),
            done: false,
        }
    }

    fn start_block(&mut self, index: u64, event: &Json) -> (r: Option<
        Result<Vec<ModelDelta>, Error>,
    >)
        requires
            old(self)@.wf(),
        ensures
            agrees(final(self)@, r, old(self)@.block_started(index, event@)),
    {
        let block = match event.get("content_block") {
            Some(block) => block.clone(),
            None => return Some(Err(protocol("missing content block"))),
        };
        let known = self.blocks.get(index).is_some();
        self.blocks.put(index, block);
        if known {
            return Some(Err(protocol("duplicate content block")));
        }
        nothing()
    }

    /// Appends to a text field of a block; says whether the block holds fields.
    fn append_to_block(&mut self, index: u64, block: Json, key: &str, text: &str) -> (r: bool)
        requires
            old(self)@.wf(),
        ensures
            r == block@.assignable(),
            r ==> final(self)@ == old(self)@.with_block(index, appended(block@, key@, text@)),
            r ==> final(self)@.wf(),
    {
        let mut changed = block;
        if !changed.is_assignable() {
            return false;
        }
        append(&mut changed, key, text);
        self.blocks.put(index, changed);
        true
    }

    fn delta_block(&mut self, index: u64, delta: &Json) -> (r: Option<
        Result<Vec<ModelDelta>, Error>,
    >)
        requires
            old(self)@.wf(),
        ensures
            agrees(final(self)@, r, old(self)@.block_delta(index, delta@)),
    {
        let block = match self.blocks.get(index) {
            Some(block) => block.clone(),
            None => return Some(Err(protocol("delta before block start"))),
        };
        let kind = delta.str_or_empty("type");
        if same(kind, "text_delta") {
            let text = delta.str_or_empty("text");
            if !self.append_to_block(index, block, "text", text) {
                return None;
            }
            one(ModelDelta::Text { output_index: index, text: text.to_owned() })
        } else if same(kind, "thinking_delta") {
            let text = delta.str_or_empty("thinking");
            if !self.append_to_block(index, block, "thinking", text) {
                return None;
            }
            one(ModelDelta::Reasoning { output_index: index, text: text.to_owned() })
        } else if same(kind, "signature_delta") {
            let text = delta.str_or_empty("signature");
            if !self.append_to_block(index, block, "signature", text) {
                return None;
            }
            nothing()
        } else if same(kind, "input_json_delta") {
            let input = delta.str_or_empty("partial_json");
            let mut joined = match self.partial.get(index) {
                Some(text) => text.clone(),
                None => String::new(),
            };
            joined.append(input);
            self.partial.put(index, joined);
            one(
                ModelDelta::RuntimeTool {
                    output_index: index,
                    id: get_text(&block, "id"),
                    name: get_text(&block, "name"),
                    input: input.to_owned(),
                },
            )
        } else {
            nothing()
        }
    }

    /// Ends a block whose input came in as text; `input` is what the text reads as.
    pub fn complete_input(&mut self, index: u64, input: Result<Json, String>) -> (r: Option<
        Result<Vec<ModelDelta>, Error>,
    >)
        requires
            old(self)@.wf(),
        ensures
            agrees(
                final(self)@,
                r,
                old(self)@.input_completed(
                    index,
                    match input {
                        Ok(value) => Ok(value@),
                        Err(message) => Err(message@),
                    },
                ),
            ),
    {
        let mut block = match self.blocks.get(index) {
            Some(block) => block.clone(),
            None => return Some(Err(protocol("unknown block stop"))),
        };
        let value = match input {
            Ok(value) => value,
            Err(message) => return Some(Err(Error::Protocol(message))),
        };
        if !block.is_assignable() {
            return None;
        }
        block.set("input", value);
        self.blocks.put(index, block);
        nothing()
    }

    fn stop_block(&mut self, index: u64) -> (r: Option<Result<Vec<ModelDelta>, Error>>)
        requires
            old(self)@.wf(),
        ensures
            agrees(final(self)@, r, old(self)@.block_stopped(index)),
    {
        if self.partial.get(index).is_none() {
            return nothing();
        }
        match self.partial.remove(index) {
            Some(text) => self.complete_input(index, Json::parse(text.as_str())),
            None => nothing(),
        }
    }

    fn delta_message(&mut self, event: &Json) -> (r: Option<Result<Vec<ModelDelta>, Error>>)
        requires
            old(self)@.wf(),
        ensures
            agrees(final(self)@, r, old(self)@.message_delta(event@)),
    {
        match event.get_object("delta") {
            Some(fields) => {
                assert(fields.deep_view().len() == fields@.len());
                if fields.len() > 0 && !self.value.is_assignable() {
                    return None;
                }
                overlay(&mut self.value, fields);
            },
            None => {
                assert(overlaid(self.value@, Seq::empty()) == self.value@);
            },
        }
        let fields = match event.get_object("usage") {
            Some(fields) => fields,
            None => return nothing(),
        };
        assert(fields.deep_view().len() == fields@.len());
        if fields.len() > 0 {
            if !self.value.is_assignable() {
                return None;
            }
            let mut counts = match self.value.get("usage") {
                Some(counts) => counts.clone(),
                None => Json::Null,
            };
            if !counts.is_assignable() {
                return None;
            }
            overlay(&mut counts, fields);
            self.value.set("usage", counts);
        }
        let counts = match self.value.get("usage") {
            Some(counts) => usage(Protocol::Messages, counts),
            None => usage(Protocol::Messages, &Json::Null),
        };
        one(ModelDelta::Usage(counts))
    }

    /// Takes an event of the stream and hands back its deltas. The result is none where the
    /// event would write into a value that holds no fields; the state is then of no use.
    pub fn push(&mut self, event: &Json) -> (r: Option<Result<Vec<ModelDelta>, Error>>)
        requires
            old(self)@.wf(),
        ensures
            agrees(final(self)@, r, old(self)@.pushed(event@)),
    {
        let index: u64 = match event.get_u64("index") {
            Some(n) => n,
            None => 0,
        };
        let kind = event.str_or_empty("type");
        if same(kind, "message_start") {
            match event.get("message") {
                None => Some(Err(protocol("missing streamed message"))),
                Some(message) => {
                    self.value = message.clone();
                    nothing()
                },
            }
        } else if same(kind, "content_block_start") {
            self.start_block(index, event)
        } else if same(kind, "content_block_delta") {
            match event.get("delta") {
                Some(delta) => self.delta_block(index, delta),
                None => self.delta_block(index, &Json::Null),
            }
        } else if same(kind, "content_block_stop") {
            self.stop_block(index)
        } else if same(kind, "message_delta") {
            self.delta_message(event)
        } else if same(kind, "message_stop") {
            self.done = true;
            nothing()
        } else {
            nothing()
        }
    }

    /// Ends the stream and hands back the assembled response. The result is none where the
    /// message holds no fields.
    pub fn finish(self) -> (r: Option<Result<Json, Error>>)
        requires
            self@.wf(),
        ensures
            r is None <==> self@.finished() is None,
            self@.finished() matches Some(result) ==> seen(r->0) == result,
    {
        if !self.done || self.partial.len() > 0 {
            return Some(Err(protocol("model stream ended before complete response")));
        }
        if !self.value.is_assignable() {
            return None;
        }
        let ghost values = slot_values(self@.blocks);
        let mut content: Vec<Json> = Vec::new();
        let mut i: usize = 0;
        while i < self.blocks.len()
            invariant
                i <= self@.blocks.len(),
                values == slot_values(self@.blocks),
                content.deep_view() =~= values.take(i as int),
            decreases self@.blocks.len() - i,
        {
            let ghost before = content.deep_view();
            let (_, block) = self.blocks.at(i);
            let value = block.clone();
            content.push(value);
            assert(content.deep_view() =~= before.push(value@));
            i += 1;
        }
        assert(values.take(values.len() as int) =~= values);
        Some(Ok(self.value.with("content", Json::array(content))))
    }
}

} // verus!
