//! Assembly of a streamed Responses response.
use crate::codec::adapter::{usage, usage_of};
use crate::error::{protocol, seen, Error, ErrorView};
use crate::json::{printed, Json, JsonView};
use crate::model::{ModelDelta, ModelDeltaView, Protocol};
use crate::streaming::messages::or_zero;
use crate::text::same;
use vstd::prelude::*;

verus! {

/// The delta of an event, none for an event that has none.
pub open spec fn event_delta(event: JsonView) -> Result<Option<ModelDeltaView>, ErrorView> {
    let index = or_zero(event.get_u64("output_index"@));
    let text = event.str_or_empty("delta"@);
    let kind = event.str_or_empty("type"@);
    if kind == "response.completed"@ || kind == "response.incomplete"@ {
        match event.get("response"@) {
            None => Err(ErrorView::Protocol("terminal response missing full value"@)),
            Some(response) => Ok(
                Some(
                    ModelDeltaView::Usage(
                        usage_of(Protocol::Responses, response.field("usage"@)),
                    ),
                ),
            ),
        }
    } else if kind == "response.failed"@ {
        Err(ErrorView::Protocol(printed(event)))
    } else if kind == "response.output_text.delta"@ {
        Ok(Some(ModelDeltaView::Text { output_index: index, text }))
    } else if kind == "response.reasoning_text.delta"@ || kind
        == "response.reasoning_summary_text.delta"@ {
        Ok(Some(ModelDeltaView::Reasoning { output_index: index, text }))
    } else if kind == "response.function_call_arguments.delta"@ || kind
        == "response.custom_tool_call_input.delta"@ {
        Ok(
            Some(
                ModelDeltaView::RuntimeTool {
                    output_index: index,
                    id: event.get_str("item_id"@),
                    name: None,
                    input: text,
                },
            ),
        )
    } else {
        Ok(None)
    }
}

/// The deltas of an event.
pub open spec fn event_deltas(event: JsonView) -> Result<Seq<ModelDeltaView>, ErrorView> {
    match event_delta(event) {
        Err(e) => Err(e),
        Ok(None) => Ok(Seq::empty()),
        Ok(Some(delta)) => Ok(seq![delta]),
    }
}

/// The response that a terminal event carries.
pub open spec fn terminal(event: JsonView) -> Option<JsonView> {
    let kind = event.str_or_empty("type"@);
    if kind == "response.completed"@ || kind == "response.incomplete"@ {
        event.get("response"@)
    } else {
        None
    }
}

/// The response after an event: what the last terminal event carried.
pub open spec fn completed_after(completed: Option<JsonView>, event: JsonView) -> Option<JsonView> {
    match terminal(event) {
        Some(response) => Some(response),
        None => completed,
    }
}

pub open spec fn finished(completed: Option<JsonView>) -> Result<JsonView, ErrorView> {
    match completed {
        Some(response) => Ok(response),
        None => Err(ErrorView::Protocol("model stream ended before complete response"@)),
    }
}

/// A Responses response while it comes in.
pub struct State {
    completed: Option<Json>,
}

impl View for State {
    type V = Option<JsonView>;

    closed spec fn view(&self) -> Option<JsonView> {
        self.completed.deep_view()
    }
}

impl Default for State {
    fn default() -> (r: State)
        ensures
            r@ is None,
    {
        State { completed: None }
    }
}

impl State {
    /// Takes an event of the stream and hands back its deltas.
    pub fn push(&mut self, event: &Json) -> (r: Result<Vec<ModelDelta>, Error>)
        ensures
            final(self)@ == completed_after(old(self)@, event@),
            seen(r) == event_deltas(event@),
    {
        let index: u64 = match event.get_u64("output_index") {
            Some(n) => n,
            None => 0,
        };
        let text = event.str_or_empty("delta");
        let kind = event.str_or_empty("type");
        let mut deltas: Vec<ModelDelta> = Vec::new();
        if same(kind, "response.completed") || same(kind, "response.incomplete") {
            let response = match event.get("response") {
                Some(response) => response,
                None => return Err(protocol("terminal response missing full value")),
            };
            let counts = match response.get("usage") {
                Some(value) => usage(Protocol::Responses, value),
                None => usage(Protocol::Responses, &Json::Null),
            };
            self.completed = Some(response.clone());
            deltas.push(ModelDelta::Usage(counts));
        } else if same(kind, "response.failed") {
            return Err(Error::Protocol(event.print()));
        } else if same(kind, "response.output_text.delta") {
            deltas.push(ModelDelta::Text { output_index: index, text: text.to_owned() });
        } else if same(kind, "response.reasoning_text.delta") || same(
            kind,
            "response.reasoning_summary_text.delta",
        ) {
            deltas.push(ModelDelta::Reasoning { output_index: index, text: text.to_owned() });
        } else if same(kind, "response.function_call_arguments.delta") || same(
            kind,
            "response.custom_tool_call_input.delta",
        ) {
            let id = match event.get_str("item_id") {
                Some(id) => Some(id.to_owned()),
                None => None,
            };
            deltas.push(
                ModelDelta::RuntimeTool {
                    output_index: index,
                    id,
                    name: None,
                    input: text.to_owned(),
                },
            );
        }
        assert(deltas.deep_view() =~= event_deltas(event@)->Ok_0);
        Ok(deltas)
    }

    /// Ends the stream and hands back the response that it completed.
    pub fn finish(self) -> (r: Result<Json, Error>)
        ensures
            seen(r) == finished(self@),
    {
        match self.completed {
            Some(response) => Ok(response),
            None => Err(protocol("model stream ended before complete response")),
        }
    }
}

} // verus!
