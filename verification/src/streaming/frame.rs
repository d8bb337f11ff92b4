//! The delta that every wire frame is observable by.
use crate::json::{json_text, Json, JsonView};
use crate::model::{ModelDelta, ModelDeltaView};
use crate::streaming::messages::or_zero;
use crate::transport::sse::{SseEvent, SseEventView};
use vstd::prelude::*;

verus! {

/// The payload of a frame: its data as JSON where it reads as such, else as text.
pub open spec fn frame_payload(data: Seq<char>) -> JsonView {
    match json_text(data) {
        Ok(value) => value,
        Err(_) => JsonView::text(data),
    }
}

/// The output that a payload belongs to.
pub open spec fn frame_index(payload: JsonView) -> u64 {
    or_zero(
        match payload.get("output_index"@) {
            Some(value) => value.as_u64(),
            None => payload.get_u64("index"@),
        },
    )
}

pub open spec fn optional_text(text: Option<Seq<char>>) -> JsonView {
    match text {
        Some(s) => JsonView::text(s),
        None => JsonView::Null,
    }
}

/// A frame with all its fields.
pub open spec fn frame_delta(event: SseEventView, payload: JsonView) -> ModelDeltaView {
    ModelDeltaView::ProtocolEvent {
        output_index: frame_index(payload),
        data: JsonView::empty().set("event"@, optional_text(event.event)).set(
            "id"@,
            optional_text(event.id),
        ).set(
            "retry"@,
            match event.retry {
                Some(n) => JsonView::uint(n),
                None => JsonView::Null,
            },
        ).set("data"@, payload),
    }
}

fn text_or_null(text: &Option<String>) -> (r: Json)
    ensures
        r@ == optional_text(text.deep_view()),
{
    match text {
        Some(s) => Json::text(s.as_str()),
        None => Json::Null,
    }
}

/// The delta of a frame whose payload was read.
pub fn protocol_event(event: &SseEvent, payload: Json) -> (r: ModelDelta)
    ensures
        r@ == frame_delta(event@, payload@),
{
    let index = match payload.get("output_index") {
        Some(value) => value.as_u64(),
        None => payload.get_u64("index"),
    };
    let retry = match event.retry {
        Some(n) => Json::uint(n),
        None => Json::Null,
    };
    ModelDelta::ProtocolEvent {
        output_index: match index {
            Some(n) => n,
            None => 0,
        },
        data: Json::empty().with("event", text_or_null(&event.event)).with(
            "id",
            text_or_null(&event.id),
        ).with("retry", retry).with("data", payload),
    }
}

/// The delta that a frame is observable by, before anything normalizes it.
pub fn observe(event: &SseEvent) -> (r: ModelDelta)
    ensures
        r@ == frame_delta(event@, frame_payload(event.data@)),
{
    let payload = match Json::parse(event.data.as_str()) {
        Ok(value) => value,
        Err(_) => Json::text(event.data.as_str()),
    };
    protocol_event(event, payload)
}

} // verus!
