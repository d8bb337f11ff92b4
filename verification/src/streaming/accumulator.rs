//! One streamed response of any protocol.
use crate::error::{seen, Error, ErrorView};
use crate::json::{json_text, printed, Json, JsonView};
use crate::model::{ModelDelta, ModelDeltaView, Protocol};
use crate::streaming::chat::{self, ChatView};
use crate::streaming::messages::{self, MessagesView};
use crate::streaming::responses::{self, completed_after, event_deltas};
use crate::text::{join, same};
use vstd::prelude::*;

verus! {

/// A response as far as it has come in.
pub enum AccumulatorView {
    Chat(ChatView),
    Responses(Option<JsonView>),
    Messages(MessagesView),
}

pub type Pushed = Option<(AccumulatorView, Result<Seq<ModelDeltaView>, ErrorView>)>;

/// Whether an event reports an error.
pub open spec fn reports_error(event: JsonView) -> bool {
    event.present("error"@) is Some || event.get_str("type"@) == Some("error"@)
}

impl AccumulatorView {
    pub open spec fn initial(protocol: Protocol) -> AccumulatorView {
        match protocol {
            Protocol::Chat => AccumulatorView::Chat(ChatView::initial()),
            Protocol::Responses => AccumulatorView::Responses(None),
            Protocol::Messages => AccumulatorView::Messages(MessagesView::initial()),
        }
    }

    pub open spec fn wf(self) -> bool {
        match self {
            AccumulatorView::Chat(state) => state.wf(),
            AccumulatorView::Responses(_) => true,
            AccumulatorView::Messages(state) => state.wf(),
        }
    }

    /// The end marker of a stream; only the Chat protocol heeds it.
    pub open spec fn marked_done(self) -> AccumulatorView {
        match self {
            AccumulatorView::Chat(state) => AccumulatorView::Chat(
                ChatView { done: true, ..state },
            ),
            _ => self,
        }
    }

    /// The response after an event, and the deltas or the error. There is none where the
    /// event would write into a value that holds no fields, or counts past the last index.
    pub open spec fn accepted(self, event: JsonView) -> Pushed {
        if reports_error(event) {
            Some((self, Err(ErrorView::Protocol(printed(event)))))
        } else {
            match self {
                AccumulatorView::Chat(state) => match state.pushed(event) {
                    Some((next, result)) => Some((AccumulatorView::Chat(next), result)),
                    None => None,
                },
                AccumulatorView::Responses(completed) => Some(
                    (
                        AccumulatorView::Responses(completed_after(completed, event)),
                        event_deltas(event),
                    ),
                ),
                AccumulatorView::Messages(state) => match state.pushed(event) {
                    Some((next, result)) => Some((AccumulatorView::Messages(next), result)),
                    None => None,
                },
            }
        }
    }

    /// The response after the data of a frame.
    pub open spec fn pushed(self, data: Seq<char>) -> Pushed {
        if data == "[DONE]"@ {
            Some((self.marked_done(), Ok(Seq::empty())))
        } else {
            match json_text(data) {
                Err(message) => Some(
                    (self, Err(ErrorView::Protocol("invalid SSE JSON: "@ + message))),
                ),
                Ok(event) => self.accepted(event),
            }
        }
    }

    /// The assembled response.
    pub open spec fn finished(self) -> Option<Result<JsonView, ErrorView>> {
        match self {
            AccumulatorView::Chat(state) => state.finished(),
            AccumulatorView::Responses(completed) => Some(responses::finished(completed)),
            AccumulatorView::Messages(state) => state.finished(),
        }
    }
}

/// A response while it comes in.
pub enum Accumulator {
    Chat(chat::State),
    Responses(responses::State),
    Messages(messages::State),
}

impl View for Accumulator {
    type V = AccumulatorView;

    open spec fn view(&self) -> AccumulatorView {
        match self {
            Accumulator::Chat(state) => AccumulatorView::Chat(state@),
            Accumulator::Responses(state) => AccumulatorView::Responses(state@),
            Accumulator::Messages(state) => AccumulatorView::Messages(state@),
        }
    }
}

/// What an executable step reports, next to what the model says.
pub open spec fn agrees(
    state: AccumulatorView,
    result: Option<Result<Vec<ModelDelta>, Error>>,
    outcome: Pushed,
) -> bool {
    match outcome {
        None => result is None,
        Some(expected) => result is Some && seen(result->0) == expected.1 && state == expected.0
            && state.wf(),
    }
}

impl Accumulator {
    pub fn new(protocol: Protocol) -> (r: Accumulator)
        ensures
            r@ == AccumulatorView::initial(protocol),
            r@.wf(),
    {
        match protocol {
            Protocol::Chat => Accumulator::Chat(chat::State::new()),
            Protocol::Responses => Accumulator::Responses(responses::State::default()),
            Protocol::Messages => Accumulator::Messages(messages::State::new()),
        }
    }

    /// Takes an event of the stream and hands back its deltas. The result is none where the
    /// event would write into a value that holds no fields, or counts past the last index;
    /// the state is then of no use.
    pub fn accept(&mut self, event: &Json) -> (r: Option<Result<Vec<ModelDelta>, Error>>)
        requires
            old(self)@.wf(),
        ensures
            agrees(final(self)@, r, old(self)@.accepted(event@)),
    {
        let failed = event.present("error").is_some() || match event.get_str("type") {
            Some(kind) => same(kind, "error"),
            None => false,
        };
        if failed {
            return Some(Err(Error::Protocol(event.print())));
        }
        match self {
            Accumulator::Chat(state) => state.push(event),
            Accumulator::Responses(state) => Some(state.push(event)),
            Accumulator::Messages(state) => state.push(event),
        }
    }

    /// Takes the data of a frame and hands back its deltas. The result is none where the
    /// event would write into a value that holds no fields, or counts past the last index;
    /// the state is then of no use.
    pub fn push(&mut self, data: &str) -> (r: Option<Result<Vec<ModelDelta>, Error>>)
        requires
            old(self)@.wf(),
        ensures
            agrees(final(self)@, r, old(self)@.pushed(data@)),
    {
        if same(data, "[DONE]") {
            match self {
                Accumulator::Chat(state) => state.done(),
                _ => {},
            }
            let deltas: Vec<ModelDelta> = Vec::new();
            assert(deltas.deep_view() =~= Seq::empty());
            return Some(Ok(deltas));
        }
        match Json::parse(data) {
            Err(message) => Some(
                Err(Error::Protocol(join("invalid SSE JSON: ", message.as_str()))),
            ),
            Ok(event) => self.accept(&event),
        }
    }

    /// Ends the stream and hands back the assembled response.
    pub fn finish(self) -> (r: Option<Result<Json, Error>>)
        requires
            self@.wf(),
        ensures
            r is None <==> self@.finished() is None,
            self@.finished() matches Some(result) ==> seen(r->0) == result,
    {
        match self {
            Accumulator::Chat(state) => state.finish(),
            Accumulator::Responses(state) => Some(state.finish()),
            Accumulator::Messages(state) => state.finish(),
        }
    }
}

/// Whether the end of the response has come in.
pub open spec fn complete(state: AccumulatorView) -> bool {
    match state {
        AccumulatorView::Chat(state) => state.done,
        AccumulatorView::Responses(completed) => completed is Some,
        AccumulatorView::Messages(state) => state.done,
    }
}

/// Whether a frame ends a response of its protocol.
pub open spec fn ends(state: AccumulatorView, data: Seq<char>) -> bool {
    match state {
        AccumulatorView::Chat(_) => data == "[DONE]"@,
        AccumulatorView::Responses(_) => json_text(data) matches Ok(event) && responses::terminal(
            event,
        ) is Some,
        AccumulatorView::Messages(_) => json_text(data) matches Ok(event) && event.str_or_empty(
            "type"@,
        ) == "message_stop"@,
    }
}

/// A response that is not complete does not become so by a frame that does not end it, and
/// what is not complete is never handed out.
pub proof fn only_the_end_completes(state: AccumulatorView, data: Seq<char>)
    requires
        !complete(state),
    ensures
        state.finished() == Some(
            Err::<JsonView, ErrorView>(
                ErrorView::Protocol("model stream ended before complete response"@),
            ),
        ),
        !ends(state, data) ==> (state.pushed(data) matches Some(pushed) ==> !complete(pushed.0)),
{
}

/// Input of a block that has not ended is never handed out: with it open, the end marker
/// completes nothing.
pub proof fn open_input_is_not_handed_out(state: MessagesView)
    requires
        state.partial.len() > 0,
    ensures
        AccumulatorView::Messages(state).finished() == Some(
            Err::<JsonView, ErrorView>(
                ErrorView::Protocol("model stream ended before complete response"@),
            ),
        ),
{
}

} // verus!
