//! One frame of a streamed response: what is observed of it, and what it adds.
use crate::error::{seen, Error, ErrorView};
use crate::extension::{ask_event, normalized, ProtocolExtension};
use crate::model::{ModelDelta, ModelDeltaView, Protocol};
use crate::streaming::accumulator::{Accumulator, AccumulatorView, Pushed};
use crate::streaming::frame::{frame_delta, frame_payload, observe};
use crate::transport::sse::{SseEvent, SseEventView};
use vstd::prelude::*;

verus! {

/// What a frame comes to: first the frame as it came in, then what an extension made of it,
/// then what it adds to the response. `data` is the frame's data once it was normalized.
pub open spec fn framed(
    state: AccumulatorView,
    event: SseEventView,
    extra: Seq<ModelDeltaView>,
    data: Seq<char>,
) -> Pushed {
    match state.pushed(data) {
        None => None,
        Some((next, Err(e))) => Some((next, Err(e))),
        Some((next, Ok(deltas))) => Some(
            (
                next,
                Ok(seq![frame_delta(event, frame_payload(event.data))] + extra + deltas),
            ),
        ),
    }
}

/// Takes a frame that was normalized: `original` is the delta of the frame as it came in. The
/// result is none where the event would write into a value that holds no fields, or counts
/// past the last index.
pub fn dispatch_normalized(
    state: &mut Accumulator,
    original: ModelDelta,
    extra: Vec<ModelDelta>,
    data: &str,
) -> (r: Option<Result<Vec<ModelDelta>, Error>>)
    requires
        old(state)@.wf(),
    ensures
        match old(state)@.pushed(data@) {
            None => r is None,
            Some((next, result)) => r is Some && final(state)@ == next && final(state)@.wf()
                && seen(r->0) == (match result {
                Err(e) => Err(e),
                Ok(deltas) => Ok(seq![original@] + extra.deep_view() + deltas),
            }),
        },
{
    match state.push(data) {
        None => None,
        Some(Err(e)) => Some(Err(e)),
        Some(Ok(deltas)) => {
            let ghost first = original@;
            let ghost second = extra.deep_view();
            let ghost third = deltas.deep_view();
            let mut more = extra;
            let mut last = deltas;
            let mut all: Vec<ModelDelta> = Vec::new();
            all.push(original);
            all.append(&mut more);
            all.append(&mut last);
            assert(all.deep_view() =~= seq![first] + second + third);
            Some(Ok(all))
        },
    }
}

/// Whether a result, and the state after it, are what a frame comes to.
pub open spec fn comes_to(
    outcome: Pushed,
    after: AccumulatorView,
    result: Option<Result<Vec<ModelDelta>, Error>>,
) -> bool {
    match outcome {
        None => result is None,
        Some((next, expected)) => result is Some && after == next && seen(result->0) == expected,
    }
}

/// Takes a frame, asking the extension to normalize it where there is one. Where the extension
/// fails, the frame adds nothing. The result is none where the event would write into a value
/// that holds no fields, or counts past the last index.
pub fn dispatch(
    state: &mut Accumulator,
    event: SseEvent,
    protocol: Protocol,
    extension: &mut Option<Box<dyn ProtocolExtension>>,
) -> (r: Option<Result<Vec<ModelDelta>, Error>>)
    requires
        old(state)@.wf(),
    ensures
        *old(extension) is None ==> comes_to(
            framed(old(state)@, event@, Seq::empty(), event.data@),
            final(state)@,
            r,
        ),
        (r matches Some(Err(_)) && final(state)@ == old(state)@) || exists|
            extra: Seq<ModelDeltaView>,
            data: Seq<char>,
        |
            comes_to(
                #[trigger] framed(old(state)@, event@, extra, data),
                final(state)@,
                r,
            ),
        r is Some ==> final(state)@.wf(),
        *final(extension) is Some <==> *old(extension) is Some,
        *old(extension) is Some ==> exists|
            x: &mut dyn ProtocolExtension,
            v: &mut SseEvent,
            outcome: Result<Seq<ModelDeltaView>, ErrorView>,
        |
            {
                &&& #[trigger] normalized(x, protocol, v, outcome)
                &&& *v == event
                &&& &*x == &*(old(extension)->0)
                &&& &*final(x) == &*(final(extension)->0)
                &&& match outcome {
                    Err(e) => r is Some && seen(r->0) == Err::<Seq<ModelDeltaView>, ErrorView>(e)
                        && final(state)@ == old(state)@,
                    Ok(extra) => comes_to(
                        framed(old(state)@, event@, extra, final(v)@.data),
                        final(state)@,
                        r,
                    ),
                }
            },
{
    let ghost given = event@;
    let original = observe(&event);
    let mut event = event;
    let mut extra: Vec<ModelDelta> = Vec::new();
    assert(extra.deep_view() =~= Seq::empty());
    if let Some(hooks) = extension {
        match ask_event(&mut **hooks, protocol, &mut event) {
            Ok(deltas) => {
                extra = deltas;
            },
            Err(e) => return Some(Err(e)),
        }
    }
    let ghost more = extra.deep_view();
    let r = dispatch_normalized(state, original, extra, event.data.as_str());
    assert(comes_to(framed(old(state)@, given, more, event.data@), state@, r));
    r
}

/// Every frame is handed out as it came in, in front of what was made of it: whatever its
/// protocol, and also where an extension changed it.
pub proof fn every_frame_is_handed_out(
    state: AccumulatorView,
    event: SseEventView,
    extra: Seq<ModelDeltaView>,
    data: Seq<char>,
)
    ensures
        framed(state, event, extra, data) matches Some((_, Ok(deltas))) ==> deltas.len() > 0
            && deltas[0] == frame_delta(event, frame_payload(event.data)),
{
}

/// Behind the frame itself stand the deltas of the extensions, and behind them those that the
/// frame adds to the response, each in their order. A frame that is refused hands out nothing.
pub proof fn deltas_follow_their_frame(
    state: AccumulatorView,
    event: SseEventView,
    extra: Seq<ModelDeltaView>,
    data: Seq<char>,
)
    ensures
        match (framed(state, event, extra, data), state.pushed(data)) {
            (Some((next, Ok(deltas))), Some((after, Ok(more)))) => {
                &&& next == after
                &&& deltas.len() == 1 + extra.len() + more.len()
                &&& deltas.subrange(1, 1 + extra.len() as int) == extra
                &&& deltas.skip(1 + extra.len() as int) == more
            },
            (Some((next, Err(e))), Some((after, Err(cause)))) => next == after && e == cause,
            (None, None) => true,
            _ => false,
        },
{
    if let (Some((_, Ok(deltas))), Some((_, Ok(more)))) = (
        framed(state, event, extra, data),
        state.pushed(data),
    ) {
        assert(deltas.subrange(1, 1 + extra.len() as int) =~= extra);
        assert(deltas.skip(1 + extra.len() as int) =~= more);
    }
}

} // verus!
