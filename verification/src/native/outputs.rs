//! Bounded output queues: numbered events, and media of the current epoch.
use super::media::MAX_BUFFERED_CHUNKS;
use crate::command::{
    MediaChunk, MediaChunkView, SessionEvent, SessionEventBody, SessionEventBodyView,
    SessionEventView,
};
use crate::error::{protocol, uncertain, Error, ErrorView};
use std::collections::VecDeque;
use vstd::prelude::*;

verus! {

/// A chunk that waits for its consumer. `reserved` tells that its bytes were taken from the
/// budget already, when it came in.
pub struct PendingMediaView {
    pub chunk: MediaChunkView,
    pub reserved: bool,
}

pub struct OutputsView {
    pub events: Seq<SessionEventView>,
    pub media: Seq<PendingMediaView>,
    /// The number of the next event.
    pub sequence: u64,
    pub event_limit: nat,
    pub media_limit: nat,
    pub min_epoch: u64,
    pub ending: bool,
}

/// The bytes of waiting chunks.
pub open spec fn total_bytes(media: Seq<PendingMediaView>) -> nat
    decreases media.len(),
{
    if media.len() == 0 {
        0
    } else {
        total_bytes(media.drop_last()) + media.last().chunk.bytes.len()
    }
}

/// The chunks that belong to an epoch or a later one.
pub open spec fn current(media: Seq<PendingMediaView>, epoch: u64) -> Seq<PendingMediaView> {
    media.filter(|p: PendingMediaView| p.chunk.epoch >= epoch)
}

pub open spec fn saturating(a: nat, b: nat) -> nat {
    if a + b > usize::MAX {
        usize::MAX as nat
    } else {
        a + b
    }
}

impl OutputsView {
    /// The queues of a new session.
    pub open spec fn fresh(
        max_session_events: nat,
        max_control_commands: nat,
        max_buffered_media_bytes: nat,
        epoch: u64,
    ) -> OutputsView {
        OutputsView {
            events: Seq::empty(),
            media: Seq::empty(),
            sequence: 0,
            event_limit: saturating(saturating(max_session_events, max_control_commands), 8),
            media_limit: max_buffered_media_bytes,
            min_epoch: epoch,
            ending: false,
        }
    }

    /// The queues keep to their bounds, and what waits belongs to the current epoch. Event
    /// numbers run on without a gap up to the next one.
    pub open spec fn wf(self) -> bool {
        &&& self.events.len() <= self.event_limit
        &&& self.media.len() <= MAX_BUFFERED_CHUNKS
        &&& total_bytes(self.media) <= self.media_limit
        &&& self.events.len() <= self.sequence
        &&& forall|i: int|
            0 <= i < self.events.len() ==> (#[trigger] self.events[i]).sequence == self.sequence
                - self.events.len() + i
        &&& forall|i: int|
            0 <= i < self.media.len() ==> (#[trigger] self.media[i]).chunk.epoch >= self.min_epoch
    }

    /// An event is numbered and queued.
    pub open spec fn with_event(self, body: SessionEventBodyView) -> Result<
        OutputsView,
        ErrorView,
    > {
        if self.events.len() >= self.event_limit {
            Err(ErrorView::Uncertain("native event capacity exceeded"@))
        } else if self.sequence == u64::MAX {
            Err(ErrorView::Protocol("session event sequence overflow"@))
        } else {
            Ok(
                OutputsView {
                    events: self.events.push(SessionEventView { sequence: self.sequence, body }),
                    sequence: (self.sequence + 1) as u64,
                    ..self
                },
            )
        }
    }

    /// A valid chunk is queued. One of a past epoch is dropped.
    pub open spec fn with_media(self, chunk: MediaChunkView, reserved: bool) -> Result<
        OutputsView,
        ErrorView,
    > {
        if chunk.epoch < self.min_epoch {
            Ok(self)
        } else if self.ending {
            Err(ErrorView::Protocol("media after native output closure"@))
        } else if total_bytes(self.media) + chunk.bytes.len() > self.media_limit
            || self.media.len() >= MAX_BUFFERED_CHUNKS {
            Err(ErrorView::Uncertain("native media capacity exceeded"@))
        } else {
            Ok(OutputsView { media: self.media.push(PendingMediaView { chunk, reserved }), ..self })
        }
    }

    /// An epoch begins: what belongs to an earlier one is dropped. The epoch never goes back.
    pub open spec fn from_epoch(self, epoch: u64) -> OutputsView {
        OutputsView {
            media: current(self.media, epoch),
            min_epoch: if epoch > self.min_epoch {
                epoch
            } else {
                self.min_epoch
            },
            ..self
        }
    }

    pub open spec fn busy(self) -> bool {
        self.events.len() > 0 || self.media.len() > 0
    }

    /// Whether the media output is closed: it is once all media before the end was handed out.
    pub open spec fn media_closed(self) -> bool {
        self.ending && self.media.len() == 0
    }
}

struct PendingMedia {
    chunk: MediaChunk,
    reserved: bool,
}

impl DeepView for PendingMedia {
    type V = PendingMediaView;

    closed spec fn deep_view(&self) -> PendingMediaView {
        PendingMediaView { chunk: self.chunk@, reserved: self.reserved }
    }
}

/// The output queues of a session.
pub struct Outputs {
    events: VecDeque<SessionEvent>,
    media: VecDeque<PendingMedia>,
    sequence: u64,
    event_limit: usize,
    media_limit: usize,
    media_bytes: usize,
    min_epoch: u64,
    ending: bool,
}

impl View for Outputs {
    type V = OutputsView;

    closed spec fn view(&self) -> OutputsView {
        OutputsView {
            events: self.events.deep_view(),
            media: self.media.deep_view(),
            sequence: self.sequence,
            event_limit: self.event_limit as nat,
            media_limit: self.media_limit as nat,
            min_epoch: self.min_epoch,
            ending: self.ending,
        }
    }
}

/// A sequence is a first part followed by a last one.
proof fn total_bytes_adds(a: Seq<PendingMediaView>, b: Seq<PendingMediaView>)
    ensures
        total_bytes(a + b) == total_bytes(a) + total_bytes(b),
    decreases b.len(),
{
    if b.len() == 0 {
        assert(a + b =~= a);
    } else {
        assert((a + b).drop_last() =~= a + b.drop_last());
        assert((a + b).last() == b.last());
        total_bytes_adds(a, b.drop_last());
    }
}

proof fn total_bytes_without_first(media: Seq<PendingMediaView>)
    requires
        media.len() > 0,
    ensures
        total_bytes(media) == media[0].chunk.bytes.len() + total_bytes(media.drop_first()),
{
    let first = seq![media[0]];
    assert(first + media.drop_first() =~= media);
    total_bytes_adds(first, media.drop_first());
    assert(first.drop_last() =~= Seq::empty());
    assert(total_bytes(first) == total_bytes(first.drop_last()) + first.last().chunk.bytes.len());
}

proof fn current_step(media: Seq<PendingMediaView>, epoch: u64, n: int)
    requires
        0 <= n < media.len(),
    ensures
        current(media.take(n + 1), epoch) == (if media[n].chunk.epoch >= epoch {
            current(media.take(n), epoch).push(media[n])
        } else {
            current(media.take(n), epoch)
        }),
{
    reveal(Seq::filter);
    assert(media.take(n + 1).drop_last() =~= media.take(n));
}

proof fn current_is_smaller(media: Seq<PendingMediaView>, epoch: u64)
    ensures
        total_bytes(current(media, epoch)) <= total_bytes(media),
        current(media, epoch).len() <= media.len(),
        forall|i: int|
            0 <= i < current(media, epoch).len() ==> (#[trigger] current(
                media,
                epoch,
            )[i]).chunk.epoch >= epoch && media.contains(current(media, epoch)[i]),
    decreases media.len(),
{
    reveal(Seq::filter);
    if media.len() > 0 {
        let shorter = media.drop_last();
        current_is_smaller(shorter, epoch);
        let pred = |p: PendingMediaView| p.chunk.epoch >= epoch;
        assert(current(media, epoch) == (if pred(media.last()) {
            current(shorter, epoch).push(media.last())
        } else {
            current(shorter, epoch)
        }));
        assert forall|i: int| 0 <= i < current(media, epoch).len() implies (#[trigger] current(
            media,
            epoch,
        )[i]).chunk.epoch >= epoch && media.contains(current(media, epoch)[i]) by {
            if i < current(shorter, epoch).len() {
                let x = current(shorter, epoch)[i];
                assert(current(media, epoch)[i] == x);
                assert(shorter.contains(x));
                let j = choose|j: int| 0 <= j < shorter.len() && shorter[j] == x;
                assert(media[j] == x);
            } else {
                assert(media[media.len() - 1] == media.last());
            }
        }
        if pred(media.last()) {
            assert(current(media, epoch).drop_last() =~= current(shorter, epoch));
        }
    }
}

impl Outputs {
    /// The queues keep to their bounds, and their bytes are counted.
    pub closed spec fn wf(&self) -> bool {
        &&& self@.wf()
        &&& self.media_bytes == total_bytes(self@.media)
    }

    pub fn new(
        max_session_events: usize,
        max_control_commands: usize,
        max_buffered_media_bytes: usize,
        epoch: u64,
    ) -> (r: Outputs)
        ensures
            r.wf(),
            r@ == OutputsView::fresh(
                max_session_events as nat,
                max_control_commands as nat,
                max_buffered_media_bytes as nat,
                epoch,
            ),
    {
        let events: VecDeque<SessionEvent> = VecDeque::new();
        let media: VecDeque<PendingMedia> = VecDeque::new();
        assert(events.deep_view() =~= Seq::empty());
        assert(media.deep_view() =~= Seq::empty());
        Outputs {
            events,
            media,
            sequence: 0,
            event_limit: max_session_events.saturating_add(max_control_commands).saturating_add(8),
            media_limit: max_buffered_media_bytes,
            media_bytes: 0,
            min_epoch: epoch,
            ending: false,
        }
    }

    /// Numbers an event and queues it.
    pub fn event(&mut self, body: SessionEventBody) -> (r: Result<(), Error>)
        requires
            old(self).wf(),
        ensures
            final(self).wf(),
            match old(self)@.with_event(body@) {
                Ok(next) => r is Ok && final(self)@ == next,
                Err(e) => r is Err && r->Err_0@ == e && final(self)@ == old(self)@,
            },
    {
        if self.events.len() >= self.event_limit {
            return Err(uncertain("native event capacity exceeded"));
        }
        let sequence = self.sequence;
        match sequence.checked_add(1) {
            Some(next) => {
                self.sequence = next;
            },
            None => return Err(protocol("session event sequence overflow")),
        }
        let event = SessionEvent { sequence, body };
        let ghost seen = event@;
        let ghost before = self.events.deep_view();
        self.events.push_back(event);
        assert(self.events.deep_view() =~= before.push(seen));
        Ok(())
    }

    /// Queues a chunk; `valid` is what its own validation said of it.
    pub fn queue_media(&mut self, chunk: MediaChunk, reserved: bool, valid: Result<(), Error>) -> (r:
        Result<(), Error>)
        requires
            old(self).wf(),
        ensures
            final(self).wf(),
            match valid {
                Err(e) => r is Err && r->Err_0@ == e@ && final(self)@ == old(self)@,
                Ok(_) => match old(self)@.with_media(chunk@, reserved) {
                    Ok(next) => r is Ok && final(self)@ == next,
                    Err(e) => r is Err && r->Err_0@ == e && final(self)@ == old(self)@,
                },
            },
    {
        valid?;
        if chunk.epoch < self.min_epoch {
            return Ok(());
        }
        if self.ending {
            return Err(protocol("media after native output closure"));
        }
        let size = chunk.bytes.len();
        if size > self.media_limit - self.media_bytes || self.media.len() >= MAX_BUFFERED_CHUNKS {
            return Err(uncertain("native media capacity exceeded"));
        }
        self.media_bytes = self.media_bytes + size;
        let packet = PendingMedia { chunk, reserved };
        let ghost seen = packet.deep_view();
        let ghost before = self.media.deep_view();
        self.media.push_back(packet);
        proof {
            assert(self.media.deep_view() =~= before.push(seen));
            assert(before.push(seen).drop_last() =~= before);
        }
        Ok(())
    }

    /// Drops what belongs to an epoch before this one.
    pub fn invalidate_before(&mut self, epoch: u64)
        requires
            old(self).wf(),
        ensures
            final(self).wf(),
            final(self)@ == old(self)@.from_epoch(epoch),
    {
        let ghost all = self.media.deep_view();
        let mut kept: VecDeque<PendingMedia> = VecDeque::new();
        let mut bytes: usize = 0;
        let n = self.media.len();
        let mut i: usize = 0;
        assert(all.take(0) =~= Seq::empty());
        assert(kept.deep_view() =~= Seq::empty());
        assert(self.media.deep_view() =~= all.skip(0));
        proof {
            reveal(Seq::filter);
        }
        while i < n
            invariant
                i <= n,
                n == all.len(),
                self.media.deep_view() == all.skip(i as int),
                kept.deep_view() == current(all.take(i as int), epoch),
                bytes == total_bytes(kept.deep_view()),
                total_bytes(all) <= usize::MAX,
                self.events == old(self).events,
                self.sequence == old(self).sequence,
                self.event_limit == old(self).event_limit,
                self.media_limit == old(self).media_limit,
                self.min_epoch == old(self).min_epoch,
                self.ending == old(self).ending,
            decreases n - i,
        {
            let ghost before = kept.deep_view();
            let ghost rest = self.media.deep_view();
            assert(self.media@.len() == rest.len());
            assert(rest[0] == self.media@[0].deep_view());
            match self.media.pop_front() {
                Some(packet) => {
                    proof {
                        assert(packet.deep_view() == all[i as int]);
                        assert(self.media.deep_view() =~= rest.drop_first());
                        assert(rest.drop_first() =~= all.skip(i + 1));
                        current_step(all, epoch, i as int);
                        current_is_smaller(all.take(i + 1), epoch);
                        assert(all.take(i + 1) + all.skip(i + 1) =~= all);
                        total_bytes_adds(all.take(i + 1), all.skip(i + 1));
                    }
                    if packet.chunk.epoch >= epoch {
                        let ghost seen = packet.deep_view();
                        proof {
                            assert(before.push(seen).drop_last() =~= before);
                            assert(total_bytes(before.push(seen)) == total_bytes(before)
                                + seen.chunk.bytes.len());
                        }
                        bytes = bytes + packet.chunk.bytes.len();
                        kept.push_back(packet);
                        assert(kept.deep_view() =~= before.push(seen));
                    }
                },
                None => {},
            }
            i += 1;
        }
        self.media = kept;
        self.media_bytes = bytes;
        if epoch > self.min_epoch {
            self.min_epoch = epoch;
        }
        proof {
            assert(all.take(n as int) =~= all);
            current_is_smaller(all, epoch);
            let media = current(all, epoch);
            assert forall|k: int| 0 <= k < media.len() implies (#[trigger] media[k]).chunk.epoch
                >= self.min_epoch by {
                assert(all.contains(media[k]));
            }
        }
    }

    /// No media comes after this.
    pub fn end_media(&mut self)
        requires
            old(self).wf(),
        ensures
            final(self).wf(),
            final(self)@ == (OutputsView { ending: true, ..old(self)@ }),
    {
        self.ending = true;
    }

    pub fn pending(&self) -> (r: bool)
        ensures
            r == self@.busy(),
    {
        self.events.len() > 0 || self.media.len() > 0
    }

    pub fn events_pending(&self) -> (r: bool)
        ensures
            r == (self@.events.len() > 0),
    {
        self.events.len() > 0
    }

    /// Whether more may be read from the wire: everything read so far was handed on.
    pub fn can_receive(&self) -> (r: bool)
        ensures
            r == !self@.busy(),
    {
        !self.pending()
    }

    /// Whether a command may be taken. Room is kept for the events it leads to.
    pub fn commands_allowed(&self, headroom: usize) -> (r: bool)
        ensures
            r == (self@.events.len() + headroom < self@.event_limit),
    {
        self.events.len() < self.event_limit.saturating_sub(headroom)
    }

    pub fn can_receive_media(&self) -> (r: bool)
        ensures
            r == (self@.media.len() == 0),
    {
        self.media.len() == 0
    }

    pub fn min_epoch(&self) -> (r: u64)
        ensures
            r == self@.min_epoch,
    {
        self.min_epoch
    }

    pub fn media_closed(&self) -> (r: bool)
        ensures
            r == self@.media_closed(),
    {
        self.ending && self.media.len() == 0
    }

    /// The bytes that must be reserved before the first chunk is handed out: none where its
    /// reservation came with it.
    pub fn wanted(&self) -> (r: Option<usize>)
        ensures
            match r {
                Some(n) => self@.media.len() > 0 && !self@.media[0].reserved && n
                    == self@.media[0].chunk.bytes.len(),
                None => self@.media.len() == 0 || self@.media[0].reserved,
            },
    {
        if self.media.len() == 0 {
            return None;
        }
        let packet = &self.media[0];
        assert(self@.media[0] == packet.deep_view());
        if packet.reserved {
            None
        } else {
            Some(packet.chunk.bytes.len())
        }
    }

    /// Hands out the first event.
    pub fn flush_event(&mut self) -> (r: Option<SessionEvent>)
        requires
            old(self).wf(),
        ensures
            final(self).wf(),
            match r {
                Some(event) => old(self)@.events.len() > 0 && event@ == old(self)@.events[0]
                    && final(self)@ == (OutputsView {
                    events: old(self)@.events.drop_first(),
                    ..old(self)@
                }),
                None => old(self)@.events.len() == 0 && final(self)@ == old(self)@,
            },
    {
        let ghost before = self.events.deep_view();
        let ghost raw = self.events@;
        let event = self.events.pop_front();
        proof {
            if before.len() > 0 {
                assert(self.events.deep_view() =~= before.drop_first());
                assert(before[0] == raw[0].deep_view());
            }
        }
        event
    }

    /// Hands out the first chunk.
    pub fn flush_media(&mut self) -> (r: Option<MediaChunk>)
        requires
            old(self).wf(),
        ensures
            final(self).wf(),
            match r {
                Some(chunk) => old(self)@.media.len() > 0 && chunk@ == old(self)@.media[0].chunk
                    && final(self)@ == (OutputsView {
                    media: old(self)@.media.drop_first(),
                    ..old(self)@
                }),
                None => old(self)@.media.len() == 0 && final(self)@ == old(self)@,
            },
    {
        let ghost before = self.media.deep_view();
        let ghost raw = self.media@;
        match self.media.pop_front() {
            Some(packet) => {
                proof {
                    assert(self.media.deep_view() =~= before.drop_first());
                    assert(before[0] == raw[0].deep_view());
                    total_bytes_without_first(before);
                }
                self.media_bytes = self.media_bytes - packet.chunk.bytes.len();
                Some(packet.chunk)
            },
            None => None,
        }
    }

    /// Hands out all events that wait, in order, as a session ends.
    pub fn settle(&mut self) -> (r: VecDeque<SessionEvent>)
        requires
            old(self).wf(),
        ensures
            final(self).wf(),
            r.deep_view() == old(self)@.events,
            final(self)@ == (OutputsView { events: Seq::empty(), ..old(self)@ }),
    {
        let mut events: VecDeque<SessionEvent> = VecDeque::new();
        std::mem::swap(&mut events, &mut self.events);
        assert(self.events.deep_view() =~= Seq::empty());
        events
    }
}

/// Whether a chunk still belongs to the output: an interruption may have begun an epoch
/// after it was queued.
pub fn deliverable(chunk: &MediaChunk, min_epoch: u64) -> (r: bool)
    ensures
        r == (chunk@.epoch >= min_epoch),
{
    chunk.epoch >= min_epoch
}

/// Events are numbered without a gap, in the order in which they were queued.
pub proof fn events_are_contiguous(
    outputs: OutputsView,
    first: SessionEventBodyView,
    second: SessionEventBodyView,
)
    requires
        outputs.with_event(first) is Ok,
        outputs.with_event(first)->Ok_0.with_event(second) is Ok,
    ensures
        ({
            let events = outputs.with_event(first)->Ok_0.with_event(second)->Ok_0.events;
            let n = outputs.events.len() as int;
            &&& events.len() == n + 2
            &&& events[n] == (SessionEventView { sequence: outputs.sequence, body: first })
            &&& events[n + 1] == (SessionEventView {
                sequence: (outputs.sequence + 1) as u64,
                body: second,
            })
        }),
{
}

/// After an interruption nothing of an earlier epoch waits, and nothing of it is queued.
pub proof fn past_epochs_are_gone(
    outputs: OutputsView,
    epoch: u64,
    chunk: MediaChunkView,
    reserved: bool,
)
    requires
        outputs.wf(),
    ensures
        outputs.from_epoch(epoch).wf(),
        outputs.from_epoch(epoch).min_epoch >= epoch,
        chunk.epoch < epoch ==> outputs.from_epoch(epoch).with_media(chunk, reserved) == Ok::<
            OutputsView,
            ErrorView,
        >(outputs.from_epoch(epoch)),
{
    current_is_smaller(outputs.media, epoch);
    let media = current(outputs.media, epoch);
    assert forall|k: int| 0 <= k < media.len() implies (#[trigger] media[k]).chunk.epoch
        >= outputs.from_epoch(epoch).min_epoch by {
        assert(outputs.media.contains(media[k]));
    }
}

/// No queue outgrows its bound, whatever is queued.
pub proof fn queues_stay_bounded(
    outputs: OutputsView,
    body: SessionEventBodyView,
    chunk: MediaChunkView,
    reserved: bool,
)
    requires
        outputs.wf(),
    ensures
        outputs.with_event(body) matches Ok(next) ==> next.wf(),
        outputs.with_media(chunk, reserved) matches Ok(next) ==> next.wf(),
{
    let next = outputs.media.push(PendingMediaView { chunk, reserved });
    assert(next.drop_last() =~= outputs.media);
}

/// What is queued stands behind all that waits: an event under the next number, and a chunk
/// that does not belong to a past epoch. It is taken where there is room for it.
pub proof fn what_is_queued_stands_last(
    outputs: OutputsView,
    body: SessionEventBodyView,
    chunk: MediaChunkView,
    reserved: bool,
)
    ensures
        match outputs.with_event(body) {
            Ok(next) => {
                &&& next.events.len() == outputs.events.len() + 1
                &&& next.events.drop_last() == outputs.events
                &&& next.events.last().body == body
                &&& next.events.last().sequence == outputs.sequence
                &&& next.media == outputs.media
            },
            Err(_) => outputs.events.len() >= outputs.event_limit || outputs.sequence == u64::MAX,
        },
        chunk.epoch >= outputs.min_epoch ==> match outputs.with_media(chunk, reserved) {
            Ok(next) => {
                &&& next.media.len() == outputs.media.len() + 1
                &&& next.media.drop_last() == outputs.media
                &&& next.media.last().chunk == chunk
                &&& next.media.last().reserved == reserved
                &&& next.events == outputs.events
            },
            Err(_) => outputs.ending || total_bytes(outputs.media) + chunk.bytes.len()
                > outputs.media_limit || outputs.media.len() >= MAX_BUFFERED_CHUNKS,
        },
{
    if let Ok(next) = outputs.with_event(body) {
        assert(next.events.drop_last() =~= outputs.events);
    }
    if let Ok(next) = outputs.with_media(chunk, reserved) {
        if next.media.len() > outputs.media.len() {
            assert(next.media.drop_last() =~= outputs.media);
        }
    }
}

/// An interruption drops what belongs to an earlier epoch, and nothing else.
pub proof fn only_the_past_is_dropped(
    outputs: OutputsView,
    epoch: u64,
    pending: PendingMediaView,
)
    ensures
        outputs.from_epoch(epoch).media.contains(pending) <==> outputs.media.contains(pending)
            && pending.chunk.epoch >= epoch,
        outputs.from_epoch(epoch).events == outputs.events,
{
    current_chunks(outputs.media, epoch, pending);
}

proof fn current_chunks(media: Seq<PendingMediaView>, epoch: u64, pending: PendingMediaView)
    ensures
        current(media, epoch).contains(pending) <==> media.contains(pending) && pending.chunk.epoch
            >= epoch,
    decreases media.len(),
{
    reveal(Seq::filter);
    if media.len() > 0 {
        let front = media.drop_last();
        let left = current(front, epoch);
        current_chunks(front, epoch, pending);
        if media.contains(pending) {
            let j = choose|j: int| 0 <= j < media.len() && media[j] == pending;
            if j < front.len() {
                assert(front[j] == pending);
            }
        }
        if front.contains(pending) {
            let j = choose|j: int| 0 <= j < front.len() && front[j] == pending;
            assert(media[j] == pending);
        }
        assert(media[media.len() - 1] == media.last());
        if media.last().chunk.epoch >= epoch {
            let all = left.push(media.last());
            assert(current(media, epoch) == all);
            assert(all[left.len() as int] == media.last());
            if all.contains(pending) {
                let j = choose|j: int| 0 <= j < all.len() && all[j] == pending;
                if j < left.len() {
                    assert(left[j] == pending);
                }
            }
            if left.contains(pending) {
                let j = choose|j: int| 0 <= j < left.len() && left[j] == pending;
                assert(all[j] == pending);
            }
        } else {
            assert(current(media, epoch) == left);
        }
    }
}

} // verus!
