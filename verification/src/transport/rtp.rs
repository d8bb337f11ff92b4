//! The timeline of an RTP source.
use crate::error::{protocol, seen, uncertain, Error, ErrorView};
use vstd::prelude::*;

verus! {

/// What is known of a source: its last accepted packet, as source, sequence number and
/// timestamp, and the media clock ticks since the first one.
pub struct Timeline {
    pub last: Option<(u32, u16, u32)>,
    pub ticks: u64,
}

/// How far a sequence number is ahead, counted around.
pub open spec fn ahead(sequence: u16, previous: u16) -> int {
    (sequence - previous) % 0x1_0000
}

/// How much later a timestamp is, counted around.
pub open spec fn later(timestamp: u32, previous: u32) -> int {
    (timestamp - previous) % 0x1_0000_0000
}

impl Timeline {
    /// Whether a packet of the source is late or a duplicate.
    pub open spec fn stale(self, sequence: u16) -> bool {
        self.last matches Some(last) && (ahead(sequence, last.1) == 0 || ahead(sequence, last.1)
            >= 0x8000)
    }

    /// The tick of a packet, none for one that is discarded.
    pub open spec fn accepted(self, ssrc: u32, sequence: u16, timestamp: u32) -> Result<
        Option<u64>,
        ErrorView,
    > {
        match self.last {
            None => Ok(Some(self.ticks)),
            Some(last) => if last.0 != ssrc {
                Err(ErrorView::Uncertain("RTP source changed without a media boundary"@))
            } else if self.stale(sequence) {
                Ok(None)
            } else if later(timestamp, last.2) >= 0x8000_0000 {
                Err(ErrorView::Protocol("RTP timestamp regressed"@))
            } else if self.ticks + later(timestamp, last.2) > u64::MAX {
                Err(ErrorView::Protocol("RTP timestamp overflow"@))
            } else {
                Ok(Some((self.ticks + later(timestamp, last.2)) as u64))
            },
        }
    }

    /// The timeline after a packet. Only an accepted packet moves it.
    pub open spec fn after(self, ssrc: u32, sequence: u16, timestamp: u32) -> Timeline {
        match self.accepted(ssrc, sequence, timestamp) {
            Ok(Some(ticks)) => Timeline { last: Some((ssrc, sequence, timestamp)), ticks },
            _ => self,
        }
    }
}

/// The accepted packets of a single RTP source. Late and duplicate packets are discarded, so
/// that a backwards timestamp does not become a jump of hours. Another source needs another
/// timeline.
pub struct RtpTimeline {
    last: Option<(u32, u16, u32)>,
    ticks: u64,
}

impl View for RtpTimeline {
    type V = Timeline;

    closed spec fn view(&self) -> Timeline {
        Timeline { last: self.last, ticks: self.ticks }
    }
}

impl Default for RtpTimeline {
    fn default() -> (r: RtpTimeline)
        ensures
            r@ == (Timeline { last: None, ticks: 0 }),
    {
        RtpTimeline { last: None, ticks: 0 }
    }
}

impl RtpTimeline {
    /// Takes a packet and hands back its tick, or nothing where it is discarded.
    pub fn accept(&mut self, ssrc: u32, sequence: u16, timestamp: u32) -> (r: Result<
        Option<u64>,
        Error,
    >)
        ensures
            seen(r) == old(self)@.accepted(ssrc, sequence, timestamp),
            final(self)@ == old(self)@.after(ssrc, sequence, timestamp),
    {
        match self.last {
            None => {},
            Some((source, previous_sequence, previous_timestamp)) => {
                if source != ssrc {
                    return Err(uncertain("RTP source changed without a media boundary"));
                }
                let distance: u16 = sequence.wrapping_sub(previous_sequence);
                assert(distance == ahead(sequence, previous_sequence));
                if distance == 0 || distance >= 0x8000 {
                    return Ok(None);
                }
                let elapsed: u32 = timestamp.wrapping_sub(previous_timestamp);
                assert(elapsed == later(timestamp, previous_timestamp));
                if elapsed >= 0x8000_0000 {
                    return Err(protocol("RTP timestamp regressed"));
                }
                match self.ticks.checked_add(elapsed as u64) {
                    Some(ticks) => {
                        self.ticks = ticks;
                    },
                    None => return Err(protocol("RTP timestamp overflow")),
                }
            },
        }
        self.last = Some((ssrc, sequence, timestamp));
        Ok(Some(self.ticks))
    }

    /// The tick of the last accepted packet.
    pub fn ticks(&self) -> (r: u64)
        ensures
            r == self@.ticks,
    {
        self.ticks
    }
}

/// Ticks never go back, whatever packets come.
pub proof fn ticks_never_go_back(timeline: Timeline, ssrc: u32, sequence: u16, timestamp: u32)
    ensures
        timeline.after(ssrc, sequence, timestamp).ticks >= timeline.ticks,
{
}

/// A packet that is late, a duplicate or refused leaves the timeline as it was.
pub proof fn discarded_packets_change_nothing(
    timeline: Timeline,
    ssrc: u32,
    sequence: u16,
    timestamp: u32,
)
    requires
        timeline.last is Some,
        (timeline.last->0).0 != ssrc || timeline.stale(sequence) || later(
            timestamp,
            (timeline.last->0).2,
        ) >= 0x8000_0000,
    ensures
        timeline.after(ssrc, sequence, timestamp) == timeline,
{
}

/// A packet that was accepted is a duplicate from then on.
pub proof fn accepted_packets_become_stale(
    timeline: Timeline,
    ssrc: u32,
    sequence: u16,
    timestamp: u32,
)
    requires
        timeline.accepted(ssrc, sequence, timestamp) matches Ok(Some(_)),
    ensures
        timeline.after(ssrc, sequence, timestamp).accepted(ssrc, sequence, timestamp) == Ok::<
            Option<u64>,
            ErrorView,
        >(None),
{
}

/// Two accepted packets of a source lie as far apart in ticks as their timestamps do.
pub proof fn ticks_follow_timestamps(
    timeline: Timeline,
    ssrc: u32,
    first: (u16, u32),
    second: (u16, u32),
)
    requires
        timeline.accepted(ssrc, first.0, first.1) matches Ok(Some(_)),
        timeline.after(ssrc, first.0, first.1).accepted(ssrc, second.0, second.1) matches Ok(
            Some(_),
        ),
    ensures
        timeline.after(ssrc, first.0, first.1).after(ssrc, second.0, second.1).ticks
            - timeline.after(ssrc, first.0, first.1).ticks == later(second.1, first.1),
{
}

/// A packet as source, sequence number and timestamp.
pub type Packet = (u32, u16, u32);

impl Timeline {
    /// A timeline before its first packet.
    pub open spec fn fresh() -> Timeline {
        Timeline { last: None, ticks: 0 }
    }

    /// The timeline after a run of packets.
    pub open spec fn after_all(self, packets: Seq<Packet>) -> Timeline
        decreases packets.len(),
    {
        if packets.len() == 0 {
            self
        } else {
            let packet = packets.last();
            self.after_all(packets.drop_last()).after(packet.0, packet.1, packet.2)
        }
    }

    /// The packets of a run that are accepted, in order.
    pub open spec fn kept(self, packets: Seq<Packet>) -> Seq<Packet>
        decreases packets.len(),
    {
        if packets.len() == 0 {
            Seq::empty()
        } else {
            let packet = packets.last();
            let before = self.kept(packets.drop_last());
            match self.after_all(packets.drop_last()).accepted(packet.0, packet.1, packet.2) {
                Ok(Some(_)) => before.push(packet),
                _ => before,
            }
        }
    }
}

/// How much later the packets are, each than the one before it, all together.
pub open spec fn elapsed(packets: Seq<Packet>) -> int
    decreases packets.len(),
{
    if packets.len() < 2 {
        0
    } else {
        elapsed(packets.drop_last()) + later(packets.last().2, packets[packets.len() - 2].2)
    }
}

/// Steps around the clock add up.
proof fn later_adds_up(first: u32, middle: u32, last: u32, ticks: int)
    requires
        ticks % 0x1_0000_0000 == later(middle, first),
    ensures
        (ticks + later(last, middle)) % 0x1_0000_0000 == later(last, first),
{
}

/// Over a run of packets a timeline counts just those that it accepted: they are of one
/// source, each ahead of the one before it, and the ticks are how much later each was than
/// the one before. Around the clock that is how much later the last one is than the first.
pub proof fn ticks_count_what_was_kept(packets: Seq<Packet>)
    ensures
        ({
            let timeline = Timeline::fresh().after_all(packets);
            let kept = Timeline::fresh().kept(packets);
            &&& kept.len() == 0 ==> timeline == Timeline::fresh()
            &&& kept.len() > 0 ==> timeline.last == Some(kept.last())
            &&& timeline.ticks == elapsed(kept)
            &&& kept.len() > 0 ==> timeline.ticks as int % 0x1_0000_0000 == later(
                kept.last().2,
                kept[0].2,
            )
            &&& forall|i: int|
                1 <= i < kept.len() ==> (#[trigger] kept[i]).0 == kept[i - 1].0 && 0 < ahead(
                    kept[i].1,
                    kept[i - 1].1,
                ) < 0x8000 && later(kept[i].2, kept[i - 1].2) < 0x8000_0000
        }),
    decreases packets.len(),
{
    if packets.len() > 0 {
        let rest = packets.drop_last();
        let packet = packets.last();
        ticks_count_what_was_kept(rest);
        let before = Timeline::fresh().after_all(rest);
        let kept = Timeline::fresh().kept(rest);
        match before.accepted(packet.0, packet.1, packet.2) {
            Ok(Some(_)) => {
                let all = kept.push(packet);
                assert(all.drop_last() =~= kept);
                assert forall|i: int| 1 <= i < all.len() implies (#[trigger] all[i]).0 == all[i
                    - 1].0 && 0 < ahead(all[i].1, all[i - 1].1) < 0x8000 && later(
                    all[i].2,
                    all[i - 1].2,
                ) < 0x8000_0000 by {
                    if i < kept.len() {
                        assert(all[i] == kept[i]);
                        assert(all[i - 1] == kept[i - 1]);
                    } else {
                        assert(all[i - 1] == kept.last());
                    }
                }
                if kept.len() > 0 {
                    assert(all[all.len() - 2] == kept.last());
                    later_adds_up(kept[0].2, kept.last().2, packet.2, before.ticks as int);
                }
            },
            _ => {},
        }
    }
}

} // verus!
