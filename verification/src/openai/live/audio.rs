//! Live audio: one Opus packet per chunk, on the timeline of its RTP source.
use crate::command::{MediaChunk, MediaChunkView};
use crate::error::{checked, invalid, protocol, seen, Error, ErrorView};
use crate::text::same;
use crate::transport::rtp::{RtpTimeline, Timeline};
use crate::transport::webrtc::{AudioCodec, AudioPacket};
use vstd::prelude::*;

verus! {

/// The ticks of the media clock in a second.
pub const CLOCK_RATE: u32 = 48000;

/// The media type of Live audio, in and out.
pub open spec fn audio_type() -> Seq<char> {
    "audio/opus;rate=48000;channels=2"@
}

/// The codec that Live audio is sent and received with.
pub fn codec() -> (r: AudioCodec)
    ensures
        r.mime_type@ == "audio/opus"@,
        r.clock_rate == CLOCK_RATE,
        r.channels == 2,
        r.fmtp@ == "minptime=10;useinbandfec=1"@,
        r.payload_type == 111,
{
    AudioCodec {
        mime_type: "audio/opus".to_owned(),
        clock_rate: CLOCK_RATE,
        channels: 2,
        fmtp: "minptime=10;useinbandfec=1".to_owned(),
        payload_type: 111,
    }
}

// ---------------------------------------------------------------------------------------
// Durations
// ---------------------------------------------------------------------------------------
/// The microseconds of one frame, by the configuration in a packet's first byte.
pub open spec fn frame_micros(config: int) -> int {
    if config >= 16 {
        // 2.5, 5, 10 and 20 milliseconds.
        if config % 4 == 0 {
            2500
        } else if config % 4 == 1 {
            5000
        } else if config % 4 == 2 {
            10000
        } else {
            20000
        }
    } else if config >= 12 {
        if config % 2 == 0 {
            10000
        } else {
            20000
        }
    } else {
        if config % 4 == 0 {
            10000
        } else if config % 4 == 1 {
            20000
        } else if config % 4 == 2 {
            40000
        } else {
            60000
        }
    }
}

/// The number of frames in a packet, by its first two bytes.
pub open spec fn frame_count(packet: Seq<u8>) -> Result<int, ErrorView> {
    let code = packet[0] as int % 4;
    if code == 0 {
        Ok(1)
    } else if code == 1 || code == 2 {
        Ok(2)
    } else if packet.len() < 2 {
        Err(ErrorView::Invalid("truncated Opus TOC"@))
    } else {
        Ok(packet[1] as int % 64)
    }
}

/// The microseconds of sound in an Opus packet, by its table of contents.
pub open spec fn packet_micros(packet: Seq<u8>) -> Result<u64, ErrorView> {
    if packet.len() == 0 {
        Err(ErrorView::Invalid("empty Opus packet"@))
    } else {
        match frame_count(packet) {
            Err(e) => Err(e),
            Ok(count) => {
                let micros = frame_micros(packet[0] as int / 8) * count;
                if count == 0 || micros > 120000 {
                    Err(ErrorView::Invalid("invalid Opus duration"@))
                } else {
                    Ok(micros as u64)
                }
            },
        }
    }
}

fn one_frame(config: u8) -> (r: u64)
    ensures
        r == frame_micros(config as int),
        2500 <= r <= 60000,
{
    if config >= 16 {
        if config % 4 == 0 {
            2500
        } else if config % 4 == 1 {
            5000
        } else if config % 4 == 2 {
            10000
        } else {
            20000
        }
    } else if config >= 12 {
        if config % 2 == 0 {
            10000
        } else {
            20000
        }
    } else {
        if config % 4 == 0 {
            10000
        } else if config % 4 == 1 {
            20000
        } else if config % 4 == 2 {
            40000
        } else {
            60000
        }
    }
}

/// The microseconds of sound in an Opus packet. They come from the packet alone, never from
/// the time at which it came in.
pub fn opus_duration(packet: &[u8]) -> (r: Result<u64, Error>)
    ensures
        match packet_micros(packet@) {
            Ok(micros) => r is Ok && r->Ok_0 == micros,
            Err(e) => r is Err && r->Err_0@ == e,
        },
{
    if packet.len() == 0 {
        return Err(invalid("empty Opus packet"));
    }
    let toc: u8 = packet[0];
    let micros: u64 = one_frame(toc / 8);
    let code: u8 = toc % 4;
    let frames: u64 = if code == 0 {
        1
    } else if code == 1 || code == 2 {
        2
    } else {
        if packet.len() < 2 {
            return Err(invalid("truncated Opus TOC"));
        }
        (packet[1] % 64) as u64
    };
    assert(micros * frames <= 60000 * 63) by (nonlinear_arith)
        requires
            micros <= 60000,
            frames <= 63,
    ;
    if frames == 0 || micros * frames > 120000 {
        return Err(invalid("invalid Opus duration"));
    }
    Ok(micros * frames)
}

/// A packet plays for at least one short frame, and for no longer than 120 milliseconds.
pub proof fn durations_are_bounded(packet: Seq<u8>)
    ensures
        packet_micros(packet) matches Ok(micros) ==> 2500 <= micros <= 120000,
{
    if packet_micros(packet) is Ok {
        let count = frame_count(packet)->Ok_0;
        let micros = frame_micros(packet[0] as int / 8);
        assert(micros * count >= 2500) by (nonlinear_arith)
            requires
                micros >= 2500,
                count >= 1,
        ;
    }
}

// ---------------------------------------------------------------------------------------
// Streams
// ---------------------------------------------------------------------------------------
/// The microseconds of a number of ticks, where they can be counted.
pub open spec fn tick_micros(ticks: u64) -> u64 {
    if ticks * 1_000_000 > u64::MAX {
        (u64::MAX / 48000) as u64
    } else {
        (ticks * 1_000_000 / 48000) as u64
    }
}

fn micros_of(ticks: u64) -> (r: u64)
    ensures
        r == tick_micros(ticks),
{
    match ticks.checked_mul(1_000_000) {
        Some(product) => product / 48000,
        None => u64::MAX / 48000,
    }
}

/// The audio of a conversation: one stream, its chunks numbered.
pub struct AudioView {
    pub timeline: Timeline,
    pub sequence: u64,
    pub epoch: u64,
    /// The most bytes that a chunk may hold.
    pub limit: nat,
}

impl AudioView {
    pub open spec fn chunk(self, turn: Seq<char>, ticks: u64, bytes: Seq<u8>, end: bool) -> MediaChunkView {
        MediaChunkView {
            stream_id: "live-audio"@,
            turn_id: turn,
            epoch: self.epoch,
            sequence: self.sequence,
            timestamp_us: tick_micros(ticks),
            media_type: audio_type(),
            bytes,
            end,
        }
    }

    /// A packet comes in: late and duplicate ones are discarded.
    pub open spec fn received(self, turn: Seq<char>, packet: AudioPacket) -> (
        AudioView,
        Result<Option<MediaChunkView>, ErrorView>,
    ) {
        let timeline = self.timeline.after(packet.ssrc, packet.sequence, packet.timestamp);
        let next = AudioView { timeline, ..self };
        match self.timeline.accepted(packet.ssrc, packet.sequence, packet.timestamp) {
            Err(e) => (next, Err(e)),
            Ok(None) => (next, Ok(None)),
            Ok(Some(ticks)) => if self.sequence == u64::MAX {
                (next, Err(ErrorView::Protocol("audio sequence overflow"@)))
            } else {
                (
                    AudioView { sequence: (self.sequence + 1) as u64, ..next },
                    Ok(Some(self.chunk(turn, ticks, packet.payload@, false))),
                )
            },
        }
    }

    /// The marker that ends the stream, where anything was received.
    pub open spec fn end_marker(self, turn: Seq<char>) -> Option<MediaChunkView> {
        if self.sequence > 0 {
            Some(self.chunk(turn, self.timeline.ticks, Seq::empty(), true))
        } else {
            None
        }
    }
}

/// How long a chunk of input plays, where it is one and holds sound.
pub open spec fn input_micros(
    turn: Seq<char>,
    chunk: MediaChunkView,
    valid: Result<(), ErrorView>,
) -> Result<Option<u64>, ErrorView> {
    if valid is Err {
        Err(valid->Err_0)
    } else if chunk.media_type != audio_type() || chunk.epoch != 0 || turn != chunk.turn_id {
        Err(ErrorView::Invalid("Live requires current-turn Opus input with epoch zero"@))
    } else if chunk.bytes.len() == 0 {
        Ok(None)
    } else {
        match packet_micros(chunk.bytes) {
            Ok(micros) => Ok(Some(micros)),
            Err(e) => Err(e),
        }
    }
}

/// The audio of a conversation.
pub struct Audio {
    timeline: RtpTimeline,
    sequence: u64,
    epoch: u64,
    limit: usize,
}

impl View for Audio {
    type V = AudioView;

    closed spec fn view(&self) -> AudioView {
        AudioView {
            timeline: self.timeline@,
            sequence: self.sequence,
            epoch: self.epoch,
            limit: self.limit as nat,
        }
    }
}

impl Audio {
    pub fn new(epoch: u64, limit: usize) -> (r: Audio)
        ensures
            r@ == (AudioView {
                timeline: Timeline { last: None, ticks: 0 },
                sequence: 0,
                epoch,
                limit: limit as nat,
            }),
    {
        Audio { timeline: RtpTimeline::default(), sequence: 0, epoch, limit }
    }

    /// The most bytes that a chunk may hold.
    pub fn limit(&self) -> (r: usize)
        ensures
            r == self@.limit,
    {
        self.limit
    }

    /// Takes a received packet and hands back its chunk, or nothing where it is discarded.
    pub fn receive(&mut self, turn: &str, packet: AudioPacket) -> (r: Result<
        Option<MediaChunk>,
        Error,
    >)
        ensures
            (final(self)@, seen(r)) == old(self)@.received(turn@, packet),
    {
        let ticks = match self.timeline.accept(packet.ssrc, packet.sequence, packet.timestamp)? {
            Some(ticks) => ticks,
            None => return Ok(None),
        };
        let sequence = self.sequence;
        match sequence.checked_add(1) {
            Some(next) => {
                self.sequence = next;
            },
            None => return Err(protocol("audio sequence overflow")),
        }
        Ok(
            Some(
                MediaChunk {
                    stream_id: "live-audio".to_owned(),
                    turn_id: turn.to_owned(),
                    epoch: self.epoch,
                    sequence,
                    timestamp_us: micros_of(ticks),
                    media_type: "audio/opus;rate=48000;channels=2".to_owned(),
                    bytes: packet.payload,
                    end: false,
                },
            ),
        )
    }

    /// The marker that ends the stream, where anything was received.
    pub fn finish(&self, turn: &str) -> (r: Option<MediaChunk>)
        ensures
            r.deep_view() == self@.end_marker(turn@),
    {
        if self.sequence == 0 {
            return None;
        }
        let bytes: Vec<u8> = Vec::new();
        assert(bytes@ =~= Seq::empty());
        Some(
            MediaChunk {
                stream_id: "live-audio".to_owned(),
                turn_id: turn.to_owned(),
                epoch: self.epoch,
                sequence: self.sequence,
                timestamp_us: micros_of(self.timeline.ticks()),
                media_type: "audio/opus;rate=48000;channels=2".to_owned(),
                bytes,
                end: true,
            },
        )
    }
}

/// How long a chunk of input plays; `valid` is what its own validation said of it.
pub fn input(turn: &str, chunk: &MediaChunk, valid: Result<(), Error>) -> (r: Result<
    Option<u64>,
    Error,
>)
    ensures
        match input_micros(turn@, chunk@, checked(valid)) {
            Ok(micros) => r is Ok && r->Ok_0 == micros,
            Err(e) => r is Err && r->Err_0@ == e,
        },
{
    valid?;
    if !same(chunk.media_type.as_str(), "audio/opus;rate=48000;channels=2") || chunk.epoch != 0
        || !same(turn, chunk.turn_id.as_str()) {
        return Err(invalid("Live requires current-turn Opus input with epoch zero"));
    }
    if chunk.bytes.len() == 0 {
        return Ok(None);
    }
    match opus_duration(chunk.bytes.as_slice()) {
        Ok(micros) => Ok(Some(micros)),
        Err(e) => Err(e),
    }
}

/// Chunks that come out are numbered without a gap, whatever was discarded between them, and
/// the end marker takes the next number.
pub proof fn chunks_are_contiguous(audio: AudioView, turn: Seq<char>, packet: AudioPacket)
    ensures
        ({
            let (next, r) = audio.received(turn, packet);
            &&& r matches Ok(Some(chunk)) ==> chunk.sequence == audio.sequence && next.sequence
                == audio.sequence + 1
            &&& !(r matches Ok(Some(_))) ==> next.sequence == audio.sequence
            &&& audio.end_marker(turn) matches Some(end) ==> end.sequence == audio.sequence
                && end.end
        }),
{
}

impl AudioView {
    /// The audio after a run of packets of one turn, and all chunks of it. There is none where
    /// a packet is refused.
    pub open spec fn received_all(self, turn: Seq<char>, packets: Seq<AudioPacket>) -> Option<
        (AudioView, Seq<MediaChunkView>),
    >
        decreases packets.len(),
    {
        if packets.len() == 0 {
            Some((self, Seq::empty()))
        } else {
            match self.received_all(turn, packets.drop_last()) {
                None => None,
                Some((before, chunks)) => match before.received(turn, packets.last()) {
                    (_, Err(_)) => None,
                    (next, Ok(Some(chunk))) => Some((next, chunks.push(chunk))),
                    (next, Ok(None)) => Some((next, chunks)),
                },
            }
        }
    }
}

/// Over any run of packets the chunks that come out are numbered without a gap, and the end
/// marker takes the number behind the last of them.
pub proof fn audio_is_numbered_over_a_run(
    audio: AudioView,
    turn: Seq<char>,
    packets: Seq<AudioPacket>,
)
    ensures
        audio.received_all(turn, packets) matches Some((next, chunks)) ==> {
            &&& next.sequence == audio.sequence + chunks.len()
            &&& forall|i: int|
                0 <= i < chunks.len() ==> (#[trigger] chunks[i]).sequence == audio.sequence + i
            &&& next.end_marker(turn) matches Some(end) ==> end.sequence == audio.sequence
                + chunks.len()
        },
    decreases packets.len(),
{
    if packets.len() > 0 {
        audio_is_numbered_over_a_run(audio, turn, packets.drop_last());
        match audio.received_all(turn, packets.drop_last()) {
            Some((before, _)) => {
                chunks_are_contiguous(before, turn, packets.last());
            },
            None => {},
        }
    }
}

/// A packet that is not late comes out as a chunk with its bytes, under its turn and in the
/// current epoch, and the end of the stream as one without bytes.
pub proof fn packets_are_handed_on(audio: AudioView, turn: Seq<char>, packet: AudioPacket)
    ensures
        audio.received(turn, packet).1 matches Ok(Some(chunk)) ==> {
            &&& chunk.bytes == packet.payload@
            &&& chunk.turn_id == turn
            &&& chunk.epoch == audio.epoch
            &&& !chunk.end
            &&& audio.timeline.accepted(packet.ssrc, packet.sequence, packet.timestamp)
                matches Ok(Some(ticks)) && chunk.timestamp_us == tick_micros(ticks)
        },
        audio.received(turn, packet).0.epoch == audio.epoch,
        audio.end_marker(turn) matches Some(end) ==> end.bytes.len() == 0 && end.turn_id == turn
            && end.end,
        audio.end_marker(turn) is Some <==> audio.sequence > 0,
{
}

/// The clock counts 48 ticks in a thousand microseconds.
pub proof fn ticks_are_counted(n: u64)
    requires
        n <= 384_000_000_000,
    ensures
        tick_micros((48 * n) as u64) == 1000 * n,
{
    assert(48 * n * 1_000_000 <= u64::MAX);
    assert((48 * n * 1_000_000) / 48000 == 1000 * n);
}

/// How long the frames of an Opus packet last follows from its configuration: from 2.5
/// milliseconds on, each twice the one before, in the upper half; 10 and 20 in the four below
/// it; and 10, 20, 40 and 60 in the rest.
pub proof fn frames_last_as_configured(config: int)
    requires
        0 <= config < 32,
    ensures
        config >= 16 && config % 4 == 0 ==> frame_micros(config) == 2500,
        config >= 16 && config % 4 != 3 ==> frame_micros(config + 1) == 2 * frame_micros(config),
        12 <= config < 16 ==> frame_micros(config) == 10000 * (1 + config % 2),
        config < 12 && config % 4 < 2 ==> frame_micros(config) == 10000 * (1 + config % 4),
        config < 12 && config % 4 >= 2 ==> frame_micros(config) == 20000 * (config % 4),
{
}

/// A packet lasts as long as its frames: one, two, or as many as its second byte says, and no
/// longer than 120 milliseconds.
pub proof fn packets_last_as_long_as_their_frames(packet: Seq<u8>, count: int)
    requires
        packet.len() > 0,
        packet[0] as int % 4 == 0 ==> count == 1,
        packet[0] as int % 4 == 1 || packet[0] as int % 4 == 2 ==> count == 2,
        packet[0] as int % 4 == 3 ==> packet.len() > 1 && count == packet[1] as int % 64,
    ensures
        match packet_micros(packet) {
            Ok(micros) => micros == count * frame_micros(packet[0] as int / 8) && 0 < micros
                <= 120000,
            Err(_) => count == 0 || count * frame_micros(packet[0] as int / 8) > 120000,
        },
{
    let each = frame_micros(packet[0] as int / 8);
    assert(each * count == count * each) by (nonlinear_arith);
    assert(count > 0 && each > 0 ==> count * each > 0) by (nonlinear_arith);
}

} // verus!
