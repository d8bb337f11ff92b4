//! MiniMax audio: sentences as streams of chunks, decoded as they come in.
use crate::command::{MediaChunk, MediaChunkView};
use crate::error::{Error, ErrorView};
use crate::text::{decimal, join, number};
use vstd::prelude::*;
use vstd::utf8::encode_utf8;

verus! {

pub open spec fn failure(message: Seq<char>) -> ErrorView {
    ErrorView::Protocol("MiniMax TTS: "@ + message)
}

pub fn protocol(message: &str) -> (r: Error)
    ensures
        r@ == failure(message@),
{
    Error::Protocol(join("MiniMax TTS: ", message))
}

// ---------------------------------------------------------------------------------------
// Hexadecimal
// ---------------------------------------------------------------------------------------
/// The value of a hexadecimal digit in either case.
pub open spec fn hex_value(byte: u8) -> Option<int> {
    if 48 <= byte <= 57 {
        Some(byte - 48)
    } else if 65 <= byte <= 70 {
        Some(byte - 55)
    } else if 97 <= byte <= 102 {
        Some(byte - 87)
    } else {
        None
    }
}

pub open spec fn all_hex(bytes: Seq<u8>) -> bool {
    forall|i: int| 0 <= i < bytes.len() ==> hex_value(#[trigger] bytes[i]) is Some
}

/// The bytes that pairs of hexadecimal digits write.
pub open spec fn unhex(bytes: Seq<u8>) -> Seq<u8> {
    Seq::new(
        bytes.len() / 2,
        |i: int|
            (16 * hex_value(bytes[2 * i])->0 + hex_value(bytes[2 * i + 1])->0) as u8,
    )
}

/// The audio that a text holds in hexadecimal, up to a number of bytes.
pub open spec fn audio_bytes(text: Seq<char>, limit: nat) -> Result<Seq<u8>, ErrorView> {
    let bytes = encode_utf8(text);
    if bytes.len() % 2 != 0 || bytes.len() / 2 > limit {
        Err(failure("invalid audio length"@))
    } else if !all_hex(bytes) {
        Err(failure("invalid audio hex"@))
    } else {
        Ok(unhex(bytes))
    }
}

fn digit(byte: u8) -> (r: Option<u8>)
    ensures
        match r {
            Some(d) => d < 16 && hex_value(byte) == Some(d as int),
            None => hex_value(byte) is None,
        },
{
    if 48 <= byte && byte <= 57 {
        Some(byte - 48)
    } else if 65 <= byte && byte <= 70 {
        Some(byte - 55)
    } else if 97 <= byte && byte <= 102 {
        Some(byte - 87)
    } else {
        None
    }
}

/// Decodes audio from hexadecimal text.
pub fn decode_audio(text: &str, limit: usize) -> (r: Result<Vec<u8>, Error>)
    ensures
        match audio_bytes(text@, limit as nat) {
            Ok(bytes) => r is Ok && r->Ok_0@ == bytes,
            Err(e) => r is Err && r->Err_0@ == e,
        },
{
    let bytes = text.as_bytes();
    let n = bytes.len();
    if n % 2 != 0 || n / 2 > limit {
        return Err(protocol("invalid audio length"));
    }
    let mut out: Vec<u8> = Vec::new();
    let mut i: usize = 0;
    while i < n / 2
        invariant
            n == bytes@.len(),
            n % 2 == 0,
            n / 2 <= limit,
            bytes@ == encode_utf8(text@),
            i <= n / 2,
            out@.len() == i,
            forall|j: int| 0 <= j < 2 * i ==> hex_value(#[trigger] bytes@[j]) is Some,
            forall|j: int| 0 <= j < i ==> out@[j] == #[trigger] unhex(bytes@)[j],
        decreases n / 2 - i,
    {
        let high = match digit(bytes[2 * i]) {
            Some(d) => d,
            None => {
                assert(!all_hex(bytes@)) by {
                    assert(hex_value(bytes@[2 * i as int]) is None);
                }
                return Err(protocol("invalid audio hex"));
            },
        };
        let low = match digit(bytes[2 * i + 1]) {
            Some(d) => d,
            None => {
                assert(!all_hex(bytes@)) by {
                    assert(hex_value(bytes@[2 * i as int + 1]) is None);
                }
                return Err(protocol("invalid audio hex"));
            },
        };
        out.push(high * 16 + low);
        i += 1;
    }
    assert(all_hex(bytes@));
    assert(out@ =~= unhex(bytes@));
    Ok(out)
}

// ---------------------------------------------------------------------------------------
// Sentences
// ---------------------------------------------------------------------------------------
/// The audio of a session: each sentence is a stream of its own, its chunks are numbered,
/// and an interruption begins a new epoch.
pub struct AudioView {
    pub epoch: u64,
    pub sentence: u64,
    pub sequence: u64,
    pub open: bool,
    pub limit: nat,
    pub media_type: Seq<char>,
}

impl AudioView {
    /// A sentence begins.
    pub open spec fn started(self) -> Result<AudioView, ErrorView> {
        if self.open {
            Err(failure("sentence started before previous sentence ended"@))
        } else if self.sentence == u64::MAX {
            Err(failure("sentence counter overflow"@))
        } else {
            Ok(
                AudioView {
                    sentence: (self.sentence + 1) as u64,
                    sequence: 0,
                    open: true,
                    ..self
                },
            )
        }
    }

    /// An interruption. What is left of the sentence belongs to the past.
    pub open spec fn cancelled(self, epoch: u64) -> Result<AudioView, ErrorView> {
        if epoch <= self.epoch {
            Err(failure("interrupt must advance the kernel output epoch"@))
        } else {
            Ok(AudioView { epoch, open: false, sequence: 0, ..self })
        }
    }

    pub open spec fn chunk(self, turn: Seq<char>, bytes: Seq<u8>, end: bool, now: u64) -> MediaChunkView {
        MediaChunkView {
            stream_id: "minimax-tts:"@ + decimal(self.sentence as nat),
            turn_id: turn,
            epoch: self.epoch,
            sequence: self.sequence,
            timestamp_us: now,
            media_type: self.media_type,
            bytes,
            end,
        }
    }

    pub open spec fn counted(self) -> AudioView {
        AudioView { sequence: (self.sequence + 1) as u64, ..self }
    }

    /// Audio comes in.
    pub open spec fn pushed(self, turn: Seq<char>, hex: Seq<char>, now: u64) -> Result<
        (AudioView, MediaChunkView),
        ErrorView,
    > {
        if !self.open {
            Err(failure("audio outside a sentence"@))
        } else {
            match audio_bytes(hex, self.limit) {
                Err(e) => Err(e),
                Ok(bytes) => if self.sequence == u64::MAX {
                    Err(failure("audio sequence overflow"@))
                } else {
                    Ok((self.counted(), self.chunk(turn, bytes, false, now)))
                },
            }
        }
    }

    /// A sentence ends.
    pub open spec fn ended(self, turn: Seq<char>, now: u64) -> Result<
        (AudioView, MediaChunkView),
        ErrorView,
    > {
        if !self.open {
            Err(failure("sentence ended without an open sentence"@))
        } else if self.sequence == u64::MAX {
            Err(failure("audio sequence overflow"@))
        } else {
            Ok(
                (
                    AudioView { open: false, ..self.counted() },
                    self.chunk(turn, Seq::empty(), true, now),
                ),
            )
        }
    }

    pub open spec fn finished(self) -> Result<(), ErrorView> {
        if self.open {
            Err(failure("task finished before sentence_end"@))
        } else {
            Ok(())
        }
    }
}

/// The audio of a session.
pub struct Audio {
    epoch: u64,
    sentence: u64,
    sequence: u64,
    open: bool,
    limit: usize,
    media_type: String,
}

impl View for Audio {
    type V = AudioView;

    closed spec fn view(&self) -> AudioView {
        AudioView {
            epoch: self.epoch,
            sentence: self.sentence,
            sequence: self.sequence,
            open: self.open,
            limit: self.limit as nat,
            media_type: self.media_type@,
        }
    }
}

impl Audio {
    pub fn new(epoch: u64, limit: usize, media_type: String) -> (r: Audio)
        ensures
            r@ == (AudioView {
                epoch,
                sentence: 0,
                sequence: 0,
                open: false,
                limit: limit as nat,
                media_type: media_type@,
            }),
    {
        Audio { epoch, sentence: 0, sequence: 0, open: false, limit, media_type }
    }

    /// Begins a sentence.
    pub fn start(&mut self) -> (r: Result<(), Error>)
        ensures
            match old(self)@.started() {
                Ok(next) => r is Ok && final(self)@ == next,
                Err(e) => r is Err && r->Err_0@ == e && final(self)@ == old(self)@,
            },
    {
        if self.open {
            return Err(protocol("sentence started before previous sentence ended"));
        }
        match self.sentence.checked_add(1) {
            Some(sentence) => {
                self.sentence = sentence;
            },
            None => return Err(protocol("sentence counter overflow")),
        }
        self.sequence = 0;
        self.open = true;
        Ok(())
    }

    /// Whether an interruption may begin this epoch.
    pub fn validate_epoch(&self, epoch: u64) -> (r: Result<(), Error>)
        ensures
            match self@.cancelled(epoch) {
                Ok(_) => r is Ok,
                Err(e) => r is Err && r->Err_0@ == e,
            },
    {
        if epoch <= self.epoch {
            return Err(protocol("interrupt must advance the kernel output epoch"));
        }
        Ok(())
    }

    /// Begins an epoch.
    pub fn cancel(&mut self, epoch: u64) -> (r: Result<(), Error>)
        ensures
            match old(self)@.cancelled(epoch) {
                Ok(next) => r is Ok && final(self)@ == next,
                Err(e) => r is Err && r->Err_0@ == e && final(self)@ == old(self)@,
            },
    {
        self.validate_epoch(epoch)?;
        self.epoch = epoch;
        self.open = false;
        self.sequence = 0;
        Ok(())
    }

    fn make_chunk(&mut self, turn: &str, bytes: Vec<u8>, end: bool, now: u64) -> (r: Result<
        MediaChunk,
        Error,
    >)
        ensures
            old(self)@.sequence == u64::MAX ==> r is Err && r->Err_0@ == failure(
                "audio sequence overflow"@,
            ) && final(self)@ == old(self)@,
            old(self)@.sequence < u64::MAX ==> r is Ok && r->Ok_0@ == old(self)@.chunk(
                turn@,
                bytes@,
                end,
                now,
            ) && final(self)@ == old(self)@.counted(),
    {
        let sequence = self.sequence;
        match sequence.checked_add(1) {
            Some(next) => {
                self.sequence = next;
            },
            None => return Err(protocol("audio sequence overflow")),
        }
        let sentence = number(self.sentence);
        Ok(
            MediaChunk {
                stream_id: join("minimax-tts:", sentence.as_str()),
                turn_id: turn.to_owned(),
                epoch: self.epoch,
                sequence,
                timestamp_us: now,
                media_type: self.media_type.clone(),
                bytes,
                end,
            },
        )
    }

    /// Takes audio of the open sentence; `now` counts microseconds of the session.
    pub fn push(&mut self, turn: &str, hex: &str, now: u64) -> (r: Result<MediaChunk, Error>)
        ensures
            match old(self)@.pushed(turn@, hex@, now) {
                Ok(next) => r is Ok && r->Ok_0@ == next.1 && final(self)@ == next.0,
                Err(e) => r is Err && r->Err_0@ == e && final(self)@ == old(self)@,
            },
    {
        if !self.open {
            return Err(protocol("audio outside a sentence"));
        }
        let bytes = decode_audio(hex, self.limit)?;
        self.make_chunk(turn, bytes, false, now)
    }

    /// Ends the open sentence.
    pub fn end(&mut self, turn: &str, now: u64) -> (r: Result<MediaChunk, Error>)
        ensures
            match old(self)@.ended(turn@, now) {
                Ok(next) => r is Ok && r->Ok_0@ == next.1 && final(self)@ == next.0,
                Err(e) => r is Err && r->Err_0@ == e && final(self)@ == old(self)@,
            },
    {
        if !self.open {
            return Err(protocol("sentence ended without an open sentence"));
        }
        let bytes: Vec<u8> = Vec::new();
        assert(bytes@ =~= Seq::empty());
        let chunk = self.make_chunk(turn, bytes, true, now)?;
        self.open = false;
        Ok(chunk)
    }

    /// Whether the task may end here.
    pub fn finish(&self) -> (r: Result<(), Error>)
        ensures
            match self@.finished() {
                Ok(_) => r is Ok,
                Err(e) => r is Err && r->Err_0@ == e,
            },
    {
        if self.open {
            return Err(protocol("task finished before sentence_end"));
        }
        Ok(())
    }
}

/// Chunks of one sentence are numbered without a gap, and share stream and epoch.
pub proof fn chunks_of_a_sentence_are_contiguous(
    audio: AudioView,
    turn: Seq<char>,
    first: Seq<char>,
    second: Seq<char>,
    now: u64,
    then: u64,
)
    requires
        audio.pushed(turn, first, now) is Ok,
        audio.pushed(turn, first, now)->Ok_0.0.pushed(turn, second, then) is Ok,
    ensures
        ({
            let (next, a) = audio.pushed(turn, first, now)->Ok_0;
            let (_, b) = next.pushed(turn, second, then)->Ok_0;
            b.sequence == a.sequence + 1 && b.stream_id == a.stream_id && b.epoch == a.epoch
        }),
{
}

/// An interruption never reuses an epoch: audio after it is told from audio before it.
pub proof fn epochs_only_advance(audio: AudioView, epoch: u64)
    ensures
        audio.cancelled(epoch) matches Ok(next) ==> next.epoch > audio.epoch && !next.open,
{
}

/// What the audio of a session is told.
pub enum AudioStep {
    Start,
    Push { turn: Seq<char>, hex: Seq<char>, now: u64 },
    End { turn: Seq<char>, now: u64 },
    Cancel { epoch: u64 },
}

impl AudioView {
    /// The audio after a step, and the chunk that comes out of it. There is none where the
    /// step is refused.
    pub open spec fn stepped(self, step: AudioStep) -> Option<(AudioView, Option<MediaChunkView>)> {
        match step {
            AudioStep::Start => match self.started() {
                Ok(next) => Some((next, None)),
                Err(_) => None,
            },
            AudioStep::Push { turn, hex, now } => match self.pushed(turn, hex, now) {
                Ok((next, chunk)) => Some((next, Some(chunk))),
                Err(_) => None,
            },
            AudioStep::End { turn, now } => match self.ended(turn, now) {
                Ok((next, chunk)) => Some((next, Some(chunk))),
                Err(_) => None,
            },
            AudioStep::Cancel { epoch } => match self.cancelled(epoch) {
                Ok(next) => Some((next, None)),
                Err(_) => None,
            },
        }
    }

    /// The audio after a run of steps, and all chunks of it.
    pub open spec fn ran(self, steps: Seq<AudioStep>) -> Option<(AudioView, Seq<MediaChunkView>)>
        decreases steps.len(),
    {
        if steps.len() == 0 {
            Some((self, Seq::empty()))
        } else {
            match self.ran(steps.drop_last()) {
                None => None,
                Some((before, chunks)) => match before.stepped(steps.last()) {
                    None => None,
                    Some((next, Some(chunk))) => Some((next, chunks.push(chunk))),
                    Some((next, None)) => Some((next, chunks)),
                },
            }
        }
    }
}

/// Whether a chunk follows the one before it: in its sentence, or as the first of a later one.
pub open spec fn follows(chunks: Seq<MediaChunkView>, sentences: Seq<u64>, i: int) -> bool {
    if sentences[i] == sentences[i - 1] {
        &&& chunks[i].sequence == chunks[i - 1].sequence + 1
        &&& chunks[i].epoch == chunks[i - 1].epoch
        &&& !chunks[i - 1].end
    } else {
        sentences[i - 1] < sentences[i] && chunks[i].sequence == 0
    }
}

/// Whether chunks are numbered, given the sentence of each: the chunks of a sentence from
/// zero on without a gap, in one epoch and up to its end; sentences in ascending order.
pub open spec fn numbered(chunks: Seq<MediaChunkView>, sentences: Seq<u64>) -> bool {
    &&& sentences.len() == chunks.len()
    &&& forall|i: int|
        0 <= i < chunks.len() ==> (#[trigger] chunks[i]).stream_id == "minimax-tts:"@ + decimal(
            sentences[i] as nat,
        )
    &&& chunks.len() > 0 ==> chunks[0].sequence == 0
    &&& forall|i: int| 1 <= i < chunks.len() ==> #[trigger] follows(chunks, sentences, i)
}

/// Where the audio stands behind the chunks that came out.
spec fn stands_behind(
    audio: AudioView,
    chunks: Seq<MediaChunkView>,
    sentences: Seq<u64>,
) -> bool {
    let last = chunks.last();
    let current = chunks.len() > 0 && sentences.last() == audio.sentence;
    &&& chunks.len() > 0 ==> sentences.last() <= audio.sentence
    &&& audio.open && current ==> audio.sequence == last.sequence + 1 && !last.end && last.epoch
        == audio.epoch
    &&& audio.open && !current ==> audio.sequence == 0
}

spec fn in_step(audio: AudioView, chunks: Seq<MediaChunkView>) -> bool {
    exists|sentences: Seq<u64>| #[trigger]
        numbered(chunks, sentences) && stands_behind(audio, chunks, sentences)
}

proof fn run_is_numbered(audio: AudioView, steps: Seq<AudioStep>)
    requires
        !audio.open,
    ensures
        audio.ran(steps) matches Some((next, chunks)) ==> in_step(next, chunks),
    decreases steps.len(),
{
    if steps.len() == 0 {
        let none = Seq::<MediaChunkView>::empty();
        assert(numbered(none, Seq::empty()));
        assert(stands_behind(audio, none, Seq::empty()));
        assert(in_step(audio, none));
    } else {
        run_is_numbered(audio, steps.drop_last());
        match audio.ran(steps.drop_last()) {
            Some((before, chunks)) => {
                let sentences = choose|sentences: Seq<u64>| #[trigger]
                    numbered(chunks, sentences) && stands_behind(before, chunks, sentences);
                match before.stepped(steps.last()) {
                    Some((next, Some(chunk))) => {
                        let all = chunks.push(chunk);
                        let more = sentences.push(before.sentence);
                        assert forall|i: int| 0 <= i < all.len() implies (
                        #[trigger] all[i]).stream_id == "minimax-tts:"@ + decimal(
                            more[i] as nat,
                        ) by {
                            if i < chunks.len() {
                                assert(all[i] == chunks[i]);
                            }
                        }
                        assert forall|i: int| 1 <= i < all.len() implies #[trigger] follows(
                            all,
                            more,
                            i,
                        ) by {
                            if i < chunks.len() {
                                assert(follows(chunks, sentences, i));
                            } else {
                                assert(all[i - 1] == chunks.last());
                                assert(more[i - 1] == sentences.last());
                            }
                        }
                        assert(all[0].sequence == 0) by {
                            if chunks.len() > 0 {
                                assert(all[0] == chunks[0]);
                            }
                        }
                        assert(numbered(all, more));
                        assert(stands_behind(next, all, more));
                        assert(in_step(next, all));
                    },
                    Some((next, None)) => {
                        assert(numbered(chunks, sentences));
                        assert(stands_behind(next, chunks, sentences));
                        assert(in_step(next, chunks));
                    },
                    None => {},
                }
            },
            None => {},
        }
    }
}

/// Over any run of steps that were taken, the chunks are numbered: each sentence is a stream
/// of its own with a higher number than those before it, and its chunks count from zero
/// without a gap.
pub proof fn audio_is_numbered_over_a_run(
    audio: AudioView,
    steps: Seq<AudioStep>,
    next: AudioView,
    chunks: Seq<MediaChunkView>,
)
    requires
        !audio.open,
        audio.ran(steps) == Some((next, chunks)),
    ensures
        exists|sentences: Seq<u64>| numbered(chunks, sentences),
{
    run_is_numbered(audio, steps);
}

} // verus!
