//! Settings of a MiniMax synthesis, and how they are written on the wire.
use crate::json::{set_get, Json, JsonView};
use crate::text::{decimal, join, join4, number};
use vstd::prelude::*;

verus! {

/// Audio formats of a synthesis.
#[derive(Clone, Copy, Debug, Default, PartialEq, Eq, Structural)]
pub enum AudioFormat {
    #[default]
    Mp3,
    Pcm,
    Flac,
    /// The lengths in the header of a streamed file are unknown; an export must set them.
    Wav,
    PcmuRaw,
    /// G.711 in a streamed file, with the same duty on an export as `Wav`.
    PcmuWav,
}

impl AudioFormat {
    /// The media type of the audio.
    pub open spec fn media_name(self, sample_rate: u32, channels: u8) -> Seq<char> {
        match self {
            AudioFormat::Mp3 => "audio/mpeg"@,
            AudioFormat::Pcm => "audio/pcm;encoding=s16le;rate="@ + decimal(sample_rate as nat)
                + ";channels="@ + decimal(channels as nat),
            AudioFormat::Flac => "audio/flac"@,
            AudioFormat::Wav => "audio/wav"@,
            AudioFormat::PcmuWav => "audio/wav"@,
            AudioFormat::PcmuRaw => "audio/PCMU;rate=8000;channels="@ + decimal(channels as nat),
        }
    }

    pub fn media_type(self, sample_rate: u32, channels: u8) -> (r: String)
        ensures
            r@ == self.media_name(sample_rate, channels),
    {
        match self {
            AudioFormat::Mp3 => "audio/mpeg".to_owned(),
            AudioFormat::Pcm => {
                let rate = number(sample_rate as u64);
                let count = number(channels as u64);
                join4(
                    "audio/pcm;encoding=s16le;rate=",
                    rate.as_str(),
                    ";channels=",
                    count.as_str(),
                )
            },
            AudioFormat::Flac => "audio/flac".to_owned(),
            AudioFormat::Wav => "audio/wav".to_owned(),
            AudioFormat::PcmuWav => "audio/wav".to_owned(),
            AudioFormat::PcmuRaw => {
                let count = number(channels as u64);
                join("audio/PCMU;rate=8000;channels=", count.as_str())
            },
        }
    }

    pub open spec fn wire(self) -> Seq<char> {
        match self {
            AudioFormat::Mp3 => "mp3"@,
            AudioFormat::Pcm => "pcm"@,
            AudioFormat::Flac => "flac"@,
            AudioFormat::Wav => "wav"@,
            AudioFormat::PcmuRaw => "pcmu_raw"@,
            AudioFormat::PcmuWav => "pcmu_wav"@,
        }
    }

    pub fn wire_name(self) -> (r: &'static str)
        ensures
            r@ == self.wire(),
    {
        match self {
            AudioFormat::Mp3 => "mp3",
            AudioFormat::Pcm => "pcm",
            AudioFormat::Flac => "flac",
            AudioFormat::Wav => "wav",
            AudioFormat::PcmuRaw => "pcmu_raw",
            AudioFormat::PcmuWav => "pcmu_wav",
        }
    }
}

#[derive(Clone, Copy, Debug, PartialEq, Eq, Structural)]
pub enum Emotion {
    Happy,
    Sad,
    Angry,
    Fearful,
    Disgusted,
    Surprised,
    Calm,
    Fluent,
    Whisper,
}

impl Emotion {
    pub open spec fn wire(self) -> Seq<char> {
        match self {
            Emotion::Happy => "happy"@,
            Emotion::Sad => "sad"@,
            Emotion::Angry => "angry"@,
            Emotion::Fearful => "fearful"@,
            Emotion::Disgusted => "disgusted"@,
            Emotion::Surprised => "surprised"@,
            Emotion::Calm => "calm"@,
            Emotion::Fluent => "fluent"@,
            Emotion::Whisper => "whisper"@,
        }
    }

    pub fn wire_name(self) -> (r: &'static str)
        ensures
            r@ == self.wire(),
    {
        match self {
            Emotion::Happy => "happy",
            Emotion::Sad => "sad",
            Emotion::Angry => "angry",
            Emotion::Fearful => "fearful",
            Emotion::Disgusted => "disgusted",
            Emotion::Surprised => "surprised",
            Emotion::Calm => "calm",
            Emotion::Fluent => "fluent",
            Emotion::Whisper => "whisper",
        }
    }
}

/// A voice. Speed and volume are held as they are written on the wire.
#[derive(Debug, PartialEq, Eq)]
pub struct VoiceSettings {
    /// Empty only where timbre weights select a mixture.
    pub voice_id: String,
    pub speed: Json,
    pub volume: Json,
    pub pitch: i32,
    pub emotion: Option<Emotion>,
    pub english_normalization: bool,
    /// Reading formulas requires Chinese as the language.
    pub latex_read: bool,
}

impl VoiceSettings {
    /// A voice at its ordinary speed, volume and pitch.
    pub fn new(voice_id: String) -> (r: VoiceSettings)
        ensures
            r.voice_id@ == voice_id@,
            r.speed@ == super::one(),
            r.volume@ == super::one(),
            r.pitch == 0,
            r.emotion is None,
            !r.english_normalization,
            !r.latex_read,
    {
        VoiceSettings {
            voice_id,
            speed: super::one_json(),
            volume: super::one_json(),
            pitch: 0,
            emotion: None,
            english_normalization: false,
            latex_read: false,
        }
    }

    pub open spec fn wire(&self) -> JsonView {
        let voice = JsonView::empty().set("voice_id"@, JsonView::text(self.voice_id@)).set(
            "speed"@,
            self.speed@,
        ).set("vol"@, self.volume@).set("pitch"@, JsonView::sint(self.pitch as int));
        let voice = match self.emotion {
            Some(emotion) => voice.set("emotion"@, JsonView::text(emotion.wire())),
            None => voice,
        };
        voice.set("english_normalization"@, JsonView::Bool(self.english_normalization)).set(
            "latex_read"@,
            JsonView::Bool(self.latex_read),
        )
    }

    pub fn to_json(&self) -> (r: Json)
        ensures
            r@ == self.wire(),
    {
        let voice = Json::empty().with_text("voice_id", self.voice_id.as_str()).with(
            "speed",
            self.speed.clone(),
        ).with("vol", self.volume.clone()).with("pitch", Json::sint(self.pitch as i64));
        let voice = match self.emotion {
            Some(emotion) => voice.with_text("emotion", emotion.wire_name()),
            None => voice,
        };
        voice.with("english_normalization", Json::Bool(self.english_normalization)).with(
            "latex_read",
            Json::Bool(self.latex_read),
        )
    }
}

#[derive(Clone, Copy, Debug, PartialEq, Eq, Structural)]
pub struct AudioSettings {
    pub format: AudioFormat,
    pub sample_rate: u32,
    /// Used for MP3 alone. Other formats send no bitrate.
    pub bitrate: u32,
    pub channels: u8,
}

impl Default for AudioSettings {
    fn default() -> (r: AudioSettings)
        ensures
            r == (AudioSettings {
                format: AudioFormat::Mp3,
                sample_rate: 32000,
                bitrate: 128000,
                channels: 1,
            }),
    {
        AudioSettings {
            format: AudioFormat::Mp3,
            sample_rate: 32000,
            bitrate: 128000,
            channels: 1,
        }
    }
}

/// One voice of a mixture.
#[derive(Debug, PartialEq, Eq)]
pub struct TimbreWeight {
    pub voice_id: String,
    /// From 1 to 100, relative to the other voices; up to four can be mixed.
    pub weight: u8,
}

impl TimbreWeight {
    pub open spec fn wire(&self) -> JsonView {
        JsonView::empty().set("voice_id"@, JsonView::text(self.voice_id@)).set(
            "weight"@,
            JsonView::uint(self.weight as u64),
        )
    }

    pub fn to_json(&self) -> (r: Json)
        ensures
            r@ == self.wire(),
    {
        Json::empty().with_text("voice_id", self.voice_id.as_str()).with(
            "weight",
            Json::uint(self.weight as u64),
        )
    }
}

#[derive(Clone, Copy, Debug, PartialEq, Eq, Structural)]
pub enum SoundEffect {
    SpaciousEcho,
    AuditoriumEcho,
    LofiTelephone,
    Robotic,
}

impl SoundEffect {
    pub open spec fn wire(self) -> Seq<char> {
        match self {
            SoundEffect::SpaciousEcho => "spacious_echo"@,
            SoundEffect::AuditoriumEcho => "auditorium_echo"@,
            SoundEffect::LofiTelephone => "lofi_telephone"@,
            SoundEffect::Robotic => "robotic"@,
        }
    }

    pub fn wire_name(self) -> (r: &'static str)
        ensures
            r@ == self.wire(),
    {
        match self {
            SoundEffect::SpaciousEcho => "spacious_echo",
            SoundEffect::AuditoriumEcho => "auditorium_echo",
            SoundEffect::LofiTelephone => "lofi_telephone",
            SoundEffect::Robotic => "robotic",
        }
    }
}

/// Effects on the synthesized voice, for streamed MP3 alone.
#[derive(Clone, Copy, Debug, PartialEq, Eq, Structural)]
pub struct VoiceEffects {
    pub pitch: i32,
    pub intensity: i32,
    pub timbre: i32,
    pub sound_effects: Option<SoundEffect>,
}

impl Default for VoiceEffects {
    fn default() -> (r: VoiceEffects)
        ensures
            r == (VoiceEffects { pitch: 0, intensity: 0, timbre: 0, sound_effects: None }),
    {
        VoiceEffects { pitch: 0, intensity: 0, timbre: 0, sound_effects: None }
    }
}

impl VoiceEffects {
    pub open spec fn wire(self) -> JsonView {
        let effects = JsonView::empty().set("pitch"@, JsonView::sint(self.pitch as int)).set(
            "intensity"@,
            JsonView::sint(self.intensity as int),
        ).set("timbre"@, JsonView::sint(self.timbre as int));
        match self.sound_effects {
            Some(effect) => effects.set("sound_effects"@, JsonView::text(effect.wire())),
            None => effects,
        }
    }

    pub fn to_json(self) -> (r: Json)
        ensures
            r@ == self.wire(),
    {
        let effects = Json::empty().with("pitch", Json::sint(self.pitch as i64)).with(
            "intensity",
            Json::sint(self.intensity as i64),
        ).with("timbre", Json::sint(self.timbre as i64));
        match self.sound_effects {
            Some(effect) => effects.with_text("sound_effects", effect.wire_name()),
            None => effects,
        }
    }
}

#[derive(Clone, Copy, Debug, PartialEq, Eq, Structural)]
pub enum SubtitleGranularity {
    Sentence,
    Word,
    WordStreaming,
}

impl SubtitleGranularity {
    pub open spec fn wire(self) -> Seq<char> {
        match self {
            SubtitleGranularity::Sentence => "sentence"@,
            SubtitleGranularity::Word => "word"@,
            SubtitleGranularity::WordStreaming => "word_streaming"@,
        }
    }

    pub fn wire_name(self) -> (r: &'static str)
        ensures
            r@ == self.wire(),
    {
        match self {
            SubtitleGranularity::Sentence => "sentence",
            SubtitleGranularity::Word => "word",
            SubtitleGranularity::WordStreaming => "word_streaming",
        }
    }
}

proof fn emotions_differ()
    ensures
        "happy"@ != "sad"@,
        "happy"@ != "angry"@,
        "happy"@ != "fearful"@,
        "happy"@ != "disgusted"@,
        "happy"@ != "surprised"@,
        "happy"@ != "calm"@,
        "happy"@ != "fluent"@,
        "happy"@ != "whisper"@,
        "sad"@ != "angry"@,
        "sad"@ != "fearful"@,
        "sad"@ != "disgusted"@,
        "sad"@ != "surprised"@,
        "sad"@ != "calm"@,
        "sad"@ != "fluent"@,
        "sad"@ != "whisper"@,
        "angry"@ != "fearful"@,
        "angry"@ != "disgusted"@,
        "angry"@ != "surprised"@,
        "angry"@ != "calm"@,
        "angry"@ != "fluent"@,
        "angry"@ != "whisper"@,
        "fearful"@ != "disgusted"@,
        "fearful"@ != "surprised"@,
        "fearful"@ != "calm"@,
        "fearful"@ != "fluent"@,
        "fearful"@ != "whisper"@,
        "disgusted"@ != "surprised"@,
        "disgusted"@ != "calm"@,
        "disgusted"@ != "fluent"@,
        "disgusted"@ != "whisper"@,
        "surprised"@ != "calm"@,
        "surprised"@ != "fluent"@,
        "surprised"@ != "whisper"@,
        "calm"@ != "fluent"@,
        "calm"@ != "whisper"@,
        "fluent"@ != "whisper"@,
{
    reveal_strlit("happy");
    reveal_strlit("sad");
    reveal_strlit("angry");
    reveal_strlit("fearful");
    reveal_strlit("disgusted");
    reveal_strlit("surprised");
    reveal_strlit("calm");
    reveal_strlit("fluent");
    reveal_strlit("whisper");
    assert("happy"@.len() == 5);
    assert("sad"@.len() == 3);
    assert("angry"@.len() == 5);
    assert("fearful"@.len() == 7);
    assert("disgusted"@.len() == 9);
    assert("surprised"@.len() == 9);
    assert("calm"@.len() == 4);
    assert("fluent"@.len() == 6);
    assert("whisper"@.len() == 7);
    assert("happy"@[0] != "angry"@[0]);
    assert("fearful"@[0] != "whisper"@[0]);
    assert("disgusted"@[0] != "surprised"@[0]);
}

proof fn names_differ()
    ensures
        "mp3"@ != "pcm"@,
        "mp3"@ != "flac"@,
        "mp3"@ != "wav"@,
        "mp3"@ != "pcmu_raw"@,
        "mp3"@ != "pcmu_wav"@,
        "mp3"@ != "spacious_echo"@,
        "mp3"@ != "auditorium_echo"@,
        "mp3"@ != "lofi_telephone"@,
        "mp3"@ != "robotic"@,
        "mp3"@ != "sentence"@,
        "mp3"@ != "word"@,
        "mp3"@ != "word_streaming"@,
        "pcm"@ != "flac"@,
        "pcm"@ != "wav"@,
        "pcm"@ != "pcmu_raw"@,
        "pcm"@ != "pcmu_wav"@,
        "pcm"@ != "spacious_echo"@,
        "pcm"@ != "auditorium_echo"@,
        "pcm"@ != "lofi_telephone"@,
        "pcm"@ != "robotic"@,
        "pcm"@ != "sentence"@,
        "pcm"@ != "word"@,
        "pcm"@ != "word_streaming"@,
        "flac"@ != "wav"@,
        "flac"@ != "pcmu_raw"@,
        "flac"@ != "pcmu_wav"@,
        "flac"@ != "spacious_echo"@,
        "flac"@ != "auditorium_echo"@,
        "flac"@ != "lofi_telephone"@,
        "flac"@ != "robotic"@,
        "flac"@ != "sentence"@,
        "flac"@ != "word"@,
        "flac"@ != "word_streaming"@,
        "wav"@ != "pcmu_raw"@,
        "wav"@ != "pcmu_wav"@,
        "wav"@ != "spacious_echo"@,
        "wav"@ != "auditorium_echo"@,
        "wav"@ != "lofi_telephone"@,
        "wav"@ != "robotic"@,
        "wav"@ != "sentence"@,
        "wav"@ != "word"@,
        "wav"@ != "word_streaming"@,
        "pcmu_raw"@ != "pcmu_wav"@,
        "pcmu_raw"@ != "spacious_echo"@,
        "pcmu_raw"@ != "auditorium_echo"@,
        "pcmu_raw"@ != "lofi_telephone"@,
        "pcmu_raw"@ != "robotic"@,
        "pcmu_raw"@ != "sentence"@,
        "pcmu_raw"@ != "word"@,
        "pcmu_raw"@ != "word_streaming"@,
        "pcmu_wav"@ != "spacious_echo"@,
        "pcmu_wav"@ != "auditorium_echo"@,
        "pcmu_wav"@ != "lofi_telephone"@,
        "pcmu_wav"@ != "robotic"@,
        "pcmu_wav"@ != "sentence"@,
        "pcmu_wav"@ != "word"@,
        "pcmu_wav"@ != "word_streaming"@,
        "spacious_echo"@ != "auditorium_echo"@,
        "spacious_echo"@ != "lofi_telephone"@,
        "spacious_echo"@ != "robotic"@,
        "spacious_echo"@ != "sentence"@,
        "spacious_echo"@ != "word"@,
        "spacious_echo"@ != "word_streaming"@,
        "auditorium_echo"@ != "lofi_telephone"@,
        "auditorium_echo"@ != "robotic"@,
        "auditorium_echo"@ != "sentence"@,
        "auditorium_echo"@ != "word"@,
        "auditorium_echo"@ != "word_streaming"@,
        "lofi_telephone"@ != "robotic"@,
        "lofi_telephone"@ != "sentence"@,
        "lofi_telephone"@ != "word"@,
        "lofi_telephone"@ != "word_streaming"@,
        "robotic"@ != "sentence"@,
        "robotic"@ != "word"@,
        "robotic"@ != "word_streaming"@,
        "sentence"@ != "word"@,
        "sentence"@ != "word_streaming"@,
        "word"@ != "word_streaming"@,
{
    reveal_strlit("mp3");
    reveal_strlit("pcm");
    reveal_strlit("flac");
    reveal_strlit("wav");
    reveal_strlit("pcmu_raw");
    reveal_strlit("pcmu_wav");
    reveal_strlit("spacious_echo");
    reveal_strlit("auditorium_echo");
    reveal_strlit("lofi_telephone");
    reveal_strlit("robotic");
    reveal_strlit("sentence");
    reveal_strlit("word");
    reveal_strlit("word_streaming");
    assert("mp3"@.len() == 3);
    assert("pcm"@.len() == 3);
    assert("flac"@.len() == 4);
    assert("wav"@.len() == 3);
    assert("pcmu_raw"@.len() == 8);
    assert("pcmu_wav"@.len() == 8);
    assert("spacious_echo"@.len() == 13);
    assert("auditorium_echo"@.len() == 15);
    assert("lofi_telephone"@.len() == 14);
    assert("robotic"@.len() == 7);
    assert("sentence"@.len() == 8);
    assert("word"@.len() == 4);
    assert("word_streaming"@.len() == 14);
    assert("mp3"@[0] != "pcm"@[0]);
    assert("mp3"@[0] != "wav"@[0]);
    assert("pcm"@[0] != "wav"@[0]);
    assert("flac"@[0] != "word"@[0]);
    assert("pcmu_raw"@[5] != "pcmu_wav"@[5]);
    assert("pcmu_raw"@[0] != "sentence"@[0]);
    assert("pcmu_wav"@[0] != "sentence"@[0]);
    assert("lofi_telephone"@[0] != "word_streaming"@[0]);
}

proof fn keys_differ()
    ensures
        "voice_id"@ != "speed"@,
        "voice_id"@ != "vol"@,
        "voice_id"@ != "pitch"@,
        "voice_id"@ != "emotion"@,
        "voice_id"@ != "english_normalization"@,
        "voice_id"@ != "latex_read"@,
        "voice_id"@ != "weight"@,
        "voice_id"@ != "intensity"@,
        "voice_id"@ != "timbre"@,
        "voice_id"@ != "sound_effects"@,
        "speed"@ != "vol"@,
        "speed"@ != "pitch"@,
        "speed"@ != "emotion"@,
        "speed"@ != "english_normalization"@,
        "speed"@ != "latex_read"@,
        "speed"@ != "weight"@,
        "speed"@ != "intensity"@,
        "speed"@ != "timbre"@,
        "speed"@ != "sound_effects"@,
        "vol"@ != "pitch"@,
        "vol"@ != "emotion"@,
        "vol"@ != "english_normalization"@,
        "vol"@ != "latex_read"@,
        "vol"@ != "weight"@,
        "vol"@ != "intensity"@,
        "vol"@ != "timbre"@,
        "vol"@ != "sound_effects"@,
        "pitch"@ != "emotion"@,
        "pitch"@ != "english_normalization"@,
        "pitch"@ != "latex_read"@,
        "pitch"@ != "weight"@,
        "pitch"@ != "intensity"@,
        "pitch"@ != "timbre"@,
        "pitch"@ != "sound_effects"@,
        "emotion"@ != "english_normalization"@,
        "emotion"@ != "latex_read"@,
        "emotion"@ != "weight"@,
        "emotion"@ != "intensity"@,
        "emotion"@ != "timbre"@,
        "emotion"@ != "sound_effects"@,
        "english_normalization"@ != "latex_read"@,
        "english_normalization"@ != "weight"@,
        "english_normalization"@ != "intensity"@,
        "english_normalization"@ != "timbre"@,
        "english_normalization"@ != "sound_effects"@,
        "latex_read"@ != "weight"@,
        "latex_read"@ != "intensity"@,
        "latex_read"@ != "timbre"@,
        "latex_read"@ != "sound_effects"@,
        "weight"@ != "intensity"@,
        "weight"@ != "timbre"@,
        "weight"@ != "sound_effects"@,
        "intensity"@ != "timbre"@,
        "intensity"@ != "sound_effects"@,
        "timbre"@ != "sound_effects"@,
{
    reveal_strlit("voice_id");
    reveal_strlit("speed");
    reveal_strlit("vol");
    reveal_strlit("pitch");
    reveal_strlit("emotion");
    reveal_strlit("english_normalization");
    reveal_strlit("latex_read");
    reveal_strlit("weight");
    reveal_strlit("intensity");
    reveal_strlit("timbre");
    reveal_strlit("sound_effects");
    assert("voice_id"@.len() == 8);
    assert("speed"@.len() == 5);
    assert("vol"@.len() == 3);
    assert("pitch"@.len() == 5);
    assert("emotion"@.len() == 7);
    assert("english_normalization"@.len() == 21);
    assert("latex_read"@.len() == 10);
    assert("weight"@.len() == 6);
    assert("intensity"@.len() == 9);
    assert("timbre"@.len() == 6);
    assert("sound_effects"@.len() == 13);
    assert("speed"@[0] != "pitch"@[0]);
    assert("weight"@[0] != "timbre"@[0]);
}

/// A setting is told from every other by its name on the wire.
pub proof fn settings_are_told_apart(
    one: Emotion,
    other: Emotion,
    format: AudioFormat,
    other_format: AudioFormat,
    effect: SoundEffect,
    other_effect: SoundEffect,
    detail: SubtitleGranularity,
    other_detail: SubtitleGranularity,
)
    ensures
        one.wire() == other.wire() ==> one == other,
        format.wire() == other_format.wire() ==> format == other_format,
        effect.wire() == other_effect.wire() ==> effect == other_effect,
        detail.wire() == other_detail.wire() ==> detail == other_detail,
        one == Emotion::Happy <==> one.wire() == "happy"@,
        one == Emotion::Sad <==> one.wire() == "sad"@,
        one == Emotion::Angry <==> one.wire() == "angry"@,
        one == Emotion::Fearful <==> one.wire() == "fearful"@,
        one == Emotion::Disgusted <==> one.wire() == "disgusted"@,
        one == Emotion::Surprised <==> one.wire() == "surprised"@,
        one == Emotion::Calm <==> one.wire() == "calm"@,
        one == Emotion::Fluent <==> one.wire() == "fluent"@,
        one == Emotion::Whisper <==> one.wire() == "whisper"@,
{
    emotions_differ();
    names_differ();
}

/// A voice is written out with all its settings; an emotion only where there is one.
pub proof fn voices_are_written_out(voice: VoiceSettings)
    ensures
        ({
            let written = voice.wire();
            &&& written.get_str("voice_id"@) == Some(voice.voice_id@)
            &&& written.get("speed"@) == Some(voice.speed@)
            &&& written.get("vol"@) == Some(voice.volume@)
            &&& written.field("pitch"@).as_i64() == Some(voice.pitch as i64)
            &&& written.get_str("emotion"@) == (match voice.emotion {
                Some(emotion) => Some(emotion.wire()),
                None => None,
            })
            &&& written.get("english_normalization"@) == Some(
                JsonView::Bool(voice.english_normalization),
            )
            &&& written.get("latex_read"@) == Some(JsonView::Bool(voice.latex_read))
        }),
{
    broadcast use set_get;

    keys_differ();
}

/// The weights of a mixture and the effects on a voice are written out as they are.
pub proof fn effects_are_written_out(weight: TimbreWeight, effects: VoiceEffects)
    ensures
        weight.wire().get_str("voice_id"@) == Some(weight.voice_id@),
        weight.wire().get_u64("weight"@) == Some(weight.weight as u64),
        effects.wire().field("pitch"@).as_i64() == Some(effects.pitch as i64),
        effects.wire().field("intensity"@).as_i64() == Some(effects.intensity as i64),
        effects.wire().field("timbre"@).as_i64() == Some(effects.timbre as i64),
        effects.wire().get_str("sound_effects"@) == (match effects.sound_effects {
            Some(effect) => Some(effect.wire()),
            None => None,
        }),
{
    broadcast use set_get;

    keys_differ();
}

} // verus!
