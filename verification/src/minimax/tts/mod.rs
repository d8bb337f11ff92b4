//! Text to speech over a WebSocket in both directions: text goes in through session commands,
//! each sentence comes out as an MP3 stream.
use crate::clock::SECOND;
use crate::error::{invalid, Error, ErrorView};
use crate::json::{Json, JsonView, Number, NumberView};
use crate::text::{blank, is_blank};
use crate::websocket::WebSocketConfig;
use vstd::prelude::*;

pub mod settings;

verus! {

/// One, as a fractional number is written on the wire.
pub open spec fn one() -> JsonView {
    JsonView::Number(NumberView::Float("1.0"@))
}

pub(crate) fn one_json() -> (r: Json)
    ensures
        r@ == one(),
{
    Json::Number(Number::Float("1.0".to_owned()))
}

/// A voice. Speed and volume are held as they are written on the wire.
#[derive(Debug, Clone, PartialEq, Eq)]
pub struct VoiceSettings {
    pub voice_id: String,
    pub speed: Json,
    pub volume: Json,
    pub pitch: i32,
}

impl VoiceSettings {
    /// A voice at its ordinary speed, volume and pitch.
    pub fn new(voice_id: String) -> (r: VoiceSettings)
        ensures
            r.voice_id@ == voice_id@,
            r.speed@ == one(),
            r.volume@ == one(),
            r.pitch == 0,
    {
        VoiceSettings { voice_id, speed: one_json(), volume: one_json(), pitch: 0 }
    }
}

/// MP3 output settings.
#[derive(Clone, Copy, Debug, PartialEq, Eq, Structural)]
pub struct AudioSettings {
    pub sample_rate: u32,
    pub bitrate: u32,
    pub channels: u8,
}

impl Default for AudioSettings {
    fn default() -> (r: AudioSettings)
        ensures
            r == (AudioSettings { sample_rate: 32000, bitrate: 128000, channels: 1 }),
    {
        AudioSettings { sample_rate: 32000, bitrate: 128000, channels: 1 }
    }
}

impl AudioSettings {
    pub open spec fn supported(self) -> bool {
        &&& self.sample_rate == 8000 || self.sample_rate == 16000 || self.sample_rate == 22050
            || self.sample_rate == 24000 || self.sample_rate == 32000 || self.sample_rate == 44100
        &&& self.bitrate == 32000 || self.bitrate == 64000 || self.bitrate == 128000
            || self.bitrate == 256000
        &&& self.channels == 1 || self.channels == 2
    }

    fn is_supported(self) -> (r: bool)
        ensures
            r == self.supported(),
    {
        let rate = self.sample_rate == 8000 || self.sample_rate == 16000 || self.sample_rate
            == 22050 || self.sample_rate == 24000 || self.sample_rate == 32000 || self.sample_rate
            == 44100;
        let bitrate = self.bitrate == 32000 || self.bitrate == 64000 || self.bitrate == 128000
            || self.bitrate == 256000;
        rate && bitrate && (self.channels == 1 || self.channels == 2)
    }
}

#[derive(Debug, Clone, PartialEq, Eq)]
pub struct TtsConfig {
    pub connection: WebSocketConfig,
    pub model: String,
    pub voice: VoiceSettings,
    pub audio: AudioSettings,
}

impl TtsConfig {
    pub fn new(model: String, voice_id: String) -> (r: TtsConfig)
        ensures
            r.connection.url@ == "wss://api.minimaxi.com/ws/v1/t2a_v2_bidi"@,
            r.connection.connect_timeout == 15 * SECOND,
            r.connection.write_timeout == 15 * SECOND,
            r.connection.command_timeout == 30 * SECOND,
            r.connection.heartbeat_interval == 30 * SECOND,
            r.connection.max_message_bytes == 4 * 1024 * 1024,
            r.model@ == model@,
            r.voice.voice_id@ == voice_id@,
            r.voice.speed@ == one(),
            r.voice.volume@ == one(),
            r.voice.pitch == 0,
            r.audio == (AudioSettings { sample_rate: 32000, bitrate: 128000, channels: 1 }),
    {
        TtsConfig {
            connection: WebSocketConfig::new("wss://api.minimaxi.com/ws/v1/t2a_v2_bidi".to_owned()),
            model,
            voice: VoiceSettings::new(voice_id),
            audio: AudioSettings::default(),
        }
    }

    /// Whether the settings hold up, given whether speed and volume lie in their ranges.
    pub open spec fn plausible(&self, voice_in_range: bool) -> bool {
        &&& !blank(self.model@)
        &&& !blank(self.voice.voice_id@)
        &&& voice_in_range
        &&& -12 <= self.voice.pitch <= 12
        &&& self.audio.supported()
    }

    pub open spec fn fault(&self, voice_in_range: bool, longest: u128) -> Option<ErrorView> {
        if !self.plausible(voice_in_range) {
            Some(ErrorView::Invalid("invalid MiniMax TTS model, voice or audio settings"@))
        } else {
            self.connection.fault(longest)
        }
    }

    /// Checks the settings. Speed and volume are fractions, so their ranges are checked where
    /// they are read; `longest` is the longest time that the clock can still count.
    pub fn validate(&self, voice_in_range: bool, longest: u128) -> (r: Result<(), Error>)
        ensures
            match self.fault(voice_in_range, longest) {
                Some(e) => r is Err && r->Err_0@ == e,
                None => r is Ok,
            },
    {
        if is_blank(self.model.as_str()) || is_blank(self.voice.voice_id.as_str())
            || !voice_in_range || self.voice.pitch < -12 || self.voice.pitch > 12
            || !self.audio.is_supported() {
            return Err(invalid("invalid MiniMax TTS model, voice or audio settings"));
        }
        self.connection.validate(longest)
    }
}

} // verus!
