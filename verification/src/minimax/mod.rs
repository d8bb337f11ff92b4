//! MiniMax services.
pub mod tts;
