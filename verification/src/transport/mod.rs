//! Transports: framing of streams and what a connection does next.
pub mod rtp;
pub mod sse;
pub use rtp::RtpTimeline;
pub use sse::{SseDecoder, SseEvent};
pub mod webrtc;
pub mod websocket;
pub use websocket::WireMessage;
