//! Streams: events are assembled to a response, and normalized to deltas on the way.
pub mod accumulator;
pub mod blocks;
pub mod chat;
pub mod dispatch;
pub mod fields;
pub mod fragments;
pub mod frame;
pub mod laws;
pub mod messages;
pub mod minimax_tts;
pub mod responses;
pub use accumulator::Accumulator;
