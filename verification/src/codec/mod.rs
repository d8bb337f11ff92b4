//! The wire protocols: requests are encoded to JSON, responses decoded from it.
pub mod adapter;
pub mod asked;
pub mod content;
pub mod conversation;
pub mod decode;
pub mod encode;
pub mod exchange;
pub mod heard;
pub mod laws;
pub mod merge;
pub mod minimax_tts;
pub mod questions;
pub mod replay;
pub mod speech;
pub mod told;
