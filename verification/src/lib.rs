//! Model adapters: wire protocols, streams, sessions and the composition of models.
//!
//! A decoded response keeps its envelope as `{protocol, response}`, of which only the native
//! output items are replayed in a later turn. Of a stream, the response is the assembled value;
//! each frame is also handed out as it came in, beside what was made of it.
pub mod artifacts;
pub mod capabilities;
pub mod clock;
pub mod codec;
pub mod command;
pub mod concurrency;
pub mod credentials;
pub mod decorators;
pub mod encoding;
pub mod error;
pub mod extension;
pub mod function;
pub mod headers;
pub mod http;
pub mod json;
pub mod markers;
pub mod message;
pub mod minimax;
pub mod model;
pub mod native;
pub mod observers;
pub mod openai;
pub mod profiles;
pub mod provider_tools;
pub mod resources;
pub mod retry_wait;
pub mod session;
pub mod slots;
pub mod streaming;
pub mod text;
pub mod transform;
pub mod transport;
pub mod webrtc;
pub mod websocket;
