//! OpenAI services beyond the HTTP protocols.
pub mod live;
