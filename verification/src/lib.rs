//! A verified core for a streaming chat-completion client.
//!
//! The library holds the pieces that carry the actual logic: the data
//! model with the fragment accumulator (`model`), the event-frame parser
//! over an arbitrarily chunked byte stream (`sse`), the conversation-owning
//! client (`chatgpt`), and the decoder from frame payloads to responses
//! (`json`). Transport and presentation stay outside; they hand the
//! library plain values and take plain values back.

pub mod chatgpt;
pub mod coordinator;
pub mod json;
pub mod model;
pub mod sse;
