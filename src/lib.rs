//! Client library for a conversational-completion service. Its core is the
//! decoder of streamed responses: byte chunks become lines, lines become
//! events, and payloads become items, one pull at a time.
pub mod client;
pub mod error;
pub mod event;
pub mod line;
pub mod request;
pub mod response;
pub mod stream;
pub mod text;
