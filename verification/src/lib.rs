//! Session and access-control engine for a quiz-gated live stream.
//!
//! The engine tracks viewer sessions (each gated by a trivia challenge),
//! a single publisher slot, and a polling chat log.  All state transitions
//! are plain functions over plain values: the caller supplies the current
//! time and the contents of the secret file, so every rule is verified.

pub mod api;
pub mod banner;
pub mod chat;
pub mod rng;
pub mod chat_api;
pub mod error;
pub mod srs;
pub mod srs_callback;
pub mod status;
pub mod streaming_info;
pub mod text;
