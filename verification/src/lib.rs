//! Core logic of a local gateway that routes OpenAI-compatible chat requests to
//! several LLM providers: backend selection, circuit breaking, rate limiting,
//! request/response format conversion, validation and configuration.
use vstd::prelude::*;

pub mod text;
pub mod clock;
pub mod models;
pub mod router;
pub mod error;
pub mod config;
pub mod store;
pub mod limiter;
pub mod validation;
pub mod json;
pub mod converter;
pub mod server;
pub mod logging;
pub mod log_entries;
pub mod session;
pub mod crypto;
pub mod provider;

verus! {

} // verus!
