//! Client-side engine for a remote text-generation service: model resolution,
//! temperature validation, request construction, response decoding and the
//! reassembly of a streamed reply into one transcript entry.

use vstd::prelude::*;

pub mod chat;
pub mod completion;
pub mod float;
pub mod openai;
pub mod session;
pub mod text;
pub mod transcript;

verus! {

/// Settings that the configuration file holds.
#[derive(Clone, Debug, Default)]
pub struct Config {
    /// The API key of the OpenAI backend, where the file gives one.
    pub api_key_openai: Option<String>,
}

} // verus!
