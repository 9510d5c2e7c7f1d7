//! Options and state that every kind of completion shares.

use vstd::prelude::*;

verus! {

/// What the caller asked of a completion. An absent field takes the default
/// of the command that reads it.
#[derive(Clone, Debug)]
pub struct CompletionOptions {
    /// Text to append to the transcript before the request.
    pub append: Option<String>,
    /// Whether to stop after one exchange.
    pub once: Option<bool>,
    /// Whether to keep replies off the display.
    pub quiet: Option<bool>,
    /// How many replies to sample.
    pub response_count: Option<usize>,
    /// The sampling temperature, as the bits of an `f32`.
    pub temperature: Option<u32>,
}

impl Default for CompletionOptions {
    fn default() -> (r: CompletionOptions)
        ensures
            r.append is None,
            r.once is None,
            r.quiet is None,
            r.response_count is None,
            r.temperature is None,
    {
        CompletionOptions {
            append: None,
            once: None,
            quiet: None,
            response_count: None,
            temperature: None,
        }
    }
}

/// The transcript of a conversation as it is held in memory.
#[derive(Clone, Debug)]
pub struct CompletionFile {
    pub transcript: String,
}

impl Default for CompletionFile {
    fn default() -> (r: CompletionFile)
        ensures
            r.transcript@ == Seq::<char>::empty(),
    {
        CompletionFile { transcript: String::new() }
    }
}

} // verus!
