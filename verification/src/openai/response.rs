//! Response bodies shared by the chat and the completion endpoint.

use vstd::prelude::*;

verus! {

/// A decoded completion response: the choices the service returned.
#[derive(Clone, Debug)]
pub struct OpenAICompletionResponse<T> {
    pub choices: Vec<T>,
}

/// The error body that the service sends with a failure status.
#[derive(Clone, Debug, PartialEq, Eq)]
pub struct OpenAIError {
    pub message: String,
    pub kind: String,
    pub param: Option<String>,
    pub code: Option<String>,
}

/// What came back for one request, once the transport has read the status
/// and decoded the body.
#[derive(Clone, Debug)]
pub enum Reply<T> {
    /// The status was a failure and the body held this error.
    Failure(OpenAIError),
    /// The body had not the shape that the status called for. Holds the
    /// decoder's description.
    Undecodable(String),
    /// The status was a success and the body held this response.
    Success(OpenAICompletionResponse<T>),
}

/// Whether an HTTP status reports success: the codes from 200 to 299.
pub fn is_success(status: u16) -> (r: bool)
    ensures
        r == (200 <= status <= 299),
{
    200 <= status && status < 300
}

} // verus!
