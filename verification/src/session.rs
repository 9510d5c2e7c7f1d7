//! What a completion session is asked for, whatever the backend.

use crate::completion::CompletionOptions;
use crate::openai::response::OpenAIError;
use vstd::prelude::*;

verus! {

/// The family of model that a request is for.
#[derive(Clone, Copy, Debug, PartialEq, Eq, Structural)]
pub enum ModelFocus {
    Code,
    Text,
}

impl ModelFocus {
    /// The focus as diagnostics name it.
    pub open spec fn name(self) -> Seq<char> {
        match self {
            ModelFocus::Code => "code"@,
            ModelFocus::Text => "text"@,
        }
    }

    /// The focus as diagnostics name it.
    pub fn label(&self) -> (r: &'static str)
        ensures
            r@ == self.name(),
    {
        match self {
            ModelFocus::Code => "code",
            ModelFocus::Text => "text",
        }
    }
}

/// The size of model that a request is for, from the smallest to the
/// largest.
#[derive(Clone, Copy, Debug, PartialEq, Eq, PartialOrd, Ord, Structural)]
pub enum Model {
    Tiny,
    Small,
    Medium,
    Large,
    XLarge,
    XXLarge,
}

impl Model {
    /// The place of a tier in the order of sizes, from 0.
    pub open spec fn rank(self) -> nat {
        match self {
            Model::Tiny => 0,
            Model::Small => 1,
            Model::Medium => 2,
            Model::Large => 3,
            Model::XLarge => 4,
            Model::XXLarge => 5,
        }
    }

    /// The next smaller tier, if there is one.
    pub open spec fn below(self) -> Option<Model> {
        match self {
            Model::Tiny => None,
            Model::Small => Some(Model::Tiny),
            Model::Medium => Some(Model::Small),
            Model::Large => Some(Model::Medium),
            Model::XLarge => Some(Model::Large),
            Model::XXLarge => Some(Model::XLarge),
        }
    }

    /// The tier as diagnostics name it.
    pub open spec fn name(self) -> Seq<char> {
        match self {
            Model::Tiny => "tiny"@,
            Model::Small => "small"@,
            Model::Medium => "medium"@,
            Model::Large => "large"@,
            Model::XLarge => "x-large"@,
            Model::XXLarge => "xx-large"@,
        }
    }

    /// The tier as diagnostics name it.
    pub fn label(&self) -> (r: &'static str)
        ensures
            r@ == self.name(),
    {
        match self {
            Model::Tiny => "tiny",
            Model::Small => "small",
            Model::Medium => "medium",
            Model::Large => "large",
            Model::XLarge => "x-large",
            Model::XXLarge => "xx-large",
        }
    }
}

/// Why a completion session gave no result.
#[derive(Clone, Debug, PartialEq, Eq)]
pub enum SessionError {
    /// No API key was available; nothing was sent.
    Unauthorized,
    /// The service answered with a failure status; its error body is kept as
    /// it came.
    OpenAIError(OpenAIError),
    /// A response body did not have the expected shape. Holds the decoder's
    /// description.
    Decode(String),
    /// The backend has no model for the focus at or below the tier.
    NoMatchingModel,
    /// The temperature is not a number from 0 up to, but not including, 3.
    TemperatureOutOfValidRange,
}

/// What a session returns: the text of every reply, or why there is none.
pub type SessionResult = Result<Vec<String>, SessionError>;

/// What the caller asked of a session.
#[derive(Clone, Debug)]
pub struct SessionOptions {
    pub completion: CompletionOptions,
    pub model: Model,
    pub model_focus: ModelFocus,
}

} // verus!
