//! The completion endpoint: model resolution, temperature validation, the
//! request and the decoding of its reply.

use crate::float::{floor_is_0_to_2, lemma_floor_is_0_to_2, DEFAULT_TEMPERATURE};
use crate::openai::request::{api_key, api_key_of, Post};
use crate::openai::response::Reply;
use crate::session::{Model, ModelFocus, SessionError, SessionOptions, SessionResult};
use crate::Config;
use vstd::prelude::*;

verus! {

/// A sampling temperature that the service accepts: the bits of an `f32`
/// from 0 up to, but not including, 3.
#[derive(Clone, Copy, Debug, PartialEq, Eq, Structural)]
pub struct OpenAITemperature(pub u32);

impl OpenAITemperature {
    /// Whether the number with these bits is a temperature that the service
    /// accepts.
    pub open spec fn accepts(bits: u32) -> bool {
        floor_is_0_to_2(bits)
    }
}

impl TryFrom<u32> for OpenAITemperature {
    type Error = SessionError;

    /// Validates a temperature given by its bits. A valid one is kept as it
    /// is; any other is refused, never moved into the range.
    fn try_from(bits: u32) -> (r: Result<OpenAITemperature, SessionError>) {
        proof {
            lemma_floor_is_0_to_2(bits);
        }
        if bits < 0x4040_0000 || bits == 0x8000_0000 {
            Ok(OpenAITemperature(bits))
        } else {
            Err(SessionError::TemperatureOutOfValidRange)
        }
    }
}

impl vstd::std_specs::convert::TryFromSpecImpl<u32> for OpenAITemperature {
    open spec fn obeys_try_from_spec() -> bool {
        true
    }

    open spec fn try_from_spec(bits: u32) -> Result<OpenAITemperature, SessionError> {
        if OpenAITemperature::accepts(bits) {
            Ok(OpenAITemperature(bits))
        } else {
            Err(SessionError::TemperatureOutOfValidRange)
        }
    }
}

impl Default for OpenAITemperature {
    fn default() -> (r: OpenAITemperature)
        ensures
            r == OpenAITemperature(0),
    {
        OpenAITemperature(0)
    }
}

/// The models of the backend.
#[derive(Copy, Clone, Debug, PartialEq, Eq, PartialOrd, Ord, Structural)]
pub enum OpenAIModel {
    TextDavinci,
    TextCurie,
    TextBabbage,
    TextAda,
    CodeDavinci,
    CodeCushman,
}

impl Default for OpenAIModel {
    fn default() -> (r: OpenAIModel)
        ensures
            r == OpenAIModel::TextDavinci,
    {
        OpenAIModel::TextDavinci
    }
}

/// A substitution that `OpenAIModel::resolve` made: the backend has no model
/// of the focus at the tier asked for, and the model of a smaller tier
/// stands in. It is advice for the user and stops nothing.
#[derive(Copy, Clone, Debug, PartialEq, Eq)]
pub struct Fallback {
    pub focus: ModelFocus,
    pub requested: Model,
    pub substituted: Model,
}

impl Fallback {
    /// The warning that tells the user of the substitution.
    pub open spec fn warning_text(self) -> Seq<char> {
        "warning: No exact matching OpenAI model for "@ + self.requested.name()
            + " option with a "@ + self.focus.name() + " focus. Falling back to "@
            + self.substituted.name() + " option with a "@ + self.focus.name() + " focus."@
    }

    /// The warning that tells the user of the substitution.
    pub fn warning(&self) -> (r: String)
        ensures
            r@ == self.warning_text(),
    {
        let mut text = "warning: No exact matching OpenAI model for ".to_owned();
        text.append(self.requested.label());
        text.append(" option with a ");
        text.append(self.focus.label());
        text.append(" focus. Falling back to ");
        text.append(self.substituted.label());
        text.append(" option with a ");
        text.append(self.focus.label());
        text.append(" focus.");
        text
    }
}

/// A resolved model, with the substitution if one was made.
#[derive(Copy, Clone, Debug, PartialEq, Eq)]
pub struct Resolution {
    pub model: OpenAIModel,
    pub fallback: Option<Fallback>,
}

impl OpenAIModel {
    /// The identifier by which the service knows the model.
    pub open spec fn versioned(self) -> Seq<char> {
        match self {
            OpenAIModel::TextDavinci => "text-davinci-003"@,
            OpenAIModel::TextCurie => "text-curie-001"@,
            OpenAIModel::TextBabbage => "text-babbage-001"@,
            OpenAIModel::TextAda => "text-ada-001"@,
            OpenAIModel::CodeDavinci => "code-davinci-002"@,
            OpenAIModel::CodeCushman => "code-cushman-001"@,
        }
    }

    /// The identifier by which the service knows the model.
    pub fn to_versioned(&self) -> (r: &'static str)
        ensures
            r@ == self.versioned(),
    {
        match self {
            OpenAIModel::TextDavinci => "text-davinci-003",
            OpenAIModel::TextCurie => "text-curie-001",
            OpenAIModel::TextBabbage => "text-babbage-001",
            OpenAIModel::TextAda => "text-ada-001",
            OpenAIModel::CodeDavinci => "code-davinci-002",
            OpenAIModel::CodeCushman => "code-cushman-001",
        }
    }

    /// The model that the backend has for exactly this focus and tier.
    pub open spec fn exact(focus: ModelFocus, tier: Model) -> Option<OpenAIModel> {
        match (focus, tier) {
            (ModelFocus::Text, Model::Tiny) => Some(OpenAIModel::TextAda),
            (ModelFocus::Text, Model::Small) => Some(OpenAIModel::TextBabbage),
            (ModelFocus::Text, Model::Medium) => Some(OpenAIModel::TextCurie),
            (ModelFocus::Text, Model::XXLarge) => Some(OpenAIModel::TextDavinci),
            (ModelFocus::Code, Model::Medium) => Some(OpenAIModel::CodeCushman),
            (ModelFocus::Code, Model::XXLarge) => Some(OpenAIModel::CodeDavinci),
            _ => None,
        }
    }

    /// The largest tier, not above `tier`, at which the backend has a model
    /// of the focus.
    pub open spec fn nearest_tier(focus: ModelFocus, tier: Model) -> Option<Model>
        decreases tier.rank(),
    {
        if Self::exact(focus, tier) is Some {
            Some(tier)
        } else {
            match tier.below() {
                Some(smaller) => Self::nearest_tier(focus, smaller),
                None => None,
            }
        }
    }

    /// What a request for a focus and a tier resolves to: the model of the
    /// nearest tier, with a note of the substitution where that is not the
    /// tier asked for; a failure where there is no such tier.
    pub open spec fn resolution(focus: ModelFocus, tier: Model) -> Result<Resolution, SessionError> {
        match Self::nearest_tier(focus, tier) {
            Some(found) => Ok(
                Resolution {
                    model: Self::exact(focus, found)->0,
                    fallback: if found == tier {
                        None
                    } else {
                        Some(Fallback { focus, requested: tier, substituted: found })
                    },
                },
            ),
            None => Err(SessionError::NoMatchingModel),
        }
    }

    /// Resolves a focus and a tier to a model of the backend.
    pub fn resolve(focus: ModelFocus, tier: Model) -> (r: Result<Resolution, SessionError>)
        ensures
            r == Self::resolution(focus, tier),
    {
        reveal_with_fuel(OpenAIModel::nearest_tier, 6);
        let fallback = Some(Fallback { focus, requested: tier, substituted: Model::Medium });
        match (focus, tier) {
            (ModelFocus::Text, Model::Tiny) => Ok(
                Resolution { model: OpenAIModel::TextAda, fallback: None },
            ),
            (ModelFocus::Code, Model::Tiny) | (ModelFocus::Code, Model::Small) => Err(
                SessionError::NoMatchingModel,
            ),
            (ModelFocus::Text, Model::Small) => Ok(
                Resolution { model: OpenAIModel::TextBabbage, fallback: None },
            ),
            (ModelFocus::Text, Model::Medium) => Ok(
                Resolution { model: OpenAIModel::TextCurie, fallback: None },
            ),
            (ModelFocus::Code, Model::Medium) => Ok(
                Resolution { model: OpenAIModel::CodeCushman, fallback: None },
            ),
            (ModelFocus::Text, Model::Large) => Ok(
                Resolution { model: OpenAIModel::TextCurie, fallback },
            ),
            (ModelFocus::Code, Model::Large) => Ok(
                Resolution { model: OpenAIModel::CodeCushman, fallback },
            ),
            (ModelFocus::Text, Model::XLarge) => Ok(
                Resolution { model: OpenAIModel::TextCurie, fallback },
            ),
            (ModelFocus::Code, Model::XLarge) => Ok(
                Resolution { model: OpenAIModel::CodeCushman, fallback },
            ),
            (ModelFocus::Code, Model::XXLarge) => Ok(
                Resolution { model: OpenAIModel::CodeDavinci, fallback: None },
            ),
            (ModelFocus::Text, Model::XXLarge) => Ok(
                Resolution { model: OpenAIModel::TextDavinci, fallback: None },
            ),
        }
    }
}

/// Resolution prefers the exact model and otherwise degrades to the nearest
/// smaller tier: the tier found is not above the one asked for, the backend
/// has a model there, and it has none at any tier in between. Resolution
/// fails only where the backend has no model at or below the tier.
pub proof fn law_nearest_tier(focus: ModelFocus, tier: Model)
    ensures
        match OpenAIModel::nearest_tier(focus, tier) {
            Some(found) => {
                &&& found.rank() <= tier.rank()
                &&& OpenAIModel::exact(focus, found) is Some
                &&& forall|other: Model|
                    found.rank() < other.rank() <= tier.rank() ==> OpenAIModel::exact(
                        focus,
                        other,
                    ) is None
            },
            None => forall|other: Model|
                other.rank() <= tier.rank() ==> OpenAIModel::exact(focus, other) is None,
        },
{
    reveal_with_fuel(OpenAIModel::nearest_tier, 6);
}

impl TryFrom<(ModelFocus, Model)> for OpenAIModel {
    type Error = SessionError;

    /// The model that a focus and a tier resolve to, without the note of a
    /// substitution: `OpenAIModel::resolve` gives both.
    fn try_from(models: (ModelFocus, Model)) -> (r: Result<OpenAIModel, SessionError>) {
        match OpenAIModel::resolve(models.0, models.1) {
            Ok(resolution) => Ok(resolution.model),
            Err(error) => Err(error),
        }
    }
}

impl vstd::std_specs::convert::TryFromSpecImpl<(ModelFocus, Model)> for OpenAIModel {
    open spec fn obeys_try_from_spec() -> bool {
        true
    }

    open spec fn try_from_spec(models: (ModelFocus, Model)) -> Result<OpenAIModel, SessionError> {
        match OpenAIModel::resolution(models.0, models.1) {
            Ok(resolution) => Ok(resolution.model),
            Err(error) => Err(error),
        }
    }
}

/// One choice of a completion response.
#[derive(Clone, Debug)]
pub struct OpenAISessionChoice {
    pub text: String,
    pub index: u32,
    pub logprobs: Option<u32>,
    pub finish_reason: Option<String>,
}

/// The body of a completion request.
#[derive(Clone, Debug)]
pub struct OpenAISessionRequest {
    pub model: &'static str,
    pub prompt: String,
    pub max_tokens: usize,
    pub temperature: OpenAITemperature,
    pub n: usize,
}

/// A completion session that is ready to run: its options resolved and
/// validated.
#[derive(Clone, Copy, Debug)]
pub struct OpenAISessionCommand {
    pub temperature: OpenAITemperature,
    pub model: OpenAIModel,
    pub response_count: usize,
    /// The substitution made when the model was resolved, for the caller to
    /// report.
    pub fallback: Option<Fallback>,
}

impl Default for OpenAISessionCommand {
    fn default() -> (r: OpenAISessionCommand)
        ensures
            r == (OpenAISessionCommand {
                temperature: OpenAITemperature(0),
                model: OpenAIModel::TextDavinci,
                response_count: 0,
                fallback: None,
            }),
    {
        OpenAISessionCommand {
            temperature: OpenAITemperature(0),
            model: OpenAIModel::TextDavinci,
            response_count: 0,
            fallback: None,
        }
    }
}

impl<'a> TryFrom<&'a SessionOptions> for OpenAISessionCommand {
    type Error = SessionError;

    /// Resolves the model and validates the temperature of a session. The
    /// model is looked at first. An absent temperature is 0.8, an absent
    /// response count 1.
    fn try_from(options: &'a SessionOptions) -> (r: Result<OpenAISessionCommand, SessionError>) {
        let resolution = match OpenAIModel::resolve(options.model_focus, options.model) {
            Ok(resolution) => resolution,
            Err(error) => {
                return Err(error);
            },
        };
        let bits = match options.completion.temperature {
            Some(bits) => bits,
            None => DEFAULT_TEMPERATURE,
        };
        let temperature = match OpenAITemperature::try_from(bits) {
            Ok(temperature) => temperature,
            Err(error) => {
                return Err(error);
            },
        };
        let response_count = match options.completion.response_count {
            Some(count) => count,
            None => 1,
        };
        Ok(
            OpenAISessionCommand {
                temperature,
                model: resolution.model,
                response_count,
                fallback: resolution.fallback,
            },
        )
    }
}

impl<'a> vstd::std_specs::convert::TryFromSpecImpl<&'a SessionOptions> for OpenAISessionCommand {
    open spec fn obeys_try_from_spec() -> bool {
        true
    }

    open spec fn try_from_spec(options: &'a SessionOptions) -> Result<
        OpenAISessionCommand,
        SessionError,
    > {
        let bits = match options.completion.temperature {
            Some(bits) => bits,
            None => DEFAULT_TEMPERATURE,
        };
        match OpenAIModel::resolution(options.model_focus, options.model) {
            Err(error) => Err(error),
            Ok(resolution) => if OpenAITemperature::accepts(bits) {
                Ok(
                    OpenAISessionCommand {
                        temperature: OpenAITemperature(bits),
                        model: resolution.model,
                        response_count: match options.completion.response_count {
                            Some(count) => count,
                            None => 1,
                        },
                        fallback: resolution.fallback,
                    },
                )
            } else {
                Err(SessionError::TemperatureOutOfValidRange)
            },
        }
    }
}

/// How many tokens a completion may have.
pub const MAX_TOKENS: usize = 1000;

/// The endpoint of completion requests.
pub open spec fn completions_url() -> Seq<char> {
    "https://api.openai.com/v1/completions"@
}

impl OpenAISessionCommand {
    /// Builds the request that sends a prompt. It carries the model by its
    /// identifier, the prompt, the temperature and the number of replies as
    /// the command holds them, and is authorized by the API key of the
    /// environment or else of the configuration. Without a key nothing can
    /// be sent.
    pub fn request(&self, environment_key: Option<String>, config: &Config, prompt: &str) -> (r:
        Result<Post<OpenAISessionRequest>, SessionError>)
        ensures
            match api_key_of(environment_key, *config) {
                Some(key) => {
                    &&& r matches Ok(post)
                    &&& post.url@ == completions_url()
                    &&& post.bearer_auth@ == key
                    &&& post.json.model@ == self.model.versioned()
                    &&& post.json.prompt@ == prompt@
                    &&& post.json.max_tokens == MAX_TOKENS
                    &&& post.json.temperature == self.temperature
                    &&& post.json.n == self.response_count
                },
                None => r == Err::<Post<OpenAISessionRequest>, SessionError>(
                    SessionError::Unauthorized,
                ),
            },
    {
        match api_key(environment_key, config) {
            Some(key) => Ok(
                Post {
                    url: "https://api.openai.com/v1/completions",
                    bearer_auth: key,
                    json: OpenAISessionRequest {
                        model: self.model.to_versioned(),
                        prompt: prompt.to_owned(),
                        max_tokens: MAX_TOKENS,
                        temperature: self.temperature,
                        n: self.response_count,
                    },
                },
            ),
            None => Err(SessionError::Unauthorized),
        }
    }
}

/// The texts of a sequence of choices, in order.
pub open spec fn choice_texts(choices: Seq<OpenAISessionChoice>) -> Seq<Seq<char>> {
    choices.map_values(|choice: OpenAISessionChoice| choice.text@)
}

/// The texts of a sequence of strings, in order.
pub open spec fn texts_of(strings: Seq<String>) -> Seq<Seq<char>> {
    strings.map_values(|s: String| s@)
}

/// The result of a session: the text of every choice, in the order of the
/// response. A failure status gives the service's error as it came, an
/// undecodable body a decode error.
pub fn session_result(reply: Reply<OpenAISessionChoice>) -> (r: SessionResult)
    ensures
        match reply {
            Reply::Failure(error) => r == Err::<Vec<String>, SessionError>(
                SessionError::OpenAIError(error),
            ),
            Reply::Undecodable(why) => {
                &&& r matches Err(SessionError::Decode(reason))
                &&& reason@ == why@
            },
            Reply::Success(response) => {
                &&& r matches Ok(texts)
                &&& texts_of(texts@) == choice_texts(response.choices@)
            },
        },
{
    match reply {
        Reply::Failure(error) => Err(SessionError::OpenAIError(error)),
        Reply::Undecodable(why) => Err(SessionError::Decode(why)),
        Reply::Success(response) => {
            let ghost all = response.choices@;
            let mut texts: Vec<String> = Vec::new();
            for choice in it: response.choices
                invariant
                    it.seq() == all,
                    texts@.len() == it.index(),
                    forall|i: int| 0 <= i < texts@.len() ==> (#[trigger] texts@[i])@ == all[i].text@,
            {
                texts.push(choice.text);
            }
            assert(texts_of(texts@) =~= choice_texts(all));
            Ok(texts)
        },
    }
}

} // verus!
