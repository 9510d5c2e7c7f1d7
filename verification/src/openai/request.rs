//! What every request to the service carries.

use crate::Config;
use vstd::prelude::*;

verus! {

/// An authorized POST request, ready to be sent.
#[derive(Clone, Debug)]
pub struct Post<B> {
    /// The endpoint.
    pub url: &'static str,
    /// The API key, sent as a bearer token.
    pub bearer_auth: String,
    /// The body, sent as JSON.
    pub json: B,
}

/// The API key in force: the one of the environment or, where that gives
/// none, the one of the configuration.
pub open spec fn api_key_of(environment: Option<String>, config: Config) -> Option<Seq<char>> {
    match environment {
        Some(key) => Some(key@),
        None => match config.api_key_openai {
            Some(key) => Some(key@),
            None => None,
        },
    }
}

/// Picks the API key: the one of the environment or, where that gives none,
/// the one of the configuration.
pub fn api_key(environment: Option<String>, config: &Config) -> (r: Option<String>)
    ensures
        match api_key_of(environment, *config) {
            Some(key) => r matches Some(found) && found@ == key,
            None => r is None,
        },
{
    match environment {
        Some(key) => Some(key),
        None => match &config.api_key_openai {
            Some(key) => Some(key.clone()),
            None => None,
        },
    }
}

} // verus!
