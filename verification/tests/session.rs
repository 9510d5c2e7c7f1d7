use openai_client::completion::CompletionOptions;
use openai_client::float::DEFAULT_TEMPERATURE;
use openai_client::openai::request::api_key;
use openai_client::openai::response::{
    is_success, OpenAICompletionResponse, OpenAIError, Reply,
};
use openai_client::openai::session::{
    session_result, Fallback, OpenAIModel, OpenAISessionChoice, OpenAISessionCommand,
    OpenAITemperature, Resolution, MAX_TOKENS,
};
use openai_client::session::{Model, ModelFocus, SessionError, SessionOptions};
use openai_client::Config;

fn temperature(value: f32) -> Result<OpenAITemperature, SessionError> {
    OpenAITemperature::try_from(value.to_bits())
}

fn options(focus: ModelFocus, model: Model, temperature: Option<f32>) -> SessionOptions {
    SessionOptions {
        completion: CompletionOptions {
            temperature: temperature.map(f32::to_bits),
            ..CompletionOptions::default()
        },
        model,
        model_focus: focus,
    }
}

fn choice(text: &str, index: u32) -> OpenAISessionChoice {
    OpenAISessionChoice { text: text.to_string(), index, logprobs: None, finish_reason: None }
}

fn error_body() -> OpenAIError {
    OpenAIError {
        message: "You exceeded your current quota".to_string(),
        kind: "insufficient_quota".to_string(),
        param: None,
        code: Some("insufficient_quota".to_string()),
    }
}

#[test]
fn temperatures_from_zero_to_below_three_are_accepted() {
    for value in [0.0f32, 1.5, 2.99] {
        assert_eq!(temperature(value), Ok(OpenAITemperature(value.to_bits())));
    }
}

#[test]
fn temperatures_outside_the_range_are_rejected() {
    for value in [-0.1f32, 3.0, 5.0] {
        assert_eq!(temperature(value), Err(SessionError::TemperatureOutOfValidRange));
    }
}

#[test]
fn temperature_is_kept_as_it_is() {
    let accepted = temperature(0.8).unwrap();
    assert_eq!(f32::from_bits(accepted.0), 0.8);
    assert_eq!(accepted.0, 0x3f4c_cccd);
}

#[test]
fn temperature_range_is_exact_at_its_ends() {
    let below_three = f32::from_bits(3.0f32.to_bits() - 1);
    assert!(below_three < 3.0);
    assert!(temperature(below_three).is_ok());
    assert!(temperature(3.0).is_err());
    assert!(temperature(-0.0).is_ok());
    assert!(temperature(f32::MIN_POSITIVE).is_ok());
    assert!(temperature(f32::from_bits(1)).is_ok());
    assert!(temperature(-f32::from_bits(1)).is_err());
    assert!(temperature(-f32::MIN_POSITIVE).is_err());
    assert!(temperature(1.0).is_ok());
    assert!(temperature(2.0).is_ok());
}

#[test]
fn what_is_no_number_is_no_temperature() {
    assert!(temperature(f32::NAN).is_err());
    assert!(temperature(-f32::NAN).is_err());
    assert!(temperature(f32::INFINITY).is_err());
    assert!(temperature(f32::NEG_INFINITY).is_err());
    assert!(temperature(f32::MAX).is_err());
}

#[test]
fn validator_agrees_with_the_floor_of_the_number() {
    let mut bits: u32 = 0;
    loop {
        let value = f32::from_bits(bits);
        let floor = value.floor();
        let expected = floor == 0.0 || floor == 1.0 || floor == 2.0;
        assert_eq!(OpenAITemperature::try_from(bits).is_ok(), expected, "bits {:#x}", bits);
        match bits.checked_add(0x0001_0003) {
            Some(next) => bits = next,
            None => break,
        }
    }
}

#[test]
fn code_has_no_model_below_medium() {
    assert_eq!(
        OpenAIModel::resolve(ModelFocus::Code, Model::Tiny),
        Err(SessionError::NoMatchingModel)
    );
    assert_eq!(
        OpenAIModel::resolve(ModelFocus::Code, Model::Small),
        Err(SessionError::NoMatchingModel)
    );
    assert_eq!(
        OpenAIModel::try_from((ModelFocus::Code, Model::Tiny)),
        Err(SessionError::NoMatchingModel)
    );
}

#[test]
fn large_text_falls_back_to_the_medium_text_model() {
    let resolution = OpenAIModel::resolve(ModelFocus::Text, Model::Large).unwrap();
    assert_eq!(resolution.model, OpenAIModel::TextCurie);
    assert_eq!(
        resolution.fallback,
        Some(Fallback {
            focus: ModelFocus::Text,
            requested: Model::Large,
            substituted: Model::Medium
        })
    );
}

#[test]
fn largest_code_model_is_an_exact_match() {
    assert_eq!(
        OpenAIModel::resolve(ModelFocus::Code, Model::XXLarge),
        Ok(Resolution { model: OpenAIModel::CodeDavinci, fallback: None })
    );
}

#[test]
fn resolution_follows_the_table() {
    let exact = [
        (ModelFocus::Text, Model::Tiny, OpenAIModel::TextAda),
        (ModelFocus::Text, Model::Small, OpenAIModel::TextBabbage),
        (ModelFocus::Text, Model::Medium, OpenAIModel::TextCurie),
        (ModelFocus::Text, Model::XXLarge, OpenAIModel::TextDavinci),
        (ModelFocus::Code, Model::Medium, OpenAIModel::CodeCushman),
        (ModelFocus::Code, Model::XXLarge, OpenAIModel::CodeDavinci),
    ];
    for (focus, tier, model) in exact {
        assert_eq!(OpenAIModel::resolve(focus, tier), Ok(Resolution { model, fallback: None }));
        assert_eq!(OpenAIModel::try_from((focus, tier)), Ok(model));
    }
    let inexact = [
        (ModelFocus::Text, Model::Large, OpenAIModel::TextCurie),
        (ModelFocus::Text, Model::XLarge, OpenAIModel::TextCurie),
        (ModelFocus::Code, Model::Large, OpenAIModel::CodeCushman),
        (ModelFocus::Code, Model::XLarge, OpenAIModel::CodeCushman),
    ];
    for (focus, tier, model) in inexact {
        let fallback = Some(Fallback { focus, requested: tier, substituted: Model::Medium });
        assert_eq!(OpenAIModel::resolve(focus, tier), Ok(Resolution { model, fallback }));
        assert_eq!(OpenAIModel::try_from((focus, tier)), Ok(model));
    }
}

#[test]
fn fallback_warning_names_both_tiers_and_the_focus() {
    let fallback = OpenAIModel::resolve(ModelFocus::Text, Model::Large).unwrap().fallback.unwrap();
    assert_eq!(
        fallback.warning(),
        "warning: No exact matching OpenAI model for large option with a text focus. \
         Falling back to medium option with a text focus."
    );
    let fallback =
        OpenAIModel::resolve(ModelFocus::Code, Model::XLarge).unwrap().fallback.unwrap();
    assert_eq!(
        fallback.warning(),
        "warning: No exact matching OpenAI model for x-large option with a code focus. \
         Falling back to medium option with a code focus."
    );
}

#[test]
fn tiers_and_focuses_have_their_names() {
    let names: Vec<&str> = [
        Model::Tiny,
        Model::Small,
        Model::Medium,
        Model::Large,
        Model::XLarge,
        Model::XXLarge,
    ]
    .iter()
    .map(|tier| tier.label())
    .collect();
    assert_eq!(names, vec!["tiny", "small", "medium", "large", "x-large", "xx-large"]);
    assert_eq!(ModelFocus::Text.label(), "text");
    assert_eq!(ModelFocus::Code.label(), "code");
}

#[test]
fn tiers_are_ordered_by_size() {
    assert!(Model::Tiny < Model::Small);
    assert!(Model::Small < Model::Medium);
    assert!(Model::Medium < Model::Large);
    assert!(Model::Large < Model::XLarge);
    assert!(Model::XLarge < Model::XXLarge);
}

#[test]
fn models_have_their_versioned_identifiers() {
    assert_eq!(OpenAIModel::TextDavinci.to_versioned(), "text-davinci-003");
    assert_eq!(OpenAIModel::TextCurie.to_versioned(), "text-curie-001");
    assert_eq!(OpenAIModel::TextBabbage.to_versioned(), "text-babbage-001");
    assert_eq!(OpenAIModel::TextAda.to_versioned(), "text-ada-001");
    assert_eq!(OpenAIModel::CodeDavinci.to_versioned(), "code-davinci-002");
    assert_eq!(OpenAIModel::CodeCushman.to_versioned(), "code-cushman-001");
    assert_eq!(OpenAIModel::default(), OpenAIModel::TextDavinci);
}

#[test]
fn session_takes_defaults_for_what_is_absent() {
    let command =
        OpenAISessionCommand::try_from(&options(ModelFocus::Text, Model::Small, None)).unwrap();
    assert_eq!(command.model, OpenAIModel::TextBabbage);
    assert_eq!(command.temperature, OpenAITemperature(0.8f32.to_bits()));
    assert_eq!(command.temperature.0, DEFAULT_TEMPERATURE);
    assert_eq!(command.response_count, 1);
    assert_eq!(command.fallback, None);
}

#[test]
fn session_keeps_what_is_given() {
    let mut given = options(ModelFocus::Code, Model::Large, Some(1.25));
    given.completion.response_count = Some(3);
    let command = OpenAISessionCommand::try_from(&given).unwrap();
    assert_eq!(command.model, OpenAIModel::CodeCushman);
    assert_eq!(command.temperature, OpenAITemperature(1.25f32.to_bits()));
    assert_eq!(command.response_count, 3);
    assert_eq!(
        command.fallback,
        Some(Fallback {
            focus: ModelFocus::Code,
            requested: Model::Large,
            substituted: Model::Medium
        })
    );
}

#[test]
fn session_looks_at_the_model_before_the_temperature() {
    let both_wrong = options(ModelFocus::Code, Model::Tiny, Some(7.0));
    assert_eq!(
        OpenAISessionCommand::try_from(&both_wrong).err(),
        Some(SessionError::NoMatchingModel)
    );
    let hot = options(ModelFocus::Text, Model::Tiny, Some(3.0));
    assert_eq!(
        OpenAISessionCommand::try_from(&hot).err(),
        Some(SessionError::TemperatureOutOfValidRange)
    );
}

#[test]
fn session_request_carries_the_command() {
    let mut given = options(ModelFocus::Text, Model::XXLarge, Some(0.5));
    given.completion.response_count = Some(2);
    let command = OpenAISessionCommand::try_from(&given).unwrap();
    let config = Config { api_key_openai: Some("from-config".to_string()) };
    let post = command.request(None, &config, "Say quack.").unwrap();
    assert_eq!(post.url, "https://api.openai.com/v1/completions");
    assert_eq!(post.bearer_auth, "from-config");
    assert_eq!(post.json.model, "text-davinci-003");
    assert_eq!(post.json.prompt, "Say quack.");
    assert_eq!(post.json.max_tokens, 1000);
    assert_eq!(post.json.max_tokens, MAX_TOKENS);
    assert_eq!(f32::from_bits(post.json.temperature.0), 0.5);
    assert_eq!(post.json.n, 2);
}

#[test]
fn session_request_needs_a_key() {
    let command = OpenAISessionCommand::default();
    let config = Config { api_key_openai: None };
    assert_eq!(
        command.request(None, &config, "hi").err(),
        Some(SessionError::Unauthorized)
    );
}

#[test]
fn environment_key_wins_over_configured_key() {
    let with = Config { api_key_openai: Some("from-config".to_string()) };
    let without = Config { api_key_openai: None };
    assert_eq!(api_key(Some("from-env".to_string()), &with), Some("from-env".to_string()));
    assert_eq!(api_key(Some("from-env".to_string()), &without), Some("from-env".to_string()));
    assert_eq!(api_key(None, &with), Some("from-config".to_string()));
    assert_eq!(api_key(None, &without), None);
}

#[test]
fn session_result_is_the_text_of_every_choice_in_order() {
    let reply = Reply::Success(OpenAICompletionResponse {
        choices: vec![choice("one", 0), choice("", 1), choice("three", 2)],
    });
    assert_eq!(
        session_result(reply),
        Ok(vec!["one".to_string(), String::new(), "three".to_string()])
    );
    let reply = Reply::Success(OpenAICompletionResponse { choices: vec![] });
    assert_eq!(session_result(reply), Ok(vec![]));
}

#[test]
fn session_surfaces_the_service_error_as_it_came() {
    assert_eq!(
        session_result(Reply::Failure(error_body())),
        Err(SessionError::OpenAIError(error_body()))
    );
}

#[test]
fn session_reports_an_undecodable_body() {
    assert_eq!(
        session_result(Reply::Undecodable("missing field `choices`".to_string())),
        Err(SessionError::Decode("missing field `choices`".to_string()))
    );
}

#[test]
fn success_is_a_status_from_200_to_299() {
    assert!(!is_success(0));
    assert!(!is_success(199));
    assert!(is_success(200));
    assert!(is_success(204));
    assert!(is_success(299));
    assert!(!is_success(300));
    assert!(!is_success(401));
    assert!(!is_success(500));
    assert!(!is_success(u16::MAX));
}
