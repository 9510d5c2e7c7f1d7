use openai_client::chat::{ChatError, ChatMessage, ChatOptions, ChatRole};
use openai_client::completion::{CompletionFile, CompletionOptions};
use openai_client::float::DEFAULT_TEMPERATURE;
use openai_client::openai::chat::{
    get_request, handle_sync, normalize_reply, OpenAIChatChoice, OpenAIChatCommand,
    OpenAIFinishReason, RunAction, RunEvent, Transport,
};
use openai_client::openai::response::{OpenAICompletionResponse, OpenAIError, Reply};
use openai_client::Config;

fn reply_with(content: Option<&str>) -> Reply<OpenAIChatChoice> {
    Reply::Success(OpenAICompletionResponse {
        choices: vec![
            OpenAIChatChoice {
                index: Some(0),
                message: content.map(|text| ChatMessage::new(ChatRole::Ai, text)),
                finish_reason: Some(OpenAIFinishReason::Stop),
            },
            OpenAIChatChoice {
                index: Some(1),
                message: Some(ChatMessage::new(ChatRole::Ai, "second choice")),
                finish_reason: Some(OpenAIFinishReason::Length),
            },
        ],
    })
}

fn command(options: ChatOptions) -> OpenAIChatCommand {
    OpenAIChatCommand::try_from(options).unwrap()
}

fn conversation() -> ChatOptions {
    ChatOptions {
        system: "Be brief.".to_string(),
        file: CompletionFile { transcript: "USER: hey\nAI: hello\n".to_string() },
        ..ChatOptions::default()
    }
}

fn messages() -> Vec<ChatMessage> {
    vec![
        ChatMessage::new(ChatRole::System, "Be brief."),
        ChatMessage::new(ChatRole::User, "hey"),
        ChatMessage::new(ChatRole::Ai, "hello"),
    ]
}

#[test]
fn reply_is_trimmed_and_labelled() {
    assert_eq!(normalize_reply("  hello  ", "AI"), "AI: hello");
    assert_eq!(normalize_reply("\nQuack.\n", "Duck"), "Duck: Quack.");
    assert_eq!(normalize_reply("", "AI"), "AI: ");
}

#[test]
fn reply_that_states_the_prefix_gets_no_second_label() {
    assert_eq!(normalize_reply("AI: hello", "AI"), "AI: hello");
    assert_eq!(normalize_reply("  ai: hello\n", "AI"), "ai: hello");
    assert_eq!(normalize_reply("Ai: hello", "aI"), "Ai: hello");
    assert_eq!(normalize_reply("Aida sings", "AI"), "Aida sings");
}

#[test]
fn normalizing_a_labelled_reply_again_changes_nothing() {
    let once = normalize_reply("  ai: hello  ", "AI");
    assert_eq!(normalize_reply(&once, "AI"), once);
}

#[test]
fn sync_reply_gives_the_first_choice_normalized() {
    assert_eq!(handle_sync("AI", reply_with(Some(" Quack. "))), Ok(Some("AI: Quack.".to_string())));
    assert_eq!(handle_sync("AI", reply_with(Some("AI: Quack."))), Ok(Some("AI: Quack.".to_string())));
}

#[test]
fn sync_reply_without_a_message_gives_nothing() {
    assert_eq!(handle_sync("AI", reply_with(None)), Ok(None));
}

#[test]
fn sync_surfaces_the_service_error_as_it_came() {
    let body = OpenAIError {
        message: "Incorrect API key provided".to_string(),
        kind: "invalid_request_error".to_string(),
        param: None,
        code: Some("invalid_api_key".to_string()),
    };
    assert_eq!(
        handle_sync("AI", Reply::Failure(body.clone())),
        Err(ChatError::OpenAIError(body))
    );
}

#[test]
fn sync_reports_an_undecodable_body() {
    assert_eq!(
        handle_sync("AI", Reply::Undecodable("EOF while parsing".to_string())),
        Err(ChatError::Decode("EOF while parsing".to_string()))
    );
}

#[test]
fn chat_request_carries_the_conversation() {
    let mut options = conversation();
    options.temperature = 1.5f32.to_bits();
    let config = Config { api_key_openai: Some("from-config".to_string()) };
    let post = get_request(&options, Some("from-env".to_string()), &config, true).unwrap();
    assert_eq!(post.url, "https://api.openai.com/v1/chat/completions");
    assert_eq!(post.bearer_auth, "from-env");
    assert_eq!(post.json.model, "gpt-4");
    assert_eq!(f32::from_bits(post.json.temperature), 1.5);
    assert_eq!(post.json.messages, messages());
    assert!(post.json.stream);
    let post = get_request(&options, None, &config, false).unwrap();
    assert_eq!(post.bearer_auth, "from-config");
    assert!(!post.json.stream);
}

#[test]
fn chat_request_needs_a_key() {
    let config = Config { api_key_openai: None };
    assert_eq!(
        get_request(&conversation(), None, &config, false).err(),
        Some(ChatError::Unauthorized)
    );
}

#[test]
fn default_options_are_sound() {
    let options = ChatOptions::default();
    assert_eq!(options.prefix_ai, "AI");
    assert_eq!(options.prefix_user, "USER");
    assert_eq!(options.system, "");
    assert_eq!(options.file.transcript, "");
    assert_eq!(options.temperature, DEFAULT_TEMPERATURE);
    assert_eq!(f32::from_bits(options.temperature), 0.8);
    assert_eq!(options.tokens_max, 4096);
    assert_eq!(options.tokens_balance, 50);
    assert!(!options.stream);
    assert!(!options.no_context);
    assert_eq!(options.completion.quiet, None);
    assert_eq!(options.completion.append, None);
    assert_eq!(options.completion.once, None);
}

#[test]
fn transport_follows_the_options() {
    let streaming = command(ChatOptions { stream: true, ..ChatOptions::default() });
    assert_eq!(streaming.transport(), Transport::Stream);
    let buffered = command(ChatOptions::default());
    assert_eq!(buffered.transport(), Transport::Sync { print_output: true });
    let quiet = command(ChatOptions {
        completion: CompletionOptions { quiet: Some(true), ..CompletionOptions::default() },
        ..ChatOptions::default()
    });
    assert_eq!(quiet.transport(), Transport::Sync { print_output: false });
    let loud = command(ChatOptions {
        completion: CompletionOptions { quiet: Some(false), ..CompletionOptions::default() },
        ..ChatOptions::default()
    });
    assert_eq!(loud.transport(), Transport::Sync { print_output: true });
}

#[test]
fn run_begins_with_a_request() {
    let chat = command(ChatOptions { stream: true, ..ChatOptions::default() });
    assert!(matches!(
        chat.next_action(RunEvent::Started),
        RunAction::Request(Transport::Stream)
    ));
}

#[test]
fn exchange_with_messages_completes_the_run() {
    let chat = command(ChatOptions::default());
    match chat.next_action(RunEvent::Exchanged(messages())) {
        RunAction::Completed(result) => assert_eq!(result, messages()),
        other => panic!("unexpected action {:?}", other),
    }
}

#[test]
fn exchange_without_messages_asks_the_user() {
    let chat = command(ChatOptions::default());
    assert!(matches!(chat.next_action(RunEvent::Exchanged(vec![])), RunAction::ReadInput));
}

#[test]
fn new_input_continues_and_no_input_stops() {
    let chat = command(ChatOptions::default());
    assert!(matches!(
        chat.next_action(RunEvent::InputRead(true)),
        RunAction::Request(Transport::Sync { print_output: true })
    ));
    assert!(matches!(chat.next_action(RunEvent::InputRead(false)), RunAction::Stop));
}

#[test]
fn exchange_reports_messages_only_where_asked() {
    assert_eq!(command(conversation()).exchange_result(), vec![]);
    let mut once = conversation();
    once.completion.once = Some(true);
    assert_eq!(command(once).exchange_result(), messages());
    let mut not_once = conversation();
    not_once.completion.once = Some(false);
    assert_eq!(command(not_once).exchange_result(), vec![]);
    let mut append = conversation();
    append.completion.append = Some(String::new());
    assert_eq!(command(append).exchange_result(), messages());
}

#[test]
fn sync_exchange_without_text_reports_nothing() {
    let mut once = conversation();
    once.completion.once = Some(true);
    let chat = command(once);
    assert_eq!(chat.sync_result(&None), vec![]);
    assert_eq!(chat.sync_result(&Some("AI: hello".to_string())), messages());
    assert_eq!(command(conversation()).sync_result(&Some("AI: hello".to_string())), vec![]);
}
