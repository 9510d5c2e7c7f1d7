//! The chat endpoint: its wire types, the run of a chat, the request and the
//! decoding of a buffered reply.

use crate::chat::{chat_messages, ChatError, ChatMessage, ChatOptions, ChatRole};
use crate::openai::request::{api_key, api_key_of, Post};
use crate::openai::response::Reply;
use crate::text::{
    begins_ignoring_case, lemma_trimmed_twice, starts_with_ignoring_case, trim, trimmed,
};
use crate::transcript::message_views;
use crate::Config;
use vstd::prelude::*;

verus! {

/// A chat that is ready to run.
#[derive(Clone, Debug)]
pub struct OpenAIChatCommand {
    pub options: ChatOptions,
}

impl TryFrom<ChatOptions> for OpenAIChatCommand {
    type Error = ChatError;

    /// Every set of options makes a command.
    fn try_from(options: ChatOptions) -> (r: Result<OpenAIChatCommand, ChatError>) {
        Ok(OpenAIChatCommand { options })
    }
}

impl vstd::std_specs::convert::TryFromSpecImpl<ChatOptions> for OpenAIChatCommand {
    open spec fn obeys_try_from_spec() -> bool {
        true
    }

    open spec fn try_from_spec(options: ChatOptions) -> Result<OpenAIChatCommand, ChatError> {
        Ok(OpenAIChatCommand { options })
    }
}

/// How a request is sent and its reply read.
#[derive(Clone, Copy, Debug, PartialEq, Eq)]
pub enum Transport {
    /// As an event stream, written out as it arrives.
    Stream,
    /// As one buffered response, shown afterwards if `print_output` is set.
    Sync { print_output: bool },
}

/// What happened last in the run of a chat.
#[derive(Clone, Debug)]
pub enum RunEvent {
    /// The run begins.
    Started,
    /// An exchange with the service ended with this result.
    Exchanged(Vec<ChatMessage>),
    /// The user was asked for a line; the flag says whether one came.
    InputRead(bool),
}

/// What the run of a chat does next.
#[derive(Clone, Debug)]
pub enum RunAction {
    /// Send the conversation as it now stands.
    Request(Transport),
    /// Ask the user for the next line.
    ReadInput,
    /// Return these messages.
    Completed(Vec<ChatMessage>),
    /// Return no messages: the user has no more to say.
    Stop,
}

impl OpenAIChatCommand {
    /// The transport that the options ask for. A buffered reply is shown
    /// unless the options ask for quiet.
    pub open spec fn transport_of(self) -> Transport {
        if self.options.stream {
            Transport::Stream
        } else {
            Transport::Sync { print_output: self.options.completion.quiet != Some(true) }
        }
    }

    /// The transport that the options ask for.
    pub fn transport(&self) -> (r: Transport)
        ensures
            r == self.transport_of(),
    {
        if self.options.stream {
            Transport::Stream
        } else {
            let quiet = match self.options.completion.quiet {
                Some(quiet) => quiet,
                None => false,
            };
            Transport::Sync { print_output: !quiet }
        }
    }

    /// Decides how the run of a chat goes on. It begins with a request. An
    /// exchange that gave messages ends the run with them; one that gave
    /// none has the user asked for the next line. With a new line the
    /// conversation is sent again; without one the run ends with no
    /// messages.
    pub fn next_action(&self, event: RunEvent) -> (action: RunAction)
        ensures
            action == match event {
                RunEvent::Started => RunAction::Request(self.transport_of()),
                RunEvent::Exchanged(result) => if result@.len() > 0 {
                    RunAction::Completed(result)
                } else {
                    RunAction::ReadInput
                },
                RunEvent::InputRead(true) => RunAction::Request(self.transport_of()),
                RunEvent::InputRead(false) => RunAction::Stop,
            },
    {
        match event {
            RunEvent::Started => RunAction::Request(self.transport()),
            RunEvent::Exchanged(result) => if result.len() > 0 {
                RunAction::Completed(result)
            } else {
                RunAction::ReadInput
            },
            RunEvent::InputRead(true) => RunAction::Request(self.transport()),
            RunEvent::InputRead(false) => RunAction::Stop,
        }
    }

    /// Whether an exchange reports the conversation back: where text is to
    /// be appended, or the chat is to end after one exchange.
    pub open spec fn reports_messages(self) -> bool {
        self.options.completion.append is Some || self.options.completion.once == Some(true)
    }

    /// What an exchange returns once its reply stands in the transcript: the
    /// messages of the conversation where the options ask for them, none
    /// otherwise.
    pub fn exchange_result(&self) -> (messages: Vec<ChatMessage>)
        ensures
            message_views(messages@) == if self.reports_messages() {
                self.options.context()
            } else {
                Seq::empty()
            },
    {
        let once = match self.options.completion.once {
            Some(once) => once,
            None => false,
        };
        if self.options.completion.append.is_some() || once {
            chat_messages(&self.options)
        } else {
            let messages: Vec<ChatMessage> = Vec::new();
            assert(message_views(messages@) =~= Seq::empty());
            messages
        }
    }

    /// What a buffered exchange returns: nothing where the reply had no
    /// message; otherwise what `exchange_result` gives, the reply's text
    /// being in the transcript by then.
    pub fn sync_result(&self, text: &Option<String>) -> (messages: Vec<ChatMessage>)
        ensures
            message_views(messages@) == if text is Some && self.reports_messages() {
                self.options.context()
            } else {
                Seq::empty()
            },
    {
        if text.is_some() {
            self.exchange_result()
        } else {
            let messages: Vec<ChatMessage> = Vec::new();
            assert(message_views(messages@) =~= Seq::empty());
            messages
        }
    }
}

/// The body of a chat request.
#[derive(Clone, Debug)]
pub struct OpenAIChatRequest {
    pub model: &'static str,
    /// The sampling temperature, as the bits of an `f32`.
    pub temperature: u32,
    pub messages: Vec<ChatMessage>,
    pub stream: bool,
}

/// The endpoint of chat requests.
pub open spec fn chat_url() -> Seq<char> {
    "https://api.openai.com/v1/chat/completions"@
}

/// The model that chats are held with.
pub open spec fn chat_model() -> Seq<char> {
    "gpt-4"@
}

/// Builds the request that sends the conversation. It carries the messages
/// of the options, their temperature and the streaming flag, and is
/// authorized by the API key of the environment or else of the
/// configuration. Without a key nothing can be sent.
pub fn get_request(
    options: &ChatOptions,
    environment_key: Option<String>,
    config: &Config,
    stream: bool,
) -> (r: Result<Post<OpenAIChatRequest>, ChatError>)
    ensures
        match api_key_of(environment_key, *config) {
            Some(key) => {
                &&& r matches Ok(post)
                &&& post.url@ == chat_url()
                &&& post.bearer_auth@ == key
                &&& post.json.model@ == chat_model()
                &&& post.json.temperature == options.temperature
                &&& message_views(post.json.messages@) == options.context()
                &&& post.json.stream == stream
            },
            None => r == Err::<Post<OpenAIChatRequest>, ChatError>(ChatError::Unauthorized),
        },
{
    let messages = chat_messages(options);
    match api_key(environment_key, config) {
        Some(key) => Ok(
            Post {
                url: "https://api.openai.com/v1/chat/completions",
                bearer_auth: key,
                json: OpenAIChatRequest {
                    model: "gpt-4",
                    temperature: options.temperature,
                    messages,
                    stream,
                },
            },
        ),
        None => Err(ChatError::Unauthorized),
    }
}

/// One partial update of a streamed message. Either field may be absent.
#[derive(Clone, Debug)]
pub struct ChatMessageDelta {
    pub role: Option<ChatRole>,
    pub content: Option<String>,
}

/// What a `ChatMessageDelta` holds, as mathematical values.
pub ghost struct DeltaView {
    pub role: Option<ChatRole>,
    pub content: Option<Seq<char>>,
}

impl View for ChatMessageDelta {
    type V = DeltaView;

    open spec fn view(&self) -> DeltaView {
        DeltaView {
            role: self.role,
            content: match self.content {
                Some(c) => Some(c@),
                None => None,
            },
        }
    }
}

impl Default for ChatMessageDelta {
    fn default() -> (r: ChatMessageDelta)
        ensures
            r.role is None,
            r.content is None,
    {
        ChatMessageDelta { role: None, content: None }
    }
}

/// One choice of a streamed frame.
#[derive(Clone, Debug)]
pub struct OpenAIChatDelta {
    pub index: Option<usize>,
    pub delta: ChatMessageDelta,
    pub finish_reason: Option<String>,
}

impl Default for OpenAIChatDelta {
    fn default() -> (r: OpenAIChatDelta)
        ensures
            r.index is None,
            r.delta.role is None,
            r.delta.content is None,
            r.finish_reason is None,
    {
        OpenAIChatDelta { index: None, delta: ChatMessageDelta::default(), finish_reason: None }
    }
}

/// Why the service stopped writing a choice.
#[derive(Clone, Copy, Debug, PartialEq, Eq, Structural)]
pub enum OpenAIFinishReason {
    Stop,
    Length,
    ContentFilter,
}

/// One choice of a buffered chat response.
#[derive(Clone, Debug)]
pub struct OpenAIChatChoice {
    pub index: Option<usize>,
    pub message: Option<ChatMessage>,
    pub finish_reason: Option<OpenAIFinishReason>,
}

/// A reply as it enters the transcript: without the white space around it,
/// and behind the assistant's label. A reply that already begins with the
/// prefix, in whatever letter case, is taken to carry its label and gets no
/// second one.
pub open spec fn normalized_reply(content: Seq<char>, prefix_ai: Seq<char>) -> Seq<char> {
    let text = trimmed(content);
    if begins_ignoring_case(text, prefix_ai) {
        text
    } else {
        prefix_ai + seq![':', ' '] + text
    }
}

/// Trims a reply and puts the assistant's label before it, unless it begins
/// with the prefix already.
pub fn normalize_reply(content: &str, prefix_ai: &str) -> (r: String)
    ensures
        r@ == normalized_reply(content@, prefix_ai@),
{
    let text = trim(content);
    if starts_with_ignoring_case(text, prefix_ai) {
        text.to_owned()
    } else {
        proof {
            reveal_strlit(": ");
            assert(": "@ =~= seq![':', ' ']);
        }
        let mut labelled = prefix_ai.to_owned();
        labelled.append(": ");
        labelled.append(text);
        labelled
    }
}

/// The text that a buffered reply adds to the transcript.
///
/// A failure status gives the service's error as it came, an undecodable
/// body a decode error. Of a response the first choice counts: its message,
/// normalized as `normalized_reply` says, or nothing where it has none.
pub fn handle_sync(prefix_ai: &str, reply: Reply<OpenAIChatChoice>) -> (r: Result<
    Option<String>,
    ChatError,
>)
    requires
        reply matches Reply::Success(response) ==> response.choices@.len() > 0,
    ensures
        match reply {
            Reply::Failure(error) => r == Err::<Option<String>, ChatError>(
                ChatError::OpenAIError(error),
            ),
            Reply::Undecodable(why) => {
                &&& r matches Err(ChatError::Decode(reason))
                &&& reason@ == why@
            },
            Reply::Success(response) => match response.choices@[0].message {
                Some(message) => {
                    &&& r matches Ok(Some(text))
                    &&& text@ == normalized_reply(message.content@, prefix_ai@)
                },
                None => r == Ok::<Option<String>, ChatError>(None),
            },
        },
{
    match reply {
        Reply::Failure(error) => Err(ChatError::OpenAIError(error)),
        Reply::Undecodable(why) => Err(ChatError::Decode(why)),
        Reply::Success(response) => match &response.choices[0].message {
            Some(message) => Ok(Some(normalize_reply(message.content.as_str(), prefix_ai))),
            None => Ok(None),
        },
    }
}

/// A reply comes back from the transcript entry made of it: the entry ends
/// with the trimmed reply, and what stands before it is the label or, where
/// the reply already began with the prefix in some letter case, nothing.
pub proof fn law_reply_recovered(content: Seq<char>, prefix_ai: Seq<char>)
    ensures
        begins_ignoring_case(trimmed(content), prefix_ai) ==> normalized_reply(content, prefix_ai)
            == trimmed(content),
        !begins_ignoring_case(trimmed(content), prefix_ai) ==> normalized_reply(
            content,
            prefix_ai,
        ).skip(prefix_ai.len() as int + 2) == trimmed(content),
        trimmed(content).is_suffix_of(normalized_reply(content, prefix_ai)),
{
    let text = trimmed(content);
    let entry = normalized_reply(content, prefix_ai);
    if begins_ignoring_case(text, prefix_ai) {
        assert(entry.subrange(entry.len() - text.len(), entry.len() as int) =~= text);
    } else {
        assert(entry.skip(prefix_ai.len() as int + 2) =~= text);
        assert(entry.subrange(entry.len() - text.len(), entry.len() as int) =~= text);
    }
}

/// A reply that carries its label is a transcript entry as it stands: once
/// normalized, normalizing it again changes nothing.
pub proof fn law_labelled_reply_stable(content: Seq<char>, prefix_ai: Seq<char>)
    requires
        begins_ignoring_case(trimmed(content), prefix_ai),
    ensures
        normalized_reply(normalized_reply(content, prefix_ai), prefix_ai) == normalized_reply(
            content,
            prefix_ai,
        ),
{
    lemma_trimmed_twice(content);
}

} // verus!
