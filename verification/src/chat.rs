//! Roles, messages and errors of a chat.

use crate::completion::{CompletionFile, CompletionOptions};
use crate::float::DEFAULT_TEMPERATURE;
use crate::openai::response::OpenAIError;
use crate::text::chars_of;
use crate::transcript::{entry_spans, message_views, span_messages, transcript_messages, Span};
use vstd::prelude::*;

verus! {

/// Who wrote a message.
#[derive(Clone, Copy, Debug, PartialEq, Eq, Structural)]
pub enum ChatRole {
    User,
    Ai,
    System,
}

impl ChatRole {
    /// The text that opens a transcript entry of this role.
    pub open spec fn text(self) -> Seq<char> {
        match self {
            ChatRole::User => "USER: "@,
            ChatRole::Ai => "AI: "@,
            ChatRole::System => "SYSTEM: "@,
        }
    }

    /// The text that opens a transcript entry of this role.
    pub fn label(&self) -> (r: &'static str)
        ensures
            r@ == self.text(),
    {
        match self {
            ChatRole::User => "USER: ",
            ChatRole::Ai => "AI: ",
            ChatRole::System => "SYSTEM: ",
        }
    }
}

/// One message of a conversation.
#[derive(Clone, Debug, PartialEq, Eq)]
pub struct ChatMessage {
    pub role: ChatRole,
    pub content: String,
}

/// What a `ChatMessage` holds, as mathematical values.
pub ghost struct MessageView {
    pub role: ChatRole,
    pub content: Seq<char>,
}

impl View for ChatMessage {
    type V = MessageView;

    open spec fn view(&self) -> MessageView {
        MessageView { role: self.role, content: self.content@ }
    }
}

impl ChatMessage {
    /// A message of a role with a copy of the content.
    pub fn new(role: ChatRole, content: &str) -> (r: ChatMessage)
        ensures
            r@ == (MessageView { role, content: content@ }),
    {
        ChatMessage { role, content: content.to_owned() }
    }
}

/// The messages of a conversation, oldest first.
pub type ChatMessages = Vec<ChatMessage>;

/// Why a chat request gave no result.
#[derive(Clone, Debug, PartialEq, Eq)]
pub enum ChatError {
    /// No API key was available; nothing was sent.
    Unauthorized,
    /// The service answered with a failure status; its error body is kept as
    /// it came.
    OpenAIError(OpenAIError),
    /// A response body did not have the expected shape. Holds the decoder's
    /// description.
    Decode(String),
    /// The event stream failed in mid-stream. Holds the transport's
    /// description.
    EventSource(String),
}

/// What a chat returns: the messages of the conversation, or why there are
/// none.
pub type ChatResult = Result<ChatMessages, ChatError>;

/// What the caller asked of a chat.
#[derive(Clone, Debug)]
pub struct ChatOptions {
    pub completion: CompletionOptions,
    /// The conversation so far.
    pub file: CompletionFile,
    /// Whether to keep the exchange out of the transcript.
    pub no_context: bool,
    /// The label of the assistant's transcript entries, without the colon.
    pub prefix_ai: String,
    /// The label of the user's transcript entries, without the colon.
    pub prefix_user: String,
    /// Whether to stream the reply.
    pub stream: bool,
    /// The system message that opens every request.
    pub system: String,
    /// The sampling temperature, as the bits of an `f32`.
    pub temperature: u32,
    /// The share of `tokens_max` that the messages sent may take, in percent.
    pub tokens_balance: u8,
    /// How many tokens the model can take in and give out together.
    pub tokens_max: usize,
}

impl Default for ChatOptions {
    fn default() -> (r: ChatOptions)
        ensures
            r.completion.append is None,
            r.completion.once is None,
            r.completion.quiet is None,
            r.completion.response_count is None,
            r.completion.temperature is None,
            r.file.transcript@ == Seq::<char>::empty(),
            !r.no_context,
            r.prefix_ai@ == "AI"@,
            r.prefix_user@ == "USER"@,
            !r.stream,
            r.system@ == Seq::<char>::empty(),
            r.temperature == DEFAULT_TEMPERATURE,
            r.tokens_balance == 50,
            r.tokens_max == 4096,
    {
        ChatOptions {
            completion: CompletionOptions::default(),
            file: CompletionFile::default(),
            no_context: false,
            prefix_ai: "AI".to_owned(),
            prefix_user: "USER".to_owned(),
            stream: false,
            system: String::new(),
            temperature: DEFAULT_TEMPERATURE,
            tokens_balance: 50,
            tokens_max: 4096,
        }
    }
}

/// The estimate of how many tokens a text takes: one for every four
/// characters, rounded up.
pub open spec fn estimated_tokens(text: Seq<char>) -> nat {
    ((text.len() + 3) / 4) as nat
}

/// The estimate for a run of messages.
pub open spec fn cost(messages: Seq<MessageView>) -> nat
    decreases messages.len(),
{
    if messages.len() == 0 {
        0
    } else {
        estimated_tokens(messages[0].content) + cost(messages.skip(1))
    }
}

/// How many tokens the messages sent may take: the given percentage of the
/// model's limit, rounded down.
pub open spec fn token_budget(tokens_max: usize, tokens_balance: u8) -> nat {
    (tokens_max * tokens_balance / 100) as nat
}

/// The part of a history that is sent: the oldest messages are left out, one
/// by one, until the rest and the system message fit the budget or nothing
/// is left.
pub open spec fn kept(system_cost: nat, history: Seq<MessageView>, budget: nat) -> Seq<MessageView>
    decreases history.len(),
{
    if history.len() > 0 && system_cost + cost(history) > budget {
        kept(system_cost, history.skip(1), budget)
    } else {
        history
    }
}

impl ChatOptions {
    /// The messages of a request: the system message, then as much of the
    /// end of the transcript as fits the budget.
    pub open spec fn context(&self) -> Seq<MessageView> {
        seq![MessageView { role: ChatRole::System, content: self.system@ }] + kept(
            estimated_tokens(self.system@),
            transcript_messages(self.file.transcript@, self.prefix_user@, self.prefix_ai@),
            token_budget(self.tokens_max, self.tokens_balance),
        )
    }
}

/// What is kept is the longest end of the history that fits the budget
/// together with the system message.
pub proof fn law_kept_longest_fit(system_cost: nat, history: Seq<MessageView>, budget: nat)
    ensures
        exists|first: int|
            {
                &&& 0 <= first <= history.len()
                &&& kept(system_cost, history, budget) == #[trigger] history.skip(first)
                &&& first < history.len() ==> system_cost + cost(history.skip(first)) <= budget
                &&& forall|earlier: int|
                    0 <= earlier < first ==> system_cost + cost(#[trigger] history.skip(earlier))
                        > budget
            },
    decreases history.len(),
{
    if history.len() > 0 && system_cost + cost(history) > budget {
        let rest = history.skip(1);
        law_kept_longest_fit(system_cost, rest, budget);
        let first = choose|first: int|
            {
                &&& 0 <= first <= rest.len()
                &&& kept(system_cost, rest, budget) == #[trigger] rest.skip(first)
                &&& first < rest.len() ==> system_cost + cost(rest.skip(first)) <= budget
                &&& forall|earlier: int|
                    0 <= earlier < first ==> system_cost + cost(#[trigger] rest.skip(earlier))
                        > budget
            };
        assert(rest.skip(first) =~= history.skip(first + 1));
        assert forall|earlier: int| 0 <= earlier < first + 1 implies system_cost + cost(
            #[trigger] history.skip(earlier),
        ) > budget by {
            if earlier == 0 {
                assert(history.skip(0) =~= history);
            } else {
                assert(rest.skip(earlier - 1) =~= history.skip(earlier));
            }
        }
        assert(kept(system_cost, history, budget) == history.skip(first + 1));
    } else {
        assert(history.skip(0) =~= history);
    }
}

/// The estimate for a text of `len` characters.
fn text_cost(len: usize) -> (c: u128)
    ensures
        c == (len + 3) / 4,
        c <= 0x4000_0000_0000_0000,
{
    (len as u128 + 3) / 4
}

/// The messages of a request: the system message, then as much of the end of
/// the transcript as fits the budget.
pub fn chat_messages(options: &ChatOptions) -> (messages: Vec<ChatMessage>)
    ensures
        message_views(messages@) == options.context(),
{
    let transcript = options.file.transcript.as_str();
    let chars = chars_of(transcript);
    let prefix_user = chars_of(options.prefix_user.as_str());
    let prefix_ai = chars_of(options.prefix_ai.as_str());
    let spans = entry_spans(&chars, &prefix_user, &prefix_ai);
    let n = spans.len();
    let system_cost = text_cost(options.system.as_str().unicode_len());
    assert(options.tokens_max * options.tokens_balance <= u128::MAX) by (nonlinear_arith)
        requires
            options.tokens_max <= 0xffff_ffff_ffff_ffff,
            options.tokens_balance <= 0xff,
    ;
    let budget: u128 = options.tokens_max as u128 * options.tokens_balance as u128 / 100;
    let ghost history = span_messages(chars@, spans@);
    let mut total: u128 = system_cost;
    let mut i: usize = n;
    while i > 0
        invariant
            i <= n == spans@.len(),
            history == span_messages(chars@, spans@),
            forall|k: int| 0 <= k < spans@.len() ==> (#[trigger] spans@[k]).within(chars@),
            total == system_cost + cost(history.skip(i as int)),
            total <= 0x4000_0000_0000_0000 * (1 + n - i),
        decreases i,
    {
        i = i - 1;
        proof {
            assert(spans@[i as int].within(chars@));
            assert(history.skip(i as int).skip(1) =~= history.skip(i + 1));
            assert(history.skip(i as int)[0] == spans@[i as int].message(chars@));
        }
        total = total + text_cost(spans[i].to - spans[i].from);
    }
    let mut first: usize = 0;
    assert(history.skip(0) =~= history);
    while first < n && total > budget
        invariant
            first <= n == spans@.len(),
            history == span_messages(chars@, spans@),
            forall|k: int| 0 <= k < spans@.len() ==> (#[trigger] spans@[k]).within(chars@),
            total == system_cost + cost(history.skip(first as int)),
            kept(system_cost as nat, history, budget as nat) == kept(
                system_cost as nat,
                history.skip(first as int),
                budget as nat,
            ),
        decreases n - first,
    {
        proof {
            assert(spans@[first as int].within(chars@));
            assert(history.skip(first as int).skip(1) =~= history.skip(first + 1));
            assert(history.skip(first as int)[0] == spans@[first as int].message(chars@));
        }
        total = total - text_cost(spans[first].to - spans[first].from);
        first = first + 1;
    }
    let mut messages: Vec<ChatMessage> = Vec::new();
    messages.push(ChatMessage::new(ChatRole::System, options.system.as_str()));
    let ghost system = MessageView { role: ChatRole::System, content: options.system@ };
    let mut j: usize = first;
    assert(message_views(messages@) =~= seq![system] + history.subrange(first as int, j as int));
    while j < n
        invariant
            first <= j <= n == spans@.len(),
            chars@ == transcript@,
            history == span_messages(chars@, spans@),
            forall|k: int| 0 <= k < spans@.len() ==> (#[trigger] spans@[k]).within(chars@),
            message_views(messages@) == seq![system] + history.subrange(first as int, j as int),
        decreases n - j,
    {
        assert(spans@[j as int].within(chars@));
        let content = transcript.substring_char(spans[j].from, spans[j].to);
        let message = ChatMessage::new(spans[j].role, content);
        proof {
            assert(message@ == history[j as int]);
            let before = message_views(messages@);
            let after = message_views(messages@.push(message));
            assert forall|k: int| 0 <= k < after.len() implies after[k] == (seq![system]
                + history.subrange(first as int, j + 1))[k] by {
                if k < before.len() {
                    assert(after[k] == before[k]);
                }
            }
            assert(after =~= seq![system] + history.subrange(first as int, j + 1));
        }
        messages.push(message);
        j = j + 1;
    }
    proof {
        assert(history.subrange(first as int, n as int) =~= history.skip(first as int));
        assert(token_budget(options.tokens_max, options.tokens_balance) == budget);
        assert(estimated_tokens(options.system@) == system_cost);
    }
    messages
}

impl<'a> TryFrom<&'a ChatOptions> for Vec<ChatMessage> {
    type Error = ChatError;

    /// The messages of a request, as `chat_messages` gives them. It does not
    /// fail.
    fn try_from(options: &'a ChatOptions) -> (r: Result<Vec<ChatMessage>, ChatError>)
        ensures
            r matches Ok(messages) && message_views(messages@) == options.context(),
    {
        Ok(chat_messages(options))
    }
}

/// The conversion fixes the messages by their views; which vector holds them
/// is left open, so it is given no value in specifications.
impl<'a> vstd::std_specs::convert::TryFromSpecImpl<&'a ChatOptions> for Vec<ChatMessage> {
    open spec fn obeys_try_from_spec() -> bool {
        false
    }

    open spec fn try_from_spec(options: &'a ChatOptions) -> Result<Vec<ChatMessage>, ChatError> {
        arbitrary()
    }
}

} // verus!
