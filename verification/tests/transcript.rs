use openai_client::chat::{chat_messages, ChatMessage, ChatOptions, ChatRole};
use openai_client::completion::CompletionFile;
use openai_client::text::chars_of;
use openai_client::transcript::entry_spans;

fn options(transcript: &str) -> ChatOptions {
    ChatOptions {
        file: CompletionFile { transcript: transcript.to_string() },
        ..ChatOptions::default()
    }
}

fn budget(transcript: &str, tokens_max: usize, tokens_balance: u8) -> ChatOptions {
    ChatOptions { tokens_max, tokens_balance, ..options(transcript) }
}

fn system() -> ChatMessage {
    ChatMessage::new(ChatRole::System, "")
}

fn user(text: &str) -> ChatMessage {
    ChatMessage::new(ChatRole::User, text)
}

fn ai(text: &str) -> ChatMessage {
    ChatMessage::new(ChatRole::Ai, text)
}

#[test]
fn empty_transcript_leaves_the_system_message() {
    let mut given = options("");
    given.system = "You're a duck.".to_string();
    assert_eq!(chat_messages(&given), vec![ChatMessage::new(ChatRole::System, "You're a duck.")]);
}

#[test]
fn text_before_the_first_entry_is_left_out() {
    assert_eq!(chat_messages(&options("notes\nmore\nUSER: hi")), vec![system(), user("hi")]);
    assert_eq!(chat_messages(&options("no entries at all")), vec![system()]);
}

#[test]
fn label_counts_only_where_a_line_begins() {
    assert_eq!(
        chat_messages(&options("USER: tell the AI: hello\nand USER: too\nAI: ok")),
        vec![system(), user("tell the AI: hello\nand USER: too"), ai("ok")]
    );
    assert_eq!(chat_messages(&options(" USER: hi")), vec![system()]);
}

#[test]
fn content_is_trimmed_and_may_be_empty() {
    assert_eq!(
        chat_messages(&options("USER:\nAI:   spaced out  \n\n\nUSER:last\n")),
        vec![system(), user(""), ai("spaced out"), user("last")]
    );
}

#[test]
fn labels_follow_the_prefixes() {
    let given = ChatOptions {
        prefix_user: "Human".to_string(),
        prefix_ai: "Bot".to_string(),
        ..options("Human: hi\nBot: hello\nUSER: not an entry\nAI: nor this")
    };
    assert_eq!(
        chat_messages(&given),
        vec![system(), user("hi"), ai("hello\nUSER: not an entry\nAI: nor this")]
    );
}

#[test]
fn labels_are_exact_about_case() {
    assert_eq!(chat_messages(&options("user: hi\nUSER: hey")), vec![system(), user("hey")]);
}

#[test]
fn user_label_counts_where_both_labels_fit() {
    let given = ChatOptions {
        prefix_user: "X".to_string(),
        prefix_ai: "X".to_string(),
        ..options("X: one\nX: two")
    };
    assert_eq!(chat_messages(&given), vec![system(), user("one"), user("two")]);
}

#[test]
fn spans_bound_the_content_of_each_entry() {
    let transcript = chars_of("USER: hey\nAI:  you \n");
    let spans = entry_spans(&transcript, &chars_of("USER"), &chars_of("AI"));
    assert_eq!(spans.len(), 2);
    assert_eq!((spans[0].role, spans[0].from, spans[0].to), (ChatRole::User, 6, 9));
    assert_eq!((spans[1].role, spans[1].from, spans[1].to), (ChatRole::Ai, 15, 18));
}

#[test]
fn tokens_are_estimated_at_four_characters_each() {
    // Four characters take one token, five take two.
    let transcript = "USER: aaaa\nAI: bbbbb\n";
    let all = vec![system(), user("aaaa"), ai("bbbbb")];
    assert_eq!(chat_messages(&budget(transcript, 3, 100)), all);
    assert_eq!(chat_messages(&budget(transcript, 2, 100)), vec![system(), ai("bbbbb")]);
    assert_eq!(chat_messages(&budget(transcript, 1, 100)), vec![system()]);
    assert_eq!(chat_messages(&budget(transcript, 0, 100)), vec![system()]);
}

#[test]
fn budget_is_the_share_of_the_limit_rounded_down() {
    let transcript = "USER: aaaa\nAI: bbbbb\n";
    // Half of 5 is 2: the assistant's two tokens fit, the user's do not as well.
    assert_eq!(chat_messages(&budget(transcript, 5, 50)), vec![system(), ai("bbbbb")]);
    assert_eq!(chat_messages(&budget(transcript, 6, 50)), vec![system(), user("aaaa"), ai("bbbbb")]);
    assert_eq!(chat_messages(&budget(transcript, 1000, 0)), vec![system()]);
    assert_eq!(
        chat_messages(&budget(transcript, usize::MAX, 255)),
        vec![system(), user("aaaa"), ai("bbbbb")]
    );
}

#[test]
fn system_message_counts_against_the_budget_and_always_stays() {
    let mut given = budget("USER: aaaa\nAI: bbbbb\n", 4, 100);
    given.system = "12345678".to_string();
    assert_eq!(
        chat_messages(&given),
        vec![ChatMessage::new(ChatRole::System, "12345678"), ai("bbbbb")]
    );
    given.tokens_max = 1;
    assert_eq!(chat_messages(&given), vec![ChatMessage::new(ChatRole::System, "12345678")]);
}

#[test]
fn oldest_messages_leave_first() {
    let transcript = "USER: aaaa\nAI: bbbb\nUSER: cccc\nAI: dddd\n";
    assert_eq!(
        chat_messages(&budget(transcript, 3, 100)),
        vec![system(), ai("bbbb"), user("cccc"), ai("dddd")]
    );
    assert_eq!(chat_messages(&budget(transcript, 1, 100)), vec![system(), ai("dddd")]);
}

#[test]
fn characters_are_counted_not_bytes() {
    // Four characters of three bytes each take one token.
    assert_eq!(
        chat_messages(&budget("USER: 日本語話", 1, 100)),
        vec![system(), user("日本語話")]
    );
}
