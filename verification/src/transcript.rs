//! Reading a transcript as the messages of a conversation.
//!
//! A transcript is plain text. An entry begins where a line begins with a
//! speaker's label, the speaker's prefix and a colon, and runs to the next
//! such line or to the end. Text before the first entry belongs to no
//! speaker and is left out.

use crate::chat::{ChatMessage, ChatRole, MessageView};
use crate::text::{chars_of, matches_at, skip_whitespace, skip_whitespace_back, trimmed};
use vstd::prelude::*;

verus! {

/// The label of a speaker: the prefix and a colon.
pub open spec fn label_of(prefix: Seq<char>) -> Seq<char> {
    prefix.push(':')
}

/// Whether a line begins at position `at`.
pub open spec fn line_begins(transcript: Seq<char>, at: int) -> bool {
    at == 0 || (0 < at <= transcript.len() && transcript[at - 1] == '\n')
}

/// The speaker whose entry begins at position `at`, with the position just
/// after the label. Where both labels fit, the user's counts.
pub open spec fn speaker_at(
    transcript: Seq<char>,
    at: int,
    prefix_user: Seq<char>,
    prefix_ai: Seq<char>,
) -> Option<(ChatRole, int)> {
    if 0 <= at <= transcript.len() && line_begins(transcript, at) {
        if label_of(prefix_user).is_prefix_of(transcript.skip(at)) {
            Some((ChatRole::User, at + prefix_user.len() + 1))
        } else if label_of(prefix_ai).is_prefix_of(transcript.skip(at)) {
            Some((ChatRole::Ai, at + prefix_ai.len() + 1))
        } else {
            None
        }
    } else {
        None
    }
}

/// The first position at or after `from` at which an entry begins, or the
/// transcript's length if there is none.
pub open spec fn next_entry(
    transcript: Seq<char>,
    from: int,
    prefix_user: Seq<char>,
    prefix_ai: Seq<char>,
) -> int
    decreases transcript.len() - from,
{
    if from >= transcript.len() {
        transcript.len() as int
    } else if speaker_at(transcript, from, prefix_user, prefix_ai) is Some {
        from
    } else {
        next_entry(transcript, from + 1, prefix_user, prefix_ai)
    }
}

/// `next_entry` finds the first entry at or after `from` and skips none.
pub proof fn lemma_next_entry(
    transcript: Seq<char>,
    from: int,
    prefix_user: Seq<char>,
    prefix_ai: Seq<char>,
)
    requires
        0 <= from <= transcript.len(),
    ensures
        from <= next_entry(transcript, from, prefix_user, prefix_ai) <= transcript.len(),
        next_entry(transcript, from, prefix_user, prefix_ai) < transcript.len() ==> speaker_at(
            transcript,
            next_entry(transcript, from, prefix_user, prefix_ai),
            prefix_user,
            prefix_ai,
        ) is Some,
        forall|at: int|
            from <= at < next_entry(transcript, from, prefix_user, prefix_ai) ==> speaker_at(
                transcript,
                at,
                prefix_user,
                prefix_ai,
            ) is None,
    decreases transcript.len() - from,
{
    if from < transcript.len() && speaker_at(transcript, from, prefix_user, prefix_ai) is None {
        lemma_next_entry(transcript, from + 1, prefix_user, prefix_ai);
    }
}

/// The messages of the entries from position `at` on, where an entry begins
/// at `at`: each has its speaker's role and, as content, the text between its
/// label and the next entry, without the white space around it.
pub open spec fn entries_from(
    transcript: Seq<char>,
    at: int,
    prefix_user: Seq<char>,
    prefix_ai: Seq<char>,
) -> Seq<MessageView>
    decreases transcript.len() - at,
{
    match speaker_at(transcript, at, prefix_user, prefix_ai) {
        Some((role, body)) => {
            let end = next_entry(transcript, body, prefix_user, prefix_ai);
            proof {
                lemma_next_entry(transcript, body, prefix_user, prefix_ai);
            }
            seq![MessageView { role, content: trimmed(transcript.subrange(body, end)) }]
                + entries_from(transcript, end, prefix_user, prefix_ai)
        },
        None => Seq::empty(),
    }
}

/// The messages of a transcript, oldest first.
pub open spec fn transcript_messages(
    transcript: Seq<char>,
    prefix_user: Seq<char>,
    prefix_ai: Seq<char>,
) -> Seq<MessageView> {
    entries_from(
        transcript,
        next_entry(transcript, 0, prefix_user, prefix_ai),
        prefix_user,
        prefix_ai,
    )
}

/// The views of a run of messages.
pub open spec fn message_views(messages: Seq<ChatMessage>) -> Seq<MessageView> {
    messages.map_values(|m: ChatMessage| m@)
}

/// The content of one entry, by its bounds in the transcript.
#[derive(Clone, Copy, Debug)]
pub struct Span {
    pub role: ChatRole,
    pub from: usize,
    pub to: usize,
}

impl Span {
    /// Whether the bounds lie in a transcript.
    pub open spec fn within(self, transcript: Seq<char>) -> bool {
        self.from <= self.to <= transcript.len()
    }

    /// The message that the span stands for.
    pub open spec fn message(self, transcript: Seq<char>) -> MessageView {
        MessageView {
            role: self.role,
            content: transcript.subrange(self.from as int, self.to as int),
        }
    }
}

/// The messages that a run of spans stands for.
pub open spec fn span_messages(transcript: Seq<char>, spans: Seq<Span>) -> Seq<MessageView> {
    spans.map_values(|span: Span| span.message(transcript))
}

/// Whether `label_of(prefix)` stands in `chars` at position `at`.
fn label_at(chars: &Vec<char>, at: usize, prefix: &Vec<char>) -> (r: bool)
    requires
        at <= chars@.len(),
    ensures
        r == label_of(prefix@).is_prefix_of(chars@.skip(at as int)),
        r ==> at + prefix@.len() + 1 <= chars@.len(),
{
    let rest = chars.len() - at;
    if matches_at(chars, at, prefix) && prefix.len() < rest {
        let colon = chars[at + prefix.len()] == ':';
        proof {
            let tail = chars@.skip(at as int);
            let label = label_of(prefix@);
            assert(tail[prefix@.len() as int] == chars@[at + prefix@.len()]);
            if colon {
                assert(label =~= tail.subrange(0, label.len() as int));
            } else {
                assert(label[prefix@.len() as int] == ':');
                if label.is_prefix_of(tail) {
                    assert(tail.subrange(0, label.len() as int)[prefix@.len() as int] == ':');
                }
            }
        }
        colon
    } else {
        proof {
            let tail = chars@.skip(at as int);
            let label = label_of(prefix@);
            if label.is_prefix_of(tail) {
                assert(prefix@ =~= tail.subrange(0, prefix@.len() as int)) by {
                    assert forall|i: int| 0 <= i < prefix@.len() implies prefix@[i] == tail[i] by {
                        assert(label[i] == tail.subrange(0, label.len() as int)[i]);
                    }
                }
            }
        }
        false
    }
}

/// The speaker whose entry begins at `at`, with the position after the label.
fn speaker(chars: &Vec<char>, at: usize, prefix_user: &Vec<char>, prefix_ai: &Vec<char>) -> (r:
    Option<(ChatRole, usize)>)
    requires
        at <= chars@.len(),
    ensures
        match r {
            Some((role, body)) => speaker_at(chars@, at as int, prefix_user@, prefix_ai@) == Some(
                (role, body as int),
            ) && at < body <= chars@.len(),
            None => speaker_at(chars@, at as int, prefix_user@, prefix_ai@) is None,
        },
{
    let n = chars.len();
    if at > 0 && chars[at - 1] != '\n' {
        return None;
    }
    assert(at <= n);
    if label_at(chars, at, prefix_user) {
        Some((ChatRole::User, at + prefix_user.len() + 1))
    } else if label_at(chars, at, prefix_ai) {
        Some((ChatRole::Ai, at + prefix_ai.len() + 1))
    } else {
        None
    }
}

/// The first position at or after `from` at which an entry begins.
fn find_entry(chars: &Vec<char>, from: usize, prefix_user: &Vec<char>, prefix_ai: &Vec<char>) -> (at:
    usize)
    requires
        from <= chars@.len(),
    ensures
        at == next_entry(chars@, from as int, prefix_user@, prefix_ai@),
        from <= at <= chars@.len(),
        at < chars@.len() ==> speaker_at(chars@, at as int, prefix_user@, prefix_ai@) is Some,
{
    let mut at = from;
    while at < chars.len()
        invariant
            from <= at <= chars@.len(),
            next_entry(chars@, from as int, prefix_user@, prefix_ai@) == next_entry(
                chars@,
                at as int,
                prefix_user@,
                prefix_ai@,
            ),
        decreases chars@.len() - at,
    {
        if speaker(chars, at, prefix_user, prefix_ai).is_some() {
            return at;
        }
        at = at + 1;
    }
    at
}

/// The entries of a transcript, each by its role and the bounds of its
/// content.
pub fn entry_spans(chars: &Vec<char>, prefix_user: &Vec<char>, prefix_ai: &Vec<char>) -> (spans:
    Vec<Span>)
    ensures
        span_messages(chars@, spans@) == transcript_messages(chars@, prefix_user@, prefix_ai@),
        forall|i: int| 0 <= i < spans@.len() ==> (#[trigger] spans@[i]).within(chars@),
{
    let mut spans: Vec<Span> = Vec::new();
    let mut at = find_entry(chars, 0, prefix_user, prefix_ai);
    let n = chars.len();
    while at < n
        invariant
            at <= n == chars@.len(),
            span_messages(chars@, spans@) + entries_from(
                chars@,
                at as int,
                prefix_user@,
                prefix_ai@,
            ) == transcript_messages(chars@, prefix_user@, prefix_ai@),
            forall|i: int| 0 <= i < spans@.len() ==> (#[trigger] spans@[i]).within(chars@),
            at < n ==> speaker_at(chars@, at as int, prefix_user@, prefix_ai@) is Some,
        decreases n - at,
    {
        let (role, body) = speaker(chars, at, prefix_user, prefix_ai).unwrap();
        let end = find_entry(chars, body, prefix_user, prefix_ai);
        let from = skip_whitespace(chars, body, end);
        let to = skip_whitespace_back(chars, from, end);
        let span = Span { role, from, to };
        proof {
            let part = chars@.subrange(body as int, end as int);
            assert(chars@.subrange(from as int, end as int) =~= crate::text::trimmed_start(part));
            assert(chars@.subrange(from as int, to as int) =~= trimmed(part));
            lemma_next_entry(chars@, body as int, prefix_user@, prefix_ai@);
            let before = span_messages(chars@, spans@);
            let after = span_messages(chars@, spans@.push(span));
            assert(after =~= before + seq![span.message(chars@)]);
            assert(after + entries_from(chars@, end as int, prefix_user@, prefix_ai@) =~= before
                + entries_from(chars@, at as int, prefix_user@, prefix_ai@));
        }
        spans.push(span);
        at = end;
    }
    proof {
        assert(speaker_at(chars@, at as int, prefix_user@, prefix_ai@) is None);
        assert(span_messages(chars@, spans@) + Seq::<MessageView>::empty() =~= span_messages(
            chars@,
            spans@,
        ));
    }
    spans
}

} // verus!
