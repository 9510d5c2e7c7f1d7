//! The stream assembler: a streamed reply arrives as a run of deltas and is
//! written out, and gathered into one transcript entry, as it arrives.

use crate::chat::{ChatError, ChatRole};
use crate::openai::chat::{ChatMessageDelta, DeltaView, OpenAIChatDelta};
use crate::openai::response::OpenAICompletionResponse;
use crate::text::{chars_of, matches_at, same_text, skip_whitespace, trimmed_start};
use crate::transcript::label_of;
use vstd::prelude::*;

verus! {

/// How much of the message in progress has been written out.
#[derive(Clone, Copy, Debug, PartialEq, Eq, Structural)]
pub enum StreamMessageState {
    New,
    HasWrittenRole,
    HasWrittenContent,
}

/// The first content fragment of a message as it is written out: without its
/// leading white space and, where it then begins with the assistant's label
/// (the prefix and a colon), without that one label and the white space after
/// it.
pub open spec fn strip_label(fragment: Seq<char>, prefix_ai: Seq<char>) -> Seq<char> {
    let start = trimmed_start(fragment);
    let label = label_of(prefix_ai);
    if label.is_prefix_of(start) {
        trimmed_start(start.skip(label.len() as int))
    } else {
        start
    }
}

/// The state once the role of a delta, if it has one, is written.
pub open spec fn state_after_role(
    state: StreamMessageState,
    role: Option<ChatRole>,
) -> StreamMessageState {
    if role is Some {
        StreamMessageState::HasWrittenRole
    } else {
        state
    }
}

/// What is written for a content fragment that arrives in `state`.
pub open spec fn content_text(
    state: StreamMessageState,
    content: Seq<char>,
    prefix_ai: Seq<char>,
) -> Seq<char> {
    match state {
        StreamMessageState::HasWrittenContent => content,
        _ => strip_label(content, prefix_ai),
    }
}

/// What one delta adds to the display and to the response.
pub open spec fn delta_text(
    state: StreamMessageState,
    delta: DeltaView,
    prefix_ai: Seq<char>,
) -> Seq<char> {
    let role_part = match delta.role {
        Some(role) => role.text(),
        None => Seq::empty(),
    };
    let content_part = match delta.content {
        Some(content) => content_text(state_after_role(state, delta.role), content, prefix_ai),
        None => Seq::empty(),
    };
    role_part + content_part
}

/// The state after one delta.
pub open spec fn delta_state(state: StreamMessageState, delta: DeltaView) -> StreamMessageState {
    if delta.content is Some {
        StreamMessageState::HasWrittenContent
    } else {
        state_after_role(state, delta.role)
    }
}

/// Removes leading white space and one echoed assistant label from the first
/// content fragment of a message.
pub fn strip_echoed_label(fragment: &str, prefix_ai: &str) -> (r: String)
    ensures
        r@ == strip_label(fragment@, prefix_ai@),
{
    let chars = chars_of(fragment);
    let n = chars.len();
    let start = skip_whitespace(&chars, 0, n);
    let mut label = chars_of(prefix_ai);
    label.push(':');
    proof {
        assert(chars@.subrange(0, n as int) =~= fragment@);
        assert(chars@.skip(start as int) =~= trimmed_start(fragment@));
    }
    if matches_at(&chars, start, &label) {
        let after = start + label.len();
        let from = skip_whitespace(&chars, after, n);
        proof {
            let rest = trimmed_start(fragment@).skip(label@.len() as int);
            assert(chars@.subrange(after as int, n as int) =~= rest);
            assert(fragment@.subrange(from as int, n as int) =~= trimmed_start(rest));
        }
        fragment.substring_char(from, n).to_owned()
    } else {
        assert(fragment@.subrange(start as int, n as int) =~= trimmed_start(fragment@));
        fragment.substring_char(start, n).to_owned()
    }
}

/// Writes one delta: its role, if it has one, then its content, the first
/// content of a message without leading white space and echoed label. The
/// text written is returned for the display and appended to `response`.
pub fn write_delta(
    prefix_ai: &str,
    delta: &ChatMessageDelta,
    response: &mut String,
    state: StreamMessageState,
) -> (r: (StreamMessageState, String))
    ensures
        r.0 == delta_state(state, delta@),
        r.1@ == delta_text(state, delta@, prefix_ai@),
        final(response)@ == old(response)@ + r.1@,
{
    let mut state = state;
    let mut written = String::new();
    if let Some(role) = &delta.role {
        written.append(role.label());
        state = StreamMessageState::HasWrittenRole;
    }
    if let Some(content) = &delta.content {
        match state {
            StreamMessageState::New | StreamMessageState::HasWrittenRole => {
                let filtered = strip_echoed_label(content.as_str(), prefix_ai);
                written.append(filtered.as_str());
            },
            StreamMessageState::HasWrittenContent => {
                written.append(content.as_str());
            },
        }
        state = StreamMessageState::HasWrittenContent;
    }
    response.append(written.as_str());
    (state, written)
}

/// Takes one frame of the stream into the response.
///
/// `message` is the frame's payload as the decoder gave it: the response, or
/// the decoder's description of why the payload has not the expected shape.
/// Of a decoded frame the first choice's delta is written, as `write_delta`
/// does. On an undecodable frame nothing is written.
pub fn handle_stream_message(
    prefix_ai: &str,
    message: Result<OpenAICompletionResponse<OpenAIChatDelta>, String>,
    response: &mut String,
    state: StreamMessageState,
) -> (r: Result<(StreamMessageState, String), ChatError>)
    requires
        message matches Ok(frame) ==> frame.choices@.len() > 0,
    ensures
        match message {
            Ok(frame) => {
                let delta = frame.choices@[0].delta@;
                &&& r matches Ok((next, written))
                &&& next == delta_state(state, delta)
                &&& written@ == delta_text(state, delta, prefix_ai@)
                &&& final(response)@ == old(response)@ + written@
            },
            Err(why) => {
                &&& r matches Err(ChatError::Decode(reason))
                &&& reason@ == why@
                &&& final(response)@ == old(response)@
            },
        },
{
    match message {
        Ok(frame) => Ok(write_delta(prefix_ai, &frame.choices[0].delta, response, state)),
        Err(why) => Err(ChatError::Decode(why)),
    }
}

/// What the end of the stream adds: a line end, unless nothing was written.
pub open spec fn stream_tail(state: StreamMessageState) -> Seq<char> {
    if state == StreamMessageState::New {
        Seq::empty()
    } else {
        seq!['\n']
    }
}

/// Ends the message: where a role or content was written the line is closed,
/// on the display and in `response`; where nothing was, nothing is added.
pub fn finish_stream(state: StreamMessageState, response: &mut String) -> (written: &'static str)
    ensures
        written@ == stream_tail(state),
        final(response)@ == old(response)@ + written@,
{
    proof {
        reveal_strlit("\n");
        reveal_strlit("");
        assert("\n"@ =~= seq!['\n']);
        assert(""@ =~= Seq::<char>::empty());
    }
    let written = match state {
        StreamMessageState::New => "",
        StreamMessageState::HasWrittenRole | StreamMessageState::HasWrittenContent => "\n",
    };
    response.append(written);
    written
}

/// One event of the stream, as the transport reports it.
#[derive(Clone, Debug, PartialEq, Eq)]
pub enum StreamEvent {
    /// The connection is open.
    Open,
    /// A frame arrived; this is its payload.
    Message(String),
    /// The transport failed; this is its description.
    Error(String),
}

/// What the consumer of the stream does next.
#[derive(Clone, Debug, PartialEq, Eq)]
pub enum StreamAction {
    /// Nothing to do for this event: wait for the next.
    Wait,
    /// Decode this payload and hand the outcome to `handle_stream_message`.
    Decode(String),
    /// The message is complete: leave the loop and call `finish_stream`.
    Finish,
    /// Close the stream and fail with this error; the response is dropped.
    Abort(ChatError),
}

/// The payload that ends a stream. It is no JSON and is never decoded.
pub open spec fn done_sentinel() -> Seq<char> {
    "[DONE]"@
}

/// Decides what follows an event of the stream.
pub fn stream_action(event: StreamEvent) -> (action: StreamAction)
    ensures
        action == match event {
            StreamEvent::Open => StreamAction::Wait,
            StreamEvent::Message(data) => if data@ == done_sentinel() {
                StreamAction::Finish
            } else {
                StreamAction::Decode(data)
            },
            StreamEvent::Error(why) => StreamAction::Abort(ChatError::EventSource(why)),
        },
{
    match event {
        StreamEvent::Open => StreamAction::Wait,
        StreamEvent::Message(data) => {
            if same_text(data.as_str(), "[DONE]") {
                StreamAction::Finish
            } else {
                StreamAction::Decode(data)
            }
        },
        StreamEvent::Error(why) => StreamAction::Abort(ChatError::EventSource(why)),
    }
}

/// The views of a run of deltas.
pub open spec fn delta_views(deltas: Seq<ChatMessageDelta>) -> Seq<DeltaView> {
    deltas.map_values(|d: ChatMessageDelta| d@)
}

/// The state after a run of deltas that began a message.
pub open spec fn stream_state(deltas: Seq<DeltaView>) -> StreamMessageState
    decreases deltas.len(),
{
    if deltas.len() == 0 {
        StreamMessageState::New
    } else {
        delta_state(stream_state(deltas.drop_last()), deltas.last())
    }
}

/// What a run of deltas that began a message has written.
pub open spec fn stream_text(deltas: Seq<DeltaView>, prefix_ai: Seq<char>) -> Seq<char>
    decreases deltas.len(),
{
    if deltas.len() == 0 {
        Seq::empty()
    } else {
        stream_text(deltas.drop_last(), prefix_ai) + delta_text(
            stream_state(deltas.drop_last()),
            deltas.last(),
            prefix_ai,
        )
    }
}

/// The response of a stream that carried `deltas` and then ended.
pub open spec fn assembled(deltas: Seq<DeltaView>, prefix_ai: Seq<char>) -> Seq<char> {
    stream_text(deltas, prefix_ai) + stream_tail(stream_state(deltas))
}

/// Assembles the response of a complete stream from its deltas, in the order
/// in which they arrived.
pub fn assemble(prefix_ai: &str, deltas: &Vec<ChatMessageDelta>) -> (response: String)
    ensures
        response@ == assembled(delta_views(deltas@), prefix_ai@),
{
    let mut response = String::new();
    let mut state = StreamMessageState::New;
    let mut i: usize = 0;
    let ghost views = delta_views(deltas@);
    while i < deltas.len()
        invariant
            i <= deltas@.len(),
            views == delta_views(deltas@),
            state == stream_state(views.take(i as int)),
            response@ == stream_text(views.take(i as int), prefix_ai@),
        decreases deltas@.len() - i,
    {
        proof {
            let done = views.take(i as int);
            let next = views.take(i + 1);
            assert(next.drop_last() =~= done);
            assert(next.last() == deltas@[i as int]@);
        }
        let (next, _) = write_delta(prefix_ai, &deltas[i], &mut response, state);
        state = next;
        i = i + 1;
    }
    assert(views.take(i as int) =~= views);
    finish_stream(state, &mut response);
    response
}

/// The parts of a sequence of texts, joined in order.
pub open spec fn concat_all(parts: Seq<Seq<char>>) -> Seq<char>
    decreases parts.len(),
{
    if parts.len() == 0 {
        Seq::empty()
    } else {
        concat_all(parts.drop_last()) + parts.last()
    }
}

/// Whether a delta carries content and nothing else.
pub open spec fn content_only(delta: DeltaView) -> bool {
    delta.role is None && delta.content is Some
}

/// Whether a delta carries neither a role nor content.
pub open spec fn is_blank(delta: DeltaView) -> bool {
    delta.role is None && delta.content is None
}

/// A stream of deltas that carry content only writes its fragments one after
/// the other, and changes none but the first: that one loses its leading
/// white space and, if it has one, the echoed label. The stream's end then
/// closes the line.
pub proof fn law_content_only_stream(deltas: Seq<DeltaView>, prefix_ai: Seq<char>)
    requires
        deltas.len() > 0,
        forall|i: int| 0 <= i < deltas.len() ==> content_only(#[trigger] deltas[i]),
    ensures
        stream_state(deltas) == StreamMessageState::HasWrittenContent,
        stream_text(deltas, prefix_ai) == strip_label(deltas[0].content->0, prefix_ai)
            + concat_all(deltas.skip(1).map_values(|d: DeltaView| d.content->0)),
        assembled(deltas, prefix_ai) == stream_text(deltas, prefix_ai) + seq!['\n'],
    decreases deltas.len(),
{
    let fragment = |d: DeltaView| d.content->0;
    let before = deltas.drop_last();
    assert(content_only(deltas.last()));
    assert(content_only(deltas[0]));
    if deltas.len() == 1 {
        assert(stream_state(before) == StreamMessageState::New);
        assert(stream_text(before, prefix_ai) =~= Seq::<char>::empty());
        assert(deltas.skip(1).map_values(fragment) =~= Seq::<Seq<char>>::empty());
        assert(stream_text(deltas, prefix_ai) =~= strip_label(deltas[0].content->0, prefix_ai)
            + concat_all(deltas.skip(1).map_values(fragment)));
    } else {
        assert forall|i: int| 0 <= i < before.len() implies content_only(#[trigger] before[i]) by {
            assert(before[i] == deltas[i]);
        }
        law_content_only_stream(before, prefix_ai);
        let rest = deltas.skip(1).map_values(fragment);
        assert(rest.drop_last() =~= before.skip(1).map_values(fragment));
        assert(rest.last() == deltas.last().content->0);
        assert(stream_text(deltas, prefix_ai) =~= strip_label(deltas[0].content->0, prefix_ai)
            + concat_all(rest));
    }
}

/// Once content has been written no later content is changed: a delta that
/// carries content only, arriving after any delta with content, is written as
/// it is, even where it looks like a label.
pub proof fn law_label_stripped_once(
    state: StreamMessageState,
    first: DeltaView,
    second: DeltaView,
    prefix_ai: Seq<char>,
)
    requires
        first.content is Some,
        content_only(second),
    ensures
        delta_text(delta_state(state, first), second, prefix_ai) == second.content->0,
        delta_state(delta_state(state, first), second) == StreamMessageState::HasWrittenContent,
{
    assert(Seq::<char>::empty() + second.content->0 =~= second.content->0);
}

/// A stream in which a role or content arrived ends with one line end added
/// to what was written; a stream in which none arrived leaves an empty
/// response.
pub proof fn law_stream_end(deltas: Seq<DeltaView>, prefix_ai: Seq<char>)
    ensures
        (exists|i: int| 0 <= i < deltas.len() && !is_blank(#[trigger] deltas[i])) ==> assembled(
            deltas,
            prefix_ai,
        ) == stream_text(deltas, prefix_ai) + seq!['\n'],
        (forall|i: int| 0 <= i < deltas.len() ==> is_blank(#[trigger] deltas[i])) ==> assembled(
            deltas,
            prefix_ai,
        ) == Seq::<char>::empty(),
    decreases deltas.len(),
{
    lemma_blank_stream(deltas, prefix_ai);
    if forall|i: int| 0 <= i < deltas.len() ==> is_blank(#[trigger] deltas[i]) {
        assert(assembled(deltas, prefix_ai) =~= Seq::<char>::empty());
    }
}

/// Nothing is written, and the state stays `New`, exactly as long as every
/// delta is blank.
proof fn lemma_blank_stream(deltas: Seq<DeltaView>, prefix_ai: Seq<char>)
    ensures
        stream_state(deltas) == StreamMessageState::New <==> forall|i: int|
            0 <= i < deltas.len() ==> is_blank(#[trigger] deltas[i]),
        stream_state(deltas) == StreamMessageState::New ==> stream_text(deltas, prefix_ai)
            == Seq::<char>::empty(),
    decreases deltas.len(),
{
    if deltas.len() > 0 {
        let before = deltas.drop_last();
        lemma_blank_stream(before, prefix_ai);
        if forall|i: int| 0 <= i < deltas.len() ==> is_blank(#[trigger] deltas[i]) {
            assert(is_blank(deltas.last()));
            assert forall|i: int| 0 <= i < before.len() implies is_blank(#[trigger] before[i]) by {
                assert(before[i] == deltas[i]);
            }
            assert(stream_text(deltas, prefix_ai) =~= Seq::<char>::empty());
        }
        if stream_state(deltas) == StreamMessageState::New {
            assert(is_blank(deltas.last()));
            assert forall|i: int| 0 <= i < deltas.len() implies is_blank(#[trigger] deltas[i]) by {
                if i < before.len() {
                    assert(before[i] == deltas[i]);
                }
            }
        }
    }
}

/// How far a state is from the start of a message.
pub open spec fn progress(state: StreamMessageState) -> nat {
    match state {
        StreamMessageState::New => 0,
        StreamMessageState::HasWrittenRole => 1,
        StreamMessageState::HasWrittenContent => 2,
    }
}

/// A delta never takes the state back to `New`, and takes it back at all
/// only where it names a role and carries no content after content was
/// written.
pub proof fn law_state_advances(state: StreamMessageState, delta: DeltaView)
    ensures
        state != StreamMessageState::New ==> delta_state(state, delta) != StreamMessageState::New,
        delta.role is None || delta.content is Some ==> progress(delta_state(state, delta))
            >= progress(state),
{
}

} // verus!
