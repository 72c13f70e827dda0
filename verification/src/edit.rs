//! History editing: a user's message is rewritten in place, everything after
//! it is discarded, and the conversation is resumed from there.

use crate::models::{clone_messages, transcript_view, Message, MessageView, Role};
use crate::orchestrator::{Completion, CompletionView};
use crate::store::SessionStore;
use vstd::prelude::*;

verus! {

/// Whether the message at `index` may be edited: it exists and its author is
/// the user.
pub open spec fn editable(transcript: Seq<MessageView>, index: int) -> bool {
    0 <= index < transcript.len() && transcript[index].role == Role::User
}

/// The transcript cut after `index`, with the content of the message at
/// `index` replaced by `text`.
pub open spec fn edited(transcript: Seq<MessageView>, index: int, text: Seq<char>) -> Seq<
    MessageView,
> {
    transcript.take(index + 1).update(
        index,
        MessageView {
            role: transcript[index].role,
            content: text,
            metrics: transcript[index].metrics,
        },
    )
}

/// Cuts a transcript after the message at `index` and replaces the content
/// of that message. Returns `None`, exactly where the message may not be
/// edited.
pub fn edit_transcript(messages: &Vec<Message>, index: usize, text: &str) -> (result: Option<
    Vec<Message>,
>)
    ensures
        result is Some <==> editable(transcript_view(messages@), index as int),
        result is Some ==> transcript_view(result->0@) == edited(
            transcript_view(messages@),
            index as int,
            text@,
        ),
        result is Some ==> result->0@.len() == index + 1,
{
    if index >= messages.len() {
        return None;
    }
    if messages[index].role != Role::User {
        return None;
    }
    let mut kept: Vec<Message> = Vec::new();
    let mut i: usize = 0;
    while i < index
        invariant
            i <= index < messages.len(),
            kept@.len() == i,
            transcript_view(kept@) == transcript_view(messages@).take(i as int),
        decreases index - i,
    {
        let ghost before = transcript_view(kept@);
        kept.push(messages[i].clone());
        i += 1;
        assert(transcript_view(kept@) =~= before.push(messages@[i - 1]@));
        assert(transcript_view(kept@) =~= transcript_view(messages@).take(i as int));
    }
    let edited_message = &messages[index];
    let metrics = match &edited_message.metrics {
        Some(m) => Some(m.clone()),
        None => None,
    };
    let ghost before = transcript_view(kept@);
    kept.push(Message { role: edited_message.role, content: String::from_str(text), metrics });
    assert(transcript_view(kept@) =~= edited(transcript_view(messages@), index as int, text@));
    Some(kept)
}

/// Edits the message at `index` of the session that bears `session_id` and
/// resumes the conversation from it: the transcript is cut after the
/// message, the message takes the new text, and a completion starts on the
/// result. Nothing happens, and `None` is returned, exactly where a
/// completion is in flight or the message may not be edited.
pub fn edit_at(
    store: &mut SessionStore,
    session_id: &str,
    index: usize,
    text: &str,
    in_flight: bool,
    stream: bool,
) -> (resumed: Option<Completion>)
    ensures
        resumed is Some <==> !in_flight && editable(
            old(store)@.messages_of(session_id@),
            index as int,
        ),
        resumed is None ==> final(store)@ == old(store)@,
        resumed is Some ==> ({
            let transcript = edited(old(store)@.messages_of(session_id@), index as int, text@);
            &&& transcript.len() == index + 1
            &&& resumed->0@ == CompletionView::started_with(
                session_id@,
                transcript,
                transcript,
                stream,
            )
            &&& final(store)@ == old(store)@.with_messages(session_id@, transcript)
        }),
{
    if in_flight {
        return None;
    }
    let current = store.messages_of(session_id);
    match edit_transcript(&current, index, text) {
        Some(transcript) => {
            let outgoing = clone_messages(&transcript);
            Some(Completion::start(store, session_id, transcript, outgoing, stream))
        },
        None => None,
    }
}

/// An edit at index `i` leaves a transcript of length `i + 1`, whose last
/// message bears the new text and whose earlier messages are untouched.
pub proof fn law_edit_truncates(transcript: Seq<MessageView>, index: int, text: Seq<char>)
    requires
        editable(transcript, index),
    ensures
        edited(transcript, index, text).len() == index + 1,
        edited(transcript, index, text).last().content == text,
        edited(transcript, index, text).last().role == Role::User,
        forall|j: int| 0 <= j < index ==> edited(transcript, index, text)[j] == transcript[j],
{
}

} // verus!
