//! Titles derived from the conversation itself.

use crate::models::{transcript_view, Message, MessageView, Role};
use crate::store::SessionStore;
use crate::text::{from_chars, slice_chars, to_chars};
use vstd::prelude::*;

verus! {

/// The most characters that a derived title takes from a message.
pub const TITLE_CHARS: usize = 40;

/// The first index at or after `from` that holds a line feed, or the length
/// of the text.
pub open spec fn line_end(s: Seq<char>, from: int) -> int
    decreases s.len() - from,
{
    if 0 <= from < s.len() && s[from] != '\n' {
        line_end(s, from + 1)
    } else {
        from
    }
}

/// The first line of a text, without its line feed.
pub open spec fn first_line(s: Seq<char>) -> Seq<char> {
    s.take(line_end(s, 0))
}

/// The title that a message gives: its first line, or the first
/// [`TITLE_CHARS`] characters of that line followed by an ellipsis where the
/// line is longer.
pub open spec fn derived_title(message: Seq<char>) -> Seq<char> {
    let line = first_line(message);
    if line.len() > TITLE_CHARS {
        line.take(TITLE_CHARS as int) + "..."@
    } else {
        line
    }
}

/// The first index at or after `from` whose message is the user's, or the
/// length of the transcript.
pub open spec fn user_message_from(transcript: Seq<MessageView>, from: int) -> int
    decreases transcript.len() - from,
{
    if 0 <= from < transcript.len() && transcript[from].role != Role::User {
        user_message_from(transcript, from + 1)
    } else {
        from
    }
}

/// The title that a transcript gives: the one of the user's first message,
/// if there is one.
pub open spec fn transcript_title(transcript: Seq<MessageView>) -> Option<Seq<char>> {
    let i = user_message_from(transcript, 0);
    if 0 <= i < transcript.len() {
        Some(derived_title(transcript[i].content))
    } else {
        None
    }
}

/// The title that a message gives.
pub fn derive_title(message: &str) -> (title: String)
    ensures
        title@ == derived_title(message@),
{
    let chars = to_chars(message);
    let n: usize = chars.len();
    let mut end: usize = 0;
    while end < n && chars[end] != '\n'
        invariant
            n == chars.len(),
            end <= n,
            line_end(chars@, end as int) == line_end(chars@, 0),
        decreases n - end,
    {
        end += 1;
    }
    if end > TITLE_CHARS {
        let kept = slice_chars(&chars, 0, TITLE_CHARS);
        assert(kept@ =~= first_line(message@).take(TITLE_CHARS as int));
        let mut title = from_chars(kept.as_slice());
        title.append("...");
        title
    } else {
        let kept = slice_chars(&chars, 0, end);
        from_chars(kept.as_slice())
    }
}

/// The title that a transcript gives.
pub fn heuristic_title(messages: &Vec<Message>) -> (title: Option<String>)
    ensures
        crate::models::opt_text(title) == transcript_title(transcript_view(messages@)),
{
    let n: usize = messages.len();
    let mut i: usize = 0;
    let ghost views = transcript_view(messages@);
    while i < n && messages[i].role != Role::User
        invariant
            n == messages.len(),
            i <= n,
            views == transcript_view(messages@),
            user_message_from(views, i as int) == user_message_from(views, 0),
        decreases n - i,
    {
        i += 1;
    }
    if i < n {
        Some(derive_title(messages[i].content.as_str()))
    } else {
        None
    }
}

/// Whether a title is to be derived for a session: it holds more than its
/// opening message and still bears the placeholder title.
pub fn title_due(store: &SessionStore, session_id: &str) -> (due: bool)
    ensures
        due == (store@.awaits_title(session_id@) && store@.messages_of(session_id@).len() > 1),
{
    proof {
        crate::store::lemma_position(store@.sessions, session_id@, 0);
    }
    match store.get(session_id) {
        Some(session) => {
            assert(session@.messages.len() == session.messages@.len());
            session.messages.len() > 1 && crate::text::text_eq(session.title.as_str(), "New Chat")
        },
        None => false,
    }
}

/// A derived title holds no line feed and no more than [`TITLE_CHARS`]
/// characters besides its ellipsis.
pub proof fn law_title_is_short(message: Seq<char>)
    ensures
        derived_title(message).len() <= TITLE_CHARS + 3,
{
    reveal_strlit("...");
}

} // verus!
