//! What is asked of the language-model server: the addresses of its two
//! operations and the request for a title.

use crate::models::{
    clone_messages, placeholder_title, plain_message, transcript_view, ChatRequest, ChatResponse,
    Message, RequestView, Role, TEMPERATURE_MILLI,
};
use crate::text::{from_chars, slice_chars, to_chars, trim, trim_bounds};
use vstd::prelude::*;

verus! {

/// Where a text ends once the slashes at its end are gone, going down from
/// `to`.
pub open spec fn drop_slashes(s: Seq<char>, to: int) -> int
    decreases to,
{
    if 0 < to <= s.len() && s[to - 1] == '/' {
        drop_slashes(s, to - 1)
    } else {
        to
    }
}

/// A base address without the slashes at its end.
pub open spec fn clean_url(base: Seq<char>) -> Seq<char> {
    base.take(drop_slashes(base, base.len() as int))
}

/// What the server is asked when a title is wanted.
pub open spec fn title_prompt() -> Seq<char> {
    "Generate a short title (4-6 words) for this chat. No quotes."@
}

/// The request for a title of a conversation: its messages, followed by the
/// user's wish for a title; never streamed.
pub open spec fn title_request(model: Seq<char>, messages: Seq<crate::models::MessageView>)
    -> RequestView {
    RequestView {
        messages: messages.push(plain_message(Role::User, title_prompt())),
        model,
        temperature_milli: TEMPERATURE_MILLI,
        stream: false,
    }
}

/// The title that a response gives: the content of its first message
/// without the white space around it, and the placeholder where the
/// response holds no message.
pub open spec fn title_of(response: &ChatResponse) -> Seq<char> {
    match response.first_message() {
        Some(m) => trim(m.content),
        None => placeholder_title(),
    }
}

/// The operations of the language-model server.
#[derive(Clone, Copy, Debug, Default)]
pub struct LlmService;

impl LlmService {
    /// A base address without the slashes at its end.
    pub fn get_clean_url(base: &str) -> (clean: String)
        ensures
            clean@ == clean_url(base@),
    {
        let chars = to_chars(base);
        let n: usize = chars.len();
        let mut end: usize = n;
        while end > 0 && chars[end - 1] == '/'
            invariant
                n == chars.len(),
                end <= n,
                drop_slashes(chars@, end as int) == drop_slashes(chars@, n as int),
            decreases end,
        {
            end -= 1;
        }
        let kept = slice_chars(&chars, 0, end);
        from_chars(kept.as_slice())
    }

    /// The address of the list of models.
    pub fn models_url(base_url: &str) -> (url: String)
        ensures
            url@ == clean_url(base_url@) + "/v1/models"@,
    {
        let mut url = LlmService::get_clean_url(base_url);
        url.append("/v1/models");
        url
    }

    /// The address of chat completions.
    pub fn chat_completions_url(base_url: &str) -> (url: String)
        ensures
            url@ == clean_url(base_url@) + "/v1/chat/completions"@,
    {
        let mut url = LlmService::get_clean_url(base_url);
        url.append("/v1/chat/completions");
        url
    }

    /// The request that asks the server for a title of a conversation.
    pub fn title_request(model: &str, messages: &Vec<Message>) -> (request: ChatRequest)
        ensures
            request@ == title_request(model@, transcript_view(messages@)),
    {
        let mut summary = clone_messages(messages);
        summary.push(
            Message::new(
                Role::User,
                String::from_str("Generate a short title (4-6 words) for this chat. No quotes."),
            ),
        );
        assert(transcript_view(summary@) =~= transcript_view(messages@).push(
            plain_message(Role::User, title_prompt()),
        ));
        ChatRequest {
            messages: summary,
            model: String::from_str(model),
            temperature_milli: TEMPERATURE_MILLI,
            stream: false,
        }
    }

    /// The title that the server's response gives.
    pub fn title_from_response(response: &ChatResponse) -> (title: String)
        ensures
            title@ == title_of(response),
    {
        if response.choices.len() == 0 {
            return String::from_str("New Chat");
        }
        let chars = to_chars(response.choices[0].message.content.as_str());
        let (start, end) = trim_bounds(&chars);
        let kept = slice_chars(&chars, start, end);
        from_chars(kept.as_slice())
    }
}

} // verus!
