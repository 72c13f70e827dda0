//! Rendering of message text as markup.

use crate::text::{decimal, decimal_chars, from_chars};
use vstd::prelude::*;

verus! {

/// The HTML that `pulldown_cmark` renders for a Markdown text, with
/// strikethrough and tables enabled and every soft line break made a hard
/// one.
pub uninterp spec fn markdown_html(text: Seq<char>) -> Seq<char>;

/// Renders Markdown as HTML. Trusted: `pulldown_cmark::Parser::new_ext` and
/// `pulldown_cmark::html::push_html` are functions of the text and the
/// options alone, and [`markdown_html`] is the name of what they yield here.
/// Writing into a `String` cannot fail, so `push_html` does not panic.
#[verifier::external_body]
fn markdown_to_html(text: &str) -> (html: String)
    ensures
        html@ == markdown_html(text@),
{
    let mut options = pulldown_cmark::Options::empty();
    options.insert(pulldown_cmark::Options::ENABLE_STRIKETHROUGH);
    options.insert(pulldown_cmark::Options::ENABLE_TABLES);
    let events = pulldown_cmark::Parser::new_ext(text, options).map(|event| match event {
        pulldown_cmark::Event::SoftBreak => pulldown_cmark::Event::HardBreak,
        other => other,
    });
    let mut html = String::new();
    pulldown_cmark::html::push_html(&mut html, events);
    html
}

/// The markup of a message, given the HTML of its text: the HTML inside the
/// block that styles it.
pub open spec fn styled(html: Seq<char>) -> Seq<char> {
    "<div class=\"markdown-body\">"@ + html + "</div>"@
}

/// Puts rendered HTML inside the block that styles it.
pub fn style_html(html: &str) -> (markup: String)
    ensures
        markup@ == styled(html@),
{
    let mut markup = String::from_str("<div class=\"markdown-body\">");
    markup.append(html);
    markup.append("</div>");
    markup
}

/// Renders the text of a message as markup.
pub fn render_markdown(text: &str) -> (markup: String)
    ensures
        markup@ == styled(markdown_html(text@)),
{
    let html = markdown_to_html(text);
    style_html(html.as_str())
}

/// A token count as it is shown: in thousands, rounded down, from a thousand
/// on, and in full below.
pub open spec fn tokens_label(tokens: nat) -> Seq<char> {
    if tokens >= 1000 {
        decimal(tokens / 1000) + "k"@
    } else {
        decimal(tokens) + " tokens"@
    }
}

/// Writes a token count as it is shown.
pub fn format_tokens(tokens: usize) -> (label: String)
    ensures
        label@ == tokens_label(tokens as nat),
{
    if tokens >= 1000 {
        let digits = decimal_chars(tokens / 1000);
        let mut label = from_chars(digits.as_slice());
        label.append("k");
        label
    } else {
        let digits = decimal_chars(tokens);
        let mut label = from_chars(digits.as_slice());
        label.append(" tokens");
        label
    }
}

} // verus!
