//! Formatting of message text.

use vstd::prelude::*;

use crate::layout::{self, find_layable_form, strip_markup};
use crate::message::MessageFormat;
use crate::text::{self, trim};

verus! {

/// The content of a text event.
#[derive(Debug)]
pub struct MessageContent {
    /// The plain text.
    pub body: String,
    /// The same in Matrix HTML, where there is such a representation.
    pub formatted_body: Option<String>,
}

/// The contents of a [`MessageContent`].
pub struct ContentView {
    pub body: Seq<char>,
    pub formatted_body: Option<Seq<char>>,
}

impl View for MessageContent {
    type V = ContentView;

    open spec fn view(&self) -> ContentView {
        ContentView { body: self.body@, formatted_body: self.formatted_body.deep_view() }
    }
}

impl MessageContent {
    /// The plain text.
    pub fn body(&self) -> (body: &str)
        ensures
            body@ == self@.body,
    {
        self.body.as_str()
    }
}

/// The HTML that `markdown` stands for, all Markdown extensions included.
pub uninterp spec fn markdown_html(markdown: Seq<char>) -> Seq<char>;

/// `html` without the markup that is not safe to show.
pub uninterp spec fn sanitized_html(html: Seq<char>) -> Seq<char>;

/// `html` as plain text in lines of at most `width` columns, if it can be laid out
/// in them.
pub uninterp spec fn html_text(html: Seq<char>, width: usize) -> Option<Seq<char>>;

/// Plain text derived from HTML is not wrapped.
pub const UNWRAPPED: usize = usize::MAX;

/// The body of an HTML message, given the sanitized HTML and its plain text, if it
/// could be laid out: that text, or else the HTML without its markup, in either
/// case without white space at the ends.
pub open spec fn html_body(html: Seq<char>, laid_out: Option<Seq<char>>) -> Seq<char> {
    text::trimmed(
        match laid_out {
            Some(plain) => plain,
            None => layout::text_without_markup(html, 0),
        },
    )
}

/// The plain text of sanitized HTML, if it can be laid out.
pub open spec fn laid_out(html: Seq<char>) -> Option<Seq<char>> {
    match layout::layable_form(html) {
        Some(form) => html_text(form, UNWRAPPED),
        None => None,
    }
}

/// The content that a message in a format becomes.
pub open spec fn formatted(message: Seq<char>, format: MessageFormat) -> ContentView {
    match format {
        MessageFormat::Text => ContentView { body: message, formatted_body: None },
        MessageFormat::Markdown => ContentView {
            body: message,
            formatted_body: Some(sanitized_html(markdown_html(message))),
        },
        MessageFormat::Html => ContentView {
            body: html_body(sanitized_html(message), laid_out(sanitized_html(message))),
            formatted_body: Some(sanitized_html(message)),
        },
    }
}

/// Calls `pulldown_cmark::html::push_html` on a `pulldown_cmark::Parser` with
/// `Options::all()`: the HTML for a Markdown text, which depends on nothing but
/// the text.
#[verifier::external_body]
fn render_markdown(markdown: &str) -> (html: String)
    ensures
        html@ == markdown_html(markdown@),
{
    let mut html = String::new();
    let parser = pulldown_cmark::Parser::new_ext(markdown, pulldown_cmark::Options::all());
    pulldown_cmark::html::push_html(&mut html, parser);
    html
}

/// Calls `ammonia::clean`: the sanitized HTML, which depends on nothing but the
/// HTML given.
#[verifier::external_body]
fn sanitize_html(html: &str) -> (clean: String)
    ensures
        clean@ == sanitized_html(html@),
{
    ammonia::clean(html)
}

/// Calls `string_from_read` of `html2text::config::plain()`: the plain text of the
/// HTML, unless some of it cannot be laid out. Both depend on nothing but the HTML
/// and the width. That function counts list items in `i64` and columns in `usize`,
/// pads cells to at most 65,535 columns, calls itself for a definition list in
/// another, and in a table does not get past a word with U+FE0F that it has to
/// break, nor a tab that it has no room for: it is called on HTML that leads to none
/// of this.
#[verifier::external_body]
fn render_text(html: &str, width: usize) -> (plain: Option<String>)
    requires
        width == UNWRAPPED,
        layout::can_lay_out(html@),
    ensures
        plain.deep_view() == html_text(html@, width),
{
    html2text::config::plain().string_from_read(html.as_bytes(), width).ok()
}

/// The content of a Markdown message, given the sanitized HTML for it.
pub fn markdown_content(message: &str, html: String) -> (content: MessageContent)
    ensures
        content@ == (ContentView { body: message@, formatted_body: Some(html@) }),
{
    MessageContent { body: message.to_owned(), formatted_body: Some(html) }
}

/// The content of an HTML message, given the sanitized HTML and its plain text, if
/// it could be laid out.
pub fn html_content(html: String, laid_out: Option<String>) -> (content: MessageContent)
    ensures
        content@ == (ContentView {
            body: html_body(html@, laid_out.deep_view()),
            formatted_body: Some(html@),
        }),
{
    let plain = match laid_out {
        Some(plain) => plain,
        None => strip_markup(html.as_str()),
    };
    MessageContent { body: trim(plain.as_str()).to_owned(), formatted_body: Some(html) }
}

/// Turns a message into the content of a text event.
pub fn format_content(message: &str, format: MessageFormat) -> (content: MessageContent)
    ensures
        content@ == formatted(message@, format),
{
    match format {
        MessageFormat::Text => MessageContent { body: message.to_owned(), formatted_body: None },
        MessageFormat::Markdown => {
            let html = render_markdown(message);
            markdown_content(message, sanitize_html(html.as_str()))
        },
        MessageFormat::Html => {
            let html = sanitize_html(message);
            let laid_out = match find_layable_form(html.as_str()) {
                Some(form) => render_text(form.as_str(), UNWRAPPED),
                None => None,
            };
            html_content(html, laid_out)
        },
    }
}

} // verus!
