//! What holds of the content of every message, in each of the formats.

use vstd::prelude::*;

use crate::content::{
    self, format_content, html_content, markdown_content, MessageContent,
};
use crate::layout::{self, find_layable_form, strip_markup};
use crate::message::MessageFormat;
use crate::text;

verus! {

/// A message in Markdown keeps its text as the body, and comes with the HTML that it
/// stands for, sanitized: every message does, however it is laid out.
pub proof fn law_markdown_is_rendered(message: &str, content: MessageContent)
    requires
        call_ensures(format_content, (message, MessageFormat::Markdown), content),
    ensures
        content.body@ == message@,
        content.formatted_body is Some,
        content.formatted_body->0@ == content::sanitized_html(content::markdown_html(message@)),
{
}

/// Plain text is sent as it is, with no HTML beside it.
pub proof fn law_text_stays_as_it_is(message: &str, content: MessageContent)
    requires
        call_ensures(format_content, (message, MessageFormat::Text), content),
    ensures
        content.body@ == message@,
        content.formatted_body is None,
{
}

/// HTML is sent sanitized, with a body that holds its plain text: the laid out text of
/// the form of it that can be laid out, or else the text without markup, in either case
/// trimmed.
pub proof fn law_html_is_sanitized(
    message: &str,
    content: MessageContent,
    clean: &str,
    form: Option<String>,
    stripped: String,
)
    requires
        call_ensures(format_content, (message, MessageFormat::Html), content),
        clean@ == content::sanitized_html(message@),
        call_ensures(find_layable_form, (clean,), form),
        call_ensures(strip_markup, (clean,), stripped),
    ensures
        content.formatted_body is Some,
        content.formatted_body->0@ == clean@,
        form is Some && content::html_text(form->0@, usize::MAX) is Some ==> content.body@
            == text::trimmed(content::html_text(form->0@, usize::MAX)->0),
        form is None || content::html_text(form->0@, usize::MAX) is None ==> content.body@
            == text::trimmed(stripped@),
{
}

/// There is HTML beside the body exactly where the message is not plain text, and what
/// there is has been sanitized.
pub proof fn law_formatted_unless_plain_text(
    message: &str,
    format: MessageFormat,
    content: MessageContent,
)
    requires
        call_ensures(format_content, (message, format), content),
    ensures
        content.formatted_body is None <==> format == MessageFormat::Text,
        content.formatted_body is Some ==> exists|html: Seq<char>|
            content.formatted_body->0@ == #[trigger] content::sanitized_html(html),
        format != MessageFormat::Html ==> content.body@ == message@,
{
    assert(content.formatted_body is Some ==> content.formatted_body->0@
        == content::sanitized_html(content::markdown_html(message@)) || content.formatted_body->0@
        == content::sanitized_html(message@));
}

/// The body of an HTML message has no white space at its ends.
pub proof fn law_html_body_is_trimmed(message: &str, content: MessageContent)
    requires
        call_ensures(format_content, (message, MessageFormat::Html), content),
    ensures
        content.body@.len() > 0 ==> !text::is_white_space(content.body@.first())
            && !text::is_white_space(content.body@.last()),
{
    let html = content::sanitized_html(message@);
    law_trimming_cuts_white_space_off(
        match content::laid_out(html) {
            Some(plain) => plain,
            None => layout::text_without_markup(html, 0),
        },
    );
}

/// Where the part of a text begins and ends that trimming leaves.
proof fn lemma_trimmed_part(s: Seq<char>) -> (part: (int, int))
    ensures
        0 <= part.0 <= part.1 <= s.len(),
        text::trimmed(s) == s.subrange(part.0, part.1),
        forall|i: int| 0 <= i < part.0 ==> text::is_white_space(#[trigger] s[i]),
        forall|i: int| part.1 <= i < s.len() ==> text::is_white_space(#[trigger] s[i]),
        text::trimmed(s).len() > 0 ==> !text::is_white_space(text::trimmed(s).first())
            && !text::is_white_space(text::trimmed(s).last()),
    decreases s.len(),
{
    if s.len() > 0 && text::is_white_space(s.first()) {
        let rest = s.drop_first();
        let part = lemma_trimmed_part(rest);
        assert(s.subrange(part.0 + 1, part.1 + 1) =~= rest.subrange(part.0, part.1));
        assert forall|i: int| 0 <= i < part.0 + 1 implies text::is_white_space(#[trigger] s[i]) by {
            if i > 0 {
                assert(text::is_white_space(rest[i - 1]));
            }
        }
        assert forall|i: int| part.1 + 1 <= i < s.len() implies text::is_white_space(
            #[trigger] s[i],
        ) by {
            assert(text::is_white_space(rest[i - 1]));
        }
        (part.0 + 1, part.1 + 1)
    } else if s.len() > 0 && text::is_white_space(s.last()) {
        let rest = s.drop_last();
        let part = lemma_trimmed_part(rest);
        assert(s.subrange(part.0, part.1) =~= rest.subrange(part.0, part.1));
        assert forall|i: int| 0 <= i < part.0 implies text::is_white_space(#[trigger] s[i]) by {
            assert(text::is_white_space(rest[i]));
        }
        assert forall|i: int| part.1 <= i < s.len() implies text::is_white_space(
            #[trigger] s[i],
        ) by {
            if i < rest.len() {
                assert(text::is_white_space(rest[i]));
            }
        }
        part
    } else {
        assert(s.subrange(0, s.len() as int) =~= s);
        (0, s.len() as int)
    }
}

/// Trimming cuts off white space at the two ends and nothing else: what stays is a part of
/// the text that neither begins nor ends with white space, and all that stood around it is
/// white space.
pub proof fn law_trimming_cuts_white_space_off(s: Seq<char>)
    ensures
        exists|first: int, end: int|
            {
                &&& 0 <= first <= end <= s.len()
                &&& text::trimmed(s) == #[trigger] s.subrange(first, end)
                &&& forall|i: int| 0 <= i < first ==> text::is_white_space(#[trigger] s[i])
                &&& forall|i: int| end <= i < s.len() ==> text::is_white_space(#[trigger] s[i])
            },
        text::trimmed(s).len() > 0 ==> !text::is_white_space(text::trimmed(s).first())
            && !text::is_white_space(text::trimmed(s).last()),
{
    let part = lemma_trimmed_part(s);
    assert(text::trimmed(s) == s.subrange(part.0, part.1));
}

/// White space in the first 128 characters is the space, the tab, and what breaks lines
/// or pages. Beyond, it is the two characters of Latin-1 and those of the later blocks.
pub proof fn law_white_space(c: char)
    ensures
        (c as u32) < 0x80 ==> (text::is_white_space(c) <==> c == ' ' || c == '\t' || c == '\n' || c
            == '\r' || c == '\u{b}' || c == '\u{c}'),
        0x80 <= (c as u32) < 0x1680 ==> (text::is_white_space(c) <==> c == '\u{85}' || c
            == '\u{a0}'),
        (c as u32) >= 0x1680 ==> (text::is_white_space(c) <==> c == '\u{1680}' || '\u{2000}' <= c
            <= '\u{200a}' || c == '\u{2028}' || c == '\u{2029}' || c == '\u{202f}' || c
            == '\u{205f}' || c == '\u{3000}'),
{
}

/// A text is blank exactly where it holds no character but white space.
pub proof fn law_blank_text_is_white_space(s: &str, blank: bool)
    requires
        call_ensures(text::is_blank, (s,), blank),
    ensures
        blank <==> forall|i: int| 0 <= i < s@.len() ==> text::is_white_space(#[trigger] s@[i]),
{
}

/// The plain text of a content is its body.
pub proof fn law_body_is_the_plain_text<'a>(content: &'a MessageContent, body: &'a str)
    requires
        call_ensures(MessageContent::body, (content,), body),
    ensures
        body@ == content.body@,
{
}

/// The content of a Markdown message does not depend on anything but the message and the
/// HTML that was made of it.
pub proof fn law_markdown_content_holds_both(
    message: &str,
    html: String,
    content: MessageContent,
)
    requires
        call_ensures(markdown_content, (message, html), content),
    ensures
        content.body@ == message@,
        content.formatted_body is Some,
        content.formatted_body->0@ == html@,
{
}

/// The content of an HTML message holds the HTML and, trimmed, its plain text: the one
/// laid out, or where there is none the HTML without its markup.
pub proof fn law_html_content_holds_both(
    html: String,
    laid_out: Option<String>,
    stripped: String,
    content: MessageContent,
)
    requires
        call_ensures(html_content, (html, laid_out), content),
        exists|clean: &str| clean@ == html@ && #[trigger] call_ensures(
            strip_markup,
            (clean,),
            stripped,
        ),
    ensures
        content.formatted_body is Some,
        content.formatted_body->0@ == html@,
        laid_out is Some ==> content.body@ == text::trimmed(laid_out->0@),
        laid_out is None ==> content.body@ == text::trimmed(stripped@),
{
}

} // verus!
