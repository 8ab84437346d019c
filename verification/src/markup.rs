//! HTML in the form that a sanitizer writes it in: text, and tags whose attributes
//! are all in double quotes.

use vstd::prelude::*;

use crate::text::{chars_of, text_of};

verus! {

/// A kind of character in markup.
#[derive(Clone, Copy, Debug, PartialEq, Eq, Structural)]
pub enum CharKind {
    /// What text is made of: anything but `<`.
    Text,
    /// What the name of an element is made of: lower-case letters and digits.
    Name,
    /// What the name of an attribute is made of: lower-case letters.
    Letter,
    /// What a value in double quotes is made of: anything but `"`.
    Value,
    /// A line break.
    LineBreak,
}

impl CharKind {
    /// The character is of the kind.
    pub open spec fn has(self, c: char) -> bool {
        match self {
            CharKind::Text => c != '<',
            CharKind::Name => 'a' <= c <= 'z' || '0' <= c <= '9',
            CharKind::Letter => 'a' <= c <= 'z',
            CharKind::Value => c != '"',
            CharKind::LineBreak => c == '\n' || c == '\r',
        }
    }

    fn includes(self, c: char) -> (is: bool)
        ensures
            is == self.has(c),
    {
        match self {
            CharKind::Text => c != '<',
            CharKind::Name => ('a' <= c && c <= 'z') || ('0' <= c && c <= '9'),
            CharKind::Letter => 'a' <= c && c <= 'z',
            CharKind::Value => c != '"',
            CharKind::LineBreak => c == '\n' || c == '\r',
        }
    }
}

/// The end of the run of characters of a kind that begins at `at`.
pub open spec fn end_of_run(html: Seq<char>, at: int, kind: CharKind) -> int
    decreases html.len() - at,
{
    if 0 <= at < html.len() && kind.has(html[at]) {
        end_of_run(html, at + 1, kind)
    } else {
        at
    }
}

/// An attribute of a tag.
#[derive(Debug)]
pub struct Attribute {
    pub name: String,
    pub value: Vec<char>,
}

/// The contents of an [`Attribute`].
pub struct AttributeView {
    pub name: Seq<char>,
    pub value: Seq<char>,
}

impl View for Attribute {
    type V = AttributeView;

    open spec fn view(&self) -> AttributeView {
        AttributeView { name: self.name@, value: self.value@ }
    }
}

impl DeepView for Attribute {
    type V = AttributeView;

    open spec fn deep_view(&self) -> AttributeView {
        self@
    }
}

/// A piece of markup.
#[derive(Debug)]
pub enum Token {
    /// Text between tags.
    Text(Vec<char>),
    /// A tag that opens an element.
    Open { name: String, attributes: Vec<Attribute> },
    /// A tag that closes an element.
    Close { name: String },
}

/// The contents of a [`Token`].
pub enum TokenView {
    Text(Seq<char>),
    Open { name: Seq<char>, attributes: Seq<AttributeView> },
    Close { name: Seq<char> },
}

impl View for Token {
    type V = TokenView;

    open spec fn view(&self) -> TokenView {
        match self {
            Token::Text(text) => TokenView::Text(text@),
            Token::Open { name, attributes } => TokenView::Open {
                name: name@,
                attributes: attributes.deep_view(),
            },
            Token::Close { name } => TokenView::Close { name: name@ },
        }
    }
}

/// Reads the attributes of a tag from `at` on, up to the end of the tag, after the
/// attributes that have been read. Gives all of them and where the tag ends.
pub open spec fn read_attributes(
    html: Seq<char>,
    at: int,
    before: Seq<AttributeView>,
) -> Option<(Seq<AttributeView>, int)>
    decreases html.len() - at,
{
    let equals = end_of_run(html, at + 1, CharKind::Letter);
    let quote = end_of_run(html, equals + 2, CharKind::Value);
    if !(0 <= at < html.len()) {
        None
    } else if html[at] == '>' {
        Some((before, at + 1))
    } else if html[at] == ' ' && at + 1 < equals && equals + 1 < html.len() && html[equals] == '='
        && html[equals + 1] == '"' && equals + 1 < quote < html.len() {
        let attribute = AttributeView {
            name: html.subrange(at + 1, equals),
            value: html.subrange(equals + 2, quote),
        };
        read_attributes(html, quote + 1, before.push(attribute))
    } else {
        None
    }
}

/// Reads the piece of markup that begins at `at`, and tells where it ends.
pub open spec fn token_at(html: Seq<char>, at: int) -> Option<(TokenView, int)> {
    if html[at] != '<' {
        let end = end_of_run(html, at, CharKind::Text);
        Some((TokenView::Text(html.subrange(at, end)), end))
    } else if at + 1 < html.len() && html[at + 1] == '/' {
        let end = end_of_run(html, at + 2, CharKind::Name);
        if end < html.len() && html[end] == '>' {
            Some((TokenView::Close { name: html.subrange(at + 2, end) }, end + 1))
        } else {
            None
        }
    } else {
        let end = end_of_run(html, at + 1, CharKind::Name);
        match read_attributes(html, end, Seq::empty()) {
            Some((attributes, close)) => Some(
                (TokenView::Open { name: html.subrange(at + 1, end), attributes }, close),
            ),
            None => None,
        }
    }
}

/// The text has the word at `at`.
pub open spec fn has_at(text: Seq<char>, at: int, word: Seq<char>) -> bool {
    0 <= at <= text.len() - word.len() && text.subrange(at, at + word.len()) == word
}

/// The character reference at `at`, if it is one that a serializer writes: the
/// character, and what it is written as.
pub open spec fn reference_at(text: Seq<char>, at: int) -> Option<(char, Seq<char>)> {
    if has_at(text, at, "&amp;"@) {
        Some(('&', "&amp;"@))
    } else if has_at(text, at, "&lt;"@) {
        Some(('<', "&lt;"@))
    } else if has_at(text, at, "&gt;"@) {
        Some(('>', "&gt;"@))
    } else if has_at(text, at, "&quot;"@) {
        Some(('"', "&quot;"@))
    } else if has_at(text, at, "&nbsp;"@) {
        Some(('\u{a0}', "&nbsp;"@))
    } else {
        None
    }
}

/// The text from `at` on, with the characters that its references stand for.
pub open spec fn unescaped(text: Seq<char>, at: int) -> Seq<char>
    decreases text.len() - at,
{
    if !(0 <= at < text.len()) {
        Seq::empty()
    } else {
        match reference_at(text, at) {
            Some((c, written)) => if 0 < written.len() <= text.len() - at {
                seq![c] + unescaped(text, at + written.len())
            } else {
                Seq::empty()
            },
            None => seq![text[at]] + unescaped(text, at + 1),
        }
    }
}

/// The end of the run of characters of a kind that begins at `at`.
pub(crate) fn skip_run(html: &[char], at: usize, kind: CharKind) -> (end: usize)
    requires
        at <= html@.len(),
    ensures
        at <= end <= html@.len(),
        end == end_of_run(html@, at as int, kind),
        at < html@.len() && kind.has(html@[at as int]) ==> at < end,
{
    let length: usize = html.len();
    let mut end: usize = at;
    while end < length && kind.includes(html[end])
        invariant
            at <= end <= length,
            length == html@.len(),
            end_of_run(html@, at as int, kind) == end_of_run(html@, end as int, kind),
        decreases length - end,
    {
        end += 1;
    }
    end
}

fn copy_range(html: &[char], first: usize, end: usize) -> (copy: Vec<char>)
    requires
        first <= end <= html@.len(),
    ensures
        copy@ == html@.subrange(first as int, end as int),
{
    let length: usize = html.len();
    let mut copy: Vec<char> = Vec::new();
    let mut i: usize = first;
    while i < end
        invariant
            first <= i <= end <= length,
            length == html@.len(),
            copy@ == html@.subrange(first as int, i as int),
        decreases end - i,
    {
        copy.push(html[i]);
        i += 1;
        assert(copy@ =~= html@.subrange(first as int, i as int));
    }
    copy
}

fn parse_attributes(html: &[char], at: usize) -> (parsed: Option<(Vec<Attribute>, usize)>)
    requires
        at <= html@.len(),
    ensures
        match parsed {
            Some((attributes, end)) => {
                &&& read_attributes(html@, at as int, Seq::empty()) == Some(
                    (attributes.deep_view(), end as int),
                )
                &&& at < end <= html@.len()
            },
            None => read_attributes(html@, at as int, Seq::empty()) is None,
        },
{
    let length: usize = html.len();
    let mut attributes: Vec<Attribute> = Vec::new();
    let mut i: usize = at;
    assert(attributes.deep_view() =~= Seq::empty());
    loop
        invariant
            at <= i <= length,
            length == html@.len(),
            read_attributes(html@, at as int, Seq::empty()) == read_attributes(
                html@,
                i as int,
                attributes.deep_view(),
            ),
        decreases length - i,
    {
        if i == length {
            return None;
        }
        if html[i] == '>' {
            return Some((attributes, i + 1));
        }
        if html[i] != ' ' {
            return None;
        }
        let equals: usize = skip_run(html, i + 1, CharKind::Letter);
        if equals == i + 1 || length - equals < 2 || html[equals] != '=' || html[equals + 1] != '"' {
            return None;
        }
        let quote: usize = skip_run(html, equals + 2, CharKind::Value);
        if quote == length {
            return None;
        }
        let attribute = Attribute {
            name: text_of(html, i + 1, equals),
            value: copy_range(html, equals + 2, quote),
        };
        let ghost before = attributes.deep_view();
        attributes.push(attribute);
        assert(attributes.deep_view() =~= before.push(attribute@));
        i = quote + 1;
    }
}

/// Reads the piece of markup that begins at `at`, and tells where it ends.
pub fn parse_token(html: &[char], at: usize) -> (parsed: Option<(Token, usize)>)
    requires
        at < html@.len(),
    ensures
        match parsed {
            Some((token, end)) => {
                &&& token_at(html@, at as int) == Some((token@, end as int))
                &&& at < end <= html@.len()
            },
            None => token_at(html@, at as int) is None,
        },
{
    if html[at] != '<' {
        let end: usize = skip_run(html, at, CharKind::Text);
        return Some((Token::Text(copy_range(html, at, end)), end));
    }
    if html.len() - at > 1 && html[at + 1] == '/' {
        let end: usize = skip_run(html, at + 2, CharKind::Name);
        if end == html.len() || html[end] != '>' {
            return None;
        }
        return Some((Token::Close { name: text_of(html, at + 2, end) }, end + 1));
    }
    let end: usize = skip_run(html, at + 1, CharKind::Name);
    match parse_attributes(html, end) {
        Some((attributes, close)) => Some(
            (Token::Open { name: text_of(html, at + 1, end), attributes }, close),
        ),
        None => None,
    }
}

/// The length of a word that the text has at `at`, if it has it there.
fn match_word(text: &[char], at: usize, word: &str) -> (length: Option<usize>)
    requires
        at <= text@.len(),
    ensures
        match length {
            Some(length) => has_at(text@, at as int, word@) && length == word@.len(),
            None => !has_at(text@, at as int, word@),
        },
{
    let pattern = chars_of(word);
    if text.len() - at < pattern.len() {
        return None;
    }
    let length: usize = text.len();
    let mut i: usize = 0;
    while i < pattern.len()
        invariant
            i <= pattern@.len(),
            length == text@.len(),
            at + pattern@.len() <= length,
            pattern@ == word@,
            forall|j: int| 0 <= j < i ==> #[trigger] pattern@[j] == text@[at + j],
        decreases pattern@.len() - i,
    {
        if text[at + i] != pattern[i] {
            assert(text@.subrange(at as int, at + pattern@.len())[i as int] != pattern@[i as int]);
            return None;
        }
        i += 1;
    }
    assert(text@.subrange(at as int, at + pattern@.len()) =~= pattern@);
    Some(pattern.len())
}

/// The character reference at `at`, if it is one that a serializer writes, and its
/// length.
pub(crate) fn match_reference(text: &[char], at: usize) -> (found: Option<(char, usize)>)
    requires
        at <= text@.len(),
    ensures
        match found {
            Some((c, length)) => {
                &&& reference_at(text@, at as int) matches Some((d, written)) && c == d && length
                    == written.len()
                &&& 0 < length <= text@.len() - at
            },
            None => reference_at(text@, at as int) is None,
        },
{
    proof {
        reveal_strlit("&amp;");
        reveal_strlit("&lt;");
        reveal_strlit("&gt;");
        reveal_strlit("&quot;");
        reveal_strlit("&nbsp;");
    }
    if let Some(length) = match_word(text, at, "&amp;") {
        return Some(('&', length));
    }
    if let Some(length) = match_word(text, at, "&lt;") {
        return Some(('<', length));
    }
    if let Some(length) = match_word(text, at, "&gt;") {
        return Some(('>', length));
    }
    if let Some(length) = match_word(text, at, "&quot;") {
        return Some(('"', length));
    }
    if let Some(length) = match_word(text, at, "&nbsp;") {
        return Some(('\u{a0}', length));
    }
    None
}

/// The text with the characters that its references stand for.
pub(crate) fn unescape(text: &[char]) -> (plain: Vec<char>)
    ensures
        plain@ == unescaped(text@, 0),
{
    let length: usize = text.len();
    let mut plain: Vec<char> = Vec::new();
    let mut i: usize = 0;
    assert(plain@ + unescaped(text@, 0) =~= unescaped(text@, 0));
    while i < length
        invariant
            i <= length,
            length == text@.len(),
            plain@ + unescaped(text@, i as int) == unescaped(text@, 0),
        decreases length - i,
    {
        let ghost before = plain@;
        if text[i] != '&' {
            proof {
                lemma_references_begin_with_an_ampersand(text@, i as int);
            }
            plain.push(text[i]);
            assert(before + (seq![text@[i as int]] + unescaped(text@, i + 1)) =~= plain@
                + unescaped(text@, i + 1));
            i += 1;
        } else {
            match match_reference(text, i) {
                Some((c, size)) => {
                    plain.push(c);
                    assert(before + (seq![c] + unescaped(text@, i + size)) =~= plain@ + unescaped(
                        text@,
                        i + size,
                    ));
                    i += size;
                },
                None => {
                    plain.push(text[i]);
                    assert(before + (seq![text@[i as int]] + unescaped(text@, i + 1)) =~= plain@
                        + unescaped(text@, i + 1));
                    i += 1;
                },
            }
        }
    }
    assert(plain@ + unescaped(text@, length as int) =~= plain@);
    plain
}

proof fn lemma_references_begin_with_an_ampersand(text: Seq<char>, at: int)
    requires
        0 <= at < text.len(),
        text[at] != '&',
    ensures
        reference_at(text, at) is None,
{
    reveal_strlit("&amp;");
    reveal_strlit("&lt;");
    reveal_strlit("&gt;");
    reveal_strlit("&quot;");
    reveal_strlit("&nbsp;");
    assert forall|word: Seq<char>| word.len() > 0 && word[0] == '&' implies !#[trigger] has_at(
        text,
        at,
        word,
    ) by {
        if has_at(text, at, word) {
            assert(text.subrange(at, at + word.len())[0] == text[at]);
        }
    }
}

} // verus!
