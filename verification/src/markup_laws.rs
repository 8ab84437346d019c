//! What holds of markup and of the plain text that is left of it: how it is read, what its
//! references stand for, and what can be laid out.

use vstd::prelude::*;

use crate::layout::{self, strip_markup};
use crate::markup::{self, parse_token, AttributeView, CharKind, Token, TokenView};

verus! {

/// A character that the names of elements are made of.
pub open spec fn is_name_char(c: char) -> bool {
    'a' <= c <= 'z' || '0' <= c <= '9'
}

/// Attributes as they are written: a space, the name, an equals sign, and the value in double
/// quotes.
pub open spec fn written_attributes(attributes: Seq<AttributeView>) -> Seq<char>
    decreases attributes.len(),
{
    if attributes.len() == 0 {
        Seq::empty()
    } else {
        let first = attributes.first();
        seq![' '] + first.name + seq!['=', '"'] + first.value + seq!['"'] + written_attributes(
            attributes.drop_first(),
        )
    }
}

/// The names are lower-case letters, one at least, and no value holds a double quote.
pub open spec fn can_be_written(attributes: Seq<AttributeView>) -> bool {
    forall|i: int|
        0 <= i < attributes.len() ==> {
            &&& (#[trigger] attributes[i]).name.len() > 0
            &&& forall|j: int|
                0 <= j < attributes[i].name.len() ==> 'a' <= #[trigger] attributes[i].name[j]
                    <= 'z'
            &&& forall|j: int|
                0 <= j < attributes[i].value.len() ==> #[trigger] attributes[i].value[j] != '"'
        }
}

/// A tag that opens an element, as it is written.
pub open spec fn opening_tag(name: Seq<char>, attributes: Seq<AttributeView>) -> Seq<char> {
    seq!['<'] + name + written_attributes(attributes) + seq!['>']
}

/// A tag that closes an element, as it is written.
pub open spec fn closing_tag(name: Seq<char>) -> Seq<char> {
    seq!['<', '/'] + name + seq!['>']
}

/// The name is made of lower-case letters and digits.
pub open spec fn is_name(name: Seq<char>) -> bool {
    forall|i: int| 0 <= i < name.len() ==> is_name_char(#[trigger] name[i])
}

/// The text holds no tag.
pub open spec fn is_text(text: Seq<char>) -> bool {
    forall|i: int| 0 <= i < text.len() ==> #[trigger] text[i] != '<'
}

/// A run ends where its kind does.
pub proof fn lemma_run_ends(html: Seq<char>, at: int, kind: CharKind, end: int)
    requires
        0 <= at <= end <= html.len(),
        forall|i: int| at <= i < end ==> kind.has(#[trigger] html[i]),
        end < html.len() ==> !kind.has(html[end]),
    ensures
        markup::end_of_run(html, at, kind) == end,
    decreases end - at,
{
    if at < end {
        lemma_run_ends(html, at + 1, kind, end);
    }
}

/// A run is of its kind, and what follows is not.
proof fn lemma_run_is_of_kind(html: Seq<char>, at: int, kind: CharKind)
    requires
        0 <= at <= html.len(),
    ensures
        at <= markup::end_of_run(html, at, kind) <= html.len(),
        forall|i: int|
            at <= i < markup::end_of_run(html, at, kind) ==> kind.has(#[trigger] html[i]),
        markup::end_of_run(html, at, kind) < html.len() ==> !kind.has(
            html[markup::end_of_run(html, at, kind)],
        ),
    decreases html.len() - at,
{
    if at < html.len() && kind.has(html[at]) {
        lemma_run_is_of_kind(html, at + 1, kind);
    }
}

/// The part of a text at a place.
pub open spec fn has_part(html: Seq<char>, at: int, part: Seq<char>) -> bool {
    &&& 0 <= at
    &&& at + part.len() <= html.len()
    &&& html.subrange(at, at + part.len()) =~= part
}

/// A part of a part.
pub proof fn lemma_part_of_part(html: Seq<char>, at: int, head: Seq<char>, tail: Seq<char>)
    requires
        has_part(html, at, head + tail),
    ensures
        has_part(html, at, head),
        has_part(html, at + head.len(), tail),
{
    let whole = head + tail;
    assert(html.subrange(at, at + head.len()) =~= head) by {
        assert forall|i: int| 0 <= i < head.len() implies html[at + i] == head[i] by {
            assert(html.subrange(at, at + whole.len())[i] == whole[i]);
        }
    }
    let from = at + head.len();
    assert(html.subrange(from, from + tail.len()) =~= tail) by {
        assert forall|i: int| 0 <= i < tail.len() implies html[from + i] == tail[i] by {
            assert(html.subrange(at, at + whole.len())[head.len() + i] == whole[head.len() + i]);
        }
    }
}

proof fn lemma_part_at(html: Seq<char>, at: int, part: Seq<char>, rest: Seq<char>)
    requires
        0 <= at <= html.len(),
        html.skip(at) == part + rest,
    ensures
        has_part(html, at, part),
{
    assert(html.skip(at).len() == part.len() + rest.len());
    let end = at + part.len();
    assert forall|i: int| 0 <= i < part.len() implies html.subrange(at, end)[i] == part[i] by {
        assert((part + rest)[i] == part[i]);
        assert(html.skip(at)[i] == html[i + at]);
    }
    assert(html.subrange(at, end) =~= part);
}

/// A character of a part at a place.
pub proof fn lemma_char_of_part(html: Seq<char>, at: int, part: Seq<char>, i: int)
    requires
        has_part(html, at, part),
        0 <= i < part.len(),
    ensures
        html[at + i] == part[i],
{
    assert(html.subrange(at, at + part.len())[i] == part[i]);
}

/// Attributes are read as they are written.
proof fn lemma_attributes_are_read(
    html: Seq<char>,
    at: int,
    before: Seq<AttributeView>,
    attributes: Seq<AttributeView>,
)
    requires
        can_be_written(attributes),
        has_part(html, at, written_attributes(attributes) + seq!['>']),
    ensures
        markup::read_attributes(html, at, before) == Some(
            (before + attributes, at + written_attributes(attributes).len() + 1),
        ),
    decreases attributes.len(),
{
    let written = written_attributes(attributes);
    if attributes.len() == 0 {
        lemma_char_of_part(html, at, written + seq!['>'], 0);
        assert(before + attributes =~= before);
    } else {
        let first = attributes.first();
        assert(attributes[0] == first);
        let rest = attributes.drop_first();
        let space = seq![' '];
        let is = seq!['=', '"'];
        let quote_mark = seq!['"'];
        let tail = written_attributes(rest) + seq!['>'];
        assert(written + seq!['>'] =~= space + (first.name + (is + (first.value + (quote_mark
            + tail)))));
        lemma_part_of_part(html, at, space, first.name + (is + (first.value + (quote_mark + tail))));
        lemma_part_of_part(html, at + 1, first.name, is + (first.value + (quote_mark + tail)));
        let equals = at + 1 + first.name.len();
        lemma_part_of_part(html, equals, is, first.value + (quote_mark + tail));
        lemma_part_of_part(html, equals + 2, first.value, quote_mark + tail);
        let quote = equals + 2 + first.value.len();
        lemma_part_of_part(html, quote, quote_mark, tail);
        lemma_char_of_part(html, at, space, 0);
        lemma_char_of_part(html, equals, is, 0);
        lemma_char_of_part(html, equals, is, 1);
        lemma_char_of_part(html, quote, quote_mark, 0);
        assert forall|i: int| at + 1 <= i < equals implies CharKind::Letter.has(
            #[trigger] html[i],
        ) by {
            lemma_char_of_part(html, at + 1, first.name, i - at - 1);
            assert('a' <= attributes[0].name[i - at - 1] <= 'z');
        }
        assert forall|i: int| equals + 2 <= i < quote implies CharKind::Value.has(
            #[trigger] html[i],
        ) by {
            lemma_char_of_part(html, equals + 2, first.value, i - equals - 2);
            assert(attributes[0].value[i - equals - 2] != '"');
        }
        lemma_run_ends(html, at + 1, CharKind::Letter, equals);
        lemma_run_ends(html, equals + 2, CharKind::Value, quote);
        assert forall|i: int| 0 <= i < rest.len() implies {
            &&& (#[trigger] rest[i]).name.len() > 0
            &&& forall|j: int| 0 <= j < rest[i].name.len() ==> 'a' <= #[trigger] rest[i].name[j]
                    <= 'z'
            &&& forall|j: int| 0 <= j < rest[i].value.len() ==> #[trigger] rest[i].value[j] != '"'
        } by {
            assert(rest[i] == attributes[i + 1]);
        }
        lemma_attributes_are_read(html, quote + 1, before.push(first), rest);
        assert(html.subrange(at + 1, equals) =~= first.name);
        assert(html.subrange(equals + 2, quote) =~= first.value);
        assert(before.push(first) + rest =~= before + attributes);
    }
}

/// What is read as attributes is written so.
proof fn lemma_read_attributes_are_written(html: Seq<char>, at: int, before: Seq<AttributeView>)
    requires
        0 <= at <= html.len(),
        markup::read_attributes(html, at, before) is Some,
    ensures
        ({
            let (attributes, end) = markup::read_attributes(html, at, before)->0;
            let read = attributes.skip(before.len() as int);
            &&& attributes.len() >= before.len()
            &&& attributes =~= before + read
            &&& can_be_written(read)
            &&& at < end <= html.len()
            &&& html.subrange(at, end) =~= written_attributes(read) + seq!['>']
        }),
    decreases html.len() - at,
{
    let (attributes, end) = markup::read_attributes(html, at, before)->0;
    let read = attributes.skip(before.len() as int);
    if html[at] == '>' {
        assert(read =~= Seq::empty());
        assert(html.subrange(at, end) =~= written_attributes(read) + seq!['>']);
    } else {
        let equals = markup::end_of_run(html, at + 1, CharKind::Letter);
        lemma_run_is_of_kind(html, at + 1, CharKind::Letter);
        let quote = markup::end_of_run(html, equals + 2, CharKind::Value);
        lemma_run_is_of_kind(html, equals + 2, CharKind::Value);
        let first = AttributeView {
            name: html.subrange(at + 1, equals),
            value: html.subrange(equals + 2, quote),
        };
        lemma_read_attributes_are_written(html, quote + 1, before.push(first));
        let rest = attributes.skip(before.len() as int + 1);
        assert(read =~= seq![first] + rest);
        assert(read.first() == first);
        assert(read.drop_first() =~= rest);
        assert(html.subrange(at, end) =~= seq![' '] + first.name + seq!['=', '"'] + first.value
            + seq!['"'] + html.subrange(quote + 1, end));
        assert(html.subrange(at, end) =~= written_attributes(read) + seq!['>']);
        assert forall|i: int| 0 <= i < read.len() implies {
            &&& (#[trigger] read[i]).name.len() > 0
            &&& forall|j: int| 0 <= j < read[i].name.len() ==> 'a' <= #[trigger] read[i].name[j]
                    <= 'z'
            &&& forall|j: int| 0 <= j < read[i].value.len() ==> #[trigger] read[i].value[j] != '"'
        } by {
            if i == 0 {
                assert forall|j: int| 0 <= j < first.name.len() implies 'a'
                    <= #[trigger] first.name[j] <= 'z' by {
                    assert(CharKind::Letter.has(html[at + 1 + j]));
                }
                assert forall|j: int| 0 <= j < first.value.len() implies
                    #[trigger] first.value[j] != '"' by {
                    assert(CharKind::Value.has(html[equals + 2 + j]));
                }
            } else {
                assert(read[i] == rest[i - 1]);
            }
        }
    }
}

/// An opening tag is read as the element and the attributes that it is written with.
pub proof fn law_opening_tags_are_read(
    html: &[char],
    at: usize,
    name: Seq<char>,
    attributes: Seq<AttributeView>,
    rest: Seq<char>,
    parsed: Option<(Token, usize)>,
)
    requires
        call_ensures(parse_token, (html, at), parsed),
        is_name(name),
        can_be_written(attributes),
        at <= html@.len(),
        html@.skip(at as int) == opening_tag(name, attributes) + rest,
    ensures
        parsed matches Some((token, end)) && token@ == (TokenView::Open { name, attributes })
            && end == at + opening_tag(name, attributes).len(),
{
    lemma_part_at(html@, at as int, opening_tag(name, attributes), rest);
    lemma_opening_tag_at(html@, at as int, name, attributes);
}

/// An opening tag at a place is read there.
pub proof fn lemma_opening_tag_at(
    html: Seq<char>,
    at: int,
    name: Seq<char>,
    attributes: Seq<AttributeView>,
)
    requires
        is_name(name),
        can_be_written(attributes),
        has_part(html, at, opening_tag(name, attributes)),
    ensures
        markup::token_at(html, at) == Some(
            (
                TokenView::Open { name, attributes },
                at + opening_tag(name, attributes).len(),
            ),
        ),
{
    let open = seq!['<'];
    let tail = written_attributes(attributes) + seq!['>'];
    assert(opening_tag(name, attributes) =~= open + (name + tail));
    lemma_part_of_part(html, at, open, name + tail);
    lemma_part_of_part(html, at + 1, name, tail);
    let end = at + 1 + name.len();
    lemma_char_of_part(html, at, open, 0);
    lemma_char_of_part(html, end, tail, 0);
    if attributes.len() > 0 {
        assert(tail[0] == ' ');
    } else {
        assert(tail[0] == '>');
    }
    assert forall|i: int| at + 1 <= i < end implies CharKind::Name.has(#[trigger] html[i]) by {
        lemma_char_of_part(html, at + 1, name, i - at - 1);
        assert(is_name_char(name[i - at - 1]));
    }
    if name.len() > 0 {
        assert(CharKind::Name.has(html[at + 1]));
    }
    lemma_run_ends(html, at + 1, CharKind::Name, end);
    lemma_attributes_are_read(html, end, Seq::empty(), attributes);
    assert(Seq::<AttributeView>::empty() + attributes =~= attributes);
    assert(html.subrange(at + 1, end) =~= name);
}

/// A closing tag at a place is read there.
pub proof fn lemma_closing_tag_at(html: Seq<char>, at: int, name: Seq<char>)
    requires
        is_name(name),
        has_part(html, at, closing_tag(name)),
    ensures
        markup::token_at(html, at) == Some(
            (TokenView::Close { name }, at + closing_tag(name).len()),
        ),
{
    let open = seq!['<', '/'];
    let close = seq!['>'];
    assert(closing_tag(name) =~= open + (name + close));
    lemma_part_of_part(html, at, open, name + close);
    lemma_part_of_part(html, at + 2, name, close);
    let end = at + 2 + name.len();
    lemma_char_of_part(html, at, open, 0);
    lemma_char_of_part(html, at, open, 1);
    lemma_char_of_part(html, end, close, 0);
    assert forall|i: int| at + 2 <= i < end implies CharKind::Name.has(#[trigger] html[i]) by {
        lemma_char_of_part(html, at + 2, name, i - at - 2);
        assert(is_name_char(name[i - at - 2]));
    }
    lemma_run_ends(html, at + 2, CharKind::Name, end);
    assert(html.subrange(at + 2, end) =~= name);
}

/// A closing tag is read as the element that it is written with.
pub proof fn law_closing_tags_are_read(
    html: &[char],
    at: usize,
    name: Seq<char>,
    rest: Seq<char>,
    parsed: Option<(Token, usize)>,
)
    requires
        call_ensures(parse_token, (html, at), parsed),
        is_name(name),
        at <= html@.len(),
        html@.skip(at as int) == closing_tag(name) + rest,
    ensures
        parsed matches Some((token, end)) && token@ == (TokenView::Close { name }) && end == at
            + closing_tag(name).len(),
{
    lemma_part_at(html@, at as int, closing_tag(name), rest);
    lemma_closing_tag_at(html@, at as int, name);
}

/// What is read is what is written: a text up to the next tag, or a tag.
pub proof fn law_pieces_are_read_as_written(
    html: &[char],
    at: usize,
    token: Token,
    end: usize,
)
    requires
        at < html@.len(),
        call_ensures(parse_token, (html, at), Some((token, end))),
    ensures
        at < end <= html@.len(),
        ({
            let piece = html@.subrange(at as int, end as int);
            match token@ {
                TokenView::Text(text) => {
                    &&& piece == text
                    &&& is_text(text)
                    &&& end < html@.len() ==> html@[end as int] == '<'
                },
                TokenView::Open { name, attributes } => {
                    &&& piece == opening_tag(name, attributes)
                    &&& is_name(name)
                    &&& can_be_written(attributes)
                },
                TokenView::Close { name } => {
                    &&& piece == closing_tag(name)
                    &&& is_name(name)
                },
            }
        }),
{
    let text = html@;
    let first = at as int;
    let end = end as int;
    if text[first] != '<' {
        lemma_run_is_of_kind(text, first, CharKind::Text);
        let piece = text.subrange(first, end);
        assert forall|i: int| 0 <= i < piece.len() implies #[trigger] piece[i] != '<' by {
            assert(CharKind::Text.has(text[first + i]));
        }
    } else if first + 1 < text.len() && text[first + 1] == '/' {
        lemma_run_is_of_kind(text, first + 2, CharKind::Name);
        let name = text.subrange(first + 2, end - 1);
        assert forall|i: int| 0 <= i < name.len() implies is_name_char(#[trigger] name[i]) by {
            assert(CharKind::Name.has(text[first + 2 + i]));
        }
        assert(text.subrange(first, end) =~= closing_tag(name));
    } else {
        lemma_run_is_of_kind(text, first + 1, CharKind::Name);
        let stop = markup::end_of_run(text, first + 1, CharKind::Name);
        let name = text.subrange(first + 1, stop);
        assert forall|i: int| 0 <= i < name.len() implies is_name_char(#[trigger] name[i]) by {
            assert(CharKind::Name.has(text[first + 1 + i]));
        }
        lemma_read_attributes_are_written(text, stop, Seq::empty());
        let attributes = (markup::read_attributes(text, stop, Seq::empty())->0).0;
        assert(attributes.skip(0) =~= attributes);
        assert(text.subrange(first, end) =~= seq!['<'] + name + text.subrange(stop, end));
        assert(text.subrange(first, end) =~= opening_tag(name, attributes));
    }
}

proof fn lemma_run_elsewhere(html: Seq<char>, k: int, at: int, kind: CharKind)
    requires
        0 <= k <= html.len(),
        0 <= at,
    ensures
        markup::end_of_run(html, k + at, kind) == k + markup::end_of_run(html.skip(k), at, kind),
        at <= markup::end_of_run(html.skip(k), at, kind),
    decreases html.len() - at,
{
    if k + at < html.len() && kind.has(html[k + at]) {
        assert(html.skip(k)[at] == html[k + at]);
        lemma_run_elsewhere(html, k, at + 1, kind);
    } else if k + at < html.len() {
        assert(html.skip(k)[at] == html[k + at]);
    }
}

proof fn lemma_attributes_elsewhere(
    html: Seq<char>,
    k: int,
    at: int,
    before: Seq<AttributeView>,
)
    requires
        0 <= k <= html.len(),
        0 <= at,
    ensures
        markup::read_attributes(html, k + at, before) == (match markup::read_attributes(
            html.skip(k),
            at,
            before,
        ) {
            Some((attributes, end)) => Some((attributes, k + end)),
            None => None,
        }),
    decreases html.len() - at,
{
    let rest = html.skip(k);
    if k + at < html.len() {
        assert(rest[at] == html[k + at]);
        lemma_run_elsewhere(html, k, at + 1, CharKind::Letter);
        let equals = markup::end_of_run(rest, at + 1, CharKind::Letter);
        assert(markup::end_of_run(html, k + at + 1, CharKind::Letter) == k + equals);
        lemma_run_elsewhere(html, k, equals + 2, CharKind::Value);
        let quote = markup::end_of_run(rest, equals + 2, CharKind::Value);
        assert(markup::end_of_run(html, k + equals + 2, CharKind::Value) == k + quote);
        if html[k + at] == ' ' && at + 1 < equals && equals + 1 < rest.len() && rest[equals] == '='
            && rest[equals + 1] == '"' && equals + 1 < quote < rest.len() {
            assert(html.subrange(k + at + 1, k + equals) =~= rest.subrange(at + 1, equals));
            assert(html.subrange(k + equals + 2, k + quote) =~= rest.subrange(equals + 2, quote));
            let attribute = AttributeView {
                name: rest.subrange(at + 1, equals),
                value: rest.subrange(equals + 2, quote),
            };
            lemma_attributes_elsewhere(html, k, quote + 1, before.push(attribute));
        }
    }
}

/// A piece is read in the same way wherever it stands.
proof fn lemma_token_elsewhere(html: Seq<char>, k: int, at: int)
    requires
        0 <= k <= html.len(),
        0 <= at < html.len() - k,
    ensures
        markup::token_at(html, k + at) == (match markup::token_at(html.skip(k), at) {
            Some((token, end)) => Some((token, k + end)),
            None => None,
        }),
{
    let rest = html.skip(k);
    assert(rest[at] == html[k + at]);
    if html[k + at] != '<' {
        lemma_run_elsewhere(html, k, at, CharKind::Text);
        lemma_run_is_of_kind(rest, at, CharKind::Text);
        let end = markup::end_of_run(rest, at, CharKind::Text);
        assert(html.subrange(k + at, k + end) =~= rest.subrange(at, end));
    } else if at + 1 < rest.len() && rest[at + 1] == '/' {
        lemma_run_elsewhere(html, k, at + 2, CharKind::Name);
        lemma_run_is_of_kind(rest, at + 2, CharKind::Name);
        let end = markup::end_of_run(rest, at + 2, CharKind::Name);
        assert(html.subrange(k + at + 2, k + end) =~= rest.subrange(at + 2, end));
    } else {
        lemma_run_elsewhere(html, k, at + 1, CharKind::Name);
        lemma_run_is_of_kind(rest, at + 1, CharKind::Name);
        let end = markup::end_of_run(rest, at + 1, CharKind::Name);
        assert(html.subrange(k + at + 1, k + end) =~= rest.subrange(at + 1, end));
        lemma_attributes_elsewhere(html, k, end, Seq::empty());
    }
}

proof fn lemma_text_elsewhere(html: Seq<char>, k: int, at: int)
    requires
        0 <= k <= html.len(),
        0 <= at,
    ensures
        layout::text_without_markup(html, k + at) == layout::text_without_markup(html.skip(k), at),
    decreases html.len() - at,
{
    let rest = html.skip(k);
    if k + at < html.len() {
        lemma_token_elsewhere(html, k, at);
        assert(html.skip(k + at) =~= rest.skip(at));
        if let Some((token, end)) = markup::token_at(rest, at) {
            if at < end <= rest.len() {
                lemma_text_elsewhere(html, k, end);
            }
        }
    }
}

/// The text is one piece of markup: a tag, or text that nothing or a tag follows.
pub open spec fn is_piece(piece: Seq<char>, rest: Seq<char>) -> bool {
    ||| exists|name: Seq<char>, attributes: Seq<AttributeView>|
        is_name(name) && can_be_written(attributes) && piece == #[trigger] opening_tag(
            name,
            attributes,
        )
    ||| exists|name: Seq<char>| is_name(name) && piece == #[trigger] closing_tag(name)
    ||| piece.len() > 0 && is_text(piece) && (rest.len() == 0 || rest[0] == '<')
}

/// A piece is read off the front of HTML, whatever follows.
proof fn lemma_piece_is_read(html: Seq<char>, piece: Seq<char>, rest: Seq<char>)
    requires
        is_piece(piece, rest),
        html == piece + rest,
    ensures
        piece.len() > 0,
        markup::token_at(html, 0) is Some,
        markup::token_at(html, 0) == markup::token_at(piece, 0),
        (markup::token_at(html, 0)->0).1 == piece.len(),
{
    let none = Seq::<char>::empty();
    assert(html.skip(0) =~= piece + rest);
    assert(piece.skip(0) =~= piece + none);
    lemma_part_at(html, 0, piece, rest);
    lemma_part_at(piece, 0, piece, none);
    if piece.len() > 0 && is_text(piece) && (rest.len() == 0 || rest[0] == '<') {
        assert forall|i: int| 0 <= i < piece.len() implies CharKind::Text.has(
            #[trigger] html[i],
        ) by {
            assert(html[i] == piece[i]);
        }
        if rest.len() > 0 {
            assert(html[piece.len() as int] == rest[0]);
        }
        lemma_run_ends(html, 0, CharKind::Text, piece.len() as int);
        lemma_run_ends(piece, 0, CharKind::Text, piece.len() as int);
        assert(html.subrange(0, piece.len() as int) =~= piece.subrange(0, piece.len() as int));
        assert(html[0] == piece[0]);
    } else if exists|name: Seq<char>, attributes: Seq<AttributeView>|
        is_name(name) && can_be_written(attributes) && piece == #[trigger] opening_tag(
            name,
            attributes,
        ) {
        let (name, attributes) = choose|name: Seq<char>, attributes: Seq<AttributeView>|
            is_name(name) && can_be_written(attributes) && piece == #[trigger] opening_tag(
                name,
                attributes,
            );
        lemma_opening_tag_at(html, 0, name, attributes);
        lemma_opening_tag_at(piece, 0, name, attributes);
    } else {
        let name = choose|name: Seq<char>| is_name(name) && piece == #[trigger] closing_tag(name);
        lemma_closing_tag_at(html, 0, name);
        lemma_closing_tag_at(piece, 0, name);
    }
}

/// The plain text of HTML is that of its pieces, one after the other: a piece leaves the same
/// behind whatever follows it.
pub proof fn law_pieces_are_stripped_one_by_one(
    piece: &str,
    rest: &str,
    html: &str,
    of_piece: String,
    of_rest: String,
    of_html: String,
)
    requires
        is_piece(piece@, rest@),
        html@ == piece@ + rest@,
        call_ensures(strip_markup, (piece,), of_piece),
        call_ensures(strip_markup, (rest,), of_rest),
        call_ensures(strip_markup, (html,), of_html),
    ensures
        of_html@ == of_piece@ + of_rest@,
{
    lemma_piece_and_rest(piece@, rest@);
}

proof fn lemma_piece_and_rest(piece: Seq<char>, rest: Seq<char>)
    requires
        is_piece(piece, rest),
    ensures
        layout::text_without_markup(piece + rest, 0) == layout::text_without_markup(piece, 0)
            + layout::text_without_markup(rest, 0),
{
    let html = piece + rest;
    let n = piece.len() as int;
    lemma_piece_is_read(html, piece, rest);
    lemma_text_elsewhere(html, n, 0);
    assert(html.skip(n) =~= rest);
    let (token, end) = markup::token_at(html, 0)->0;
    let left = match token {
        TokenView::Text(text) => markup::unescaped(text, 0),
        TokenView::Open { name, .. } => layout::tag_text(name),
        TokenView::Close { name } => layout::tag_text(name),
    };
    let none = layout::text_without_markup(piece, n);
    assert(none =~= Seq::<char>::empty());
    assert(layout::text_without_markup(piece, 0) == left + none);
    assert(left + none =~= left);
    assert(layout::text_without_markup(html, 0) == left + layout::text_without_markup(html, n));
}

/// What is not markup stays as it is.
pub proof fn law_other_text_stays(html: &str, chars: &[char], stripped: String)
    requires
        html@ == chars@,
        chars@.len() > 0,
        call_ensures(parse_token, (chars, 0), None),
        call_ensures(strip_markup, (html,), stripped),
    ensures
        stripped@ == html@,
{
    assert(html@.skip(0) =~= html@);
}

/// A character as it is written in text.
pub open spec fn escaped_char(c: char) -> Seq<char> {
    if c == '&' {
        "&amp;"@
    } else if c == '<' {
        "&lt;"@
    } else if c == '>' {
        "&gt;"@
    } else if c == '"' {
        "&quot;"@
    } else if c == '\u{a0}' {
        "&nbsp;"@
    } else {
        seq![c]
    }
}

/// A text with its special characters written as references.
pub open spec fn escaped(plain: Seq<char>) -> Seq<char>
    decreases plain.len(),
{
    if plain.len() == 0 {
        Seq::empty()
    } else {
        escaped_char(plain.first()) + escaped(plain.drop_first())
    }
}

/// The references, character by character.
pub proof fn lemma_references()
    ensures
        "&amp;"@ =~= seq!['&', 'a', 'm', 'p', ';'],
        "&lt;"@ =~= seq!['&', 'l', 't', ';'],
        "&gt;"@ =~= seq!['&', 'g', 't', ';'],
        "&quot;"@ =~= seq!['&', 'q', 'u', 'o', 't', ';'],
        "&nbsp;"@ =~= seq!['&', 'n', 'b', 's', 'p', ';'],
{
    reveal_strlit("&amp;");
    reveal_strlit("&lt;");
    reveal_strlit("&gt;");
    reveal_strlit("&quot;");
    reveal_strlit("&nbsp;");
}

/// Two words that differ in their second character do not stand at the same place.
proof fn lemma_other_word(text: Seq<char>, at: int, word: Seq<char>, other: Seq<char>)
    requires
        markup::has_at(text, at, word),
        word.len() > 1,
        other.len() > 1,
        word[1] != other[1],
    ensures
        !markup::has_at(text, at, other),
{
    assert(text.subrange(at, at + word.len())[1] == text[at + 1]);
    if markup::has_at(text, at, other) {
        assert(text.subrange(at, at + other.len())[1] == text[at + 1]);
    }
}

/// The character that is written at a place is read there.
pub proof fn lemma_escaped_char_is_read(text: Seq<char>, at: int, c: char)
    requires
        has_part(text, at, escaped_char(c)),
    ensures
        escaped_char(c).len() > 0,
        escaped_char(c).len() > 1 ==> markup::reference_at(text, at) == Some((c, escaped_char(c))),
        escaped_char(c).len() == 1 ==> markup::reference_at(text, at) is None && text[at] == c,
{
    lemma_references();
    let written = escaped_char(c);
    if written.len() > 1 {
        assert(markup::has_at(text, at, written));
        if c == '<' {
            lemma_other_word(text, at, written, "&amp;"@);
        } else if c == '>' {
            lemma_other_word(text, at, written, "&amp;"@);
            lemma_other_word(text, at, written, "&lt;"@);
        } else if c == '"' {
            lemma_other_word(text, at, written, "&amp;"@);
            lemma_other_word(text, at, written, "&lt;"@);
            lemma_other_word(text, at, written, "&gt;"@);
        } else if c == '\u{a0}' {
            lemma_other_word(text, at, written, "&amp;"@);
            lemma_other_word(text, at, written, "&lt;"@);
            lemma_other_word(text, at, written, "&gt;"@);
            lemma_other_word(text, at, written, "&quot;"@);
        }
    } else {
        lemma_char_of_part(text, at, written, 0);
        assert(text[at] == c && c != '&');
        assert forall|word: Seq<char>| word.len() > 0 && word[0] == '&' implies !#[trigger]
            markup::has_at(text, at, word) by {
            if markup::has_at(text, at, word) {
                assert(text.subrange(at, at + word.len())[0] == text[at]);
            }
        }
    }
}

proof fn lemma_escaped_is_read_back(text: Seq<char>, at: int, plain: Seq<char>)
    requires
        0 <= at,
        at + escaped(plain).len() == text.len(),
        has_part(text, at, escaped(plain)),
    ensures
        markup::unescaped(text, at) == plain,
        is_text(escaped(plain)),
    decreases plain.len(),
{
    lemma_references();
    if plain.len() == 0 {
        assert(plain =~= Seq::empty());
    } else {
        let c = plain.first();
        let rest = plain.drop_first();
        let written = escaped_char(c);
        lemma_part_of_part(text, at, written, escaped(rest));
        lemma_escaped_char_is_read(text, at, c);
        lemma_escaped_is_read_back(text, at + written.len(), rest);
        assert(seq![c] + rest =~= plain);
        assert(is_text(written));
        assert forall|i: int| 0 <= i < escaped(plain).len() implies #[trigger] escaped(plain)[i]
            != '<' by {
            if i < written.len() {
                assert(written[i] != '<');
            } else {
                assert(escaped(rest)[i - written.len()] != '<');
            }
        }
    }
}

/// References stand for the characters that they were written for: text with its special
/// characters escaped comes back as it was, whatever it says.
pub proof fn law_escaped_text_comes_back(plain: Seq<char>, html: &str, stripped: String)
    requires
        html@ == escaped(plain),
        call_ensures(strip_markup, (html,), stripped),
    ensures
        stripped@ == plain,
{
    let text = html@;
    assert(text.subrange(0, text.len() as int) =~= text);
    lemma_escaped_is_read_back(text, 0, plain);
    if text.len() > 0 {
        lemma_run_ends_with_text(text);
    } else {
        lemma_references();
        if plain.len() > 0 {
            assert(escaped_char(plain.first()).len() > 0);
        }
        assert(plain =~= Seq::empty());
    }
}

/// Text that no tag is in is one piece.
proof fn lemma_run_ends_with_text(text: Seq<char>)
    requires
        text.len() > 0,
        is_text(text),
    ensures
        markup::token_at(text, 0) == Some((TokenView::Text(text), text.len() as int)),
        layout::text_without_markup(text, 0) == markup::unescaped(text, 0),
{
    assert forall|i: int| 0 <= i < text.len() implies CharKind::Text.has(#[trigger] text[i]) by {}
    lemma_run_ends(text, 0, CharKind::Text, text.len() as int);
    assert(text.subrange(0, text.len() as int) =~= text);
    let none = layout::text_without_markup(text, text.len() as int);
    assert(none =~= Seq::<char>::empty());
    assert(layout::text_without_markup(text, 0) == markup::unescaped(text, 0) + none);
    assert(markup::unescaped(text, 0) + none =~= markup::unescaped(text, 0));
}

/// Text without tags and references stays as it is.
pub proof fn law_plain_text_stays(html: &str, stripped: String)
    requires
        is_text(html@),
        forall|i: int| 0 <= i < html@.len() ==> #[trigger] html@[i] != '&',
        call_ensures(strip_markup, (html,), stripped),
    ensures
        stripped@ == html@,
{
    let text = html@;
    if text.len() > 0 {
        lemma_run_ends_with_text(text);
        lemma_nothing_to_unescape(text, 0);
        assert(text.skip(0) =~= text);
    }
}

proof fn lemma_nothing_to_unescape(text: Seq<char>, at: int)
    requires
        0 <= at <= text.len(),
        forall|i: int| 0 <= i < text.len() ==> #[trigger] text[i] != '&',
    ensures
        markup::unescaped(text, at) == text.skip(at),
    decreases text.len() - at,
{
    lemma_references();
    if at < text.len() {
        assert forall|word: Seq<char>| word.len() > 0 && word[0] == '&' implies !#[trigger]
            markup::has_at(text, at, word) by {
            if markup::has_at(text, at, word) {
                assert(text.subrange(at, at + word.len())[0] == text[at]);
            }
        }
        lemma_nothing_to_unescape(text, at + 1);
        assert(seq![text[at]] + text.skip(at + 1) =~= text.skip(at));
    } else {
        assert(text.skip(at) =~= Seq::empty());
    }
}

} // verus!
