//! What is laid out of tables: what stands in them, how wide they are and how deep elements
//! stand in one another.

use vstd::prelude::*;

use crate::layout::{self, find_layable_form, Element, LayoutView};
use crate::layout_laws;
use crate::markup::{self, AttributeView, TokenView};
use crate::markup_laws;
use crate::text;

verus! {

/// The pieces end inside a table.
pub open spec fn is_in_table(pieces: Seq<TokenView>) -> bool {
    layout_laws::open_names(pieces).contains("table"@)
}

/// The last of the pieces opens a table that stands in no other.
pub open spec fn begins_table(pieces: Seq<TokenView>) -> bool {
    &&& pieces.len() > 0
    &&& pieces.last() matches TokenView::Open { name, .. } && name == "table"@
    &&& !is_in_table(pieces.drop_last())
}

/// The piece shows the emoji variation selector.
pub open spec fn shows_selector(piece: TokenView) -> bool {
    match piece {
        TokenView::Text(text) => text.contains('\u{fe0f}'),
        TokenView::Open { attributes, .. } => exists|i: int|
            0 <= i < attributes.len() && (#[trigger] attributes[i]).value.contains('\u{fe0f}'),
        TokenView::Close { .. } => false,
    }
}

/// Marks or references are added to the element, or it is a table.
pub open spec fn adds_marks(piece: TokenView) -> bool {
    piece matches TokenView::Open { name, .. } && {
        ||| name == "a"@
        ||| name == "em"@
        ||| name == "i"@
        ||| name == "ins"@
        ||| name == "strong"@
        ||| name == "code"@
        ||| name == "sup"@
        ||| name == "dt"@
        ||| name == "table"@
    }
}

/// The selector stands somewhere in the table that the pieces end in, as far as it has come.
pub open spec fn table_shows_selector(pieces: Seq<TokenView>) -> bool
    decreases pieces.len(),
{
    pieces.len() > 0 && is_in_table(pieces) && !begins_table(pieces) && (table_shows_selector(
        pieces.drop_last(),
    ) || shows_selector(pieces.last()))
}

/// Marks stand somewhere in the table that the pieces end in, as far as it has come.
pub open spec fn table_has_marks(pieces: Seq<TokenView>) -> bool
    decreases pieces.len(),
{
    pieces.len() > 0 && is_in_table(pieces) && !begins_table(pieces) && (table_has_marks(
        pieces.drop_last(),
    ) || adds_marks(pieces.last()))
}

/// The columns that the texts take up in the table that the pieces end in, as far as it has
/// come: one for an ASCII character and two for any other.
pub open spec fn table_columns(pieces: Seq<TokenView>) -> int
    decreases pieces.len(),
{
    if pieces.len() == 0 || !is_in_table(pieces) || begins_table(pieces) {
        0
    } else {
        let earlier = table_columns(pieces.drop_last());
        match pieces.last() {
            TokenView::Text(text) => earlier + layout::columns(text, 0),
            _ => earlier,
        }
    }
}

/// The piece begins or ends a cell.
pub open spec fn is_cell_tag(piece: TokenView) -> bool {
    match piece {
        TokenView::Text(_) => false,
        TokenView::Open { name, .. } => name == "td"@ || name == "th"@,
        TokenView::Close { name } => name == "td"@ || name == "th"@,
    }
}

/// The columns that the texts take up since a cell was last begun or ended in the table that the
/// pieces end in.
pub open spec fn cell_columns(pieces: Seq<TokenView>) -> int
    decreases pieces.len(),
{
    if pieces.len() == 0 || !is_in_table(pieces) || begins_table(pieces) || is_cell_tag(
        pieces.last(),
    ) {
        0
    } else {
        let earlier = cell_columns(pieces.drop_last());
        match pieces.last() {
            TokenView::Text(text) => earlier + layout::columns(text, 0),
            _ => earlier,
        }
    }
}

/// A cell of the table that the pieces end in gives a number of columns.
pub open spec fn table_is_spanned(pieces: Seq<TokenView>) -> bool
    decreases pieces.len(),
{
    pieces.len() > 0 && is_in_table(pieces) && !begins_table(pieces) && (table_is_spanned(
        pieces.drop_last(),
    ) || (pieces.last() matches TokenView::Open { name, attributes } && (name == "td"@ || name
        == "th"@) && layout::value_of(attributes, "colspan"@, 0) is Some))
}

/// There is a table or a numbered list among the pieces.
pub open spec fn has_counted(pieces: Seq<TokenView>) -> bool
    decreases pieces.len(),
{
    pieces.len() > 0 && (has_counted(pieces.drop_last()) || (
    pieces.last() matches TokenView::Open { name, .. } && (name == "table"@ || name == "ol"@)))
}

/// More than 1,024 elements have been open at a time.
pub open spec fn has_been_deep(pieces: Seq<TokenView>) -> bool
    decreases pieces.len(),
{
    pieces.len() > 0 && (has_been_deep(pieces.drop_last()) || layout_laws::open_names(
        pieces,
    ).len() > 1024)
}

/// The columns that a cell spans: as many as it gives, and one where it gives none, the rest of
/// the row, or no number.
pub open spec fn cell_span(attributes: Seq<AttributeView>) -> int {
    let given = layout::value_of(attributes, "colspan"@, 0);
    if given is Some && text::unsigned_decimal(given->0) is Some && text::unsigned_decimal(
        given->0,
    )->0 > 0 {
        text::unsigned_decimal(given->0)->0 as int
    } else {
        1
    }
}

/// The columns that all cells among the pieces span together.
pub open spec fn spanned_columns(pieces: Seq<TokenView>) -> int
    decreases pieces.len(),
{
    if pieces.len() == 0 {
        0
    } else {
        let earlier = spanned_columns(pieces.drop_last());
        match pieces.last() {
            TokenView::Open { name, attributes } if name == "td"@ || name == "th"@ => earlier
                + cell_span(attributes),
            _ => earlier,
        }
    }
}

/// A cell among the pieces spans the rest of its row: it gives zero columns.
pub open spec fn has_rest_span(pieces: Seq<TokenView>) -> bool
    decreases pieces.len(),
{
    pieces.len() > 0 && (has_rest_span(pieces.drop_last()) || (
    pieces.last() matches TokenView::Open { name, attributes } && (name == "td"@ || name == "th"@)
        && (layout::value_of(attributes, "colspan"@, 0) matches Some(given)
        && text::unsigned_decimal(given) == Some(0usize))))
}

/// The lines of the element are set in.
pub open spec fn is_set_in_name(name: Seq<char>) -> bool {
    ||| name == "ul"@
    ||| name == "ol"@
    ||| name == "dl"@
    ||| name == "dd"@
    ||| name == "blockquote"@
    ||| name == "h1"@
    ||| name == "h2"@
    ||| name == "h3"@
    ||| name == "h4"@
}

/// One of the elements sets its lines in.
pub open spec fn is_set_in(names: Seq<Seq<char>>) -> bool {
    exists|i: int| 0 <= i < names.len() && is_set_in_name(#[trigger] names[i])
}

/// The text has a tab that may take up no columns: after line breaks it goes on with something
/// other than white space, and nothing in it is sure to show.
pub open spec fn may_hide_tab(plain: Seq<char>) -> bool {
    &&& plain.contains('\t')
    &&& forall|i: int| 0 <= i < plain.len() ==> !('!' <= #[trigger] plain[i] <= '~')
    &&& exists|first: int|
        {
            &&& 0 <= first < plain.len()
            &&& !text::is_white_space(#[trigger] plain[first])
            &&& forall|i: int|
                0 <= i < first ==> (#[trigger] plain[i]) == '\n' || plain[i] == '\r'
        }
}

/// The scope is that of a place inside elements of these names.
spec fn is_scope_of(scope: layout::ScopeView, names: Seq<Seq<char>>) -> bool {
    &&& scope.in_table == names.contains("table"@)
    &&& scope.in_inner_table ==> scope.in_table
    &&& names.contains("pre"@) ==> scope.is_preformatted
    &&& is_set_in(names) ==> scope.is_indented
    &&& names.len() > 0 ==> scope.name == names.last()
}

/// What is known of a place, told from the pieces before it.
spec fn is_known(place: LayoutView, pieces: Seq<TokenView>) -> bool {
    let names = layout_laws::open_names(pieces);
    &&& place.outer.len() == names.len()
    &&& is_scope_of(place.scope, names)
    &&& forall|i: int|
        #![trigger place.outer[i]]
        0 <= i < names.len() ==> is_scope_of(place.outer[i], names.take(i))
    &&& place.counts == has_counted(pieces)
    &&& has_been_deep(pieces) ==> place.is_deep
    &&& place.table.is_sound()
    &&& place.scope.in_table ==> {
        &&& table_shows_selector(pieces) ==> place.table.has_selector
        &&& table_has_marks(pieces) ==> place.table.has_marks
        &&& table_is_spanned(pieces) ==> place.table.is_spanned
        &&& layout::capped(table_columns(pieces)) <= place.table.columns
        &&& layout::capped(cell_columns(pieces)) <= place.table.cell_columns
    }
    &&& place.table.columns <= 65_536
    &&& place.table.cell_columns <= 65_536
    &&& 0 <= table_columns(pieces)
    &&& 0 <= cell_columns(pieces)
    &&& place.spans == spanned_columns(pieces)
    &&& place.has_open_span == has_rest_span(pieces)
}

/// The columns of a text are not negative.
proof fn lemma_columns_are_not_negative(text: Seq<char>, at: int)
    ensures
        layout::columns(text, at) >= 0,
    decreases text.len() - at,
{
    if 0 <= at < text.len() {
        lemma_columns_are_not_negative(text, at + 1);
    }
}

proof fn lemma_contains_pushed(names: Seq<Seq<char>>, name: Seq<char>, word: Seq<char>)
    ensures
        names.push(name).contains(word) <==> names.contains(word) || name == word,
{
    let more = names.push(name);
    if names.contains(word) {
        let i = choose|i: int| 0 <= i < names.len() && names[i] == word;
        assert(more[i] == word);
    }
    if name == word {
        assert(more[names.len() as int] == word);
    }
    if more.contains(word) {
        let i = choose|i: int| 0 <= i < more.len() && more[i] == word;
        if i < names.len() {
            assert(names[i] == word);
        }
    }
}

proof fn lemma_set_in_pushed(names: Seq<Seq<char>>, name: Seq<char>)
    ensures
        is_set_in(names.push(name)) <==> is_set_in(names) || is_set_in_name(name),
{
    let more = names.push(name);
    if is_set_in(names) {
        let i = choose|i: int| 0 <= i < names.len() && is_set_in_name(#[trigger] names[i]);
        assert(is_set_in_name(more[i]));
    }
    if is_set_in_name(name) {
        assert(is_set_in_name(more[names.len() as int]));
    }
    if is_set_in(more) {
        let i = choose|i: int| 0 <= i < more.len() && is_set_in_name(#[trigger] more[i]);
        if i < names.len() {
            assert(is_set_in_name(names[i]));
        }
    }
}

proof fn lemma_hidden_tab(plain: Seq<char>)
    requires
        may_hide_tab(plain),
    ensures
        layout::hides_tab(plain),
{
    let first = choose|first: int|
        {
            &&& 0 <= first < plain.len()
            &&& !text::is_white_space(#[trigger] plain[first])
            &&& forall|i: int|
                0 <= i < first ==> (#[trigger] plain[i]) == '\n' || plain[i] == '\r'
        };
    assert forall|i: int| 0 <= i < first implies markup::CharKind::LineBreak.has(
        #[trigger] plain[i],
    ) by {}
    markup_laws::lemma_run_ends(plain, 0, markup::CharKind::LineBreak, first);
}

/// What an element is, as far as it matters in tables.
proof fn lemma_table_names(name: Seq<char>)
    requires
        layout::element(name) is Some,
    ensures
        layout::element(name)->0 == Element::Table <==> name == "table"@,
        layout::element(name)->0 == Element::Cell <==> name == "td"@ || name == "th"@,
        layout::element(name)->0 == Element::NumberedList <==> name == "ol"@,
        name == "a"@ || name == "em"@ || name == "i"@ || name == "ins"@ || name == "strong"@ || name
            == "code"@ || name == "sup"@ || name == "dt"@ ==> layout::element(name)->0
            == Element::Marked,
        layout::element(name)->0.is_void() <==> layout_laws::is_void_name(name),
        name == "table"@ || name == "td"@ || name == "th"@ ==> !layout_laws::is_void_name(name),
        name == "pre"@ ==> layout::element(name)->0 == Element::Preformatted,
        is_set_in_name(name) ==> layout::element(name)->0.is_indented(),
{
    layout_laws::lemma_sound_names(name);
    layout_laws::lemma_indented_names(name);
    layout_laws::lemma_marked_names(name);
    layout_laws::lemma_void_names(name);
    layout_laws::lemma_inline_names(name);
    layout_laws::lemma_block_names(name);
    reveal_strlit("table");
    reveal_strlit("td");
    reveal_strlit("th");
    reveal_strlit("ol");
    reveal_strlit("dl");
    reveal_strlit("pre");
    reveal_strlit("br");
    reveal_strlit("hr");
    reveal_strlit("area");
    reveal_strlit("col");
    reveal_strlit("img");
    reveal_strlit("wbr");
    reveal_strlit("ul");
    reveal_strlit("dd");
    reveal_strlit("blockquote");
    reveal_strlit("h1");
    reveal_strlit("h2");
    reveal_strlit("h3");
    reveal_strlit("h4");
    reveal_strlit("a");
    reveal_strlit("em");
    reveal_strlit("i");
    reveal_strlit("ins");
    reveal_strlit("strong");
    reveal_strlit("code");
    reveal_strlit("sup");
    reveal_strlit("dt");
    assert("td"@[0] == 't' && "th"@[0] == 't' && "ol"@[0] == 'o' && "dl"@[1] == 'l');
    assert("br"@[0] == 'b' && "hr"@[0] == 'h' && "ul"@[0] == 'u' && "dd"@[1] == 'd');
    assert("h1"@[0] == 'h' && "h2"@[0] == 'h' && "h3"@[0] == 'h' && "h4"@[0] == 'h');
    assert("pre"@[0] == 'p' && "ins"@[0] == 'i' && "sup"@[0] == 's');
    assert("em"@[0] == 'e' && "dt"@[0] == 'd' && "dt"@[1] == 't');
    assert("td"@[1] == 'd' && "th"@[1] == 'h' && "dd"@[0] == 'd' && "dl"@[0] == 'd');
    assert("hr"@[1] == 'r' && "br"@[1] == 'r');
    assert("h1"@[1] == '1' && "h2"@[1] == '2' && "h3"@[1] == '3' && "h4"@[1] == '4');
    assert("a"@.len() == 1 && "i"@.len() == 1 && "code"@.len() == 4 && "strong"@.len() == 6);
    assert("table"@.len() == 5 && "blockquote"@.len() == 10 && "pre"@.len() == 3);
    assert("td"@.len() == 2 && "th"@.len() == 2 && "ol"@.len() == 2 && "dl"@.len() == 2);
    assert("br"@.len() == 2 && "hr"@.len() == 2 && "ul"@.len() == 2 && "dd"@.len() == 2);
    assert("h1"@.len() == 2 && "h2"@.len() == 2 && "h3"@.len() == 2 && "h4"@.len() == 2);
}

/// A text in a table, in a preformatted element and in one whose lines are set in, hides no tab.
pub open spec fn is_sound_text(earlier: Seq<TokenView>, piece: TokenView) -> bool {
    let names = layout_laws::open_names(earlier);
    piece matches TokenView::Text(text) ==> !(names.contains("table"@) && names.contains("pre"@)
        && is_set_in(names) && may_hide_tab(markup::unescaped(text, 0)))
}

proof fn lemma_past_known_text(
    place: LayoutView,
    earlier: Seq<TokenView>,
    text: Seq<char>,
    length: int,
    total: int,
)
    requires
        is_known(place, earlier),
        place.next(TokenView::Text(text), length, total) is Some,
    ensures
        is_known(
            place.next(TokenView::Text(text), length, total)->0,
            earlier.push(TokenView::Text(text)),
        ),
        is_sound_text(earlier, TokenView::Text(text)),
{
    if may_hide_tab(markup::unescaped(text, 0)) {
        lemma_hidden_tab(markup::unescaped(text, 0));
    }
    reveal(LayoutView::next);
    let now = earlier.push(TokenView::Text(text));
    assert(now.drop_last() =~= earlier);
    lemma_columns_are_not_negative(text, 0);
    assert(layout_laws::open_names(now) == layout_laws::open_names(earlier));
    lemma_deep_by_now(earlier);
}

/// Elements that are open too deep have been so.
proof fn lemma_deep_by_now(pieces: Seq<TokenView>)
    ensures
        layout_laws::open_names(pieces).len() > 1024 ==> has_been_deep(pieces),
{
}

proof fn lemma_past_known_opening(
    place: LayoutView,
    earlier: Seq<TokenView>,
    name: Seq<char>,
    attributes: Seq<AttributeView>,
    length: int,
    total: int,
)
    requires
        is_known(place, earlier),
        0 <= length,
        place.next(TokenView::Open { name, attributes }, length, total) is Some,
    ensures
        is_known(
            place.next(TokenView::Open { name, attributes }, length, total)->0,
            earlier.push(TokenView::Open { name, attributes }),
        ),
{
    reveal(LayoutView::next);
    let piece = TokenView::Open { name, attributes };
    let now = earlier.push(piece);
    assert(now.drop_last() =~= earlier);
    let names = layout_laws::open_names(earlier);
    let kind = layout::element(name)->0;
    let next = place.opened(name, kind, attributes, length);
    lemma_table_names(name);
    lemma_contains_pushed(names, name, "table"@);
    lemma_contains_pushed(names, name, "pre"@);
    lemma_set_in_pushed(names, name);
    lemma_deep_by_now(earlier);
    if !layout_laws::is_void_name(name) {
        let opened = names.push(name);
        assert forall|i: int| #![trigger next.outer[i]] 0 <= i < opened.len() implies is_scope_of(
            next.outer[i],
            opened.take(i),
        ) by {
            assert(opened.take(i) =~= names.take(i));
            if i < names.len() {
                assert(next.outer[i] == place.outer[i]);
            } else {
                assert(names.take(i) =~= names);
            }
        }
    }
}

proof fn lemma_past_known_closing(
    place: LayoutView,
    earlier: Seq<TokenView>,
    name: Seq<char>,
    length: int,
    total: int,
)
    requires
        is_known(place, earlier),
        0 <= length,
        place.next(TokenView::Close { name }, length, total) is Some,
    ensures
        is_known(
            place.next(TokenView::Close { name }, length, total)->0,
            earlier.push(TokenView::Close { name }),
        ),
{
    reveal(LayoutView::next);
    let piece = TokenView::Close { name };
    let now = earlier.push(piece);
    assert(now.drop_last() =~= earlier);
    let names = layout_laws::open_names(earlier);
    let kind = layout::element(name)->0;
    let next = place.closed(kind, length);
    lemma_table_names(name);
    lemma_deep_by_now(earlier);
    let n = names.len() - 1;
    let closed = names.drop_last();
    assert(closed.push(names.last()) =~= names);
    lemma_contains_pushed(closed, names.last(), "table"@);
    lemma_contains_pushed(closed, names.last(), "pre"@);
    lemma_set_in_pushed(closed, names.last());
    assert(place.outer.last() == place.outer[n]);
    assert(names.take(n) =~= closed);
    assert forall|i: int| #![trigger next.outer[i]] 0 <= i < closed.len() implies is_scope_of(
        next.outer[i],
        closed.take(i),
    ) by {
        assert(closed.take(i) =~= names.take(i));
        assert(next.outer[i] == place.outer[i]);
    }
}

/// What is known of tables after pieces, in HTML of `total` characters.
pub open spec fn is_sound_so_far(pieces: Seq<TokenView>, total: int) -> bool {
    &&& !(table_shows_selector(pieces) && table_has_marks(pieces))
    &&& cell_columns(pieces) <= 65_535
    &&& table_is_spanned(pieces) ==> table_columns(pieces) <= 65_535
    &&& spanned_columns(pieces) <= usize::MAX
    &&& has_rest_span(pieces) ==> spanned_columns(pieces) <= usize::MAX as int / total
}

proof fn lemma_known_is_sound(place: LayoutView, pieces: Seq<TokenView>, total: int)
    requires
        is_known(place, pieces),
        place.is_sound(total),
    ensures
        is_sound_so_far(pieces, total),
{
}

proof fn lemma_tables_are_sound(
    place: LayoutView,
    earlier: Seq<TokenView>,
    html: Seq<char>,
    at: int,
)
    requires
        0 <= at <= html.len(),
        place.can_go_on(html, at),
        is_known(place, earlier),
        place.is_sound(html.len() as int) || earlier.len() == 0,
        earlier.len() == 0 ==> place == LayoutView::start(),
    ensures
        forall|i: int|
            0 <= i <= layout_laws::pieces(html, at).len() ==> is_sound_so_far(
                earlier + #[trigger] layout_laws::pieces(html, at).take(i),
                html.len() as int,
            ),
        forall|i: int|
            0 <= i < layout_laws::pieces(html, at).len() ==> is_sound_text(
                earlier + layout_laws::pieces(html, at).take(i),
                #[trigger] layout_laws::pieces(html, at)[i],
            ),
        ({
            let all = earlier + layout_laws::pieces(html, at);
            !(has_counted(all) && has_been_deep(all))
        }),
    decreases html.len() - at,
{
    let read = layout_laws::pieces(html, at);
    let total = html.len() as int;
    assert(is_sound_so_far(earlier, total)) by {
        if earlier.len() > 0 {
            lemma_known_is_sound(place, earlier, total);
        }
    }
    assert(earlier + read.take(0) =~= earlier);
    if at < html.len() {
        let (token, end) = markup::token_at(html, at)->0;
        let next = place.next(token, end - at, total)->0;
        assert(next.is_sound(total)) by {
            reveal(LayoutView::next);
        }
        match token {
            TokenView::Text(text) => {
                lemma_past_known_text(place, earlier, text, end - at, total);
            },
            TokenView::Open { name, attributes } => {
                lemma_past_known_opening(place, earlier, name, attributes, end - at, total);
            },
            TokenView::Close { name } => {
                lemma_past_known_closing(place, earlier, name, end - at, total);
            },
        }
        let more = earlier.push(token);
        lemma_tables_are_sound(next, more, html, end);
        let rest = layout_laws::pieces(html, end);
        assert(read == seq![token] + rest);
        assert(earlier + read =~= more + rest);
        assert forall|i: int| 0 <= i <= read.len() implies is_sound_so_far(
            earlier + #[trigger] read.take(i),
            total,
        ) by {
            if i > 0 {
                assert(earlier + read.take(i) =~= more + rest.take(i - 1));
            }
        }
        assert forall|i: int| 0 <= i < read.len() implies is_sound_text(
            earlier + read.take(i),
            #[trigger] read[i],
        ) by {
            if i > 0 {
                assert(read[i] == rest[i - 1]);
                assert(earlier + read.take(i) =~= more + rest.take(i - 1));
            } else {
                assert(earlier + read.take(0) =~= earlier);
            }
        }
    } else {
        assert(earlier + read =~= earlier);
        assert forall|i: int| 0 <= i <= read.len() implies is_sound_so_far(
            earlier + #[trigger] read.take(i),
            total,
        ) by {
            assert(earlier + read.take(i) =~= earlier);
        }
    }
}

/// What is laid out holds nothing that laying out tables could fail on in these ways, however
/// much of it has been read: no table with the emoji variation selector in it has marks, links
/// or another table in it; the texts of no cell, nor of a table with a cell that gives a number
/// of columns, take up more than 65,535 columns; and the columns that cells span together stay
/// within the machine integers. In a table, preformatted text that is set in hides no tab. Where
/// there is a table or a numbered list, no more than 1,024 elements stand in one another.
pub proof fn law_what_is_laid_out_has_sound_tables(html: &str, form: String, n: int)
    requires
        call_ensures(find_layable_form, (html,), Some(form)),
        0 <= n <= layout_laws::pieces(form@, 0).len(),
    ensures
        is_sound_so_far(layout_laws::pieces(form@, 0).take(n), form@.len() as int),
        n < layout_laws::pieces(form@, 0).len() ==> is_sound_text(
            layout_laws::pieces(form@, 0).take(n),
            layout_laws::pieces(form@, 0)[n],
        ),
        !(has_counted(layout_laws::pieces(form@, 0)) && has_been_deep(
            layout_laws::pieces(form@, 0),
        )),
{
    let outcome: Option<String> = Some(form);
    assert(outcome.deep_view() == layout::layable_form(html@));
    assert(outcome.deep_view() == Some(form@));
    let none = Seq::<TokenView>::empty();
    let all = layout_laws::pieces(form@, 0);
    lemma_tables_are_sound(LayoutView::start(), none, form@, 0);
    assert(none + all.take(n) =~= all.take(n));
    assert(none + all =~= all);
    assert(is_sound_so_far(none + all.take(n), form@.len() as int));
    if n < all.len() {
        assert(is_sound_text(none + all.take(n), all[n]));
    }
}

} // verus!
