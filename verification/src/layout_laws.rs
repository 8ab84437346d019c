//! What of HTML can be laid out as it stands, and where the plain text of HTML has line ends.

use vstd::prelude::*;

use crate::layout::{self, find_layable_form, strip_markup, Element, LayoutView, Table};
use crate::markup::{self, AttributeView, TokenView};
use crate::markup_laws;
use crate::text;

verus! {

/// The element stands in a line.
pub open spec fn is_inline_name(name: Seq<char>) -> bool {
    ||| name == "a"@
    ||| name == "em"@
    ||| name == "i"@
    ||| name == "ins"@
    ||| name == "strong"@
    ||| name == "code"@
    ||| name == "sup"@
    ||| name == "dt"@
    ||| name == "area"@
    ||| name == "col"@
    ||| name == "img"@
    ||| name == "wbr"@
    ||| name == "abbr"@
    ||| name == "acronym"@
    ||| name == "b"@
    ||| name == "bdi"@
    ||| name == "bdo"@
    ||| name == "cite"@
    ||| name == "data"@
    ||| name == "del"@
    ||| name == "dfn"@
    ||| name == "kbd"@
    ||| name == "map"@
    ||| name == "mark"@
    ||| name == "q"@
    ||| name == "rp"@
    ||| name == "rt"@
    ||| name == "rtc"@
    ||| name == "ruby"@
    ||| name == "s"@
    ||| name == "samp"@
    ||| name == "small"@
    ||| name == "span"@
    ||| name == "strike"@
    ||| name == "sub"@
    ||| name == "time"@
    ||| name == "tt"@
    ||| name == "u"@
    ||| name == "var"@
}

/// The element has lines of its own, or ends one.
pub open spec fn is_line_name(name: Seq<char>) -> bool {
    ||| name == "table"@
    ||| name == "td"@
    ||| name == "th"@
    ||| name == "ol"@
    ||| name == "dl"@
    ||| name == "pre"@
    ||| name == "br"@
    ||| name == "hr"@
    ||| name == "ul"@
    ||| name == "dd"@
    ||| name == "blockquote"@
    ||| name == "h1"@
    ||| name == "h2"@
    ||| name == "h3"@
    ||| name == "h4"@
    ||| name == "article"@
    ||| name == "aside"@
    ||| name == "caption"@
    ||| name == "center"@
    ||| name == "colgroup"@
    ||| name == "details"@
    ||| name == "div"@
    ||| name == "figcaption"@
    ||| name == "figure"@
    ||| name == "footer"@
    ||| name == "h5"@
    ||| name == "h6"@
    ||| name == "header"@
    ||| name == "hgroup"@
    ||| name == "li"@
    ||| name == "nav"@
    ||| name == "p"@
    ||| name == "summary"@
    ||| name == "tbody"@
    ||| name == "thead"@
    ||| name == "tr"@
}

/// The names, one by one.
pub proof fn lemma_indented_names(name: Seq<char>)
    ensures
        layout::indented_names().contains(name) <==> ({
            ||| name == "ul"@
            ||| name == "dd"@
            ||| name == "blockquote"@
            ||| name == "h1"@
            ||| name == "h2"@
            ||| name == "h3"@
            ||| name == "h4"@
        }),
{
    let names = layout::indented_names();
    assert(names.len() == 7);
    assert(names[0] == "ul"@);
    assert(names[1] == "dd"@);
    assert(names[2] == "blockquote"@);
    assert(names[3] == "h1"@);
    assert(names[4] == "h2"@);
    assert(names[5] == "h3"@);
    assert(names[6] == "h4"@);
}

/// The names, one by one.
pub proof fn lemma_marked_names(name: Seq<char>)
    ensures
        layout::marked_names().contains(name) <==> ({
            ||| name == "a"@
            ||| name == "em"@
            ||| name == "i"@
            ||| name == "ins"@
            ||| name == "strong"@
            ||| name == "code"@
            ||| name == "sup"@
            ||| name == "dt"@
        }),
{
    let names = layout::marked_names();
    assert(names.len() == 8);
    assert(names[0] == "a"@);
    assert(names[1] == "em"@);
    assert(names[2] == "i"@);
    assert(names[3] == "ins"@);
    assert(names[4] == "strong"@);
    assert(names[5] == "code"@);
    assert(names[6] == "sup"@);
    assert(names[7] == "dt"@);
}

/// The names, one by one.
pub proof fn lemma_void_names(name: Seq<char>)
    ensures
        layout::void_names().contains(name) <==> ({
            ||| name == "area"@
            ||| name == "col"@
            ||| name == "img"@
            ||| name == "wbr"@
        }),
{
    let names = layout::void_names();
    assert(names.len() == 4);
    assert(names[0] == "area"@);
    assert(names[1] == "col"@);
    assert(names[2] == "img"@);
    assert(names[3] == "wbr"@);
}

/// The names, one by one.
pub proof fn lemma_inline_names(name: Seq<char>)
    ensures
        layout::inline_names().contains(name) <==> ({
            ||| name == "abbr"@
            ||| name == "acronym"@
            ||| name == "b"@
            ||| name == "bdi"@
            ||| name == "bdo"@
            ||| name == "cite"@
            ||| name == "data"@
            ||| name == "del"@
            ||| name == "dfn"@
            ||| name == "kbd"@
            ||| name == "map"@
            ||| name == "mark"@
            ||| name == "q"@
            ||| name == "rp"@
            ||| name == "rt"@
            ||| name == "rtc"@
            ||| name == "ruby"@
            ||| name == "s"@
            ||| name == "samp"@
            ||| name == "small"@
            ||| name == "span"@
            ||| name == "strike"@
            ||| name == "sub"@
            ||| name == "time"@
            ||| name == "tt"@
            ||| name == "u"@
            ||| name == "var"@
        }),
{
    let names = layout::inline_names();
    assert(names.len() == 27);
    assert(names[0] == "abbr"@);
    assert(names[1] == "acronym"@);
    assert(names[2] == "b"@);
    assert(names[3] == "bdi"@);
    assert(names[4] == "bdo"@);
    assert(names[5] == "cite"@);
    assert(names[6] == "data"@);
    assert(names[7] == "del"@);
    assert(names[8] == "dfn"@);
    assert(names[9] == "kbd"@);
    assert(names[10] == "map"@);
    assert(names[11] == "mark"@);
    assert(names[12] == "q"@);
    assert(names[13] == "rp"@);
    assert(names[14] == "rt"@);
    assert(names[15] == "rtc"@);
    assert(names[16] == "ruby"@);
    assert(names[17] == "s"@);
    assert(names[18] == "samp"@);
    assert(names[19] == "small"@);
    assert(names[20] == "span"@);
    assert(names[21] == "strike"@);
    assert(names[22] == "sub"@);
    assert(names[23] == "time"@);
    assert(names[24] == "tt"@);
    assert(names[25] == "u"@);
    assert(names[26] == "var"@);
}

/// The names, one by one.
pub proof fn lemma_block_names(name: Seq<char>)
    ensures
        layout::block_names().contains(name) <==> ({
            ||| name == "article"@
            ||| name == "aside"@
            ||| name == "caption"@
            ||| name == "center"@
            ||| name == "colgroup"@
            ||| name == "details"@
            ||| name == "div"@
            ||| name == "figcaption"@
            ||| name == "figure"@
            ||| name == "footer"@
            ||| name == "h5"@
            ||| name == "h6"@
            ||| name == "header"@
            ||| name == "hgroup"@
            ||| name == "li"@
            ||| name == "nav"@
            ||| name == "p"@
            ||| name == "summary"@
            ||| name == "tbody"@
            ||| name == "thead"@
            ||| name == "tr"@
        }),
{
    let names = layout::block_names();
    assert(names.len() == 21);
    assert(names[0] == "article"@);
    assert(names[1] == "aside"@);
    assert(names[2] == "caption"@);
    assert(names[3] == "center"@);
    assert(names[4] == "colgroup"@);
    assert(names[5] == "details"@);
    assert(names[6] == "div"@);
    assert(names[7] == "figcaption"@);
    assert(names[8] == "figure"@);
    assert(names[9] == "footer"@);
    assert(names[10] == "h5"@);
    assert(names[11] == "h6"@);
    assert(names[12] == "header"@);
    assert(names[13] == "hgroup"@);
    assert(names[14] == "li"@);
    assert(names[15] == "nav"@);
    assert(names[16] == "p"@);
    assert(names[17] == "summary"@);
    assert(names[18] == "tbody"@);
    assert(names[19] == "thead"@);
    assert(names[20] == "tr"@);
}

/// A tag leaves the end of a line where its element has lines of its own or ends one, and
/// otherwise nothing.
pub proof fn law_tags_leave_line_ends(
    name: Seq<char>,
    attributes: Seq<AttributeView>,
    tag: &str,
    stripped: String,
)
    requires
        markup_laws::is_name(name),
        markup_laws::can_be_written(attributes),
        tag@ == markup_laws::opening_tag(name, attributes) || tag@ == markup_laws::closing_tag(
            name,
        ),
        call_ensures(strip_markup, (tag,), stripped),
    ensures
        is_line_name(name) && !is_inline_name(name) ==> stripped@ == seq!['\n'],
        !is_line_name(name) ==> stripped@ == Seq::<char>::empty(),
{
    let text = tag@;
    let n = text.len() as int;
    assert(text.subrange(0, n) =~= text);
    if text == markup_laws::opening_tag(name, attributes) {
        markup_laws::lemma_opening_tag_at(text, 0, name, attributes);
    } else {
        markup_laws::lemma_closing_tag_at(text, 0, name);
    }
    let none = layout::text_without_markup(text, n);
    assert(none =~= Seq::<char>::empty());
    assert(layout::text_without_markup(text, 0) == layout::tag_text(name) + none);
    assert(layout::tag_text(name) + none =~= layout::tag_text(name));
    lemma_indented_names(name);
    lemma_marked_names(name);
    lemma_void_names(name);
    lemma_inline_names(name);
    lemma_block_names(name);
}

/// A value as it is written: every ampersand begins a reference to a character.
pub open spec fn is_written_value(value: Seq<char>) -> bool {
    forall|at: int|
        0 <= at < value.len() && #[trigger] value[at] == '&' ==> exists|c: char|
            (#[trigger] markup_laws::escaped_char(c)).len() > 1 && markup_laws::has_part(
                value,
                at,
                markup_laws::escaped_char(c),
            )
}

/// A text as it is written: there is no tag in it, and every ampersand begins a reference.
pub open spec fn is_written_text(text: Seq<char>) -> bool {
    markup_laws::is_text(text) && is_written_value(text)
}

/// The element has no contents, and no closing tag.
pub open spec fn is_void_name(name: Seq<char>) -> bool {
    ||| name == "br"@
    ||| name == "hr"@
    ||| name == "area"@
    ||| name == "col"@
    ||| name == "img"@
    ||| name == "wbr"@
}

/// The element is one of a table.
pub open spec fn is_table_name(name: Seq<char>) -> bool {
    name == "table"@ || name == "td"@ || name == "th"@
}

/// The element is a list that is counted or nested by rules of its own.
pub open spec fn is_list_name(name: Seq<char>) -> bool {
    name == "ol"@ || name == "dl"@
}

/// An element, with the text before it, and the text after the last element in it.
pub struct Node {
    pub before: Seq<char>,
    pub name: Seq<char>,
    pub attributes: Seq<AttributeView>,
    pub contents: Seq<Node>,
    pub last: Seq<char>,
}

/// Elements as they are written, each with the text before it.
pub open spec fn written(nodes: Seq<Node>) -> Seq<char>
    decreases nodes,
{
    if nodes.len() == 0 {
        Seq::empty()
    } else {
        let node = nodes[0];
        let inside = if is_void_name(node.name) {
            Seq::empty()
        } else {
            written(node.contents) + node.last + markup_laws::closing_tag(node.name)
        };
        node.before + markup_laws::opening_tag(node.name, node.attributes) + inside + written(
            nodes.drop_first(),
        )
    }
}

/// How deep elements stand in one another.
pub open spec fn depth(nodes: Seq<Node>) -> int
    decreases nodes,
{
    if nodes.len() == 0 {
        0
    } else {
        let first = if is_void_name(nodes[0].name) {
            0
        } else {
            1 + depth(nodes[0].contents)
        };
        let others = depth(nodes.drop_first());
        if first > others {
            first
        } else {
            others
        }
    }
}

/// The attributes are written as they should be, and name no part of the document nor the
/// number that a list begins with.
pub open spec fn are_ordinary(attributes: Seq<AttributeView>) -> bool {
    &&& markup_laws::can_be_written(attributes)
    &&& forall|i: int|
        0 <= i < attributes.len() ==> {
            &&& is_written_value((#[trigger] attributes[i]).value)
            &&& attributes[i].name != "id"@
            &&& attributes[i].name != "name"@
            &&& attributes[i].name != "start"@
        }
}

/// The elements are those that a sanitizer leaves in, but for tables, and for lists with rules
/// of their own unless `lists` are allowed. Texts and attributes are written as they should be.
pub open spec fn is_ordinary(nodes: Seq<Node>, lists: bool) -> bool
    decreases nodes,
{
    nodes.len() > 0 ==> {
        let node = nodes[0];
        &&& is_written_text(node.before)
        &&& is_written_text(node.last)
        &&& markup_laws::is_name(node.name)
        &&& are_ordinary(node.attributes)
        &&& is_inline_name(node.name) || is_line_name(node.name)
        &&& !is_table_name(node.name)
        &&& !lists ==> !is_list_name(node.name)
        &&& is_ordinary(node.contents, lists)
        &&& is_ordinary(nodes.drop_first(), lists)
    }
}

/// A place outside of any table, where no rule has come near to being broken.
spec fn is_calm(place: LayoutView) -> bool {
    &&& !place.scope.in_table
    &&& !place.scope.in_inner_table
    &&& place.table == Table::nothing()
    &&& place.spans == 0
    &&& !place.has_open_span
    &&& 0 <= place.scope.definition_lists <= 64
}

proof fn lemma_is_escaped(value: Seq<char>)
    requires
        is_written_value(value),
    ensures
        layout::is_escaped(value),
{
    assert forall|at: int| 0 <= at < value.len() && #[trigger] value[at] == '&' implies
        markup::reference_at(value, at) is Some by {
        let c = choose|c: char|
            (#[trigger] markup_laws::escaped_char(c)).len() > 1 && markup_laws::has_part(
                value,
                at,
                markup_laws::escaped_char(c),
            );
        markup_laws::lemma_escaped_char_is_read(value, at, c);
    }
}

proof fn lemma_are_plain(attributes: Seq<AttributeView>)
    requires
        are_ordinary(attributes),
    ensures
        layout::are_plain(attributes),
        layout::value_of(attributes, "start"@, 0) is None,
{
    assert forall|i: int| 0 <= i < attributes.len() implies {
        &&& layout::is_escaped((#[trigger] attributes[i]).value)
        &&& attributes[i].name != "id"@
        &&& attributes[i].name != "name"@
    } by {
        lemma_is_escaped(attributes[i].value);
    }
    lemma_no_start(attributes, 0);
}

proof fn lemma_no_start(attributes: Seq<AttributeView>, i: int)
    requires
        are_ordinary(attributes),
        0 <= i,
    ensures
        layout::value_of(attributes, "start"@, i) is None,
    decreases attributes.len() - i,
{
    if i < attributes.len() {
        assert(attributes[i].name != "start"@);
        lemma_no_start(attributes, i + 1);
    }
}

/// Text changes nothing.
proof fn lemma_past_text(place: LayoutView, html: Seq<char>, at: int, text: Seq<char>)
    requires
        is_calm(place),
        is_written_text(text),
        markup_laws::has_part(html, at, text),
        at + text.len() < html.len() ==> html[at + text.len()] == '<',
    ensures
        place.can_go_on(html, at) == place.can_go_on(html, at + text.len()),
{
    if text.len() > 0 {
        let end = at + text.len();
        assert forall|i: int| at <= i < end implies markup::CharKind::Text.has(
            #[trigger] html[i],
        ) by {
            markup_laws::lemma_char_of_part(html, at, text, i - at);
            assert(text[i - at] != '<');
        }
        assert(markup::CharKind::Text.has(html[at]));
        markup_laws::lemma_run_ends(html, at, markup::CharKind::Text, end);
        assert(html.subrange(at, end) =~= text);
        lemma_is_escaped(text);
        reveal(LayoutView::next);
        assert(place.with_text(text) == place);
        assert(place.next(TokenView::Text(text), end - at, html.len() as int) == Some(place));
    }
}

/// The element of an ordinary name.
proof fn lemma_ordinary_element(name: Seq<char>)
    requires
        is_inline_name(name) || is_line_name(name),
        !is_table_name(name),
    ensures
        layout::element(name) is Some,
        layout::element(name)->0 != Element::Table,
        layout::element(name)->0 != Element::Cell,
        !is_list_name(name) ==> layout::element(name)->0 != Element::NumberedList
            && layout::element(name)->0 != Element::DefinitionList,
        layout::element(name)->0.is_void() <==> is_void_name(name),
{
    lemma_indented_names(name);
    lemma_marked_names(name);
    lemma_void_names(name);
    lemma_inline_names(name);
    lemma_block_names(name);
    if is_void_name(name) {
        lemma_void_element(name);
    }
}

proof fn lemma_void_element(name: Seq<char>)
    requires
        is_void_name(name),
    ensures
        layout::element(name) is Some,
        layout::element(name)->0.is_void(),
{
    lemma_indented_names(name);
    lemma_marked_names(name);
    lemma_void_names(name);
    reveal_strlit("table");
    reveal_strlit("td");
    reveal_strlit("th");
    reveal_strlit("ol");
    reveal_strlit("dl");
    reveal_strlit("pre");
    reveal_strlit("br");
    reveal_strlit("hr");
    reveal_strlit("area");
    reveal_strlit("col");
    reveal_strlit("img");
    reveal_strlit("wbr");
    reveal_strlit("ul");
    reveal_strlit("dd");
    reveal_strlit("blockquote");
    reveal_strlit("h1");
    reveal_strlit("h2");
    reveal_strlit("h3");
    reveal_strlit("h4");
    reveal_strlit("a");
    reveal_strlit("em");
    reveal_strlit("i");
    reveal_strlit("ins");
    reveal_strlit("strong");
    reveal_strlit("code");
    reveal_strlit("sup");
    reveal_strlit("dt");
    assert(name.len() == 2 ==> name[1] == 'r');
    assert(name.len() == 3 ==> name[0] == 'c' || name[1] == 'm' || name[0] == 'w');
    assert(name.len() == 4 ==> name[0] == 'a');
}

/// Past an opening tag of an ordinary element.
proof fn lemma_past_opening(
    place: LayoutView,
    html: Seq<char>,
    at: int,
    name: Seq<char>,
    attributes: Seq<AttributeView>,
) -> (next: LayoutView)
    requires
        is_calm(place),
        markup_laws::is_name(name),
        are_ordinary(attributes),
        is_inline_name(name) || is_line_name(name),
        !is_table_name(name),
        is_list_name(name) ==> place.scope.definition_lists < 64,
        markup_laws::has_part(html, at, markup_laws::opening_tag(name, attributes)),
    ensures
        place.can_go_on(html, at) == next.can_go_on(
            html,
            at + markup_laws::opening_tag(name, attributes).len(),
        ),
        is_calm(next),
        is_void_name(name) ==> next == (LayoutView { is_deep: next.is_deep, ..place }),
        !is_void_name(name) ==> next.outer == place.outer.push(place.scope) && next.scope.name
            == name,
        next.scope.definition_lists <= place.scope.definition_lists + 1,
        !is_list_name(name) ==> next.counts == place.counts && next.scope.definition_lists
            == place.scope.definition_lists,
        next.is_deep <==> place.is_deep || next.outer.len() > 1024,
{
    let tag = markup_laws::opening_tag(name, attributes);
    let total = html.len() as int;
    markup_laws::lemma_opening_tag_at(html, at, name, attributes);
    lemma_ordinary_element(name);
    lemma_are_plain(attributes);
    let kind = layout::element(name)->0;
    let next = place.opened(name, kind, attributes, tag.len() as int);
    reveal(LayoutView::next);
    assert(next.is_sound(total));
    assert(place.next(TokenView::Open { name, attributes }, tag.len() as int, total) == Some(next));
    next
}

/// Past a closing tag.
proof fn lemma_past_closing(
    place: LayoutView,
    html: Seq<char>,
    at: int,
    name: Seq<char>,
    outside: LayoutView,
) -> (next: LayoutView)
    requires
        is_calm(place),
        is_calm(outside),
        place.outer == outside.outer.push(outside.scope),
        place.scope.name == name,
        markup_laws::is_name(name),
        is_inline_name(name) || is_line_name(name),
        !is_table_name(name),
        markup_laws::has_part(html, at, markup_laws::closing_tag(name)),
    ensures
        place.can_go_on(html, at) == next.can_go_on(
            html,
            at + markup_laws::closing_tag(name).len(),
        ),
        next == (LayoutView { is_deep: place.is_deep, counts: place.counts, ..outside }),
{
    let tag = markup_laws::closing_tag(name);
    let total = html.len() as int;
    markup_laws::lemma_closing_tag_at(html, at, name);
    lemma_ordinary_element(name);
    let kind = layout::element(name)->0;
    let next = place.closed(kind, tag.len() as int);
    reveal(LayoutView::next);
    assert(place.outer.last() == outside.scope);
    assert(place.outer.drop_last() =~= outside.outer);
    assert(next.is_sound(total));
    assert(place.next(TokenView::Close { name }, tag.len() as int, total) == Some(next));
    next
}

proof fn lemma_depth_is_not_negative(nodes: Seq<Node>)
    ensures
        depth(nodes) >= 0,
    decreases nodes,
{
    if nodes.len() > 0 {
        lemma_depth_is_not_negative(nodes.drop_first());
    }
}

proof fn lemma_lists_are_not_void(name: Seq<char>)
    requires
        is_list_name(name),
    ensures
        !is_void_name(name),
{
    reveal_strlit("ol");
    reveal_strlit("dl");
    reveal_strlit("br");
    reveal_strlit("hr");
    reveal_strlit("area");
    reveal_strlit("col");
    reveal_strlit("img");
    reveal_strlit("wbr");
    assert(name[1] == 'l');
}

/// Past ordinary elements nothing has changed, but for what matters only where there are lists.
proof fn lemma_past_nodes(
    place: LayoutView,
    html: Seq<char>,
    at: int,
    nodes: Seq<Node>,
    lists: bool,
) -> (next: LayoutView)
    requires
        is_calm(place),
        is_ordinary(nodes, lists),
        markup_laws::has_part(html, at, written(nodes)),
        lists ==> place.outer.len() + depth(nodes) <= 64 && place.scope.definition_lists
            <= place.outer.len(),
    ensures
        place.can_go_on(html, at) == next.can_go_on(html, at + written(nodes).len()),
        next == (LayoutView { is_deep: next.is_deep, counts: next.counts, ..place }),
        !lists ==> next.counts == place.counts,
        lists ==> next.is_deep == place.is_deep,
    decreases nodes,
{
    if nodes.len() == 0 {
        place
    } else {
        let node = nodes[0];
        let rest = nodes.drop_first();
        let open = markup_laws::opening_tag(node.name, node.attributes);
        let inside = if is_void_name(node.name) {
            Seq::empty()
        } else {
            written(node.contents) + node.last + markup_laws::closing_tag(node.name)
        };
        assert(written(nodes) =~= node.before + (open + (inside + written(rest))));
        markup_laws::lemma_part_of_part(html, at, node.before, open + (inside + written(rest)));
        let first = at + node.before.len();
        markup_laws::lemma_part_of_part(html, first, open, inside + written(rest));
        let second = first + open.len();
        markup_laws::lemma_part_of_part(html, second, inside, written(rest));
        markup_laws::lemma_char_of_part(html, first, open, 0);
        lemma_past_text(place, html, at, node.before);
        lemma_depth_is_not_negative(node.contents);
        if is_list_name(node.name) {
            lemma_lists_are_not_void(node.name);
        }
        let opened = lemma_past_opening(place, html, first, node.name, node.attributes);
        let after = if is_void_name(node.name) {
            assert(inside.len() == 0);
            opened
        } else {
            let close = markup_laws::closing_tag(node.name);
            assert(inside =~= written(node.contents) + (node.last + close));
            markup_laws::lemma_part_of_part(
                html,
                second,
                written(node.contents),
                node.last + close,
            );
            let third = second + written(node.contents).len();
            markup_laws::lemma_part_of_part(html, third, node.last, close);
            let fourth = third + node.last.len();
            markup_laws::lemma_char_of_part(html, fourth, close, 0);
            let within = lemma_past_nodes(opened, html, second, node.contents, lists);
            lemma_past_text(within, html, third, node.last);
            lemma_past_closing(within, html, fourth, node.name, place)
        };
        lemma_past_nodes(after, html, second + inside.len(), rest, lists)
    }
}

/// Ordinary HTML is laid out as it stands, whatever its texts say and however deep its elements
/// stand in one another: elements that a sanitizer leaves in, each closed where it was opened,
/// without tables and without lists that have rules of their own.
pub proof fn law_ordinary_html_is_laid_out_as_it_stands(
    nodes: Seq<Node>,
    last: Seq<char>,
    html: &str,
    form: Option<String>,
)
    requires
        is_ordinary(nodes, false),
        is_written_text(last),
        html@ == written(nodes) + last,
        call_ensures(find_layable_form, (html,), form),
    ensures
        form is Some,
        form->0@ == html@,
{
    lemma_laid_out_as_it_stands(nodes, last, html@, false);
    assert(form.deep_view() == Some(html@));
}

/// Numbered lists and definition lists are laid out as they stand, too, where elements do not
/// stand more than 64 deep in one another and no list begins with a number of its own.
pub proof fn law_lists_are_laid_out_as_they_stand(
    nodes: Seq<Node>,
    last: Seq<char>,
    html: &str,
    form: Option<String>,
)
    requires
        is_ordinary(nodes, true),
        depth(nodes) <= 64,
        is_written_text(last),
        html@ == written(nodes) + last,
        call_ensures(find_layable_form, (html,), form),
    ensures
        form is Some,
        form->0@ == html@,
{
    lemma_laid_out_as_it_stands(nodes, last, html@, true);
    assert(form.deep_view() == Some(html@));
}

proof fn lemma_laid_out_as_it_stands(
    nodes: Seq<Node>,
    last: Seq<char>,
    html: Seq<char>,
    lists: bool,
)
    requires
        is_ordinary(nodes, lists),
        lists ==> depth(nodes) <= 64,
        is_written_text(last),
        html == written(nodes) + last,
    ensures
        layout::can_lay_out(html),
{
    let start = LayoutView::start();
    assert(html.subrange(0, html.len() as int) =~= html);
    markup_laws::lemma_part_of_part(html, 0, written(nodes), last);
    let end = lemma_past_nodes(start, html, 0, nodes, lists);
    lemma_past_text(end, html, written(nodes).len() as int, last);
}

/// The text holds neither a tab nor the emoji variation selector.
pub open spec fn is_steady(text: Seq<char>) -> bool {
    forall|i: int| 0 <= i < text.len() ==> #[trigger] text[i] != '\t' && text[i] != '\u{fe0f}'
}

/// The elements are those that a sanitizer leaves in, tables and lists among them. Texts and
/// attributes are written as they should be, hold neither tabs nor emoji variation selectors,
/// and give no cell a number of columns.
pub open spec fn is_steady_markup(nodes: Seq<Node>) -> bool
    decreases nodes,
{
    nodes.len() > 0 ==> {
        let node = nodes[0];
        &&& is_written_text(node.before) && is_steady(node.before)
        &&& is_written_text(node.last) && is_steady(node.last)
        &&& markup_laws::is_name(node.name)
        &&& are_ordinary(node.attributes)
        &&& forall|i: int|
            0 <= i < node.attributes.len() ==> is_steady((#[trigger] node.attributes[i]).value)
                && node.attributes[i].name != "colspan"@
        &&& is_inline_name(node.name) || is_line_name(node.name)
        &&& is_steady_markup(node.contents)
        &&& is_steady_markup(nodes.drop_first())
    }
}

/// A place where no rule can be near to being broken after so few characters.
spec fn is_easy(place: LayoutView, at: int) -> bool {
    &&& !place.table.has_selector
    &&& !place.table.is_spanned
    &&& place.table.columns <= 2 * at
    &&& place.table.cell_columns <= 2 * at
    &&& 0 <= place.spans <= at
    &&& !place.has_open_span
    &&& !place.is_deep
    &&& 0 <= place.scope.definition_lists <= place.outer.len() <= 64
}

proof fn lemma_columns(text: Seq<char>, at: int)
    requires
        0 <= at <= text.len(),
    ensures
        0 <= layout::columns(text, at) <= 2 * (text.len() - at),
    decreases text.len() - at,
{
    if at < text.len() {
        lemma_columns(text, at + 1);
    }
}

proof fn lemma_no_tab(text: Seq<char>, at: int)
    requires
        is_steady(text),
        0 <= at,
    ensures
        !markup::unescaped(text, at).contains('\t'),
    decreases text.len() - at,
{
    let plain = markup::unescaped(text, at);
    if at < text.len() {
        assert(text[at] != '\t');
        match markup::reference_at(text, at) {
            Some((c, read)) => {
                if 0 < read.len() <= text.len() - at {
                    lemma_no_tab(text, at + read.len());
                    let rest = markup::unescaped(text, at + read.len());
                    assert forall|i: int| 0 <= i < plain.len() implies plain[i] != '\t' by {
                        if i > 0 {
                            assert(rest.contains(rest[i - 1]));
                        }
                    }
                }
            },
            None => {
                lemma_no_tab(text, at + 1);
                let rest = markup::unescaped(text, at + 1);
                assert forall|i: int| 0 <= i < plain.len() implies plain[i] != '\t' by {
                    if i > 0 {
                        assert(rest.contains(rest[i - 1]));
                    }
                }
            },
        }
    }
}

proof fn lemma_no_colspan(attributes: Seq<AttributeView>, i: int)
    requires
        forall|i: int|
            0 <= i < attributes.len() ==> is_steady((#[trigger] attributes[i]).value)
                && attributes[i].name != "colspan"@,
        0 <= i,
    ensures
        layout::value_of(attributes, "colspan"@, i) is None,
        !layout::hold_selector(attributes),
    decreases attributes.len() - i,
{
    if i < attributes.len() {
        assert(attributes[i].name != "colspan"@);
        lemma_no_colspan(attributes, i + 1);
    }
    assert forall|j: int| 0 <= j < attributes.len() implies !(#[trigger] attributes[j])
        .value.contains('\u{fe0f}') by {
        assert(is_steady(attributes[j].value));
    }
}

proof fn lemma_past_easy_text(
    place: LayoutView,
    html: Seq<char>,
    at: int,
    text: Seq<char>,
) -> (next: LayoutView)
    requires
        is_easy(place, at),
        html.len() <= 16_000,
        is_written_text(text),
        is_steady(text),
        markup_laws::has_part(html, at, text),
        at + text.len() < html.len() ==> html[at + text.len()] == '<',
    ensures
        place.can_go_on(html, at) == next.can_go_on(html, at + text.len()),
        is_easy(next, at + text.len()),
        next.scope == place.scope,
        next.outer == place.outer,
{
    if text.len() == 0 {
        place
    } else {
        let end = at + text.len();
        let total = html.len() as int;
        assert forall|i: int| at <= i < end implies markup::CharKind::Text.has(
            #[trigger] html[i],
        ) by {
            markup_laws::lemma_char_of_part(html, at, text, i - at);
            assert(text[i - at] != '<');
        }
        assert(markup::CharKind::Text.has(html[at]));
        markup_laws::lemma_run_ends(html, at, markup::CharKind::Text, end);
        assert(html.subrange(at, end) =~= text);
        lemma_is_escaped(text);
        lemma_columns(text, 0);
        lemma_no_tab(text, 0);
        assert(!text.contains('\u{fe0f}'));
        let next = place.with_text(text);
        reveal(LayoutView::next);
        assert(place.takes_text(text));
        assert(next.is_sound(total));
        assert(place.next(TokenView::Text(text), end - at, total) == Some(next));
        next
    }
}

proof fn lemma_past_easy_opening(
    place: LayoutView,
    html: Seq<char>,
    at: int,
    name: Seq<char>,
    attributes: Seq<AttributeView>,
) -> (next: LayoutView)
    requires
        is_easy(place, at),
        html.len() <= 16_000,
        markup_laws::is_name(name),
        are_ordinary(attributes),
        forall|i: int|
            0 <= i < attributes.len() ==> is_steady((#[trigger] attributes[i]).value)
                && attributes[i].name != "colspan"@,
        is_inline_name(name) || is_line_name(name),
        !is_void_name(name) ==> place.outer.len() < 64,
        markup_laws::has_part(html, at, markup_laws::opening_tag(name, attributes)),
    ensures
        place.can_go_on(html, at) == next.can_go_on(
            html,
            at + markup_laws::opening_tag(name, attributes).len(),
        ),
        is_easy(next, at + markup_laws::opening_tag(name, attributes).len()),
        is_void_name(name) ==> next.scope == place.scope && next.outer == place.outer,
        !is_void_name(name) ==> next.outer == place.outer.push(place.scope) && next.scope.name
            == name,
{
    let tag = markup_laws::opening_tag(name, attributes);
    let total = html.len() as int;
    markup_laws::lemma_opening_tag_at(html, at, name, attributes);
    lemma_known_name(name);
    lemma_sound_names(name);
    lemma_are_plain(attributes);
    lemma_no_colspan(attributes, 0);
    let kind = layout::element(name)->0;
    let next = place.opened(name, kind, attributes, tag.len() as int);
    reveal(LayoutView::next);
    assert(next.is_sound(total));
    assert(place.next(TokenView::Open { name, attributes }, tag.len() as int, total) == Some(next));
    next
}

proof fn lemma_known_name(name: Seq<char>)
    requires
        is_inline_name(name) || is_line_name(name),
    ensures
        layout::element(name) is Some,
{
    lemma_indented_names(name);
    lemma_marked_names(name);
    lemma_void_names(name);
    lemma_inline_names(name);
    lemma_block_names(name);
}

proof fn lemma_past_easy_closing(
    place: LayoutView,
    html: Seq<char>,
    at: int,
    name: Seq<char>,
    outside: LayoutView,
) -> (next: LayoutView)
    requires
        is_easy(place, at),
        html.len() <= 16_000,
        0 <= outside.scope.definition_lists <= outside.outer.len(),
        place.outer == outside.outer.push(outside.scope),
        place.scope.name == name,
        markup_laws::is_name(name),
        is_inline_name(name) || is_line_name(name),
        markup_laws::has_part(html, at, markup_laws::closing_tag(name)),
    ensures
        place.can_go_on(html, at) == next.can_go_on(
            html,
            at + markup_laws::closing_tag(name).len(),
        ),
        is_easy(next, at + markup_laws::closing_tag(name).len()),
        next.scope == outside.scope,
        next.outer == outside.outer,
{
    let tag = markup_laws::closing_tag(name);
    let total = html.len() as int;
    markup_laws::lemma_closing_tag_at(html, at, name);
    lemma_known_name(name);
    let kind = layout::element(name)->0;
    let next = place.closed(kind, tag.len() as int);
    reveal(LayoutView::next);
    assert(place.outer.last() == outside.scope);
    assert(place.outer.drop_last() =~= outside.outer);
    assert(next.is_sound(total));
    assert(place.next(TokenView::Close { name }, tag.len() as int, total) == Some(next));
    next
}

proof fn lemma_past_easy_nodes(
    place: LayoutView,
    html: Seq<char>,
    at: int,
    nodes: Seq<Node>,
) -> (next: LayoutView)
    requires
        is_easy(place, at),
        html.len() <= 16_000,
        is_steady_markup(nodes),
        markup_laws::has_part(html, at, written(nodes)),
        place.outer.len() + depth(nodes) <= 64,
    ensures
        place.can_go_on(html, at) == next.can_go_on(html, at + written(nodes).len()),
        is_easy(next, at + written(nodes).len()),
        next.scope == place.scope,
        next.outer == place.outer,
    decreases nodes,
{
    if nodes.len() == 0 {
        place
    } else {
        let node = nodes[0];
        let rest = nodes.drop_first();
        let open = markup_laws::opening_tag(node.name, node.attributes);
        let inside = if is_void_name(node.name) {
            Seq::empty()
        } else {
            written(node.contents) + node.last + markup_laws::closing_tag(node.name)
        };
        assert(written(nodes) =~= node.before + (open + (inside + written(rest))));
        markup_laws::lemma_part_of_part(html, at, node.before, open + (inside + written(rest)));
        let first = at + node.before.len();
        markup_laws::lemma_part_of_part(html, first, open, inside + written(rest));
        let second = first + open.len();
        markup_laws::lemma_part_of_part(html, second, inside, written(rest));
        markup_laws::lemma_char_of_part(html, first, open, 0);
        lemma_depth_is_not_negative(node.contents);
        let begun = lemma_past_easy_text(place, html, at, node.before);
        let opened = lemma_past_easy_opening(begun, html, first, node.name, node.attributes);
        let after = if is_void_name(node.name) {
            assert(inside.len() == 0);
            opened
        } else {
            let close = markup_laws::closing_tag(node.name);
            assert(inside =~= written(node.contents) + (node.last + close));
            markup_laws::lemma_part_of_part(
                html,
                second,
                written(node.contents),
                node.last + close,
            );
            let third = second + written(node.contents).len();
            markup_laws::lemma_part_of_part(html, third, node.last, close);
            let fourth = third + node.last.len();
            markup_laws::lemma_char_of_part(html, fourth, close, 0);
            let within = lemma_past_easy_nodes(opened, html, second, node.contents);
            let ended = lemma_past_easy_text(within, html, third, node.last);
            lemma_past_easy_closing(ended, html, fourth, node.name, place)
        };
        lemma_past_easy_nodes(after, html, second + inside.len(), rest)
    }
}

/// HTML of up to 16,000 characters is laid out as it stands, tables and lists included, where
/// its elements do not stand more than 64 deep in one another and it holds neither tabs nor
/// emoji variation selectors, nor a number of columns for a cell or a first number for a list.
pub proof fn law_small_html_is_laid_out_as_it_stands(
    nodes: Seq<Node>,
    last: Seq<char>,
    html: &str,
    form: Option<String>,
)
    requires
        is_steady_markup(nodes),
        depth(nodes) <= 64,
        is_written_text(last),
        is_steady(last),
        html@ == written(nodes) + last,
        html@.len() <= 16_000,
        call_ensures(find_layable_form, (html,), form),
    ensures
        form is Some,
        form->0@ == html@,
{
    let start = LayoutView::start();
    let whole = html@;
    assert(whole.subrange(0, whole.len() as int) =~= whole);
    markup_laws::lemma_part_of_part(whole, 0, written(nodes), last);
    let end = lemma_past_easy_nodes(start, whole, 0, nodes);
    let done = lemma_past_easy_text(end, whole, written(nodes).len() as int, last);
    assert(done.can_go_on(whole, whole.len() as int));
    assert(layout::can_lay_out(whole));
    assert(form.deep_view() == Some(whole));
}

/// The HTML with no emoji variation selector, and a space for each tab.
pub open spec fn simpler(html: Seq<char>) -> Seq<char> {
    html.filter(|c: char| c != '\u{fe0f}').map_values(
        |c: char|
            if c == '\t' {
                ' '
            } else {
                c
            },
    )
}

proof fn lemma_simpler(html: Seq<char>)
    ensures
        layout::simplified(html) == simpler(html),
    decreases html.len(),
{
    let kept = |c: char| c != '\u{fe0f}';
    let put = |c: char|
        if c == '\t' {
            ' '
        } else {
            c
        };
    reveal(Seq::filter);
    if html.len() > 0 {
        let earlier = html.drop_last();
        lemma_simpler(earlier);
        let c = html.last();
        if kept(c) {
            assert(html.filter(kept) =~= earlier.filter(kept).push(c));
            assert(simpler(html) =~= simpler(earlier).push(put(c)));
        } else {
            assert(html.filter(kept) =~= earlier.filter(kept));
        }
    } else {
        assert(simpler(html) =~= Seq::<char>::empty());
    }
}

/// HTML is laid out as it stands or, where that cannot be, without its emoji variation
/// selectors and with its tabs as spaces. A form that can be laid out is laid out as it is.
pub proof fn law_form_is_the_html_or_simpler(
    html: &str,
    simple: &str,
    form: Option<String>,
    simple_form: Option<String>,
)
    requires
        simple@ == simpler(html@),
        call_ensures(find_layable_form, (html,), form),
        call_ensures(find_layable_form, (simple,), simple_form),
    ensures
        form is Some ==> form->0@ == html@ || form->0@ == simple@,
        form is Some && form->0@ != html@ ==> simple_form is Some && simple_form->0@ == form->0@,
        simple_form is Some && simple_form->0@ == simple@ ==> form is Some,
{
    lemma_simpler(html@);
    assert(form.deep_view() == layout::layable_form(html@));
    assert(simple_form.deep_view() == layout::layable_form(simple@));
}

/// The pieces of HTML, from a place on, as far as they can be read.
pub open spec fn pieces(html: Seq<char>, at: int) -> Seq<TokenView>
    decreases html.len() - at,
{
    if !(0 <= at < html.len()) {
        Seq::empty()
    } else {
        match markup::token_at(html, at) {
            Some((token, end)) => if at < end <= html.len() {
                seq![token] + pieces(html, end)
            } else {
                Seq::empty()
            },
            None => Seq::empty(),
        }
    }
}

/// Where reading HTML piece by piece from a place on comes to a stop.
pub open spec fn reading_stops(html: Seq<char>, at: int) -> int
    decreases html.len() - at,
{
    if !(0 <= at < html.len()) {
        at
    } else {
        match markup::token_at(html, at) {
            Some((token, end)) => if at < end <= html.len() {
                reading_stops(html, end)
            } else {
                at
            },
            None => at,
        }
    }
}

/// The names of the elements that are open after pieces, the outermost first.
pub open spec fn open_names(pieces: Seq<TokenView>) -> Seq<Seq<char>>
    decreases pieces.len(),
{
    if pieces.len() == 0 {
        Seq::empty()
    } else {
        let earlier = open_names(pieces.drop_last());
        match pieces.last() {
            TokenView::Text(_) => earlier,
            TokenView::Open { name, .. } => if is_void_name(name) {
                earlier
            } else {
                earlier.push(name)
            },
            TokenView::Close { .. } => earlier.drop_last(),
        }
    }
}

/// How many of the names are those of definition lists.
pub open spec fn definition_lists(names: Seq<Seq<char>>) -> int
    decreases names.len(),
{
    if names.len() == 0 {
        0
    } else if names.last() == "dl"@ {
        1 + definition_lists(names.drop_last())
    } else {
        definition_lists(names.drop_last())
    }
}

/// What is read of layable HTML is sound: the piece after `earlier` ones, in HTML of `total`
/// characters.
pub open spec fn is_sound_piece(earlier: Seq<TokenView>, piece: TokenView, total: int) -> bool {
    match piece {
        TokenView::Text(text) => true,
        TokenView::Open { name, attributes } => {
            &&& is_inline_name(name) || is_line_name(name)
            &&& forall|i: int|
                0 <= i < attributes.len() ==> (#[trigger] attributes[i]).name != "id"@
                    && attributes[i].name != "name"@
            &&& definition_lists(open_names(earlier.push(piece))) <= 64
            &&& name == "ol"@ && layout::value_of(attributes, "start"@, 0) is Some ==> {
                let start = text::signed_decimal(layout::value_of(attributes, "start"@, 0)->0);
                start is Some ==> i64::MIN < start->0 && start->0 + total <= i64::MAX
            }
        },
        TokenView::Close { name } => {
            &&& is_inline_name(name) || is_line_name(name)
            &&& open_names(earlier).len() > 0
            &&& open_names(earlier).last() == name
        },
    }
}

/// The place is inside the elements that are open.
spec fn is_inside(place: LayoutView, names: Seq<Seq<char>>) -> bool {
    &&& place.outer.len() == names.len()
    &&& place.scope.definition_lists == definition_lists(names)
    &&& place.scope.definition_lists <= 64
    &&& names.len() > 0 ==> place.scope.name == names.last()
    &&& forall|i: int|
        #![trigger place.outer[i]]
        0 <= i < names.len() ==> {
            &&& place.outer[i].definition_lists == definition_lists(names.take(i))
            &&& i > 0 ==> place.outer[i].name == names[i - 1]
        }
}

/// The elements that are void or are lists.
pub proof fn lemma_sound_names(name: Seq<char>)
    requires
        layout::element(name) is Some,
    ensures
        is_inline_name(name) || is_line_name(name),
        layout::element(name)->0.is_void() ==> is_void_name(name),
        is_void_name(name) ==> layout::element(name)->0.is_void(),
        layout::element(name)->0 == Element::NumberedList <==> name == "ol"@,
        layout::element(name)->0 == Element::DefinitionList <==> name == "dl"@,
{
    lemma_indented_names(name);
    lemma_marked_names(name);
    lemma_void_names(name);
    lemma_inline_names(name);
    lemma_block_names(name);
    if is_void_name(name) {
        lemma_void_element(name);
    }
    reveal_strlit("table");
    reveal_strlit("td");
    reveal_strlit("th");
    reveal_strlit("ol");
    reveal_strlit("dl");
    assert("ol"@[1] == 'l' && "dl"@[1] == 'l');
    assert("ol"@[0] != "dl"@[0]);
    assert("td"@[1] != 'l' && "th"@[1] != 'l');
    assert("table"@.len() != 2);
}

/// Past a piece, the place is inside the elements that are then open.
proof fn lemma_past_piece(
    place: LayoutView,
    earlier: Seq<TokenView>,
    piece: TokenView,
    length: int,
    total: int,
)
    requires
        is_inside(place, open_names(earlier)),
        place.next(piece, length, total) is Some,
    ensures
        is_sound_piece(earlier, piece, total),
        is_inside(place.next(piece, length, total)->0, open_names(earlier.push(piece))),
{
    reveal(LayoutView::next);
    let names = open_names(earlier);
    let now = earlier.push(piece);
    assert(now.drop_last() =~= earlier);
    let next = place.next(piece, length, total)->0;
    match piece {
        TokenView::Text(text) => {},
        TokenView::Open { name, attributes } => {
            lemma_sound_names(name);
            if !is_void_name(name) {
                let opened = names.push(name);
                assert(opened.drop_last() =~= names);
                assert forall|i: int|
                    #![trigger next.outer[i]]
                    0 <= i < opened.len() implies {
                    &&& next.outer[i].definition_lists == definition_lists(opened.take(i))
                    &&& i > 0 ==> next.outer[i].name == opened[i - 1]
                } by {
                    assert(opened.take(i) =~= names.take(i));
                    if i < names.len() {
                        assert(next.outer[i] == place.outer[i]);
                    } else {
                        assert(names.take(i) =~= names);
                    }
                }
            }
        },
        TokenView::Close { name } => {
            lemma_sound_names(name);
            let closed = names.drop_last();
            let n = names.len() - 1;
            assert(place.outer.last() == place.outer[n]);
            assert(names.take(n) =~= closed);
            assert forall|i: int|
                #![trigger next.outer[i]]
                0 <= i < closed.len() implies {
                &&& next.outer[i].definition_lists == definition_lists(closed.take(i))
                &&& i > 0 ==> next.outer[i].name == closed[i - 1]
            } by {
                assert(closed.take(i) =~= names.take(i));
                assert(next.outer[i] == place.outer[i]);
            }
        },
    }
}

proof fn lemma_pieces_are_sound(
    place: LayoutView,
    earlier: Seq<TokenView>,
    html: Seq<char>,
    at: int,
)
    requires
        0 <= at <= html.len(),
        place.can_go_on(html, at),
        is_inside(place, open_names(earlier)),
    ensures
        forall|i: int|
            0 <= i < pieces(html, at).len() ==> is_sound_piece(
                earlier + pieces(html, at).take(i),
                #[trigger] pieces(html, at)[i],
                html.len() as int,
            ),
        open_names(earlier + pieces(html, at)) == Seq::<Seq<char>>::empty(),
        reading_stops(html, at) == html.len(),
    decreases html.len() - at,
{
    let read = pieces(html, at);
    let total = html.len() as int;
    if at < html.len() {
        let (token, end) = markup::token_at(html, at)->0;
        let next = place.next(token, end - at, total)->0;
        lemma_past_piece(place, earlier, token, end - at, total);
        lemma_pieces_are_sound(next, earlier.push(token), html, end);
        let rest = pieces(html, end);
        assert(read == seq![token] + rest);
        assert(earlier + read =~= earlier.push(token) + rest);
        assert forall|i: int| 0 <= i < read.len() implies is_sound_piece(
            earlier + read.take(i),
            #[trigger] read[i],
            total,
        ) by {
            if i == 0 {
                assert(earlier + read.take(0) =~= earlier);
            } else {
                assert(read[i] == rest[i - 1]);
                assert(earlier + read.take(i) =~= earlier.push(token) + rest.take(i - 1));
            }
        }
    } else {
        assert(earlier + read =~= earlier);
        assert(open_names(earlier) =~= Seq::<Seq<char>>::empty());
    }
}

/// What is laid out can be read to its end, and holds nothing that laying out could fail on in
/// these ways: it has elements that a sanitizer leaves in, each closed where it was opened, and
/// no names for parts of the document; no list is numbered from where the numbers could run out;
/// and definition lists do not stand more than 64 deep in one another.
pub proof fn law_what_is_laid_out_is_sound(html: &str, form: String, i: int)
    requires
        call_ensures(find_layable_form, (html,), Some(form)),
        0 <= i < pieces(form@, 0).len(),
    ensures
        is_sound_piece(pieces(form@, 0).take(i), pieces(form@, 0)[i], form@.len() as int),
        open_names(pieces(form@, 0)) == Seq::<Seq<char>>::empty(),
        reading_stops(form@, 0) == form@.len(),
{
    let outcome: Option<String> = Some(form);
    assert(outcome.deep_view() == layout::layable_form(html@));
    assert(outcome.deep_view() == Some(form@));
    let none = Seq::<TokenView>::empty();
    lemma_pieces_are_sound(LayoutView::start(), none, form@, 0);
    assert(none + pieces(form@, 0).take(i) =~= pieces(form@, 0).take(i));
    assert(none + pieces(form@, 0) =~= pieces(form@, 0));
    assert(is_sound_piece(
        none + pieces(form@, 0).take(i),
        pieces(form@, 0)[i],
        form@.len() as int,
    ));
}

} // verus!
