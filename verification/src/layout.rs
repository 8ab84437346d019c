//! What of sanitized HTML can safely be laid out as plain text without a limit on
//! the width of lines, and a plain text for the rest.
//!
//! Laying out counts list items and table columns in machine integers, pads the
//! cells of a table, descends into nested lists and breaks words where a table
//! leaves them no room. The rules below leave out the HTML on which one of these
//! could fail to come to an end. They need not be exact: what they leave out has a
//! plain text of its own.

use vstd::prelude::*;

use crate::markup::{
    self,
    match_reference,
    parse_token,
    skip_run,
    unescape,
    Attribute,
    AttributeView,
    CharKind,
    Token,
    TokenView,
};
use crate::text::{self, chars_of, is_white, parse_i64, parse_usize, same_text, text_of};

verus! {

/// The widest that a table cell can be padded to, in columns.
pub const MAX_PADDING: usize = 0xffff;

/// How deep definition lists can stand in one another.
pub const MAX_DEFINITION_LISTS: usize = 64;

/// How deep elements can stand in one another where a table or a numbered list
/// is laid out.
pub const MAX_DEPTH: usize = 1024;

/// The emoji variation selector, which makes the character before it wider than
/// the two are one by one.
pub const SELECTOR: char = '\u{fe0f}';

/// What laying out makes of an element.
#[derive(Clone, Copy, Debug, PartialEq, Eq, Structural)]
pub enum Element {
    Table,
    Cell,
    NumberedList,
    DefinitionList,
    Preformatted,
    /// Its lines are set in.
    Indented,
    /// Its text is set in marks, or has a reference after it.
    Marked,
    /// It has no contents, and stands in a line.
    Void,
    /// It has no contents, and ends a line.
    Break,
    /// Any other element that stands in a line.
    Inline,
    /// Any other element that has lines of its own.
    Block,
}

impl Element {
    /// The element has no contents, and no closing tag.
    pub open spec fn is_void(self) -> bool {
        self == Element::Void || self == Element::Break
    }

    /// The lines of the element are set in.
    pub open spec fn is_indented(self) -> bool {
        self == Element::Indented || self == Element::NumberedList || self
            == Element::DefinitionList
    }

    /// The tags of the element end a line.
    pub open spec fn ends_line(self) -> bool {
        self != Element::Marked && self != Element::Void && self != Element::Inline
    }
}

/// The names of elements whose lines are set in, lists with a rule of their own
/// aside.
pub open spec fn indented_names() -> Seq<Seq<char>> {
    seq!["ul"@, "dd"@, "blockquote"@, "h1"@, "h2"@, "h3"@, "h4"@]
}

/// The names of elements that marks or references are added to.
pub open spec fn marked_names() -> Seq<Seq<char>> {
    seq!["a"@, "em"@, "i"@, "ins"@, "strong"@, "code"@, "sup"@, "dt"@]
}

/// The names of elements without contents that stand in a line.
pub open spec fn void_names() -> Seq<Seq<char>> {
    seq!["area"@, "col"@, "img"@, "wbr"@]
}

/// The names of the other elements in a line that a sanitizer leaves in.
pub open spec fn inline_names() -> Seq<Seq<char>> {
    seq![
        "abbr"@,
        "acronym"@,
        "b"@,
        "bdi"@,
        "bdo"@,
        "cite"@,
        "data"@,
        "del"@,
        "dfn"@,
        "kbd"@,
        "map"@,
        "mark"@,
        "q"@,
        "rp"@,
        "rt"@,
        "rtc"@,
        "ruby"@,
        "s"@,
        "samp"@,
        "small"@,
        "span"@,
        "strike"@,
        "sub"@,
        "time"@,
        "tt"@,
        "u"@,
        "var"@,
    ]
}

/// The names of the other elements with lines of their own that a sanitizer leaves
/// in.
pub open spec fn block_names() -> Seq<Seq<char>> {
    seq![
        "article"@,
        "aside"@,
        "caption"@,
        "center"@,
        "colgroup"@,
        "details"@,
        "div"@,
        "figcaption"@,
        "figure"@,
        "footer"@,
        "h5"@,
        "h6"@,
        "header"@,
        "hgroup"@,
        "li"@,
        "nav"@,
        "p"@,
        "summary"@,
        "tbody"@,
        "thead"@,
        "tr"@,
    ]
}

/// The element of a name, where it is one that a sanitizer leaves in.
pub open spec fn element(name: Seq<char>) -> Option<Element> {
    if name == "table"@ {
        Some(Element::Table)
    } else if name == "td"@ || name == "th"@ {
        Some(Element::Cell)
    } else if name == "ol"@ {
        Some(Element::NumberedList)
    } else if name == "dl"@ {
        Some(Element::DefinitionList)
    } else if name == "pre"@ {
        Some(Element::Preformatted)
    } else if name == "br"@ || name == "hr"@ {
        Some(Element::Break)
    } else if indented_names().contains(name) {
        Some(Element::Indented)
    } else if marked_names().contains(name) {
        Some(Element::Marked)
    } else if void_names().contains(name) {
        Some(Element::Void)
    } else if inline_names().contains(name) {
        Some(Element::Inline)
    } else if block_names().contains(name) {
        Some(Element::Block)
    } else {
        None
    }
}

/// Every ampersand begins a character reference that a serializer writes.
pub open spec fn is_escaped(text: Seq<char>) -> bool {
    forall|at: int|
        0 <= at < text.len() && #[trigger] text[at] == '&' ==> markup::reference_at(text, at)
            is Some
}

/// A tab in a text that may take up no columns: it begins with something other
/// than white space, and nothing in it is sure to show.
pub open spec fn hides_tab(plain: Seq<char>) -> bool {
    let first = markup::end_of_run(plain, 0, CharKind::LineBreak);
    &&& plain.contains('\t')
    &&& first < plain.len() && !text::is_white_space(plain[first])
    &&& forall|i: int| 0 <= i < plain.len() ==> !('!' <= #[trigger] plain[i] <= '~')
}

/// The most columns that the text takes up from `at` on: two for every character
/// that is not ASCII.
pub open spec fn columns(text: Seq<char>, at: int) -> int
    decreases text.len() - at,
{
    if !(0 <= at < text.len()) {
        0
    } else {
        (if text[at] <= '\u{7f}' {
            1int
        } else {
            2
        }) + columns(text, at + 1)
    }
}

/// A number of columns, as far as it matters.
pub open spec fn capped(count: int) -> int {
    if count > MAX_PADDING {
        MAX_PADDING + 1
    } else {
        count
    }
}

/// What a place in HTML is inside of.
#[derive(Debug)]
pub struct Scope {
    pub name: String,
    pub in_table: bool,
    pub in_inner_table: bool,
    pub is_preformatted: bool,
    pub is_indented: bool,
    pub definition_lists: usize,
}

/// The contents of a [`Scope`].
pub struct ScopeView {
    /// The name of the innermost element.
    pub name: Seq<char>,
    /// The place is in a table.
    pub in_table: bool,
    /// The place is in a table that stands in another.
    pub in_inner_table: bool,
    pub is_preformatted: bool,
    pub is_indented: bool,
    /// How many definition lists the place is in, counted up to one too many.
    pub definition_lists: int,
}

impl View for Scope {
    type V = ScopeView;

    open spec fn view(&self) -> ScopeView {
        ScopeView {
            name: self.name@,
            in_table: self.in_table,
            in_inner_table: self.in_inner_table,
            is_preformatted: self.is_preformatted,
            is_indented: self.is_indented,
            definition_lists: self.definition_lists as int,
        }
    }
}

impl DeepView for Scope {
    type V = ScopeView;

    open spec fn deep_view(&self) -> ScopeView {
        self@
    }
}

impl ScopeView {
    /// Inside no element.
    pub open spec fn outside() -> ScopeView {
        ScopeView {
            name: Seq::empty(),
            in_table: false,
            in_inner_table: false,
            is_preformatted: false,
            is_indented: false,
            definition_lists: 0,
        }
    }

    /// Inside an element in this scope.
    pub open spec fn inside(self, name: Seq<char>, kind: Element) -> ScopeView {
        ScopeView {
            name,
            in_table: self.in_table || kind == Element::Table,
            in_inner_table: self.in_inner_table || self.in_table && kind == Element::Table,
            is_preformatted: self.is_preformatted || kind == Element::Preformatted,
            is_indented: self.is_indented || kind.is_indented(),
            definition_lists: if kind == Element::DefinitionList && self.definition_lists
                <= MAX_DEFINITION_LISTS {
                self.definition_lists + 1
            } else {
                self.definition_lists
            },
        }
    }

    /// A cell here is one of a table that stands in no other.
    pub open spec fn is_outermost(self) -> bool {
        self.in_table && !self.in_inner_table
    }
}

/// What has been seen of the table that stands in no other.
#[derive(Clone, Copy, Debug, PartialEq, Eq, Structural)]
pub struct Table {
    /// The emoji variation selector.
    pub has_selector: bool,
    /// Something that takes up more columns than its text: an element with marks,
    /// or another table.
    pub has_marks: bool,
    /// A cell with a number of columns.
    pub is_spanned: bool,
    /// The most columns that all its cells take up.
    pub columns: usize,
    /// The most columns that its latest cell takes up.
    pub cell_columns: usize,
}

impl Table {
    /// Nothing.
    pub open spec fn nothing() -> Table {
        Table {
            has_selector: false,
            has_marks: false,
            is_spanned: false,
            columns: 0,
            cell_columns: 0,
        }
    }

    /// After something that takes up some columns.
    pub open spec fn with_columns(self, count: int) -> Table {
        Table {
            columns: capped(self.columns + count) as usize,
            cell_columns: capped(self.cell_columns + count) as usize,
            ..self
        }
    }

    /// After the beginning or the end of a cell.
    pub open spec fn with_cell(self) -> Table {
        Table { cell_columns: 0, ..self }
    }

    /// No word is wider than the column that it stands in, and no cell has to be
    /// padded too far.
    pub open spec fn is_sound(self) -> bool {
        &&& !(self.has_selector && self.has_marks)
        &&& self.cell_columns <= MAX_PADDING
        &&& self.is_spanned ==> self.columns <= MAX_PADDING
    }
}

/// How far looking through HTML has come.
#[derive(Debug)]
pub struct Layout {
    scope: Scope,
    outer: Vec<Scope>,
    table: Table,
    spans: usize,
    has_open_span: bool,
    counts: bool,
    is_deep: bool,
}

/// The contents of a [`Layout`].
pub struct LayoutView {
    /// What the place is inside of.
    pub scope: ScopeView,
    /// What the element of each open tag is inside of, the outermost first.
    pub outer: Seq<ScopeView>,
    /// What has been seen of the latest table.
    pub table: Table,
    /// The columns that all cells span together.
    pub spans: int,
    /// Some cell spans the rest of its row.
    pub has_open_span: bool,
    /// There is a table or a numbered list.
    pub counts: bool,
    /// Elements stand too deep in one another for either.
    pub is_deep: bool,
}

impl View for Layout {
    type V = LayoutView;

    closed spec fn view(&self) -> LayoutView {
        LayoutView {
            scope: self.scope@,
            outer: self.outer.deep_view(),
            table: self.table,
            spans: self.spans as int,
            has_open_span: self.has_open_span,
            counts: self.counts,
            is_deep: self.is_deep,
        }
    }
}

/// The value of the first attribute of a name, from `i` on.
pub open spec fn value_of(attributes: Seq<AttributeView>, name: Seq<char>, i: int) -> Option<
    Seq<char>,
>
    decreases attributes.len() - i,
{
    if !(0 <= i < attributes.len()) {
        None
    } else if attributes[i].name == name {
        Some(attributes[i].value)
    } else {
        value_of(attributes, name, i + 1)
    }
}

/// The number of the first item of a list, as an attribute gives it, leaves room to
/// number `length` more in the range of `i64`. What is no number there is not read
/// as one.
pub open spec fn can_count_on(start: Option<Seq<char>>, length: int) -> bool {
    start matches Some(value) ==> (text::signed_decimal(value) matches Some(first) ==> i64::MIN
        < first && first + length <= i64::MAX)
}

/// The number of columns that a cell spans, as an attribute gives it. None at all
/// stands for the rest of the row.
pub open spec fn span(attribute: Option<Seq<char>>) -> usize {
    match attribute {
        Some(value) => match text::unsigned_decimal(value) {
            Some(number) => number,
            None => 1,
        },
        None => 1,
    }
}

/// The attributes are those that a serializer writes, and name no part of the
/// document.
pub open spec fn are_plain(attributes: Seq<AttributeView>) -> bool {
    forall|i: int|
        0 <= i < attributes.len() ==> {
            &&& is_escaped((#[trigger] attributes[i]).value)
            &&& attributes[i].name != "id"@
            &&& attributes[i].name != "name"@
        }
}

/// The value of an attribute holds the emoji variation selector.
pub open spec fn hold_selector(attributes: Seq<AttributeView>) -> bool {
    exists|i: int|
        0 <= i < attributes.len() && (#[trigger] attributes[i]).value.contains(SELECTOR)
}

impl LayoutView {
    /// Before any HTML.
    pub open spec fn start() -> LayoutView {
        LayoutView {
            scope: ScopeView::outside(),
            outer: Seq::empty(),
            table: Table::nothing(),
            spans: 0,
            has_open_span: false,
            counts: false,
            is_deep: false,
        }
    }

    /// No rule is broken so far, in HTML of `total` characters, but that on depth.
    pub open spec fn is_sound(self, total: int) -> bool {
        &&& self.scope.definition_lists <= MAX_DEFINITION_LISTS
        &&& self.table.is_sound()
        &&& self.spans <= usize::MAX
        &&& self.has_open_span ==> self.spans <= usize::MAX as int / total
    }

    /// After an opening tag of `length` characters.
    pub open spec fn opened(
        self,
        name: Seq<char>,
        kind: Element,
        attributes: Seq<AttributeView>,
        length: int,
    ) -> LayoutView {
        let scope = if kind.is_void() {
            self.scope
        } else {
            self.scope.inside(name, kind)
        };
        let outer = if kind.is_void() {
            self.outer
        } else {
            self.outer.push(self.scope)
        };
        let colspan = value_of(attributes, "colspan"@, 0);
        let table = if !scope.in_table {
            self.table
        } else if kind == Element::Table && !scope.in_inner_table {
            Table::nothing()
        } else {
            let seen = Table {
                has_selector: self.table.has_selector || hold_selector(attributes),
                has_marks: self.table.has_marks || kind == Element::Marked || kind
                    == Element::Table,
                is_spanned: self.table.is_spanned || kind == Element::Cell && colspan is Some,
                ..self.table
            };
            if kind == Element::Cell && scope.is_outermost() {
                seen.with_columns(2 * capped(length)).with_cell()
            } else {
                seen.with_columns(2 * capped(length))
            }
        };
        LayoutView {
            scope,
            outer,
            table,
            spans: if kind != Element::Cell {
                self.spans
            } else if span(colspan) == 0 {
                self.spans + 1
            } else {
                self.spans + span(colspan)
            },
            has_open_span: self.has_open_span || kind == Element::Cell && span(colspan) == 0,
            counts: self.counts || kind == Element::Table || kind == Element::NumberedList,
            is_deep: self.is_deep || outer.len() > MAX_DEPTH,
        }
    }

    /// After the closing tag, of `length` characters, of the innermost element.
    pub open spec fn closed(self, kind: Element, length: int) -> LayoutView {
        LayoutView {
            scope: self.outer.last(),
            outer: self.outer.drop_last(),
            table: if !self.scope.in_table {
                self.table
            } else if kind == Element::Cell && self.scope.is_outermost() {
                self.table.with_cell()
            } else {
                self.table.with_columns(2 * capped(length))
            },
            ..self
        }
    }

    /// Text can stand here.
    pub open spec fn takes_text(self, text: Seq<char>) -> bool {
        &&& is_escaped(text)
        &&& self.scope.in_table && self.scope.is_preformatted && self.scope.is_indented
            ==> !hides_tab(markup::unescaped(text, 0))
    }

    /// After text.
    pub open spec fn with_text(self, text: Seq<char>) -> LayoutView {
        LayoutView {
            table: if !self.scope.in_table {
                self.table
            } else {
                Table {
                    has_selector: self.table.has_selector || text.contains(SELECTOR),
                    ..self.table
                }.with_columns(capped(columns(text, 0)))
            },
            ..self
        }
    }

    /// After a piece of HTML of `length` characters, in HTML of `total`, where it
    /// breaks no rule.
    #[verifier::opaque]
    pub open spec fn next(self, token: TokenView, length: int, total: int) -> Option<LayoutView> {
        let next = match token {
            TokenView::Text(text) => if self.takes_text(text) {
                Some(self.with_text(text))
            } else {
                None
            },
            TokenView::Open { name, attributes } => match element(name) {
                Some(kind) => if are_plain(attributes) && (kind == Element::NumberedList
                    ==> can_count_on(value_of(attributes, "start"@, 0), total)) {
                    Some(self.opened(name, kind, attributes, length))
                } else {
                    None
                },
                None => None,
            },
            TokenView::Close { name } => match element(name) {
                Some(kind) => if self.outer.len() > 0 && self.scope.name == name {
                    Some(self.closed(kind, length))
                } else {
                    None
                },
                None => None,
            },
        };
        match next {
            Some(layout) => if layout.is_sound(total) {
                Some(layout)
            } else {
                None
            },
            None => None,
        }
    }

    /// The rest of the HTML, from `at` on, breaks no rule.
    pub open spec fn can_go_on(self, html: Seq<char>, at: int) -> bool
        decreases html.len() - at,
    {
        if !(0 <= at < html.len()) {
            self.outer.len() == 0 && !(self.counts && self.is_deep)
        } else {
            match markup::token_at(html, at) {
                Some((token, end)) => if at < end <= html.len() {
                    match self.next(token, end - at, html.len() as int) {
                        Some(next) => next.can_go_on(html, end),
                        None => false,
                    }
                } else {
                    false
                },
                None => false,
            }
        }
    }
}

/// HTML that can be laid out as plain text without a limit on the width of lines.
/// It is written as a serializer writes it, with elements that a sanitizer leaves
/// in. In it
///
/// - no list is numbered and no row has columns past the range of the integers,
/// - definition lists do not stand too deep in one another, nor, where there is a
///   table or a numbered list, do elements of any kind,
/// - no cell of a table takes up more columns than it can be padded to, nor, where
///   a cell spans columns, does the table,
/// - no table with the emoji variation selector in it has marks, links or another
///   table in it,
/// - in a table, no preformatted text in an element that is set in has a tab
///   beside nothing that shows.
pub open spec fn can_lay_out(html: Seq<char>) -> bool {
    LayoutView::start().can_go_on(html, 0)
}

/// The HTML without the characters that cannot be laid out everywhere: the emoji
/// variation selector is left out, and a tab becomes a space.
pub open spec fn simplified(html: Seq<char>) -> Seq<char>
    decreases html.len(),
{
    if html.len() == 0 {
        Seq::empty()
    } else {
        let rest = simplified(html.drop_last());
        if html.last() == SELECTOR {
            rest
        } else if html.last() == '\t' {
            rest.push(' ')
        } else {
            rest.push(html.last())
        }
    }
}

/// The HTML in a form that can be laid out, if there is one: as it stands, or
/// simplified.
pub open spec fn layable_form(html: Seq<char>) -> Option<Seq<char>> {
    if can_lay_out(html) {
        Some(html)
    } else if can_lay_out(simplified(html)) {
        Some(simplified(html))
    } else {
        None
    }
}

/// What a tag of an element leaves in a text without markup: the end of a line, or
/// nothing.
pub open spec fn tag_text(name: Seq<char>) -> Seq<char> {
    match element(name) {
        Some(kind) => if kind.ends_line() {
            seq!['\n']
        } else {
            Seq::empty()
        },
        None => Seq::empty(),
    }
}

/// The text that is left of the HTML from `at` on without its markup. What is not
/// written as a serializer writes it stays as it is.
pub open spec fn text_without_markup(html: Seq<char>, at: int) -> Seq<char>
    decreases html.len() - at,
{
    if !(0 <= at < html.len()) {
        Seq::empty()
    } else {
        match markup::token_at(html, at) {
            Some((token, end)) => if at < end <= html.len() {
                (match token {
                    TokenView::Text(text) => markup::unescaped(text, 0),
                    TokenView::Open { name, .. } => tag_text(name),
                    TokenView::Close { name } => tag_text(name),
                }) + text_without_markup(html, end)
            } else {
                html.skip(at)
            },
            None => html.skip(at),
        }
    }
}

impl Element {
    fn has_no_contents(self) -> (is: bool)
        ensures
            is == self.is_void(),
    {
        self == Element::Void || self == Element::Break
    }

    fn is_set_in(self) -> (is: bool)
        ensures
            is == self.is_indented(),
    {
        self == Element::Indented || self == Element::NumberedList || self
            == Element::DefinitionList
    }

    fn breaks(self) -> (does: bool)
        ensures
            does == self.ends_line(),
    {
        self != Element::Marked && self != Element::Void && self != Element::Inline
    }
}

/// Whether a word is among several.
fn is_among(word: &str, words: &Vec<&'static str>) -> (is: bool)
    ensures
        is == words.deep_view().contains(word@),
{
    let mut i: usize = 0;
    while i < words.len()
        invariant
            i <= words@.len(),
            forall|j: int| 0 <= j < i ==> #[trigger] words.deep_view()[j] != word@,
        decreases words@.len() - i,
    {
        assert(words.deep_view()[i as int] == words@[i as int]@);
        if same_text(words[i], word) {
            return true;
        }
        i += 1;
    }
    false
}

fn is_inline(name: &str) -> (is: bool)
    ensures
        is == inline_names().contains(name@),
{
    let names = vec![
        "abbr",
        "acronym",
        "b",
        "bdi",
        "bdo",
        "cite",
        "data",
        "del",
        "dfn",
        "kbd",
        "map",
        "mark",
        "q",
        "rp",
        "rt",
        "rtc",
        "ruby",
        "s",
        "samp",
        "small",
        "span",
        "strike",
        "sub",
        "time",
        "tt",
        "u",
        "var",
    ];
    assert(names.deep_view() =~= inline_names());
    is_among(name, &names)
}

fn is_block(name: &str) -> (is: bool)
    ensures
        is == block_names().contains(name@),
{
    let names = vec![
        "article",
        "aside",
        "caption",
        "center",
        "colgroup",
        "details",
        "div",
        "figcaption",
        "figure",
        "footer",
        "h5",
        "h6",
        "header",
        "hgroup",
        "li",
        "nav",
        "p",
        "summary",
        "tbody",
        "thead",
        "tr",
    ];
    assert(names.deep_view() =~= block_names());
    is_among(name, &names)
}

/// The element of a name.
fn classify(name: &str) -> (kind: Option<Element>)
    ensures
        kind == element(name@),
{
    let indented = vec!["ul", "dd", "blockquote", "h1", "h2", "h3", "h4"];
    assert(indented.deep_view() =~= indented_names());
    let marked = vec!["a", "em", "i", "ins", "strong", "code", "sup", "dt"];
    assert(marked.deep_view() =~= marked_names());
    let void = vec!["area", "col", "img", "wbr"];
    assert(void.deep_view() =~= void_names());
    if same_text(name, "table") {
        Some(Element::Table)
    } else if same_text(name, "td") || same_text(name, "th") {
        Some(Element::Cell)
    } else if same_text(name, "ol") {
        Some(Element::NumberedList)
    } else if same_text(name, "dl") {
        Some(Element::DefinitionList)
    } else if same_text(name, "pre") {
        Some(Element::Preformatted)
    } else if same_text(name, "br") || same_text(name, "hr") {
        Some(Element::Break)
    } else if is_among(name, &indented) {
        Some(Element::Indented)
    } else if is_among(name, &marked) {
        Some(Element::Marked)
    } else if is_among(name, &void) {
        Some(Element::Void)
    } else if is_inline(name) {
        Some(Element::Inline)
    } else if is_block(name) {
        Some(Element::Block)
    } else {
        None
    }
}

fn all_escaped(text: &[char]) -> (all: bool)
    ensures
        all == is_escaped(text@),
{
    let length: usize = text.len();
    let mut i: usize = 0;
    while i < length
        invariant
            i <= length,
            length == text@.len(),
            forall|at: int|
                0 <= at < i && #[trigger] text@[at] == '&' ==> markup::reference_at(text@, at)
                    is Some,
        decreases length - i,
    {
        if text[i] == '&' && match_reference(text, i).is_none() {
            return false;
        }
        i += 1;
    }
    true
}

fn holds(text: &[char], c: char) -> (does: bool)
    ensures
        does == text@.contains(c),
{
    let length: usize = text.len();
    let mut i: usize = 0;
    while i < length
        invariant
            i <= length,
            length == text@.len(),
            forall|j: int| 0 <= j < i ==> #[trigger] text@[j] != c,
        decreases length - i,
    {
        if text[i] == c {
            return true;
        }
        i += 1;
    }
    false
}

fn has_hidden_tab(plain: &[char]) -> (has: bool)
    ensures
        has == hides_tab(plain@),
{
    let length: usize = plain.len();
    let first: usize = skip_run(plain, 0, CharKind::LineBreak);
    if first == length || is_white(plain[first]) || !holds(plain, '\t') {
        return false;
    }
    let mut i: usize = 0;
    while i < length
        invariant
            i <= length,
            length == plain@.len(),
            forall|j: int| 0 <= j < i ==> !('!' <= #[trigger] plain@[j] <= '~'),
        decreases length - i,
    {
        if '!' <= plain[i] && plain[i] <= '~' {
            return false;
        }
        i += 1;
    }
    true
}

/// The number of columns that a text takes up at most, as far as it matters.
fn count_columns(text: &[char]) -> (count: usize)
    ensures
        count == capped(columns(text@, 0)),
{
    let length: usize = text.len();
    let mut count: usize = 0;
    let mut i: usize = 0;
    while i < length
        invariant
            i <= length,
            length == text@.len(),
            count <= MAX_PADDING,
            count + columns(text@, i as int) == columns(text@, 0),
        decreases length - i,
    {
        count += if text[i] <= '\u{7f}' { 1 } else { 2 };
        i += 1;
        if count > MAX_PADDING {
            proof {
                lemma_columns_are_not_negative(text@, i as int);
            }
            return MAX_PADDING + 1;
        }
    }
    count
}

proof fn lemma_columns_are_not_negative(text: Seq<char>, at: int)
    ensures
        columns(text, at) >= 0,
    decreases text.len() - at,
{
    if 0 <= at < text.len() {
        lemma_columns_are_not_negative(text, at + 1);
    }
}

fn cap(count: usize) -> (limited: usize)
    ensures
        limited == capped(count as int),
        limited <= MAX_PADDING + 1,
{
    if count > MAX_PADDING {
        MAX_PADDING + 1
    } else {
        count
    }
}

impl Scope {
    fn outside() -> (scope: Scope)
        ensures
            scope@ == ScopeView::outside(),
    {
        let name = String::new();
        assert(name@ =~= Seq::empty());
        Scope {
            name,
            in_table: false,
            in_inner_table: false,
            is_preformatted: false,
            is_indented: false,
            definition_lists: 0,
        }
    }

    fn inside(&self, name: String, kind: Element) -> (scope: Scope)
        ensures
            scope@ == self@.inside(name@, kind),
    {
        Scope {
            name,
            in_table: self.in_table || kind == Element::Table,
            in_inner_table: self.in_inner_table || self.in_table && kind == Element::Table,
            is_preformatted: self.is_preformatted || kind == Element::Preformatted,
            is_indented: self.is_indented || kind.is_set_in(),
            definition_lists: if kind == Element::DefinitionList && self.definition_lists
                <= MAX_DEFINITION_LISTS {
                self.definition_lists + 1
            } else {
                self.definition_lists
            },
        }
    }
}

impl Table {
    fn none() -> (table: Table)
        ensures
            table == Table::nothing(),
    {
        Table {
            has_selector: false,
            has_marks: false,
            is_spanned: false,
            columns: 0,
            cell_columns: 0,
        }
    }

    fn add_columns(self, count: usize) -> (table: Table)
        requires
            self.columns <= MAX_PADDING + 1,
            self.cell_columns <= MAX_PADDING + 1,
            count <= 2 * (MAX_PADDING + 1),
        ensures
            table == self.with_columns(count as int),
            table.columns <= MAX_PADDING + 1,
            table.cell_columns <= MAX_PADDING + 1,
    {
        let mut table = self;
        table.columns = cap(table.columns + count);
        table.cell_columns = cap(table.cell_columns + count);
        table
    }

    fn passes(self) -> (is: bool)
        ensures
            is == self.is_sound(),
    {
        !(self.has_selector && self.has_marks) && self.cell_columns <= MAX_PADDING && (
        !self.is_spanned || self.columns <= MAX_PADDING)
    }
}

/// The place of the first attribute of a name.
fn find_attribute(attributes: &Vec<Attribute>, name: &str) -> (found: Option<usize>)
    ensures
        match found {
            Some(i) => {
                &&& i < attributes@.len()
                &&& value_of(attributes.deep_view(), name@, 0) == Some(attributes@[i as int].value@)
            },
            None => value_of(attributes.deep_view(), name@, 0) is None,
        },
{
    let mut i: usize = 0;
    while i < attributes.len()
        invariant
            i <= attributes@.len(),
            value_of(attributes.deep_view(), name@, 0) == value_of(
                attributes.deep_view(),
                name@,
                i as int,
            ),
        decreases attributes@.len() - i,
    {
        assert(attributes.deep_view()[i as int] == attributes@[i as int]@);
        if same_text(attributes[i].name.as_str(), name) {
            return Some(i);
        }
        i += 1;
    }
    None
}

fn has_room_to_count(attributes: &Vec<Attribute>, total: usize) -> (has: bool)
    ensures
        has == can_count_on(value_of(attributes.deep_view(), "start"@, 0), total as int),
{
    match find_attribute(attributes, "start") {
        Some(i) => {
            let value = &attributes[i].value;
            let text = text_of(value.as_slice(), 0, value.len());
            assert(text@ =~= value@);
            match parse_i64(text.as_str()) {
                Some(first) => first != i64::MIN && first as i128 + total as i128
                    <= i64::MAX as i128,
                None => true,
            }
        },
        None => true,
    }
}

fn read_span(attributes: &Vec<Attribute>) -> (read: (bool, usize))
    ensures
        read.0 == value_of(attributes.deep_view(), "colspan"@, 0) is Some,
        read.1 == span(value_of(attributes.deep_view(), "colspan"@, 0)),
{
    match find_attribute(attributes, "colspan") {
        Some(i) => {
            let value = &attributes[i].value;
            let text = text_of(value.as_slice(), 0, value.len());
            assert(text@ =~= value@);
            match parse_usize(text.as_str()) {
                Some(number) => (true, number),
                None => (true, 1),
            }
        },
        None => (false, 1),
    }
}

fn all_plain(attributes: &Vec<Attribute>) -> (all: bool)
    ensures
        all == are_plain(attributes.deep_view()),
{
    let mut i: usize = 0;
    while i < attributes.len()
        invariant
            i <= attributes@.len(),
            forall|j: int|
                0 <= j < i ==> {
                    &&& is_escaped((#[trigger] attributes.deep_view()[j]).value)
                    &&& attributes.deep_view()[j].name != "id"@
                    &&& attributes.deep_view()[j].name != "name"@
                },
        decreases attributes@.len() - i,
    {
        let attribute = &attributes[i];
        assert(attributes.deep_view()[i as int] == attributes@[i as int]@);
        if !all_escaped(attribute.value.as_slice()) || same_text(attribute.name.as_str(), "id")
            || same_text(attribute.name.as_str(), "name") {
            return false;
        }
        i += 1;
    }
    true
}

fn show_selector(attributes: &Vec<Attribute>) -> (shows: bool)
    ensures
        shows == hold_selector(attributes.deep_view()),
{
    let mut i: usize = 0;
    while i < attributes.len()
        invariant
            i <= attributes@.len(),
            forall|j: int|
                0 <= j < i ==> !(#[trigger] attributes.deep_view()[j]).value.contains(SELECTOR),
        decreases attributes@.len() - i,
    {
        assert(attributes.deep_view()[i as int] == attributes@[i as int]@);
        if holds(attributes[i].value.as_slice(), SELECTOR) {
            return true;
        }
        i += 1;
    }
    false
}

impl Layout {
    #[verifier::type_invariant]
    spec fn well_formed(self) -> bool {
        self.table.columns <= MAX_PADDING + 1 && self.table.cell_columns <= MAX_PADDING + 1
    }

    fn start() -> (layout: Layout)
        ensures
            layout@ == LayoutView::start(),
    {
        let outer: Vec<Scope> = Vec::new();
        assert(outer.deep_view() =~= Seq::empty());
        Layout {
            scope: Scope::outside(),
            outer,
            table: Table::none(),
            spans: 0,
            has_open_span: false,
            counts: false,
            is_deep: false,
        }
    }

    fn passes(&self, total: usize) -> (is: bool)
        requires
            total > 0,
        ensures
            is == self@.is_sound(total as int),
    {
        self.scope.definition_lists <= MAX_DEFINITION_LISTS && self.table.passes() && (
        !self.has_open_span || self.spans <= usize::MAX / total)
    }

    fn table_after(
        &self,
        scope: &Scope,
        kind: Element,
        attributes: &Vec<Attribute>,
        length: usize,
    ) -> (table: Table)
        ensures
            scope@ == (if kind.is_void() {
                self@.scope
            } else {
                self@.scope.inside(scope@.name, kind)
            }) ==> table == self@.opened(
                scope@.name,
                kind,
                attributes.deep_view(),
                length as int,
            ).table,
            table.columns <= MAX_PADDING + 1,
            table.cell_columns <= MAX_PADDING + 1,
    {
        proof {
            use_type_invariant(self);
        }
        if !scope.in_table {
            return self.table;
        }
        if kind == Element::Table && !scope.in_inner_table {
            return Table::none();
        }
        let mut table = self.table;
        table.has_selector = table.has_selector || show_selector(attributes);
        table.has_marks = table.has_marks || kind == Element::Marked || kind == Element::Table;
        if kind == Element::Cell {
            let (is_spanned, _) = read_span(attributes);
            table.is_spanned = table.is_spanned || is_spanned;
        }
        let mut table = table.add_columns(2 * cap(length));
        if kind == Element::Cell && !scope.in_inner_table {
            table.cell_columns = 0;
        }
        table
    }

    /// Goes on after an opening tag, unless the columns of all cells are too many.
    fn open(
        self,
        name: String,
        kind: Element,
        attributes: &Vec<Attribute>,
        length: usize,
    ) -> (layout: Option<Layout>)
        ensures
            match layout {
                Some(layout) => layout@ == self@.opened(
                    name@,
                    kind,
                    attributes.deep_view(),
                    length as int,
                ),
                None => self@.opened(name@, kind, attributes.deep_view(), length as int).spans
                    > usize::MAX,
            },
    {
        let mut spans: usize = self.spans;
        let mut has_open_span = self.has_open_span;
        if kind == Element::Cell {
            let (_, read) = read_span(attributes);
            let width: usize = if read == 0 { 1 } else { read };
            if spans > usize::MAX - width {
                return None;
            }
            spans += width;
            has_open_span = has_open_span || read == 0;
        }
        let counts = self.counts || kind == Element::Table || kind == Element::NumberedList;
        if kind.has_no_contents() {
            let table = self.table_after(&self.scope, kind, attributes, length);
            let is_deep = self.is_deep || self.outer.len() > MAX_DEPTH;
            return Some(
                Layout {
                    scope: self.scope,
                    outer: self.outer,
                    table,
                    spans,
                    has_open_span,
                    counts,
                    is_deep,
                },
            );
        }
        let scope = self.scope.inside(name, kind);
        let table = self.table_after(&scope, kind, attributes, length);
        let ghost before = self@;
        let mut outer = self.outer;
        outer.push(self.scope);
        assert(outer.deep_view() =~= before.outer.push(before.scope));
        let is_deep = self.is_deep || outer.len() > MAX_DEPTH;
        Some(Layout { scope, outer, table, spans, has_open_span, counts, is_deep })
    }

    fn close(self, kind: Element, length: usize) -> (layout: Layout)
        requires
            self@.outer.len() > 0,
        ensures
            layout@ == self@.closed(kind, length as int),
    {
        proof {
            use_type_invariant(&self);
        }
        let mut table = self.table;
        if self.scope.in_table {
            if kind == Element::Cell && !self.scope.in_inner_table {
                table.cell_columns = 0;
            } else {
                table = table.add_columns(2 * cap(length));
            }
        }
        let ghost before = self@;
        let mut outer = self.outer;
        let last = outer.pop();
        let scope = match last {
            Some(scope) => scope,
            None => self.scope,
        };
        assert(outer.deep_view() =~= before.outer.drop_last());
        Layout {
            scope,
            outer,
            table,
            spans: self.spans,
            has_open_span: self.has_open_span,
            counts: self.counts,
            is_deep: self.is_deep,
        }
    }

    fn can_take(&self, text: &[char]) -> (can: bool)
        ensures
            can == self@.takes_text(text@),
    {
        if !all_escaped(text) {
            return false;
        }
        if self.scope.in_table && self.scope.is_preformatted && self.scope.is_indented {
            return !has_hidden_tab(unescape(text).as_slice());
        }
        true
    }

    fn text(self, text: &[char]) -> (layout: Layout)
        ensures
            layout@ == self@.with_text(text@),
    {
        proof {
            use_type_invariant(&self);
        }
        let mut table = self.table;
        if self.scope.in_table {
            table.has_selector = table.has_selector || holds(text, SELECTOR);
            table = table.add_columns(count_columns(text));
        }
        Layout {
            scope: self.scope,
            outer: self.outer,
            table,
            spans: self.spans,
            has_open_span: self.has_open_span,
            counts: self.counts,
            is_deep: self.is_deep,
        }
    }

    fn step(self, token: Token, length: usize, total: usize) -> (next: Option<Layout>)
        requires
            total > 0,
        ensures
            match next {
                Some(next) => self@.next(token@, length as int, total as int) == Some(next@),
                None => self@.next(token@, length as int, total as int) is None,
            },
    {
        proof {
            reveal(LayoutView::next);
        }
        let next = match token {
            Token::Text(text) => {
                if !self.can_take(text.as_slice()) {
                    return None;
                }
                self.text(text.as_slice())
            },
            Token::Open { name, attributes } => {
                let kind = match classify(name.as_str()) {
                    Some(kind) => kind,
                    None => return None,
                };
                if !all_plain(&attributes) {
                    return None;
                }
                if kind == Element::NumberedList && !has_room_to_count(&attributes, total) {
                    return None;
                }
                match self.open(name, kind, &attributes, length) {
                    Some(next) => next,
                    None => return None,
                }
            },
            Token::Close { name } => {
                let kind = match classify(name.as_str()) {
                    Some(kind) => kind,
                    None => return None,
                };
                if self.outer.len() == 0 || !same_text(self.scope.name.as_str(), name.as_str()) {
                    return None;
                }
                self.close(kind, length)
            },
        };
        if next.passes(total) {
            Some(next)
        } else {
            None
        }
    }
}

fn is_layable(html: &[char]) -> (is: bool)
    ensures
        is == can_lay_out(html@),
{
    let total: usize = html.len();
    let mut layout = Layout::start();
    let mut at: usize = 0;
    while at < total
        invariant
            at <= total,
            total == html@.len(),
            can_lay_out(html@) == layout@.can_go_on(html@, at as int),
        decreases total - at,
    {
        let (token, end) = match parse_token(html, at) {
            Some(parsed) => parsed,
            None => return false,
        };
        layout = match layout.step(token, end - at, total) {
            Some(next) => next,
            None => return false,
        };
        at = end;
    }
    layout.outer.len() == 0 && !(layout.counts && layout.is_deep)
}

fn simplify(html: &[char]) -> (simple: Vec<char>)
    ensures
        simple@ == simplified(html@),
{
    let length: usize = html.len();
    let mut simple: Vec<char> = Vec::new();
    let mut i: usize = 0;
    assert(html@.take(0) =~= Seq::empty());
    while i < length
        invariant
            i <= length,
            length == html@.len(),
            simple@ == simplified(html@.take(i as int)),
        decreases length - i,
    {
        let c: char = html[i];
        assert(html@.take(i + 1).drop_last() =~= html@.take(i as int));
        if c == '\t' {
            simple.push(' ');
        } else if c != SELECTOR {
            simple.push(c);
        }
        i += 1;
    }
    assert(html@.take(length as int) =~= html@);
    simple
}

/// The HTML in a form that can be laid out, if there is one.
pub fn find_layable_form(html: &str) -> (form: Option<String>)
    ensures
        form.deep_view() == layable_form(html@),
{
    let chars = chars_of(html);
    if is_layable(chars.as_slice()) {
        return Some(html.to_owned());
    }
    let simple = simplify(chars.as_slice());
    if is_layable(simple.as_slice()) {
        let form = text_of(simple.as_slice(), 0, simple.len());
        assert(form@ =~= simple@);
        return Some(form);
    }
    None
}

fn append(text: &mut String, chars: &[char])
    ensures
        final(text)@ == old(text)@ + chars@,
{
    let part = text_of(chars, 0, chars.len());
    assert(part@ =~= chars@);
    text.append(part.as_str());
}

fn append_tag(text: &mut String, name: &str)
    ensures
        final(text)@ == old(text)@ + tag_text(name@),
{
    if let Some(kind) = classify(name) {
        if kind.breaks() {
            text.push('\n');
            assert(text@ =~= old(text)@ + seq!['\n']);
            return;
        }
    }
    assert(text@ =~= old(text)@ + Seq::empty());
}

/// The text that is left of HTML without its markup.
pub fn strip_markup(html: &str) -> (text: String)
    ensures
        text@ == text_without_markup(html@, 0),
{
    let chars = chars_of(html);
    let total: usize = chars.len();
    let mut text = String::new();
    let mut at: usize = 0;
    assert(text@ + text_without_markup(html@, 0) =~= text_without_markup(html@, 0));
    while at < total
        invariant
            at <= total,
            total == html@.len(),
            chars@ == html@,
            text@ + text_without_markup(html@, at as int) == text_without_markup(html@, 0),
        decreases total - at,
    {
        let ghost before = text@;
        let (token, end) = match parse_token(chars.as_slice(), at) {
            Some(parsed) => parsed,
            None => {
                let rest = text_of(chars.as_slice(), at, total);
                assert(rest@ =~= html@.skip(at as int));
                text.append(rest.as_str());
                return text;
            },
        };
        match &token {
            Token::Text(part) => append(&mut text, unescape(part.as_slice()).as_slice()),
            Token::Open { name, attributes: _ } => append_tag(&mut text, name.as_str()),
            Token::Close { name } => append_tag(&mut text, name.as_str()),
        }
        assert(text@ + text_without_markup(html@, end as int) =~= before + text_without_markup(
            html@,
            at as int,
        ));
        at = end;
    }
    assert(text@ + text_without_markup(html@, total as int) =~= text@);
    text
}

} // verus!
