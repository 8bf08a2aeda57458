//! Markdown split into top-level blocks (headings, paragraphs, tables, lists, code,
//! quotes, HTML and separators), in document order, with their plain text.
use crate::strings::{chars_of, trim, trimmed};
use crate::table::{html_cells, html_grid, texts_of, Cell, CellView};
use pulldown_cmark::Event::{
    Code, DisplayMath, End, FootnoteReference, HardBreak, Html, InlineHtml, InlineMath, Rule,
    SoftBreak, Start, TaskListMarker, Text,
};
use pulldown_cmark::TagEnd::{
    BlockQuote, CodeBlock, DefinitionList, DefinitionListDefinition, DefinitionListTitle, Emphasis,
    FootnoteDefinition, Heading, HtmlBlock, Image, Item, Link, List, MetadataBlock, Paragraph,
    Strikethrough, Strong, Subscript, Superscript, Table, TableCell, TableHead, TableRow,
};
use vstd::prelude::*;

verus! {

/// The kind of an element, one variant for each `pulldown_cmark::TagEnd`, which
/// `pulldown_cmark::Tag::to_end` maps each kind of start tag to, one to one.
#[derive(Clone, Copy, PartialEq, Eq, Structural)]
pub enum TagKind {
    Paragraph,
    Heading(u8),
    BlockQuote,
    CodeBlock,
    HtmlBlock,
    List,
    Item,
    FootnoteDefinition,
    DefinitionList,
    DefinitionListTitle,
    DefinitionListDefinition,
    Table,
    TableHead,
    TableRow,
    TableCell,
    Emphasis,
    Strong,
    Strikethrough,
    Superscript,
    Subscript,
    Link,
    Image,
    MetadataBlock,
}

/// A Markdown parser event, one variant for each `pulldown_cmark::Event`. An end
/// event carries the source text of the element that ends.
pub enum MdEvent {
    Start(TagKind),
    End(TagKind, String),
    Text(String),
    Code(String),
    InlineMath(String),
    DisplayMath(String),
    Html(String),
    InlineHtml(String),
    FootnoteReference(String),
    SoftBreak,
    HardBreak,
    Rule,
    TaskListMarker(bool),
}

/// A parser event as values.
pub enum MdEventView {
    Start(TagKind),
    End(TagKind, Seq<char>),
    Text(Seq<char>),
    Code(Seq<char>),
    InlineMath(Seq<char>),
    DisplayMath(Seq<char>),
    Html(Seq<char>),
    InlineHtml(Seq<char>),
    FootnoteReference(Seq<char>),
    SoftBreak,
    HardBreak,
    Rule,
    TaskListMarker(bool),
}

impl View for MdEvent {
    type V = MdEventView;

    open spec fn view(&self) -> MdEventView {
        match self {
            MdEvent::Start(t) => MdEventView::Start(*t),
            MdEvent::End(t, s) => MdEventView::End(*t, s@),
            MdEvent::Text(s) => MdEventView::Text(s@),
            MdEvent::Code(s) => MdEventView::Code(s@),
            MdEvent::InlineMath(s) => MdEventView::InlineMath(s@),
            MdEvent::DisplayMath(s) => MdEventView::DisplayMath(s@),
            MdEvent::Html(s) => MdEventView::Html(s@),
            MdEvent::InlineHtml(s) => MdEventView::InlineHtml(s@),
            MdEvent::FootnoteReference(s) => MdEventView::FootnoteReference(s@),
            MdEvent::SoftBreak => MdEventView::SoftBreak,
            MdEvent::HardBreak => MdEventView::HardBreak,
            MdEvent::Rule => MdEventView::Rule,
            MdEvent::TaskListMarker(b) => MdEventView::TaskListMarker(*b),
        }
    }
}

/// Parser events as values.
pub open spec fn events_view(events: Seq<MdEvent>) -> Seq<MdEventView> {
    events.map_values(|e: MdEvent| e@)
}

/// The events of `pulldown_cmark` with tables and strikethrough enabled, each end
/// event with the source text of its element.
pub uninterp spec fn markdown_events(markdown: Seq<char>) -> Seq<MdEventView>;

#[verifier::external_type_specification]
#[verifier::external_body]
pub struct ExParserEvent<'a>(pulldown_cmark::Event<'a>);

#[verifier::external_type_specification]
#[verifier::external_body]
pub struct ExParserTagEnd(pulldown_cmark::TagEnd);

/// The kind of a `pulldown_cmark::TagEnd`, one variant to one.
#[verifier::external_body]
fn tag_kind(tag: &pulldown_cmark::TagEnd) -> TagKind {
    match tag {
        Paragraph => TagKind::Paragraph, Heading(l) => TagKind::Heading(*l as u8),
        BlockQuote(_) => TagKind::BlockQuote, CodeBlock => TagKind::CodeBlock,
        HtmlBlock => TagKind::HtmlBlock, List(_) => TagKind::List, Item => TagKind::Item,
        FootnoteDefinition => TagKind::FootnoteDefinition, DefinitionList => TagKind::DefinitionList,
        DefinitionListTitle => TagKind::DefinitionListTitle, Table => TagKind::Table,
        DefinitionListDefinition => TagKind::DefinitionListDefinition, TableHead => TagKind::TableHead,
        TableRow => TagKind::TableRow, TableCell => TagKind::TableCell, Emphasis => TagKind::Emphasis,
        Strong => TagKind::Strong, Strikethrough => TagKind::Strikethrough, Link => TagKind::Link,
        Superscript => TagKind::Superscript, Subscript => TagKind::Subscript, Image => TagKind::Image,
        MetadataBlock(_) => TagKind::MetadataBlock,
    }
}

/// A `pulldown_cmark::Event`, one variant to one; a start tag is taken by the kind of
/// its end (`Tag::to_end`), and `source` is the text of the event's range.
#[verifier::external_body]
fn event_of(event: pulldown_cmark::Event, source: &str) -> MdEvent {
    match event {
        Start(tag) => MdEvent::Start(tag_kind(&tag.to_end())),
        End(tag) => MdEvent::End(tag_kind(&tag), source.to_string()),
        Text(v) => MdEvent::Text(v.to_string()),
        Code(v) => MdEvent::Code(v.to_string()),
        InlineMath(v) => MdEvent::InlineMath(v.to_string()),
        DisplayMath(v) => MdEvent::DisplayMath(v.to_string()),
        Html(v) => MdEvent::Html(v.to_string()),
        InlineHtml(v) => MdEvent::InlineHtml(v.to_string()),
        FootnoteReference(v) => MdEvent::FootnoteReference(v.to_string()),
        SoftBreak => MdEvent::SoftBreak,
        HardBreak => MdEvent::HardBreak,
        Rule => MdEvent::Rule,
        TaskListMarker(b) => MdEvent::TaskListMarker(b),
    }
}

/// Runs `pulldown_cmark::Parser::new_ext` with tables and strikethrough over the
/// Markdown and converts each event with the source text of its range.
#[verifier::external_body]
fn parse_markdown(markdown: &str) -> (r: Vec<MdEvent>)
    ensures
        events_view(r@) == markdown_events(markdown@),
{
    let options = pulldown_cmark::Options::ENABLE_TABLES | pulldown_cmark::Options::ENABLE_STRIKETHROUGH;
    pulldown_cmark::Parser::new_ext(markdown, options).into_offset_iter().map(|(e, at)| event_of(e, &markdown[at])).collect()
}

/// The HTML that `pulldown_cmark` (with tables) renders for the Markdown, as an
/// `ammonia::Builder` cleans it that starts from ammonia's defaults, no longer allows
/// the `removed` tags, and also allows the `attributes` on the two `cells` tags.
pub uninterp spec fn sanitized_html(
    markdown: Seq<char>,
    removed: Seq<Seq<char>>,
    cells: (Seq<char>, Seq<char>),
    attributes: Seq<Seq<char>>,
) -> Seq<char>;

/// Texts as values.
pub open spec fn strs_of(s: Seq<&str>) -> Seq<Seq<char>> {
    s.map_values(|t: &str| t@)
}

/// Whether `ammonia::Builder::clean` accepts the extra cell attributes without
/// panicking: its default `clean_content_tags` (`script`, `style`) must get no
/// attributes, and with its default `link_rel` the `a` tag must not be allowed `rel`.
pub open spec fn sanitizer_accepts(cells: (Seq<char>, Seq<char>), attributes: Seq<Seq<char>>) -> bool {
    &&& cells.0 != "script"@ && cells.0 != "style"@
    &&& cells.1 != "script"@ && cells.1 != "style"@
    &&& (cells.0 == "a"@ || cells.1 == "a"@) ==> !attributes.contains("rel"@)
}

/// Renders Markdown to HTML with `pulldown_cmark::html::push_html` and cleans it with
/// an `ammonia::Builder` set up from the arguments.
#[verifier::external_body]
fn render_sanitized(markdown: &str, removed: &[&str], cells: (&str, &str), attributes: &[&str]) -> (r: String)
    requires
        sanitizer_accepts((cells.0@, cells.1@), strs_of(attributes@)),
    ensures
        r@ == sanitized_html(markdown@, strs_of(removed@), (cells.0@, cells.1@), strs_of(attributes@)),
{
    let mut html = String::new();
    pulldown_cmark::html::push_html(&mut html, pulldown_cmark::Parser::new_ext(markdown, pulldown_cmark::Options::ENABLE_TABLES));
    ammonia::Builder::default()
        .rm_tags(removed.iter().copied())
        .add_tag_attributes(cells.0, attributes.iter().copied())
        .add_tag_attributes(cells.1, attributes.iter().copied())
        .clean(&html)
        .to_string()
}

/// The tags that never reach a preview or an export: images, media, frames, SVG and
/// MathML.
pub open spec fn removed_tags() -> Seq<Seq<char>> {
    seq!["img"@, "video"@, "audio"@, "iframe"@, "svg"@, "math"@]
}

/// The attributes that table cells keep, so that merged cells survive.
pub open spec fn span_attributes() -> Seq<Seq<char>> {
    seq!["rowspan"@, "colspan"@]
}

/// Markdown as safe HTML: cleaned by ammonia's defaults (no scripts or event
/// handlers), without images, media, frames, SVG or MathML, with cell spans kept.
pub open spec fn safe_markup(markdown: Seq<char>) -> Seq<char> {
    sanitized_html(markdown, removed_tags(), ("td"@, "th"@), span_attributes())
}

/// Markdown as sanitized HTML: no scripts, event handlers, images or remote media.
pub fn safe_html(markdown: &str) -> (r: String)
    ensures
        r@ == safe_markup(markdown@),
{
    let mut removed: Vec<&str> = Vec::new();
    removed.push("img");
    removed.push("video");
    removed.push("audio");
    removed.push("iframe");
    removed.push("svg");
    removed.push("math");
    let mut attributes: Vec<&str> = Vec::new();
    attributes.push("rowspan");
    attributes.push("colspan");
    assert(strs_of(removed@) =~= removed_tags());
    assert(strs_of(attributes@) =~= span_attributes());
    proof {
        reveal_strlit("td");
        reveal_strlit("th");
        reveal_strlit("a");
        reveal_strlit("script");
        reveal_strlit("style");
        assert("td"@.len() != "script"@.len() && "td"@.len() != "style"@.len() && "td"@ != "a"@);
        assert("th"@.len() != "script"@.len() && "th"@.len() != "style"@.len() && "th"@ != "a"@);
    }
    render_sanitized(markdown, removed.as_slice(), ("td", "th"), attributes.as_slice())
}

// ---------------------------------------------------------------------------
// Blocks.

/// One top-level block of a document.
pub struct Block {
    pub kind: String,
    pub text: String,
    pub markdown: String,
    pub level: Option<u8>,
    pub cells: Option<Vec<Cell>>,
    pub rows: Option<Vec<Vec<String>>>,
}

/// A block as values.
pub struct BlockView {
    pub kind: Seq<char>,
    pub text: Seq<char>,
    pub markdown: Seq<char>,
    pub level: Option<u8>,
    pub cells: Option<Seq<CellView>>,
    pub rows: Option<Seq<Seq<Seq<char>>>>,
}

impl View for Block {
    type V = BlockView;

    open spec fn view(&self) -> BlockView {
        BlockView {
            kind: self.kind@,
            text: self.text@,
            markdown: self.markdown@,
            level: self.level,
            cells: match self.cells {
                Some(c) => Some(crate::table::cells_view(c@)),
                None => None,
            },
            rows: match self.rows {
                Some(r) => Some(crate::table::texts_view(r@)),
                None => None,
            },
        }
    }
}

/// Blocks as values.
pub open spec fn blocks_view(blocks: Seq<Block>) -> Seq<BlockView> {
    blocks.map_values(|b: Block| b@)
}

/// The state while events are read: the finished blocks, the nesting depth, and the
/// kind, heading level, text and table rows of the open top-level block.
#[verifier::ext_equal]
pub struct Scan {
    pub blocks: Seq<BlockView>,
    pub depth: nat,
    pub kind: Seq<char>,
    pub level: Option<u8>,
    pub text: Seq<char>,
    pub rows: Seq<Seq<Seq<char>>>,
    pub row: Seq<Seq<char>>,
    pub cell: Seq<char>,
    pub in_cell: bool,
}

/// The block kind that a top-level element starts.
pub open spec fn kind_of(tag: TagKind) -> Seq<char> {
    match tag {
        TagKind::Heading(_) => "heading"@,
        TagKind::Table => "table"@,
        TagKind::List => "list"@,
        TagKind::CodeBlock => "code"@,
        TagKind::BlockQuote => "quote"@,
        TagKind::HtmlBlock => "html"@,
        _ => "paragraph"@,
    }
}

/// The heading level of an element.
pub open spec fn level_of(tag: TagKind) -> Option<u8> {
    match tag {
        TagKind::Heading(l) => Some(l),
        _ => None,
    }
}

/// A block of the given kind whose text and source are `v`.
pub open spec fn plain_block(kind: Seq<char>, text: Seq<char>, markdown: Seq<char>) -> BlockView {
    BlockView { kind, text, markdown, level: None, cells: None, rows: None }
}

/// The state after one event.
pub open spec fn scan_step(s: Scan, e: MdEventView) -> Scan {
    match e {
        MdEventView::Start(tag) => {
            let s1 = if s.depth == 0 {
                Scan { kind: kind_of(tag), level: level_of(tag), text: Seq::empty(), rows: Seq::empty(), ..s }
            } else {
                s
            };
            let s2 = if tag == TagKind::TableRow || tag == TagKind::TableHead {
                Scan { row: Seq::empty(), ..s1 }
            } else {
                s1
            };
            let s3 = if tag == TagKind::TableCell {
                Scan { in_cell: true, cell: Seq::empty(), ..s2 }
            } else {
                s2
            };
            Scan { depth: s3.depth + 1, ..s3 }
        },
        MdEventView::End(tag, source) => {
            let s1 = if tag == TagKind::TableCell {
                Scan { row: s.row.push(trim(s.cell)), in_cell: false, text: s.text.push('\t'), ..s }
            } else {
                s
            };
            let s2 = if tag == TagKind::TableRow || tag == TagKind::TableHead {
                Scan { rows: s1.rows.push(s1.row), text: s1.text.push('\n'), ..s1 }
            } else {
                s1
            };
            let s3 = if tag == TagKind::Item || tag == TagKind::Paragraph {
                Scan { text: s2.text.push('\n'), ..s2 }
            } else {
                s2
            };
            let depth: nat = if s3.depth == 0 {
                0
            } else {
                (s3.depth - 1) as nat
            };
            if depth == 0 {
                Scan {
                    depth,
                    blocks: s3.blocks.push(
                        BlockView {
                            kind: s3.kind,
                            text: trim(s3.text),
                            markdown: source,
                            level: s3.level,
                            cells: None,
                            rows: if s3.kind == "table"@ {
                                Some(s3.rows)
                            } else {
                                None
                            },
                        },
                    ),
                    ..s3
                }
            } else {
                Scan { depth, ..s3 }
            }
        },
        MdEventView::Text(v) => add_text(s, v),
        MdEventView::Code(v) => add_text(s, v),
        MdEventView::InlineMath(v) => add_text(s, v),
        MdEventView::DisplayMath(v) => add_text(s, v),
        MdEventView::Html(v) => add_html(s, v),
        MdEventView::InlineHtml(v) => add_html(s, v),
        MdEventView::SoftBreak => add_break(s),
        MdEventView::HardBreak => add_break(s),
        MdEventView::Rule => if s.depth == 0 {
            Scan { blocks: s.blocks.push(plain_block("separator"@, Seq::empty(), "---"@)), ..s }
        } else {
            s
        },
        MdEventView::FootnoteReference(_) => s,
        MdEventView::TaskListMarker(_) => s,
    }
}

/// Text, code and math add their text to the open block, and to the open cell.
pub open spec fn add_text(s: Scan, v: Seq<char>) -> Scan {
    Scan {
        text: s.text + v,
        cell: if s.in_cell {
            s.cell + v
        } else {
            s.cell
        },
        ..s
    }
}

/// HTML at the top level is a block of its own; inside a block it is text.
pub open spec fn add_html(s: Scan, v: Seq<char>) -> Scan {
    if s.depth == 0 {
        Scan { blocks: s.blocks.push(plain_block("html"@, v, v)), text: Seq::empty(), ..s }
    } else {
        Scan { text: s.text + v, ..s }
    }
}

/// A soft or hard line break: a new line in the block, a space in the open cell.
pub open spec fn add_break(s: Scan) -> Scan {
    Scan {
        text: s.text.push('\n'),
        cell: if s.in_cell {
            s.cell.push(' ')
        } else {
            s.cell
        },
        ..s
    }
}

/// The state after the events from `i` on.
pub open spec fn scan_from(events: Seq<MdEventView>, i: int, s: Scan) -> Scan
    decreases events.len() - i,
{
    if i >= events.len() || i < 0 {
        s
    } else {
        scan_from(events, i + 1, scan_step(s, events[i]))
    }
}

/// The state before any event.
pub open spec fn scan_start() -> Scan {
    Scan {
        blocks: Seq::empty(),
        depth: 0,
        kind: Seq::empty(),
        level: None,
        text: Seq::empty(),
        rows: Seq::empty(),
        row: Seq::empty(),
        cell: Seq::empty(),
        in_cell: false,
    }
}

/// `parts` joined with `sep`, as `[String]::join` does.
pub open spec fn join_with(parts: Seq<Seq<char>>, sep: Seq<char>) -> Seq<char>
    decreases parts.len(),
{
    if parts.len() == 0 {
        Seq::empty()
    } else if parts.len() == 1 {
        parts[0]
    } else {
        join_with(parts.drop_last(), sep) + sep + parts.last()
    }
}

/// The text of a table: cells joined by tabs, rows by line breaks.
pub open spec fn grid_text(rows: Seq<Seq<Seq<char>>>) -> Seq<char> {
    join_with(Seq::new(rows.len(), |i: int| join_with(rows[i], "\t"@)), "\n"@)
}

/// An HTML block that holds a readable table becomes a table block.
pub open spec fn refine(b: BlockView) -> BlockView {
    if b.kind == "html"@ {
        match html_grid(b.markdown) {
            Some((rows, cells)) => BlockView {
                kind: "table"@,
                text: grid_text(rows),
                rows: Some(rows),
                cells: Some(cells),
                ..b
            },
            None => b,
        }
    } else {
        b
    }
}

/// The blocks of a Markdown document, in order.
pub open spec fn document_blocks(markdown: Seq<char>) -> Seq<BlockView> {
    event_blocks(markdown_events(markdown))
}

/// The blocks that a sequence of parser events describes: the events scanned in
/// order, then each HTML block that holds a readable table turned into a table block.
pub open spec fn event_blocks(events: Seq<MdEventView>) -> Seq<BlockView> {
    let found = scan_from(events, 0, scan_start()).blocks;
    Seq::new(found.len(), |i: int| refine(found[i]))
}

/// The plain text of a document: the text of its blocks, separated by blank lines.
pub open spec fn document_text(markdown: Seq<char>) -> Seq<char> {
    let b = document_blocks(markdown);
    join_with(Seq::new(b.len(), |i: int| b[i].text), "\n\n"@)
}

/// A copy of a row of texts.
pub fn copy_texts(row: &Vec<String>) -> (r: Vec<String>)
    ensures
        texts_of(r@) == texts_of(row@),
{
    let mut r: Vec<String> = Vec::new();
    let mut i: usize = 0;
    while i < row.len()
        invariant
            i <= row.len(),
            r.len() == i,
            forall|j: int| 0 <= j < i ==> #[trigger] r@[j]@ == row@[j]@,
        decreases row.len() - i,
    {
        r.push(row[i].clone());
        i += 1;
    }
    assert(texts_of(r@) =~= texts_of(row@));
    r
}

/// A copy of rows of texts.
pub fn copy_grid(rows: &Vec<Vec<String>>) -> (r: Vec<Vec<String>>)
    ensures
        crate::table::texts_view(r@) == crate::table::texts_view(rows@),
{
    let mut r: Vec<Vec<String>> = Vec::new();
    let mut i: usize = 0;
    while i < rows.len()
        invariant
            i <= rows.len(),
            r.len() == i,
            forall|j: int| 0 <= j < i ==> texts_of(#[trigger] r@[j]@) == texts_of(rows@[j]@),
        decreases rows.len() - i,
    {
        r.push(copy_texts(&rows[i]));
        i += 1;
    }
    assert(crate::table::texts_view(r@) =~= crate::table::texts_view(rows@));
    r
}

/// A copy of table cells.
pub fn copy_cells(cells: &Vec<Cell>) -> (r: Vec<Cell>)
    ensures
        crate::table::cells_view(r@) == crate::table::cells_view(cells@),
{
    let mut r: Vec<Cell> = Vec::new();
    let mut i: usize = 0;
    while i < cells.len()
        invariant
            i <= cells.len(),
            r.len() == i,
            forall|j: int| 0 <= j < i ==> #[trigger] r@[j]@ == cells@[j]@,
        decreases cells.len() - i,
    {
        let c = &cells[i];
        r.push(Cell { row: c.row, column: c.column, row_span: c.row_span, column_span: c.column_span, text: c.text.clone() });
        i += 1;
    }
    assert(crate::table::cells_view(r@) =~= crate::table::cells_view(cells@));
    r
}

/// A copy of a block.
pub fn copy_block(b: &Block) -> (r: Block)
    ensures
        r@ == b@,
{
    Block {
        kind: b.kind.clone(),
        text: b.text.clone(),
        markdown: b.markdown.clone(),
        level: b.level,
        cells: match &b.cells {
            Some(c) => Some(copy_cells(c)),
            None => None,
        },
        rows: match &b.rows {
            Some(g) => Some(copy_grid(g)),
            None => None,
        },
    }
}

/// A copy of blocks.
pub fn copy_blocks(blocks: &Vec<Block>) -> (r: Vec<Block>)
    ensures
        blocks_view(r@) == blocks_view(blocks@),
{
    let mut r: Vec<Block> = Vec::new();
    let mut i: usize = 0;
    while i < blocks.len()
        invariant
            i <= blocks.len(),
            r.len() == i,
            forall|j: int| 0 <= j < i ==> #[trigger] r@[j]@ == blocks@[j]@,
        decreases blocks.len() - i,
    {
        r.push(copy_block(&blocks[i]));
        i += 1;
    }
    assert(blocks_view(r@) =~= blocks_view(blocks@));
    r
}

/// `parts` joined with `sep`.
pub fn join_texts(parts: &Vec<String>, sep: &str) -> (r: String)
    ensures
        r@ == join_with(texts_of(parts@), sep@),
{
    let ghost t = texts_of(parts@);
    let mut r = String::new();
    let mut i: usize = 0;
    while i < parts.len()
        invariant
            t == texts_of(parts@),
            i <= parts.len(),
            r@ == join_with(t.take(i as int), sep@),
        decreases parts.len() - i,
    {
        if i > 0 {
            r.append(sep);
        }
        r.append(parts[i].as_str());
        assert(t.take(i + 1).drop_last() =~= t.take(i as int));
        assert(r@ =~= join_with(t.take(i + 1), sep@));
        i += 1;
    }
    assert(t.take(parts.len() as int) =~= t);
    r
}

/// The text of a table.
fn table_text(rows: &Vec<Vec<String>>) -> (r: String)
    ensures
        r@ == grid_text(crate::table::texts_view(rows@)),
{
    let ghost g = crate::table::texts_view(rows@);
    let ghost lines = Seq::new(g.len(), |i: int| join_with(g[i], "\t"@));
    let mut joined: Vec<String> = Vec::new();
    let mut i: usize = 0;
    while i < rows.len()
        invariant
            g == crate::table::texts_view(rows@),
            lines == Seq::new(g.len(), |i: int| join_with(g[i], "\t"@)),
            i <= rows.len(),
            joined.len() == i,
            forall|j: int| 0 <= j < i ==> #[trigger] joined@[j]@ == lines[j],
        decreases rows.len() - i,
    {
        joined.push(join_texts(&rows[i], "\t"));
        i += 1;
    }
    assert(texts_of(joined@) =~= lines);
    join_texts(&joined, "\n")
}

spec fn scan_of(
    blocks: Seq<Block>,
    depth: usize,
    kind: String,
    level: Option<u8>,
    text: String,
    rows: Seq<Vec<String>>,
    row: Seq<String>,
    cell: String,
    in_cell: bool,
) -> Scan {
    Scan {
        blocks: blocks_view(blocks),
        depth: depth as nat,
        kind: kind@,
        level,
        text: text@,
        rows: crate::table::texts_view(rows),
        row: texts_of(row),
        cell: cell@,
        in_cell,
    }
}

fn is_text(s: &String, lit: &str) -> (r: bool)
    ensures
        r == (s@ == lit@),
{
    crate::strings::same_chars(&chars_of(s.as_str()), &chars_of(lit))
}

/// Splits Markdown into top-level blocks in document order. A table keeps its rows; an
/// HTML block that holds a table becomes a table block with its cells.
pub fn blocks(markdown: &str) -> (r: Vec<Block>)
    ensures
        blocks_view(r@) == document_blocks(markdown@),
{
    let events = parse_markdown(markdown);
    blocks_of(&events)
}

/// The blocks that parser events describe, in document order. A table keeps its rows;
/// an HTML block that holds a table becomes a table block with its cells.
pub fn blocks_of(events: &Vec<MdEvent>) -> (r: Vec<Block>)
    ensures
        blocks_view(r@) == event_blocks(events_view(events@)),
{
    let ghost ev = events_view(events@);
    let mut result: Vec<Block> = Vec::new();
    let mut depth: usize = 0;
    let mut kind = String::new();
    let mut level: Option<u8> = None;
    let mut text = String::new();
    let mut rows: Vec<Vec<String>> = Vec::new();
    let mut row: Vec<String> = Vec::new();
    let mut cell = String::new();
    let mut in_cell = false;
    assert(scan_of(result@, depth, kind, level, text, rows@, row@, cell, in_cell) =~= scan_start());
    let mut i: usize = 0;
    while i < events.len()
        invariant
            ev == events_view(events@),
            i <= events.len(),
            depth <= i,
            scan_from(ev, 0, scan_start()) == scan_from(
                ev,
                i as int,
                scan_of(result@, depth, kind, level, text, rows@, row@, cell, in_cell),
            ),
        decreases events.len() - i,
    {
        let ghost s = scan_of(result@, depth, kind, level, text, rows@, row@, cell, in_cell);
        let ghost r0 = result@;
        let ghost t = scan_step(s, ev[i as int]);
        assert(ev[i as int] == events@[i as int]@);
        match &events[i] {
            MdEvent::Start(tag) => {
                if depth == 0 {
                    kind = match tag {
                        TagKind::Heading(_) => "heading".to_string(),
                        TagKind::Table => "table".to_string(),
                        TagKind::List => "list".to_string(),
                        TagKind::CodeBlock => "code".to_string(),
                        TagKind::BlockQuote => "quote".to_string(),
                        TagKind::HtmlBlock => "html".to_string(),
                        _ => "paragraph".to_string(),
                    };
                    level = match tag {
                        TagKind::Heading(l) => Some(*l),
                        _ => None,
                    };
                    text = String::new();
                    rows = Vec::new();
                }
                if *tag == TagKind::TableRow || *tag == TagKind::TableHead {
                    row = Vec::new();
                }
                if *tag == TagKind::TableCell {
                    in_cell = true;
                    cell = String::new();
                }
                depth = depth + 1;
            },
            MdEvent::End(tag, source) => {
                if *tag == TagKind::TableCell {
                    row.push(trimmed(cell.as_str()));
                    in_cell = false;
                    crate::strings::push_char(&mut text, '\t');
                }
                if *tag == TagKind::TableRow || *tag == TagKind::TableHead {
                    rows.push(copy_texts(&row));
                    crate::strings::push_char(&mut text, '\n');
                }
                if *tag == TagKind::Item || *tag == TagKind::Paragraph {
                    crate::strings::push_char(&mut text, '\n');
                }
                assert(crate::table::texts_view(rows@) =~= t.rows);
                assert(texts_of(row@) =~= t.row);
                assert(text@ == t.text);
                depth = if depth == 0 {
                    0
                } else {
                    depth - 1
                };
                if depth == 0 {
                    let table = is_text(&kind, "table");
                    result.push(
                        Block {
                            kind: kind.clone(),
                            text: trimmed(text.as_str()),
                            markdown: source.clone(),
                            level,
                            cells: None,
                            rows: if table {
                                Some(copy_grid(&rows))
                            } else {
                                None
                            },
                        },
                    );
                }
            },
            MdEvent::Text(v) | MdEvent::Code(v) | MdEvent::InlineMath(v) | MdEvent::DisplayMath(v) => {
                text.append(v.as_str());
                if in_cell {
                    cell.append(v.as_str());
                }
            },
            MdEvent::Html(v) | MdEvent::InlineHtml(v) => {
                if depth == 0 {
                    result.push(
                        Block {
                            kind: "html".to_string(),
                            text: v.clone(),
                            markdown: v.clone(),
                            level: None,
                            cells: None,
                            rows: None,
                        },
                    );
                    text = String::new();
                } else {
                    text.append(v.as_str());
                }
            },
            MdEvent::SoftBreak | MdEvent::HardBreak => {
                crate::strings::push_char(&mut text, '\n');
                if in_cell {
                    crate::strings::push_char(&mut cell, ' ');
                }
            },
            MdEvent::Rule => {
                if depth == 0 {
                    result.push(
                        Block {
                            kind: "separator".to_string(),
                            text: String::new(),
                            markdown: "---".to_string(),
                            level: None,
                            cells: None,
                            rows: None,
                        },
                    );
                }
            },
            MdEvent::FootnoteReference(_) | MdEvent::TaskListMarker(_) => {},
        }
        assert(blocks_view(result@) =~= t.blocks);
        assert(crate::table::texts_view(rows@) =~= t.rows);
        assert(texts_of(row@) =~= t.row);
        assert(scan_of(result@, depth, kind, level, text, rows@, row@, cell, in_cell) =~= t);
        i += 1;
    }
    let ghost found = blocks_view(result@);
    let mut k: usize = 0;
    while k < result.len()
        invariant
            found == scan_from(ev, 0, scan_start()).blocks,
            result.len() == found.len(),
            k <= result.len(),
            forall|j: int| 0 <= j < k ==> #[trigger] blocks_view(result@)[j] == refine(found[j]),
            forall|j: int| k <= j < result.len() ==> #[trigger] blocks_view(result@)[j] == found[j],
        decreases result.len() - k,
    {
        assert(blocks_view(result@)[k as int] == result@[k as int]@);
        if is_text(&result[k].kind, "html") {
            match html_cells(result[k].markdown.as_str()) {
                Some((grid, cells)) => {
                    let t = table_text(&grid);
                    let b = Block {
                        kind: "table".to_string(),
                        text: t,
                        markdown: result[k].markdown.clone(),
                        level: result[k].level,
                        cells: Some(cells),
                        rows: Some(grid),
                    };
                    let ghost before = result@;
                    result.set(k, b);
                    assert forall|j: int| 0 <= j < result.len() && j != k implies #[trigger] blocks_view(
                        result@,
                    )[j] == blocks_view(before)[j] by {
                        assert(result@[j] == before[j]);
                    }
                    assert(blocks_view(result@)[k as int] =~= refine(found[k as int]));
                },
                None => {},
            }
        }
        k += 1;
    }
    assert(blocks_view(result@) =~= event_blocks(ev));
    result
}

/// The plain text of a document: the text of its blocks, separated by blank lines.
pub fn plain_text(markdown: &str) -> (r: String)
    ensures
        r@ == document_text(markdown@),
{
    let b = blocks(markdown);
    let mut texts: Vec<String> = Vec::new();
    let mut i: usize = 0;
    while i < b.len()
        invariant
            i <= b.len(),
            texts.len() == i,
            forall|j: int| 0 <= j < i ==> #[trigger] texts@[j]@ == b@[j].text@,
        decreases b.len() - i,
    {
        texts.push(b[i].text.clone());
        i += 1;
    }
    let ghost d = document_blocks(markdown@);
    assert forall|j: int| 0 <= j < d.len() implies #[trigger] d[j].text == b@[j].text@ by {
        assert(blocks_view(b@)[j] == b@[j]@);
    }
    assert(texts_of(texts@) =~= Seq::new(d.len(), |j: int| d[j].text));
    join_texts(&texts, "\n\n")
}

} // verus!
