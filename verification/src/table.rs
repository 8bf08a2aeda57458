//! The model's native table serialization (OTSL) decoded into an HTML table,
//! with no extra OCR and no inferred geometry.
use crate::i18n::{key_text, text};
use crate::strings::{chars_of, copy_range, same_chars, decimal, push_char, push_decimal, trim, trim_bounds};
use vstd::prelude::*;

verus! {

/// One cell of a decoded table, with its position and spans in the grid.
pub struct Cell {
    pub row: usize,
    pub column: usize,
    pub row_span: usize,
    pub column_span: usize,
    pub text: String,
}

/// A cell's geometry and text as mathematical values.
pub struct CellView {
    pub row: int,
    pub column: int,
    pub row_span: int,
    pub column_span: int,
    pub text: Seq<char>,
}

impl View for Cell {
    type V = CellView;

    open spec fn view(&self) -> CellView {
        CellView {
            row: self.row as int,
            column: self.column as int,
            row_span: self.row_span as int,
            column_span: self.column_span as int,
            text: self.text@,
        }
    }
}

/// The six OTSL tokens: `<fcel>`, `<ecel>`, `<lcel>`, `<ucel>`, `<xcel>` and `<nl>`.
#[derive(Clone, Copy, PartialEq, Eq, Structural)]
pub enum Token {
    /// `<fcel>`: a cell with text.
    Filled,
    /// `<ecel>`: an empty cell.
    Empty,
    /// `<lcel>`: merged with the cell on its left.
    Left,
    /// `<ucel>`: merged with the cell above.
    Up,
    /// `<xcel>`: merged both ways.
    Cross,
    /// `<nl>`: end of a row.
    Break,
}

// ---------------------------------------------------------------------------
// Escaping.

/// The HTML escape of one character.
pub open spec fn escape_char(c: char) -> Seq<char> {
    if c == '&' {
        "&amp;"@
    } else if c == '<' {
        "&lt;"@
    } else if c == '>' {
        "&gt;"@
    } else if c == '"' {
        "&quot;"@
    } else {
        seq![c]
    }
}

/// `&`, `<`, `>` and `"` replaced by their entities, each character on its own.
/// Replacing `&` first and then the other three, as successive `str::replace`
/// calls do, gives the same text.
pub open spec fn escape_text(s: Seq<char>) -> Seq<char>
    decreases s.len(),
{
    if s.len() == 0 {
        Seq::empty()
    } else {
        escape_text(s.drop_last()) + escape_char(s.last())
    }
}

/// Appends the escape of `v`.
pub fn push_escaped(s: &mut String, v: &Vec<char>)
    ensures
        final(s)@ == old(s)@ + escape_text(v@),
{
    let mut i: usize = 0;
    while i < v.len()
        invariant
            0 <= i <= v.len(),
            s@ == old(s)@ + escape_text(v@.take(i as int)),
        decreases v.len() - i,
    {
        let c = v[i];
        if c == '&' {
            s.append("&amp;");
        } else if c == '<' {
            s.append("&lt;");
        } else if c == '>' {
            s.append("&gt;");
        } else if c == '"' {
            s.append("&quot;");
        } else {
            push_char(s, c);
        }
        assert(v@.take(i + 1).drop_last() =~= v@.take(i as int));
        assert(s@ =~= old(s)@ + escape_text(v@.take(i + 1)));
        i += 1;
    }
    assert(v@.take(v.len() as int) =~= v@);
}

/// HTML-escapes `&`, `<`, `>` and `"`.
pub fn escape(text: &str) -> (r: String)
    ensures
        r@ == escape_text(text@),
{
    let v = chars_of(text);
    let mut r = String::new();
    push_escaped(&mut r, &v);
    r
}

// ---------------------------------------------------------------------------
// Tokens.

/// The OTSL token that starts at `s[i]`, if any.
pub open spec fn tag_at(s: Seq<char>, i: int) -> Option<Token> {
    if 0 <= i && i + 4 <= s.len() && s[i] == '<' && s[i + 1] == 'n' && s[i + 2] == 'l' && s[i + 3]
        == '>' {
        Some(Token::Break)
    } else if 0 <= i && i + 6 <= s.len() && s[i] == '<' && s[i + 2] == 'c' && s[i + 3] == 'e'
        && s[i + 4] == 'l' && s[i + 5] == '>' {
        if s[i + 1] == 'f' {
            Some(Token::Filled)
        } else if s[i + 1] == 'e' {
            Some(Token::Empty)
        } else if s[i + 1] == 'l' {
            Some(Token::Left)
        } else if s[i + 1] == 'u' {
            Some(Token::Up)
        } else if s[i + 1] == 'x' {
            Some(Token::Cross)
        } else {
            None
        }
    } else {
        None
    }
}

/// The length of a token.
pub open spec fn tag_len(t: Token) -> int {
    if t == Token::Break {
        4
    } else {
        6
    }
}

/// The first position at or after `i` where a token starts, or the end.
pub open spec fn next_tag(s: Seq<char>, i: int) -> int
    decreases s.len() - i,
{
    if i >= s.len() {
        s.len() as int
    } else if tag_at(s, i) is Some {
        i
    } else {
        next_tag(s, i + 1)
    }
}

/// What `next_tag` finds: a position from `i` to the end, where a token starts unless
/// it is the end.
pub proof fn lemma_next_tag(s: Seq<char>, i: int)
    requires
        0 <= i <= s.len(),
    ensures
        i <= next_tag(s, i) <= s.len(),
        next_tag(s, i) < s.len() ==> tag_at(s, next_tag(s, i)) is Some,
    decreases s.len() - i,
{
    if i < s.len() && tag_at(s, i) is None {
        lemma_next_tag(s, i + 1);
    }
}

/// A row entry: its token and its (trimmed) text.
pub type EntryView = (Token, Seq<char>);

/// The message of a table error.
pub open spec fn table_error(key: Seq<char>) -> Seq<char> {
    key_text(key)
}

/// The rows of a trimmed serialization `t`, read from position `pos` with the current
/// row `row` and the completed rows `rows`; the first error met is the result.
pub open spec fn read_rows(
    t: Seq<char>,
    pos: int,
    row: Seq<EntryView>,
    rows: Seq<Seq<EntryView>>,
) -> Result<Seq<Seq<EntryView>>, Seq<char>>
    decreases t.len() - pos,
{
    if pos < 0 || pos >= t.len() {
        Ok(
            if row.len() > 0 {
                rows.push(row)
            } else {
                rows
            },
        )
    } else {
        match tag_at(t, pos) {
            None => Err(table_error("tableToken"@)),
            Some(tag) => {
                let after = pos + tag_len(tag);
                let end = next_tag(t, after);
                proof {
                    lemma_next_tag(t, after);
                }
                let value = trim(t.subrange(after, end));
                if tag == Token::Break {
                    if value.len() > 0 {
                        Err(table_error("tableTextOutside"@))
                    } else {
                        read_rows(
                            t,
                            end,
                            Seq::empty(),
                            if row.len() > 0 {
                                rows.push(row)
                            } else {
                                rows
                            },
                        )
                    }
                } else if tag != Token::Filled && value.len() > 0 {
                    Err(table_error("tableMergedText"@))
                } else {
                    read_rows(t, end, row.push((tag, value)), rows)
                }
            },
        }
    }
}

// ---------------------------------------------------------------------------
// Cell layout.

/// The cells found so far, the owners of the completed rows and of the current row.
#[verifier::ext_equal]
pub struct Layout {
    pub cells: Seq<CellView>,
    pub done: Seq<Seq<Option<usize>>>,
    pub cur: Seq<Option<usize>>,
}

/// A cell with its column span changed.
pub open spec fn with_column_span(cell: CellView, span: int) -> CellView {
    CellView {
        row: cell.row,
        column: cell.column,
        row_span: cell.row_span,
        column_span: span,
        text: cell.text,
    }
}

/// A cell with its row span changed.
pub open spec fn with_row_span(cell: CellView, span: int) -> CellView {
    CellView {
        row: cell.row,
        column: cell.column,
        row_span: span,
        column_span: cell.column_span,
        text: cell.text,
    }
}

/// The owner of the position on the left of column `c` in the current row.
pub open spec fn left_owner(l: Layout, c: int) -> Option<usize> {
    if c > 0 {
        l.cur[c - 1]
    } else {
        None
    }
}

/// The owner of the position above `(r, c)`.
pub open spec fn above_owner(l: Layout, r: int, c: int) -> Option<usize> {
    if r > 0 {
        l.done[r - 1][c]
    } else {
        None
    }
}

/// Places the entry `e` at `(r, c)`.
pub open spec fn place(l: Layout, r: int, c: int, e: EntryView) -> Result<Layout, Seq<char>> {
    let tag = e.0;
    if tag == Token::Left {
        match left_owner(l, c) {
            None => Err(table_error("tableHMerge"@)),
            Some(o) => if l.cells[o as int].row != r {
                Err(table_error("tableHPosition"@))
            } else {
                Ok(
                    Layout {
                        cells: l.cells.update(
                            o as int,
                            with_column_span(l.cells[o as int], c - l.cells[o as int].column + 1),
                        ),
                        done: l.done,
                        cur: l.cur.push(Some(o)),
                    },
                )
            },
        }
    } else if tag == Token::Up {
        match above_owner(l, r, c) {
            None => Err(table_error("tableVMerge"@)),
            Some(o) => if l.cells[o as int].column != c {
                Err(table_error("tableVPosition"@))
            } else {
                Ok(
                    Layout {
                        cells: l.cells.update(
                            o as int,
                            with_row_span(l.cells[o as int], r - l.cells[o as int].row + 1),
                        ),
                        done: l.done,
                        cur: l.cur.push(Some(o)),
                    },
                )
            },
        }
    } else if tag == Token::Cross {
        let left = left_owner(l, c);
        if left is None || left != above_owner(l, r, c) {
            Err(table_error("tableCrossMerge"@))
        } else {
            Ok(Layout { cells: l.cells, done: l.done, cur: l.cur.push(left) })
        }
    } else {
        Ok(
            Layout {
                cells: l.cells.push(
                    CellView { row: r, column: c, row_span: 1, column_span: 1, text: e.1 },
                ),
                done: l.done,
                cur: l.cur.push(Some(l.cells.len() as usize)),
            },
        )
    }
}

/// The layout after placing every entry from `(r, c)` on, in row-major order,
/// in a grid of `width` columns.
pub open spec fn lay_from(rows: Seq<Seq<EntryView>>, width: int, r: int, c: int, l: Layout) -> Result<
    Layout,
    Seq<char>,
>
    decreases rows.len() - r, width - c,
{
    if r >= rows.len() || r < 0 {
        Ok(l)
    } else if c < width {
        match place(l, r, c, rows[r][c]) {
            Err(e) => Err(e),
            Ok(next) => lay_from(rows, width, r, c + 1, next),
        }
    } else {
        lay_from(rows, width, r + 1, 0, Layout { cells: l.cells, done: l.done.push(l.cur), cur: Seq::empty() })
    }
}

/// The empty layout.
pub open spec fn empty_layout() -> Layout {
    Layout { cells: Seq::empty(), done: Seq::empty(), cur: Seq::empty() }
}

/// Whether `(r, c)` lies in the rectangle that `cell` spans.
pub open spec fn in_rect(cell: CellView, r: int, c: int) -> bool {
    cell.row <= r < cell.row + cell.row_span && cell.column <= c < cell.column + cell.column_span
}

/// Every grid position that a cell spans is owned by that cell.
pub open spec fn spans_owned(l: Layout, width: int) -> bool {
    forall|i: int, r: int, c: int|
        #![trigger in_rect(l.cells[i], r, c)]
        0 <= i < l.cells.len() && 0 <= r < l.done.len() && 0 <= c < width && in_rect(
            l.cells[i],
            r,
            c,
        ) ==> l.done[r][c] == Some(i as usize)
}

// ---------------------------------------------------------------------------
// HTML.

/// One `<td>` element.
pub open spec fn td(cell: CellView) -> Seq<char> {
    "<td rowspan=\""@ + decimal(cell.row_span as nat) + "\" colspan=\""@ + decimal(
        cell.column_span as nat,
    ) + "\">"@ + escape_text(cell.text) + "</td>"@
}

/// The `<td>` elements of the cells of row `r`, in order.
pub open spec fn row_cells(cells: Seq<CellView>, r: int) -> Seq<char>
    decreases cells.len(),
{
    if cells.len() == 0 {
        Seq::empty()
    } else {
        row_cells(cells.drop_last(), r) + if cells.last().row == r {
            td(cells.last())
        } else {
            Seq::empty()
        }
    }
}

/// The `<tr>` elements of the first `n` rows.
pub open spec fn table_rows(cells: Seq<CellView>, n: int) -> Seq<char>
    decreases n,
{
    if n <= 0 {
        Seq::empty()
    } else {
        table_rows(cells, n - 1) + "<tr>"@ + row_cells(cells, n - 1) + "</tr>\n"@
    }
}

/// The HTML table of `n` rows.
pub open spec fn table_html(cells: Seq<CellView>, n: int) -> Seq<char> {
    "<table>\n"@ + table_rows(cells, n) + "</table>"@
}

/// Whether every row has `width` entries.
pub open spec fn uniform(rows: Seq<Seq<EntryView>>, width: int) -> bool {
    forall|r: int| 0 <= r < rows.len() ==> #[trigger] rows[r].len() == width
}

/// The decoded table of a raw model response: its HTML, or the first error.
pub open spec fn otsl(raw: Seq<char>) -> Result<Seq<char>, Seq<char>> {
    match read_rows(trim(raw), 0, Seq::empty(), Seq::empty()) {
        Err(e) => Err(e),
        Ok(rows) => if rows.len() == 0 {
            Err(table_error("tableEmpty"@))
        } else {
            let width = rows[0].len() as int;
            if width == 0 || !uniform(rows, width) || width * rows.len() > 10000 {
                Err(table_error("tableIncomplete"@))
            } else {
                match lay_from(rows, width, 0, 0, empty_layout()) {
                    Err(e) => Err(e),
                    Ok(l) => if !spans_owned(l, width) {
                        Err(table_error("tableOverlap"@))
                    } else {
                        Ok(table_html(l.cells, rows.len() as int))
                    },
                }
            }
        },
    }
}


// ---------------------------------------------------------------------------
// Decoding.

/// A row entry as read: its token and its trimmed text.
pub struct Entry {
    pub tag: Token,
    pub text: Vec<char>,
}

impl View for Entry {
    type V = EntryView;

    open spec fn view(&self) -> EntryView {
        (self.tag, self.text@)
    }
}

/// The entries of a row as values.
pub open spec fn row_view(row: Seq<Entry>) -> Seq<EntryView> {
    row.map_values(|e: Entry| e@)
}

/// The rows as values.
pub open spec fn rows_view(rows: Seq<Vec<Entry>>) -> Seq<Seq<EntryView>> {
    rows.map_values(|r: Vec<Entry>| row_view(r@))
}

/// No entry is a row break.
pub open spec fn no_breaks(rows: Seq<Seq<EntryView>>) -> bool {
    forall|r: int, c: int|
        0 <= r < rows.len() && 0 <= c < rows[r].len() ==> #[trigger] rows[r][c].0 != Token::Break
}

fn find_tag_at(t: &Vec<char>, i: usize) -> (r: Option<Token>)
    ensures
        r == tag_at(t@, i as int),
{
    if i < t.len() && t.len() - i >= 4 && t[i] == '<' && t[i + 1] == 'n' && t[i + 2] == 'l' && t[i
        + 3] == '>' {
        return Some(Token::Break);
    }
    if i < t.len() && t.len() - i >= 6 && t[i] == '<' && t[i + 2] == 'c' && t[i + 3] == 'e' && t[i
        + 4] == 'l' && t[i + 5] == '>' {
        let k = t[i + 1];
        if k == 'f' {
            return Some(Token::Filled);
        } else if k == 'e' {
            return Some(Token::Empty);
        } else if k == 'l' {
            return Some(Token::Left);
        } else if k == 'u' {
            return Some(Token::Up);
        } else if k == 'x' {
            return Some(Token::Cross);
        }
    }
    None
}

fn find_next_tag(t: &Vec<char>, i: usize) -> (r: usize)
    requires
        i <= t.len(),
    ensures
        r == next_tag(t@, i as int),
{
    let mut j = i;
    while j < t.len() && find_tag_at(t, j).is_none()
        invariant
            i <= j <= t.len(),
            next_tag(t@, i as int) == next_tag(t@, j as int),
        decreases t.len() - j,
    {
        j += 1;
    }
    j
}

fn read_entries(t: &Vec<char>) -> (r: Result<Vec<Vec<Entry>>, String>)
    ensures
        match r {
            Ok(rows) => read_rows(t@, 0, Seq::empty(), Seq::empty()) == Ok::<
                Seq<Seq<EntryView>>,
                Seq<char>,
            >(rows_view(rows@)) && no_breaks(rows_view(rows@)),
            Err(e) => read_rows(t@, 0, Seq::empty(), Seq::empty()) == Err::<
                Seq<Seq<EntryView>>,
                Seq<char>,
            >(e@),
        },
{
    let mut pos: usize = 0;
    let mut row: Vec<Entry> = Vec::new();
    let mut rows: Vec<Vec<Entry>> = Vec::new();
    assert(row_view(row@) =~= Seq::<EntryView>::empty());
    assert(rows_view(rows@) =~= Seq::<Seq<EntryView>>::empty());
    while pos < t.len()
        invariant
            pos <= t.len(),
            read_rows(t@, 0, Seq::empty(), Seq::empty()) == read_rows(
                t@,
                pos as int,
                row_view(row@),
                rows_view(rows@),
            ),
            no_breaks(rows_view(rows@)),
            forall|c: int| 0 <= c < row@.len() ==> #[trigger] row@[c].tag != Token::Break,
        decreases t.len() - pos,
    {
        let tag = match find_tag_at(t, pos) {
            None => {
                return Err(text("tableToken"));
            },
            Some(x) => x,
        };
        let after = if tag == Token::Break {
            pos + 4
        } else {
            pos + 6
        };
        let end = find_next_tag(t, after);
        proof {
            lemma_next_tag(t@, after as int);
        }
        let (a, b) = trim_bounds(t, after, end);
        if tag == Token::Break {
            if b > a {
                return Err(text("tableTextOutside"));
            }
            if row.len() > 0 {
                let ghost before = rows_view(rows@);
                rows.push(row);
                row = Vec::new();
                assert(rows_view(rows@) =~= before.push(row_view(rows@.last()@)));
            }
            assert(row_view(row@) =~= Seq::<EntryView>::empty());
        } else {
            if tag != Token::Filled && b > a {
                return Err(text("tableMergedText"));
            }
            let ghost before = row_view(row@);
            row.push(Entry { tag, text: copy_range(t, a, b) });
            assert(row_view(row@) =~= before.push((tag, t@.subrange(a as int, b as int))));
        }
        pos = end;
    }
    if row.len() > 0 {
        let ghost before = rows_view(rows@);
        rows.push(row);
        assert(rows_view(rows@) =~= before.push(row_view(rows@.last()@)));
    }
    Ok(rows)
}


// ---------------------------------------------------------------------------
// Layout invariants.

/// What holds of the layout while position `(r, c)` is next: completed rows are
/// full, every placed position is owned by a cell whose rectangle holds it, and
/// every rectangle ends at or before the scan position.
pub open spec fn laid(l: Layout, width: int, r: int, c: int) -> bool {
    &&& 0 <= r
    &&& 0 <= c <= width
    &&& l.done.len() == r
    &&& l.cur.len() == c
    &&& l.cells.len() <= r * width + c
    &&& forall|i: int| 0 <= i < r ==> #[trigger] l.done[i].len() == width
    &&& forall|i: int, j: int|
        #![trigger l.done[i][j]]
        0 <= i < r && 0 <= j < width ==> l.done[i][j] is Some && (l.done[i][j]->0 as int)
            < l.cells.len() && in_rect(l.cells[l.done[i][j]->0 as int], i, j)
    &&& forall|j: int|
        #![trigger l.cur[j]]
        0 <= j < c ==> l.cur[j] is Some && (l.cur[j]->0 as int) < l.cells.len() && in_rect(
            l.cells[l.cur[j]->0 as int],
            r,
            j,
        )
    &&& forall|k: int|
        #![trigger l.cells[k]]
        0 <= k < l.cells.len() ==> {
            let cell = l.cells[k];
            &&& 0 <= cell.row
            &&& 0 <= cell.column
            &&& 1 <= cell.row_span
            &&& 1 <= cell.column_span
            &&& cell.row + cell.row_span <= r + 1
            &&& c == 0 ==> cell.row + cell.row_span <= r
            &&& cell.column + cell.column_span <= width
            &&& cell.row == r ==> cell.column + cell.column_span <= c
        }
}

proof fn lemma_place_laid(l: Layout, width: int, r: int, c: int, e: EntryView)
    requires
        laid(l, width, r, c),
        c < width,
        e.0 != Token::Break,
        place(l, r, c, e) is Ok,
        l.cells.len() < usize::MAX,
    ensures
        laid(place(l, r, c, e)->Ok_0, width, r, c + 1),
{
    let n = place(l, r, c, e)->Ok_0;
    if e.0 == Token::Left {
        let o = left_owner(l, c)->0 as int;
        assert(l.cur[c - 1] is Some);
        assert(in_rect(l.cells[o], r, c - 1));
        assert forall|k: int| 0 <= k < n.cells.len() implies {
            let cell = #[trigger] n.cells[k];
            &&& 0 <= cell.row
            &&& 0 <= cell.column
            &&& 1 <= cell.row_span
            &&& 1 <= cell.column_span
            &&& cell.row + cell.row_span <= r + 1
            &&& cell.column + cell.column_span <= width
            &&& cell.row == r ==> cell.column + cell.column_span <= c + 1
        } by {
            assert(l.cells[k] == l.cells[k]);
        }
        assert forall|i: int, j: int|
            0 <= i < r && 0 <= j < width implies #[trigger] n.done[i][j] is Some && (
            n.done[i][j]->0 as int) < n.cells.len() && in_rect(
                n.cells[n.done[i][j]->0 as int],
                i,
                j,
            ) by {
            assert(l.done[i][j] == n.done[i][j]);
            let p = l.done[i][j]->0 as int;
            assert(l.cells[p] == l.cells[p]);
        }
        assert forall|j: int| 0 <= j < c + 1 implies #[trigger] n.cur[j] is Some && (
        n.cur[j]->0 as int) < n.cells.len() && in_rect(n.cells[n.cur[j]->0 as int], r, j) by {
            if j < c {
                assert(l.cur[j] == n.cur[j]);
                let p = l.cur[j]->0 as int;
                assert(l.cells[p] == l.cells[p]);
            }
        }
    } else if e.0 == Token::Up {
        let o = above_owner(l, r, c)->0 as int;
        assert(l.done[r - 1][c] is Some);
        assert(in_rect(l.cells[o], r - 1, c));
        assert forall|k: int| 0 <= k < n.cells.len() implies {
            let cell = #[trigger] n.cells[k];
            &&& 0 <= cell.row
            &&& 0 <= cell.column
            &&& 1 <= cell.row_span
            &&& 1 <= cell.column_span
            &&& cell.row + cell.row_span <= r + 1
            &&& cell.column + cell.column_span <= width
            &&& cell.row == r ==> cell.column + cell.column_span <= c + 1
        } by {
            assert(l.cells[k] == l.cells[k]);
        }
        assert forall|i: int, j: int|
            0 <= i < r && 0 <= j < width implies #[trigger] n.done[i][j] is Some && (
            n.done[i][j]->0 as int) < n.cells.len() && in_rect(
                n.cells[n.done[i][j]->0 as int],
                i,
                j,
            ) by {
            assert(l.done[i][j] == n.done[i][j]);
            let p = l.done[i][j]->0 as int;
            assert(l.cells[p] == l.cells[p]);
        }
        assert forall|j: int| 0 <= j < c + 1 implies #[trigger] n.cur[j] is Some && (
        n.cur[j]->0 as int) < n.cells.len() && in_rect(n.cells[n.cur[j]->0 as int], r, j) by {
            if j < c {
                assert(l.cur[j] == n.cur[j]);
                let p = l.cur[j]->0 as int;
                assert(l.cells[p] == l.cells[p]);
            }
        }
    } else if e.0 == Token::Cross {
        let o = left_owner(l, c)->0 as int;
        assert(r > 0);
        assert(l.cur[c - 1] is Some);
        assert(in_rect(l.cells[o], r, c - 1));
        assert(l.done[r - 1][c] == Some(o as usize));
        assert(in_rect(l.cells[o], r - 1, c));
        assert(n.cur[c] == Some(o as usize));
        assert(in_rect(n.cells[o], r, c));
        assert forall|k: int| 0 <= k < n.cells.len() implies {
            let cell = #[trigger] n.cells[k];
            &&& 0 <= cell.row
            &&& 0 <= cell.column
            &&& 1 <= cell.row_span
            &&& 1 <= cell.column_span
            &&& cell.row + cell.row_span <= r + 1
            &&& cell.column + cell.column_span <= width
            &&& cell.row == r ==> cell.column + cell.column_span <= c + 1
        } by {
            assert(l.cells[k] == l.cells[k]);
        }
        assert forall|i: int, j: int|
            0 <= i < r && 0 <= j < width implies #[trigger] n.done[i][j] is Some && (
            n.done[i][j]->0 as int) < n.cells.len() && in_rect(
                n.cells[n.done[i][j]->0 as int],
                i,
                j,
            ) by {
            assert(l.done[i][j] == n.done[i][j]);
            let p = l.done[i][j]->0 as int;
            assert(l.cells[p] == l.cells[p]);
        }
        assert forall|j: int| 0 <= j < c + 1 implies #[trigger] n.cur[j] is Some && (
        n.cur[j]->0 as int) < n.cells.len() && in_rect(n.cells[n.cur[j]->0 as int], r, j) by {
            if j < c {
                assert(l.cur[j] == n.cur[j]);
                let p = l.cur[j]->0 as int;
                assert(l.cells[p] == l.cells[p]);
            }
        }
    } else {
        assert forall|k: int| 0 <= k < n.cells.len() implies {
            let cell = #[trigger] n.cells[k];
            &&& 0 <= cell.row
            &&& 0 <= cell.column
            &&& 1 <= cell.row_span
            &&& 1 <= cell.column_span
            &&& cell.row + cell.row_span <= r + 1
            &&& cell.column + cell.column_span <= width
            &&& cell.row == r ==> cell.column + cell.column_span <= c + 1
        } by {
            if k < l.cells.len() {
                assert(l.cells[k] == n.cells[k]);
            }
        }
        assert forall|i: int, j: int|
            0 <= i < r && 0 <= j < width implies #[trigger] n.done[i][j] is Some && (
            n.done[i][j]->0 as int) < n.cells.len() && in_rect(
                n.cells[n.done[i][j]->0 as int],
                i,
                j,
            ) by {
            assert(l.done[i][j] == n.done[i][j]);
            let p = l.done[i][j]->0 as int;
            assert(l.cells[p] == n.cells[p]);
        }
        assert forall|j: int| 0 <= j < c + 1 implies #[trigger] n.cur[j] is Some && (
        n.cur[j]->0 as int) < n.cells.len() && in_rect(n.cells[n.cur[j]->0 as int], r, j) by {
            if j < c {
                assert(l.cur[j] == n.cur[j]);
                let p = l.cur[j]->0 as int;
                assert(l.cells[p] == n.cells[p]);
            }
        }
    }
}

proof fn lemma_finish_laid(l: Layout, width: int, r: int)
    requires
        laid(l, width, r, width),
    ensures
        laid(Layout { cells: l.cells, done: l.done.push(l.cur), cur: Seq::empty() }, width, r + 1, 0),
{
    let n = Layout { cells: l.cells, done: l.done.push(l.cur), cur: Seq::empty() };
    assert(r * width + width == (r + 1) * width) by (nonlinear_arith);
    assert forall|i: int, j: int|
        0 <= i < r + 1 && 0 <= j < width implies #[trigger] n.done[i][j] is Some && (
        n.done[i][j]->0 as int) < n.cells.len() && in_rect(n.cells[n.done[i][j]->0 as int], i, j) by {
        if i < r {
            assert(n.done[i] == l.done[i]);
        } else {
            assert(n.done[i] == l.cur);
            assert(l.cur[j] == n.done[i][j]);
        }
    }
}


// ---------------------------------------------------------------------------
// Layout, overlap check and HTML.

#[derive(Clone, Copy)]
struct Span {
    row: usize,
    column: usize,
    row_span: usize,
    column_span: usize,
}

spec fn cell_of(s: Span, text: Seq<char>) -> CellView {
    CellView {
        row: s.row as int,
        column: s.column as int,
        row_span: s.row_span as int,
        column_span: s.column_span as int,
        text,
    }
}

spec fn cells_of(spans: Seq<Span>, texts: Seq<Vec<char>>) -> Seq<CellView> {
    Seq::new(spans.len(), |i: int| cell_of(spans[i], texts[i]@))
}

spec fn owners_of(done: Seq<Vec<Option<usize>>>) -> Seq<Seq<Option<usize>>> {
    done.map_values(|v: Vec<Option<usize>>| v@)
}

spec fn layout_of(
    spans: Seq<Span>,
    texts: Seq<Vec<char>>,
    done: Seq<Vec<Option<usize>>>,
    cur: Seq<Option<usize>>,
) -> Layout {
    Layout { cells: cells_of(spans, texts), done: owners_of(done), cur }
}

proof fn lemma_count_bound(r: int, c: int, width: int, n: int)
    requires
        0 <= r < n,
        0 <= c < width,
        width * n <= 10000,
    ensures
        r * width + c < 10000,
{
    assert(r * width + c < (r + 1) * width) by (nonlinear_arith)
        requires
            0 <= c < width,
    ;
    assert((r + 1) * width <= n * width) by (nonlinear_arith)
        requires
            0 <= r < n,
            0 < width,
    ;
}

fn lay_out(rows: &Vec<Vec<Entry>>, width: usize) -> (res: Result<
    (Vec<Span>, Vec<Vec<char>>, Vec<Vec<Option<usize>>>),
    String,
>)
    requires
        rows.len() > 0,
        width > 0,
        uniform(rows_view(rows@), width as int),
        width * rows.len() <= 10000,
        no_breaks(rows_view(rows@)),
    ensures
        match res {
            Ok((spans, texts, done)) => texts.len() == spans.len() && lay_from(
                rows_view(rows@),
                width as int,
                0,
                0,
                empty_layout(),
            ) == Ok::<Layout, Seq<char>>(layout_of(spans@, texts@, done@, Seq::empty()))
                && laid(layout_of(spans@, texts@, done@, Seq::empty()), width as int, rows.len() as int, 0),
            Err(e) => lay_from(rows_view(rows@), width as int, 0, 0, empty_layout()) == Err::<
                Layout,
                Seq<char>,
            >(e@),
        },
{
    let ghost rv = rows_view(rows@);
    let n = rows.len();
    let mut spans: Vec<Span> = Vec::new();
    let mut texts: Vec<Vec<char>> = Vec::new();
    let mut done: Vec<Vec<Option<usize>>> = Vec::new();
    let mut r: usize = 0;
    assert(layout_of(spans@, texts@, done@, Seq::empty()) =~= empty_layout());
    while r < n
        invariant
            rv == rows_view(rows@),
            n == rows.len(),
            0 < width,
            uniform(rv, width as int),
            width * n <= 10000,
            no_breaks(rv),
            r <= n,
            texts.len() == spans.len(),
            lay_from(rv, width as int, 0, 0, empty_layout()) == lay_from(
                rv,
                width as int,
                r as int,
                0,
                layout_of(spans@, texts@, done@, Seq::empty()),
            ),
            laid(layout_of(spans@, texts@, done@, Seq::empty()), width as int, r as int, 0),
        decreases n - r,
    {
        let mut cur: Vec<Option<usize>> = Vec::new();
        let mut c: usize = 0;
        assert(rows@[r as int]@.len() == width) by {
            assert(rv[r as int].len() == width);
        }
        while c < width
            invariant
                rv == rows_view(rows@),
                n == rows.len(),
                0 < width,
                uniform(rv, width as int),
                width * n <= 10000,
                no_breaks(rv),
                r < n,
                c <= width,
                rows@[r as int]@.len() == width,
                texts.len() == spans.len(),
                lay_from(rv, width as int, 0, 0, empty_layout()) == lay_from(
                    rv,
                    width as int,
                    r as int,
                    c as int,
                    layout_of(spans@, texts@, done@, cur@),
                ),
                laid(layout_of(spans@, texts@, done@, cur@), width as int, r as int, c as int),
            decreases width - c,
        {
            let ghost l = layout_of(spans@, texts@, done@, cur@);
            let e = &rows[r][c];
            let ghost ev = rv[r as int][c as int];
            assert(ev == e@);
            assert(ev.0 != Token::Break);
            proof {
                lemma_count_bound(r as int, c as int, width as int, n as int);
            }
            match e.tag {
                Token::Left => {
                    if c == 0 {
                        return Err(text("tableHMerge"));
                    }
                    assert(l.cur[c - 1] is Some);
                    let o = match cur[c - 1] {
                        Some(o) => o,
                        None => {
                            return Err(text("tableHMerge"));
                        },
                    };
                    assert(l.cells[o as int] == cell_of(spans@[o as int], texts@[o as int]@));
                    if spans[o].row != r {
                        return Err(text("tableHPosition"));
                    }
                    assert(in_rect(l.cells[o as int], r as int, c - 1));
                    let mut sp = spans[o];
                    sp.column_span = c - sp.column + 1;
                    spans.set(o, sp);
                    cur.push(Some(o));
                },
                Token::Up => {
                    if r == 0 {
                        return Err(text("tableVMerge"));
                    }
                    assert(l.done[r - 1][c as int] is Some);
                    assert(done@[r - 1]@.len() == width);
                    let o = match done[r - 1][c] {
                        Some(o) => o,
                        None => {
                            return Err(text("tableVMerge"));
                        },
                    };
                    assert(l.cells[o as int] == cell_of(spans@[o as int], texts@[o as int]@));
                    if spans[o].column != c {
                        return Err(text("tableVPosition"));
                    }
                    assert(in_rect(l.cells[o as int], r - 1, c as int));
                    let mut sp = spans[o];
                    sp.row_span = r - sp.row + 1;
                    spans.set(o, sp);
                    cur.push(Some(o));
                },
                Token::Cross => {
                    let left = if c > 0 {
                        cur[c - 1]
                    } else {
                        None
                    };
                    let above = if r > 0 {
                        assert(done@[r - 1]@.len() == width);
                        done[r - 1][c]
                    } else {
                        None
                    };
                    let same = match (left, above) {
                        (Some(x), Some(y)) => x == y,
                        _ => false,
                    };
                    if !same {
                        return Err(text("tableCrossMerge"));
                    }
                    cur.push(left);
                },
                _ => {
                    let k = spans.len();
                    spans.push(Span { row: r, column: c, row_span: 1, column_span: 1 });
                    texts.push(copy_range(&e.text, 0, e.text.len()));
                    assert(e.text@.subrange(0, e.text@.len() as int) =~= e.text@);
                    cur.push(Some(k));
                },
            }
            proof {
                assert(place(l, r as int, c as int, ev) is Ok);
                let next = place(l, r as int, c as int, ev)->Ok_0;
                assert(layout_of(spans@, texts@, done@, cur@).cells =~= next.cells);
                assert(layout_of(spans@, texts@, done@, cur@) =~= next);
                lemma_place_laid(l, width as int, r as int, c as int, ev);
            }
            c += 1;
        }
        proof {
            let l = layout_of(spans@, texts@, done@, cur@);
            lemma_finish_laid(l, width as int, r as int);
        }
        let ghost before = done@;
        done.push(cur);
        assert(owners_of(done@) =~= owners_of(before).push(done@.last()@));
        assert(layout_of(spans@, texts@, done@, Seq::empty()) =~= Layout {
            cells: cells_of(spans@, texts@),
            done: owners_of(before).push(done@.last()@),
            cur: Seq::empty(),
        });
        r += 1;
    }
    Ok((spans, texts, done))
}


fn all_spans_owned(
    spans: &Vec<Span>,
    texts: &Vec<Vec<char>>,
    done: &Vec<Vec<Option<usize>>>,
    n: usize,
    width: usize,
) -> (ok: bool)
    requires
        texts.len() == spans.len(),
        laid(layout_of(spans@, texts@, done@, Seq::empty()), width as int, n as int, 0),
    ensures
        ok == spans_owned(layout_of(spans@, texts@, done@, Seq::empty()), width as int),
{
    let ghost l = layout_of(spans@, texts@, done@, Seq::empty());
    let mut i: usize = 0;
    while i < spans.len()
        invariant
            texts.len() == spans.len(),
            l == layout_of(spans@, texts@, done@, Seq::empty()),
            laid(l, width as int, n as int, 0),
            i <= spans.len(),
            forall|k: int, r: int, c: int|
                #![trigger in_rect(l.cells[k], r, c)]
                0 <= k < i && 0 <= r < l.done.len() && 0 <= c < width && in_rect(l.cells[k], r, c)
                    ==> l.done[r][c] == Some(k as usize),
        decreases spans.len() - i,
    {
        let sp = spans[i];
        assert(l.cells[i as int] == cell_of(sp, texts@[i as int]@));
        let mut r = sp.row;
        while r < sp.row + sp.row_span
            invariant
                texts.len() == spans.len(),
                l == layout_of(spans@, texts@, done@, Seq::empty()),
                laid(l, width as int, n as int, 0),
                i < spans.len(),
                sp == spans@[i as int],
                l.cells[i as int] == cell_of(sp, texts@[i as int]@),
                sp.row <= r <= sp.row + sp.row_span,
                forall|k: int, rr: int, c: int|
                    #![trigger in_rect(l.cells[k], rr, c)]
                    0 <= k < i && 0 <= rr < l.done.len() && 0 <= c < width && in_rect(
                        l.cells[k],
                        rr,
                        c,
                    ) ==> l.done[rr][c] == Some(k as usize),
                forall|rr: int, c: int|
                    #![trigger in_rect(l.cells[i as int], rr, c)]
                    0 <= rr < r && 0 <= c < width && in_rect(l.cells[i as int], rr, c) ==> l.done[rr][c]
                        == Some(i as usize),
            decreases sp.row + sp.row_span - r,
        {
            assert(done@[r as int]@ == l.done[r as int]);
            let mut c = sp.column;
            while c < sp.column + sp.column_span
                invariant
                    texts.len() == spans.len(),
                    l == layout_of(spans@, texts@, done@, Seq::empty()),
                    laid(l, width as int, n as int, 0),
                    i < spans.len(),
                    sp == spans@[i as int],
                    l.cells[i as int] == cell_of(sp, texts@[i as int]@),
                    sp.row <= r < sp.row + sp.row_span,
                    r < n,
                    done@[r as int]@ == l.done[r as int],
                    sp.column <= c <= sp.column + sp.column_span,
                    forall|k: int, rr: int, cc: int|
                        #![trigger in_rect(l.cells[k], rr, cc)]
                        0 <= k < i && 0 <= rr < l.done.len() && 0 <= cc < width && in_rect(
                            l.cells[k],
                            rr,
                            cc,
                        ) ==> l.done[rr][cc] == Some(k as usize),
                    forall|rr: int, cc: int|
                        #![trigger in_rect(l.cells[i as int], rr, cc)]
                        0 <= rr < r && 0 <= cc < width && in_rect(l.cells[i as int], rr, cc)
                            ==> l.done[rr][cc] == Some(i as usize),
                    forall|cc: int|
                        #![trigger in_rect(l.cells[i as int], r as int, cc)]
                        0 <= cc < c && in_rect(l.cells[i as int], r as int, cc) ==> l.done[r as int][cc]
                            == Some(i as usize),
                decreases sp.column + sp.column_span - c,
            {
                let owner = done[r][c];
                let hit = match owner {
                    Some(o) => o == i,
                    None => false,
                };
                if !hit {
                    assert(in_rect(l.cells[i as int], r as int, c as int));
                    return false;
                }
                c += 1;
            }
            r += 1;
        }
        i += 1;
    }
    true
}

fn push_td(s: &mut String, sp: Span, t: &Vec<char>)
    ensures
        final(s)@ == old(s)@ + td(cell_of(sp, t@)),
{
    s.append("<td rowspan=\"");
    push_decimal(s, sp.row_span as u64);
    s.append("\" colspan=\"");
    push_decimal(s, sp.column_span as u64);
    s.append("\">");
    push_escaped(s, t);
    s.append("</td>");
    assert(s@ =~= old(s)@ + td(cell_of(sp, t@)));
}

fn render_rows(spans: &Vec<Span>, texts: &Vec<Vec<char>>, n: usize) -> (html: String)
    requires
        texts.len() == spans.len(),
    ensures
        html@ == table_html(cells_of(spans@, texts@), n as int),
{
    let ghost cells = cells_of(spans@, texts@);
    let mut html = String::new();
    html.append("<table>\n");
    let mut r: usize = 0;
    while r < n
        invariant
            texts.len() == spans.len(),
            cells == cells_of(spans@, texts@),
            r <= n,
            html@ == "<table>\n"@ + table_rows(cells, r as int),
        decreases n - r,
    {
        let ghost start = html@;
        html.append("<tr>");
        let mut i: usize = 0;
        while i < spans.len()
            invariant
                texts.len() == spans.len(),
                cells == cells_of(spans@, texts@),
                r < n,
                i <= spans.len(),
                html@ == start + "<tr>"@ + row_cells(cells.take(i as int), r as int),
            decreases spans.len() - i,
        {
            assert(cells.take(i + 1).drop_last() =~= cells.take(i as int));
            assert(cells.take(i + 1).last() == cell_of(spans@[i as int], texts@[i as int]@));
            if spans[i].row == r {
                push_td(&mut html, spans[i], &texts[i]);
            }
            assert(html@ =~= start + "<tr>"@ + row_cells(cells.take(i + 1), r as int));
            i += 1;
        }
        assert(cells.take(spans.len() as int) =~= cells);
        html.append("</tr>\n");
        assert(html@ =~= "<table>\n"@ + table_rows(cells, r + 1));
        r += 1;
    }
    html.append("</table>");
    html
}

/// Decodes the model's native table serialization; no extra OCR or inferred geometry.
pub fn otsl_html(raw: &str) -> (r: Result<String, String>)
    ensures
        match r {
            Ok(html) => otsl(raw@) == Ok::<Seq<char>, Seq<char>>(html@),
            Err(e) => otsl(raw@) == Err::<Seq<char>, Seq<char>>(e@),
        },
{
    let all = chars_of(raw);
    let (a, b) = trim_bounds(&all, 0, all.len());
    assert(all@.subrange(0, all@.len() as int) =~= raw@);
    let t = copy_range(&all, a, b);
    let rows = match read_entries(&t) {
        Ok(rows) => rows,
        Err(e) => {
            return Err(e);
        },
    };
    let ghost rv = rows_view(rows@);
    if rows.len() == 0 {
        return Err(text("tableEmpty"));
    }
    let width = rows[0].len();
    assert(rv[0].len() == width);
    assert(t@ == trim(raw@));
    assert(read_rows(trim(raw@), 0, Seq::empty(), Seq::empty()) == Ok::<Seq<Seq<EntryView>>, Seq<char>>(rv));
    if width == 0 {
        return Err(text("tableIncomplete"));
    }
    let mut i: usize = 0;
    while i < rows.len()
        invariant
            rv == rows_view(rows@),
            read_rows(trim(raw@), 0, Seq::empty(), Seq::empty()) == Ok::<Seq<Seq<EntryView>>, Seq<char>>(rv),
            rows.len() > 0,
            width == rv[0].len(),
            width > 0,
            i <= rows.len(),
            forall|j: int| 0 <= j < i ==> #[trigger] rv[j].len() == width,
        decreases rows.len() - i,
    {
        assert(rv[i as int].len() == rows@[i as int]@.len());
        if rows[i].len() != width {
            assert(!uniform(rv, width as int));
            return Err(text("tableIncomplete"));
        }
        i += 1;
    }
    assert(uniform(rv, width as int));
    let too_many = match width.checked_mul(rows.len()) {
        Some(p) => p > 10000,
        None => true,
    };
    if too_many {
        return Err(text("tableIncomplete"));
    }
    let (spans, texts, done) = match lay_out(&rows, width) {
        Ok(x) => x,
        Err(e) => {
            return Err(e);
        },
    };
    if !all_spans_owned(&spans, &texts, &done, rows.len(), width) {
        return Err(text("tableOverlap"));
    }
    Ok(render_rows(&spans, &texts, rows.len()))
}

/// Whether an OTSL token occurs anywhere in `s`.
pub open spec fn has_token(s: Seq<char>) -> bool {
    exists|i: int| 0 <= i < s.len() && #[trigger] tag_at(s, i) is Some
}

/// The fenced block that keeps an undecodable table response visible.
pub open spec fn fenced(raw: Seq<char>) -> Seq<char> {
    "~~~text\n"@ + raw + "\n~~~"@
}

/// Table output is decoded to HTML; on failure the raw text stays visible in a
/// fenced block with the error as a warning. Other modes pass through unchanged.
pub fn normalize(raw: &str, mode: &str) -> (r: (String, Option<String>))
    ensures
        mode@ == "table"@ && has_token(raw@) ==> match otsl(raw@) {
            Ok(html) => r.0@ == html && r.1 is None,
            Err(e) => r.0@ == fenced(raw@) && r.1 is Some && r.1->0@ == e,
        },
        !(mode@ == "table"@ && has_token(raw@)) ==> r.0@ == raw@ && r.1 is None,
{
    let is_table = same_chars(&chars_of(mode), &chars_of("table"));
    let v = chars_of(raw);
    let found = find_next_tag(&v, 0) < v.len();
    proof {
        lemma_next_tag(v@, 0);
        if has_token(raw@) {
            let i = choose|i: int| 0 <= i < raw@.len() && #[trigger] tag_at(raw@, i) is Some;
            lemma_next_tag_first(v@, 0, i);
        }
    }
    if is_table && found {
        match otsl_html(raw) {
            Ok(html) => (html, None),
            Err(e) => {
                let mut fence = String::new();
                fence.append("~~~text\n");
                fence.append(raw);
                fence.append("\n~~~");
                (fence, Some(e))
            },
        }
    } else {
        (raw.to_string(), None)
    }
}

proof fn lemma_next_tag_first(s: Seq<char>, i: int, k: int)
    requires
        0 <= i <= k < s.len(),
        tag_at(s, k) is Some,
    ensures
        next_tag(s, i) <= k,
    decreases k - i,
{
    if tag_at(s, i) is None {
        lemma_next_tag_first(s, i + 1, k);
    }
}


// ---------------------------------------------------------------------------
// Laws.

/// The rows that a decodable response reads as.
pub open spec fn otsl_rows(raw: Seq<char>) -> Seq<Seq<EntryView>> {
    read_rows(trim(raw), 0, Seq::empty(), Seq::empty())->Ok_0
}

/// The cells that a decodable response lays out.
pub open spec fn otsl_cells(raw: Seq<char>) -> Seq<CellView> {
    lay_from(otsl_rows(raw), otsl_rows(raw)[0].len() as int, 0, 0, empty_layout())->Ok_0.cells
}

proof fn lemma_read_rows_no_breaks(
    t: Seq<char>,
    pos: int,
    row: Seq<EntryView>,
    rows: Seq<Seq<EntryView>>,
)
    requires
        no_breaks(rows),
        forall|c: int| 0 <= c < row.len() ==> #[trigger] row[c].0 != Token::Break,
        read_rows(t, pos, row, rows) is Ok,
    ensures
        no_breaks(read_rows(t, pos, row, rows)->Ok_0),
    decreases t.len() - pos,
{
    if pos < 0 || pos >= t.len() {
    } else {
        let tag = tag_at(t, pos)->0;
        let after = pos + tag_len(tag);
        let end = next_tag(t, after);
        lemma_next_tag(t, after);
        let value = trim(t.subrange(after, end));
        if tag == Token::Break {
            let next_rows = if row.len() > 0 {
                rows.push(row)
            } else {
                rows
            };
            lemma_read_rows_no_breaks(t, end, Seq::empty(), next_rows);
        } else {
            let next = row.push((tag, value));
            assert forall|c: int| 0 <= c < next.len() implies #[trigger] next[c].0 != Token::Break by {
                if c < row.len() {
                    assert(next[c] == row[c]);
                }
            }
            lemma_read_rows_no_breaks(t, end, next, rows);
        }
    }
}

proof fn lemma_lay_from_laid(rows: Seq<Seq<EntryView>>, width: int, r: int, c: int, l: Layout)
    requires
        laid(l, width, r, c),
        r <= rows.len(),
        r == rows.len() ==> c == 0,
        width > 0,
        uniform(rows, width),
        no_breaks(rows),
        width * rows.len() <= 10000,
        lay_from(rows, width, r, c, l) is Ok,
    ensures
        laid(lay_from(rows, width, r, c, l)->Ok_0, width, rows.len() as int, 0),
    decreases rows.len() - r, width - c,
{
    if r >= rows.len() {
    } else if c < width {
        lemma_count_bound(r, c, width, rows.len() as int);
        assert(rows[r].len() == width);
        lemma_place_laid(l, width, r, c, rows[r][c]);
        lemma_lay_from_laid(rows, width, r, c + 1, place(l, r, c, rows[r][c])->Ok_0);
    } else {
        lemma_finish_laid(l, width, r);
        lemma_lay_from_laid(
            rows,
            width,
            r + 1,
            0,
            Layout { cells: l.cells, done: l.done.push(l.cur), cur: Seq::empty() },
        );
    }
}

/// Whether some cell spans `(r, c)`.
pub open spec fn covered(cells: Seq<CellView>, r: int, c: int) -> bool {
    exists|i: int| 0 <= i < cells.len() && #[trigger] in_rect(cells[i], r, c)
}

/// The cells of a decoded table tile its grid: every cell spans at least one row and
/// one column inside the grid, every grid position lies in some cell, and no position
/// lies in two cells.
pub proof fn lemma_decoded_cells_tile_the_grid(raw: Seq<char>)
    requires
        otsl(raw) is Ok,
    ensures
        forall|i: int|
            0 <= i < otsl_cells(raw).len() ==> {
                let cell = #[trigger] otsl_cells(raw)[i];
                &&& 0 <= cell.row
                &&& 1 <= cell.row_span
                &&& cell.row + cell.row_span <= otsl_rows(raw).len()
                &&& 0 <= cell.column
                &&& 1 <= cell.column_span
                &&& cell.column + cell.column_span <= otsl_rows(raw)[0].len()
            },
        forall|r: int, c: int|
            0 <= r < otsl_rows(raw).len() && 0 <= c < otsl_rows(raw)[0].len() ==> #[trigger] covered(
                otsl_cells(raw),
                r,
                c,
            ),
        forall|i: int, j: int, r: int, c: int|
            0 <= i < otsl_cells(raw).len() && 0 <= j < otsl_cells(raw).len() && #[trigger] in_rect(
                otsl_cells(raw)[i],
                r,
                c,
            ) && #[trigger] in_rect(otsl_cells(raw)[j], r, c) ==> i == j,
{
    let rows = otsl_rows(raw);
    let width = rows[0].len() as int;
    let l = lay_from(rows, width, 0, 0, empty_layout())->Ok_0;
    lemma_read_rows_no_breaks(trim(raw), 0, Seq::empty(), Seq::empty());
    lemma_lay_from_laid(rows, width, 0, 0, empty_layout());
    assert(spans_owned(l, width));
    assert forall|r: int, c: int| 0 <= r < rows.len() && 0 <= c < width implies #[trigger] covered(
        l.cells,
        r,
        c,
    ) by {
        assert(l.done[r][c] is Some);
        let o = l.done[r][c]->0 as int;
        assert(in_rect(l.cells[o], r, c));
    }
    assert forall|i: int, j: int, r: int, c: int|
        0 <= i < l.cells.len() && 0 <= j < l.cells.len() && #[trigger] in_rect(l.cells[i], r, c)
            && #[trigger] in_rect(l.cells[j], r, c) implies i == j by {
        let cell = l.cells[i];
        assert(0 <= cell.row && cell.row + cell.row_span <= rows.len());
        assert(0 <= cell.column && cell.column + cell.column_span <= width);
        assert(l.done[r][c] == Some(i as usize));
        assert(l.done[r][c] == Some(j as usize));
    }
}

/// Escaped text holds no `<`, `>` or `"`, so it cannot open or close markup.
pub proof fn lemma_escaped_text_has_no_markup(s: Seq<char>)
    ensures
        forall|i: int|
            0 <= i < escape_text(s).len() ==> #[trigger] escape_text(s)[i] != '<' && escape_text(s)[i]
                != '>' && escape_text(s)[i] != '"',
    decreases s.len(),
{
    reveal_strlit("&amp;");
    reveal_strlit("&lt;");
    reveal_strlit("&gt;");
    reveal_strlit("&quot;");
    if s.len() > 0 {
        lemma_escaped_text_has_no_markup(s.drop_last());
        let prefix = escape_text(s.drop_last());
        let tail = escape_char(s.last());
        assert forall|i: int| 0 <= i < escape_text(s).len() implies #[trigger] escape_text(s)[i] != '<'
            && escape_text(s)[i] != '>' && escape_text(s)[i] != '"' by {
            if i < prefix.len() {
                assert(escape_text(s)[i] == prefix[i]);
            } else {
                assert(escape_text(s)[i] == tail[i - prefix.len()]);
            }
        }
    }
}


// ---------------------------------------------------------------------------
// Cells of an HTML table.

/// A `td` or `th` element of an HTML table row: its text and its span attributes.
pub struct HtmlCell {
    pub text: String,
    pub rowspan: Option<String>,
    pub colspan: Option<String>,
}

/// An HTML table cell as values.
pub struct HtmlCellView {
    pub text: Seq<char>,
    pub rowspan: Option<Seq<char>>,
    pub colspan: Option<Seq<char>>,
}

impl View for HtmlCell {
    type V = HtmlCellView;

    open spec fn view(&self) -> HtmlCellView {
        HtmlCellView {
            text: self.text@,
            rowspan: crate::download::opt_view(self.rowspan),
            colspan: crate::download::opt_view(self.colspan),
        }
    }
}

/// The rows of HTML cells as values.
pub open spec fn html_rows_view(rows: Seq<Vec<HtmlCell>>) -> Seq<Seq<HtmlCellView>> {
    rows.map_values(|r: Vec<HtmlCell>| r@.map_values(|c: HtmlCell| c@))
}

/// The `tr` rows, each with its `td`/`th` cells, of the first `table` element that the
/// HTML5 parser of `scraper` finds in a fragment; `None` when there is no table.
pub uninterp spec fn html_table(html: Seq<char>) -> Option<Seq<Seq<HtmlCellView>>>;

/// Parses an HTML fragment with `scraper` and reads its first table: every `tr` below
/// it, and in each the `td` and `th` elements below that row, with their text and their
/// `rowspan` and `colspan` attributes.
#[verifier::external_body]
fn read_html_table(html: &str) -> (r: Option<Vec<Vec<HtmlCell>>>)
    ensures
        match r {
            Some(rows) => html_table(html@) == Some(html_rows_view(rows@)),
            None => html_table(html@) is None,
        },
{
    let fragment = scraper::Html::parse_fragment(html);
    let table = fragment.select(&scraper::Selector::parse("table").unwrap()).next()?;
    let row_selector = scraper::Selector::parse("tr").unwrap();
    let cell_selector = scraper::Selector::parse("td,th").unwrap();
    Some(table.select(&row_selector).map(|row| row.select(&cell_selector).map(|e| HtmlCell {
        text: e.text().collect(),
        rowspan: e.value().attr("rowspan").map(str::to_string),
        colspan: e.value().attr("colspan").map(str::to_string),
    }).collect()).collect())
}

/// A span attribute: its `usize` value clamped to `1..=100`, or 1 when absent or unreadable.
pub open spec fn span_of(attr: Option<Seq<char>>) -> int {
    match attr {
        None => 1,
        Some(t) => match crate::strings::parse_u64(t) {
            Err(_) => 1,
            Ok(v) => if v > usize::MAX {
                1
            } else if v < 1 {
                1
            } else if v > 100 {
                100
            } else {
                v as int
            },
        },
    }
}

fn span_value(attr: &Option<String>) -> (r: usize)
    ensures
        r == span_of(crate::download::opt_view(*attr)),
        1 <= r <= 100,
{
    match attr {
        None => 1,
        Some(t) => {
            let v = chars_of(t.as_str());
            assert(v@.subrange(0, v@.len() as int) =~= v@);
            match crate::strings::parse_u64_range(&v, 0, v.len()) {
                Err(_) => 1,
                Ok(n) => if n > usize::MAX as u64 {
                    1
                } else if n < 1 {
                    1
                } else if n > 100 {
                    100
                } else {
                    n as usize
                },
            }
        },
    }
}

/// The grid being filled: the text at each position, which positions are taken, and
/// the cells so far.
#[verifier::ext_equal]
pub struct Grid {
    pub rows: Seq<Seq<Seq<char>>>,
    pub taken: Seq<Seq<bool>>,
    pub cells: Seq<CellView>,
}

/// At least `n` rows.
pub open spec fn pad_rows(g: Grid, n: int) -> Grid {
    if g.rows.len() >= n {
        g
    } else {
        Grid {
            rows: g.rows + Seq::new((n - g.rows.len()) as nat, |i: int| Seq::<Seq<char>>::empty()),
            taken: g.taken + Seq::new((n - g.taken.len()) as nat, |i: int| Seq::<bool>::empty()),
            cells: g.cells,
        }
    }
}

/// A row of texts with at least `n` entries, new ones empty.
pub open spec fn widen(row: Seq<Seq<char>>, n: int) -> Seq<Seq<char>> {
    if row.len() >= n {
        row
    } else {
        row + Seq::new((n - row.len()) as nat, |i: int| Seq::<char>::empty())
    }
}

/// A row of flags with at least `n` entries, new ones false, and `c..n` set.
pub open spec fn take_span(row: Seq<bool>, c: int, n: int) -> Seq<bool> {
    let wide = if row.len() >= n {
        row
    } else {
        row + Seq::new((n - row.len()) as nat, |i: int| false)
    };
    Seq::new(wide.len(), |x: int| if c <= x < n { true } else { wide[x] })
}

/// The grid after a cell with `text` takes `rs` rows and `cs` columns from `(r, c)`.
pub open spec fn occupy(g: Grid, r: int, c: int, rs: int, cs: int, text: Seq<char>) -> Grid {
    let p = pad_rows(g, r + rs);
    let rows = Seq::new(
        p.rows.len(),
        |y: int| if r <= y < r + rs { widen(p.rows[y], c + cs) } else { p.rows[y] },
    );
    Grid {
        rows: rows.update(r, rows[r].update(c, text)),
        taken: Seq::new(
            p.taken.len(),
            |y: int| if r <= y < r + rs { take_span(p.taken[y], c, c + cs) } else { p.taken[y] },
        ),
        cells: g.cells.push(CellView { row: r, column: c, row_span: rs, column_span: cs, text }),
    }
}

/// The first column at or after `c` that is not taken in a row.
pub open spec fn free_from(row: Seq<bool>, c: int) -> int
    decreases row.len() - c,
{
    if 0 <= c < row.len() && row[c] {
        free_from(row, c + 1)
    } else {
        c
    }
}

/// The grid after placing the cells `j..` of row `r`, the next one not before column `c`;
/// `None` when a cell would reach past 10000 positions.
pub open spec fn place_cells(g: Grid, r: int, cells: Seq<HtmlCellView>, j: int, c: int) -> Option<Grid>
    decreases cells.len() - j,
{
    if j >= cells.len() || j < 0 {
        Some(g)
    } else {
        let at = free_from(g.taken[r], c);
        let rs = span_of(cells[j].rowspan);
        let cs = span_of(cells[j].colspan);
        if (r + rs) * (at + cs) > 10000 {
            None
        } else {
            place_cells(occupy(g, r, at, rs, cs, cells[j].text), r, cells, j + 1, at + cs)
        }
    }
}

/// The grid after placing the rows `r..`; `None` from the 1000th row on.
pub open spec fn place_rows(g: Grid, rows: Seq<Seq<HtmlCellView>>, r: int) -> Option<Grid>
    decreases rows.len() - r,
{
    if r >= rows.len() || r < 0 {
        Some(g)
    } else if r >= 1000 {
        None
    } else {
        match place_cells(pad_rows(g, r + 1), r, rows[r], 0, 0) {
            None => None,
            Some(next) => place_rows(next, rows, r + 1),
        }
    }
}

/// The texts by grid position and the cells of the first table of an HTML fragment.
pub open spec fn html_grid(html: Seq<char>) -> Option<(Seq<Seq<Seq<char>>>, Seq<CellView>)> {
    match html_table(html) {
        None => None,
        Some(rows) => match place_rows(
            Grid { rows: Seq::empty(), taken: Seq::empty(), cells: Seq::empty() },
            rows,
            0,
        ) {
            None => None,
            Some(g) => Some((g.rows, g.cells)),
        },
    }
}

/// Every position of every placed cell is marked taken.
spec fn all_taken(g: Grid) -> bool {
    forall|k: int, y: int, x: int|
        0 <= k < g.cells.len() && #[trigger] in_rect(g.cells[k], y, x) ==> 0 <= y < g.taken.len()
            && 0 <= x < g.taken[y].len() && g.taken[y][x]
}

/// No cell is anchored inside the rectangle of a cell placed before it.
pub open spec fn anchors_free(cells: Seq<CellView>) -> bool {
    forall|i: int, j: int|
        0 <= i < j < cells.len() ==> !#[trigger] in_rect(cells[i], cells[j].row, cells[j].column)
}

spec fn placed_well(g: Grid) -> bool {
    g.rows.len() == g.taken.len() && all_taken(g) && anchors_free(g.cells)
}

proof fn lemma_span_positive(attr: Option<Seq<char>>)
    ensures
        1 <= span_of(attr) <= 100,
{
}

proof fn lemma_free_from(row: Seq<bool>, c: int)
    requires
        0 <= c,
    ensures
        free_from(row, c) >= c,
        free_from(row, c) < row.len() ==> !row[free_from(row, c)],
    decreases row.len() - c,
{
    if 0 <= c < row.len() && row[c] {
        lemma_free_from(row, c + 1);
    }
}

proof fn lemma_pad_placed_well(g: Grid, n: int)
    requires
        placed_well(g),
    ensures
        placed_well(pad_rows(g, n)),
        pad_rows(g, n).cells == g.cells,
        pad_rows(g, n).taken.len() >= g.taken.len(),
        pad_rows(g, n).taken.len() >= n,
        forall|y: int| 0 <= y < g.taken.len() ==> #[trigger] pad_rows(g, n).taken[y] == g.taken[y],
{
    let p = pad_rows(g, n);
    if g.rows.len() < n {
        assert forall|k: int, y: int, x: int|
            0 <= k < p.cells.len() && #[trigger] in_rect(p.cells[k], y, x) implies 0 <= y
            < p.taken.len() && 0 <= x < p.taken[y].len() && p.taken[y][x] by {
            assert(in_rect(g.cells[k], y, x));
            assert(p.taken[y] == g.taken[y]);
        }
    }
}

proof fn lemma_occupy_placed_well(g: Grid, r: int, at: int, rs: int, cs: int, text: Seq<char>)
    requires
        placed_well(g),
        0 <= r < g.taken.len(),
        0 <= at,
        1 <= rs,
        1 <= cs,
        at >= g.taken[r].len() || !g.taken[r][at],
    ensures
        placed_well(occupy(g, r, at, rs, cs, text)),
        occupy(g, r, at, rs, cs, text).taken.len() >= g.taken.len(),
        occupy(g, r, at, rs, cs, text).cells.len() == g.cells.len() + 1,
{
    lemma_pad_placed_well(g, r + rs);
    let p = pad_rows(g, r + rs);
    let n = occupy(g, r, at, rs, cs, text);
    let cell = CellView { row: r, column: at, row_span: rs, column_span: cs, text };
    assert(n.cells == g.cells.push(cell));
    assert forall|k: int, y: int, x: int|
        0 <= k < n.cells.len() && #[trigger] in_rect(n.cells[k], y, x) implies 0 <= y
        < n.taken.len() && 0 <= x < n.taken[y].len() && n.taken[y][x] by {
        if k < g.cells.len() {
            assert(n.cells[k] == g.cells[k]);
            assert(in_rect(g.cells[k], y, x));
            assert(p.taken[y] == g.taken[y]);
            if r <= y < r + rs {
                assert(n.taken[y] == take_span(p.taken[y], at, at + cs));
            } else {
                assert(n.taken[y] == p.taken[y]);
            }
        } else {
            assert(n.cells[k] == cell);
            assert(n.taken[y] == take_span(p.taken[y], at, at + cs));
        }
    }
    assert forall|i: int, j: int|
        0 <= i < j < n.cells.len() implies !#[trigger] in_rect(n.cells[i], n.cells[j].row, n.cells[j].column) by {
        if j < g.cells.len() {
            assert(n.cells[i] == g.cells[i] && n.cells[j] == g.cells[j]);
        } else {
            assert(n.cells[i] == g.cells[i]);
            assert(n.cells[j] == cell);
            if in_rect(g.cells[i], r, at) {
                assert(0 <= at < g.taken[r].len() && g.taken[r][at]);
            }
        }
    }
}

proof fn lemma_place_cells_placed_well(g: Grid, r: int, cells: Seq<HtmlCellView>, j: int, c: int)
    requires
        placed_well(g),
        0 <= r < g.taken.len(),
        0 <= c,
    ensures
        place_cells(g, r, cells, j, c) matches Some(h) ==> placed_well(h),
    decreases cells.len() - j,
{
    if 0 <= j < cells.len() {
        let at = free_from(g.taken[r], c);
        let rs = span_of(cells[j].rowspan);
        let cs = span_of(cells[j].colspan);
        lemma_free_from(g.taken[r], c);
        lemma_span_positive(cells[j].rowspan);
        lemma_span_positive(cells[j].colspan);
        if (r + rs) * (at + cs) <= 10000 {
            lemma_occupy_placed_well(g, r, at, rs, cs, cells[j].text);
            lemma_place_cells_placed_well(occupy(g, r, at, rs, cs, cells[j].text), r, cells, j + 1, at + cs);
        }
    }
}

proof fn lemma_place_rows_placed_well(g: Grid, rows: Seq<Seq<HtmlCellView>>, r: int)
    requires
        placed_well(g),
        0 <= r,
    ensures
        place_rows(g, rows, r) matches Some(h) ==> placed_well(h),
    decreases rows.len() - r,
{
    if r < rows.len() && r < 1000 {
        lemma_pad_placed_well(g, r + 1);
        lemma_place_cells_placed_well(pad_rows(g, r + 1), r, rows[r], 0, 0);
        match place_cells(pad_rows(g, r + 1), r, rows[r], 0, 0) {
            None => {},
            Some(next) => {
                lemma_place_rows_placed_well(next, rows, r + 1);
            },
        }
    }
}

/// Reading an HTML table never anchors a cell inside a cell placed before it: every
/// position that an earlier cell spans, in all of its rows and columns, stays taken,
/// and each later cell goes to a free position of its row.
pub proof fn lemma_html_cells_are_not_anchored_in_earlier_cells(html: Seq<char>)
    requires
        html_grid(html) is Some,
    ensures
        anchors_free(html_grid(html)->Some_0.1),
{
    let rows = html_table(html)->Some_0;
    let empty = Grid { rows: Seq::empty(), taken: Seq::empty(), cells: Seq::empty() };
    lemma_place_rows_placed_well(empty, rows, 0);
}

/// A row of texts as values.
pub open spec fn texts_of(row: Seq<String>) -> Seq<Seq<char>> {
    row.map_values(|s: String| s@)
}

/// Texts by position as values.
pub open spec fn texts_view(rows: Seq<Vec<String>>) -> Seq<Seq<Seq<char>>> {
    rows.map_values(|r: Vec<String>| texts_of(r@))
}

/// Flags by position as values.
pub open spec fn flags_view(rows: Seq<Vec<bool>>) -> Seq<Seq<bool>> {
    rows.map_values(|r: Vec<bool>| r@)
}

/// Cells as values.
pub open spec fn cells_view(cells: Seq<Cell>) -> Seq<CellView> {
    cells.map_values(|c: Cell| c@)
}

spec fn grid_of(rows: Seq<Vec<String>>, taken: Seq<Vec<bool>>, cells: Seq<Cell>) -> Grid {
    Grid { rows: texts_view(rows), taken: flags_view(taken), cells: cells_view(cells) }
}

fn pad_exec(rows: &mut Vec<Vec<String>>, taken: &mut Vec<Vec<bool>>, n: usize)
    requires
        old(rows).len() == old(taken).len(),
    ensures
        final(rows).len() == final(taken).len(),
        texts_view(final(rows)@) == pad_rows(grid_of(old(rows)@, old(taken)@, Seq::empty()), n as int).rows,
        flags_view(final(taken)@) == pad_rows(grid_of(old(rows)@, old(taken)@, Seq::empty()), n as int).taken,
{
    let ghost old_rows = rows@;
    let ghost old_taken = taken@;
    let ghost p = pad_rows(grid_of(old_rows, old_taken, Seq::empty()), n as int);
    while rows.len() < n
        invariant
            rows.len() == taken.len(),
            old_rows.len() == old_taken.len(),
            old_rows.len() <= rows.len(),
            rows.len() > old_rows.len() ==> rows.len() <= n,
            forall|y: int| 0 <= y < old_rows.len() ==> #[trigger] rows@[y] == old_rows[y],
            forall|y: int| 0 <= y < old_rows.len() ==> #[trigger] taken@[y] == old_taken[y],
            forall|y: int| old_rows.len() <= y < rows.len() ==> #[trigger] rows@[y]@.len() == 0,
            forall|y: int| old_rows.len() <= y < rows.len() ==> #[trigger] taken@[y]@.len() == 0,
        decreases n - rows.len(),
    {
        rows.push(Vec::new());
        taken.push(Vec::new());
    }
    assert forall|y: int| 0 <= y < rows.len() implies #[trigger] texts_view(rows@)[y] =~= p.rows[y] by {
        if y >= old_rows.len() {
            assert(texts_of(rows@[y]@) =~= Seq::<Seq<char>>::empty());
        }
    }
    assert forall|y: int| 0 <= y < taken.len() implies #[trigger] flags_view(taken@)[y] =~= p.taken[y] by {
        if y >= old_rows.len() {
            assert(taken@[y]@ =~= Seq::<bool>::empty());
        }
    }
    assert(texts_view(rows@) =~= p.rows);
    assert(flags_view(taken@) =~= p.taken);
}

fn widen_exec(row: &mut Vec<String>, n: usize)
    ensures
        texts_of(final(row)@) == widen(texts_of(old(row)@), n as int),
{
    let ghost start = row@;
    while row.len() < n
        invariant
            start.len() <= row.len(),
            row.len() > start.len() ==> row.len() <= n,
            forall|x: int| 0 <= x < start.len() ==> #[trigger] row@[x] == start[x],
            forall|x: int| start.len() <= x < row.len() ==> #[trigger] row@[x]@.len() == 0,
        decreases n - row.len(),
    {
        row.push(String::new());
    }
    let ghost w = widen(texts_of(start), n as int);
    assert forall|x: int| 0 <= x < row.len() implies #[trigger] texts_of(row@)[x] =~= w[x] by {
        if x >= start.len() {
            assert(row@[x]@ =~= Seq::<char>::empty());
        }
    }
    assert(texts_of(row@) =~= w);
}

fn take_exec(flags: &mut Vec<bool>, c: usize, n: usize)
    requires
        c <= n,
    ensures
        final(flags)@ == take_span(old(flags)@, c as int, n as int),
{
    let ghost start = flags@;
    while flags.len() < n
        invariant
            start.len() <= flags.len(),
            flags.len() > start.len() ==> flags.len() <= n,
            forall|x: int| 0 <= x < start.len() ==> #[trigger] flags@[x] == start[x],
            forall|x: int| start.len() <= x < flags.len() ==> #[trigger] flags@[x] == false,
        decreases n - flags.len(),
    {
        flags.push(false);
    }
    let ghost wide = flags@;
    let mut x = c;
    while x < n
        invariant
            c <= x <= n,
            wide.len() >= n,
            flags@.len() == wide.len(),
            forall|k: int|
                0 <= k < wide.len() ==> #[trigger] flags@[k] == if c <= k < x {
                    true
                } else {
                    wide[k]
                },
        decreases n - x,
    {
        flags.set(x, true);
        x += 1;
    }
    assert(flags@ =~= take_span(start, c as int, n as int));
}

fn occupy_exec(
    rows: &mut Vec<Vec<String>>,
    taken: &mut Vec<Vec<bool>>,
    cells: &mut Vec<Cell>,
    r: usize,
    c: usize,
    rs: usize,
    cs: usize,
    text: &String,
)
    requires
        old(rows).len() == old(taken).len(),
        1 <= rs,
        1 <= cs,
        r + rs <= 10000,
        c + cs <= 10000,
    ensures
        final(rows).len() == final(taken).len(),
        grid_of(final(rows)@, final(taken)@, final(cells)@) == occupy(
            grid_of(old(rows)@, old(taken)@, old(cells)@),
            r as int,
            c as int,
            rs as int,
            cs as int,
            text@,
        ),
{
    let ghost g = grid_of(rows@, taken@, cells@);
    let ghost p = pad_rows(g, r + rs);
    pad_exec(rows, taken, r + rs);
    assert(grid_of(rows@, taken@, cells@).rows == p.rows);
    let ghost padded_rows = rows@;
    let ghost padded_taken = taken@;
    let ghost wide_rows = Seq::new(
        p.rows.len(),
        |y: int| if r <= y < r + rs { widen(p.rows[y], c + cs) } else { p.rows[y] },
    );
    let ghost wide_taken = Seq::new(
        p.taken.len(),
        |y: int| if r <= y < r + rs { take_span(p.taken[y], c as int, c + cs) } else { p.taken[y] },
    );
    let mut y = r;
    while y < r + rs
        invariant
            rows.len() == taken.len(),
            rows.len() == padded_rows.len(),
            taken.len() == padded_taken.len(),
            texts_view(padded_rows) == p.rows,
            flags_view(padded_taken) == p.taken,
            p.rows.len() == rows.len(),
            p.taken.len() == taken.len(),
            wide_rows == Seq::new(
                p.rows.len(),
                |y: int| if r <= y < r + rs { widen(p.rows[y], c + cs) } else { p.rows[y] },
            ),
            wide_taken == Seq::new(
                p.taken.len(),
                |y: int| if r <= y < r + rs { take_span(p.taken[y], c as int, c + cs) } else { p.taken[y] },
            ),
            rows.len() >= r + rs,
            r <= y <= r + rs,
            c + cs <= 10000,
            r + rs <= 10000,
            forall|k: int| 0 <= k < rows.len() && !(r <= k < y) ==> #[trigger] rows@[k] == padded_rows[k],
            forall|k: int| 0 <= k < rows.len() && !(r <= k < y) ==> #[trigger] taken@[k] == padded_taken[k],
            forall|k: int|
                r <= k < y ==> #[trigger] texts_of(rows@[k]@) == wide_rows[k],
            forall|k: int| r <= k < y ==> #[trigger] taken@[k]@ == wide_taken[k],
        decreases r + rs - y,
    {
        let ghost before_rows = rows@;
        let ghost before_taken = taken@;
        assert(texts_view(padded_rows)[y as int] == texts_of(padded_rows[y as int]@));
        widen_exec(&mut rows[y], c + cs);
        take_exec(&mut taken[y], c, c + cs);
        assert forall|k: int| 0 <= k < rows.len() && !(r <= k < y + 1) implies #[trigger] rows@[k]
            == padded_rows[k] by {
            assert(rows@[k] == before_rows[k]);
        }
        assert forall|k: int| 0 <= k < rows.len() && !(r <= k < y + 1) implies #[trigger] taken@[k]
            == padded_taken[k] by {
            assert(taken@[k] == before_taken[k]);
        }
        assert(before_rows[y as int] == padded_rows[y as int]);
        assert(before_taken[y as int] == padded_taken[y as int]);
        assert(texts_of(padded_rows[y as int]@) == p.rows[y as int]);
        assert(flags_view(padded_taken)[y as int] == padded_taken[y as int]@);
        assert(texts_of(rows@[y as int]@) == wide_rows[y as int]);
        assert(taken@[y as int]@ == wide_taken[y as int]);
        assert forall|k: int| r <= k < y + 1 implies #[trigger] texts_of(rows@[k]@)
            == wide_rows[k] by {
            if k < y {
                assert(rows@[k] == before_rows[k]);
            }
        }
        assert forall|k: int| r <= k < y + 1 implies #[trigger] taken@[k]@ == wide_taken[k] by {
            if k < y {
                assert(taken@[k] == before_taken[k]);
            }
        }
        y += 1;
    }
    assert forall|k: int| 0 <= k < rows.len() implies #[trigger] texts_view(rows@)[k] == wide_rows[k] by {
        if !(r <= k < r + rs) {
            assert(rows@[k] == padded_rows[k]);
            assert(texts_view(padded_rows)[k] == p.rows[k]);
        }
    }
    assert forall|k: int| 0 <= k < taken.len() implies #[trigger] flags_view(taken@)[k] == wide_taken[k] by {
        if !(r <= k < r + rs) {
            assert(taken@[k] == padded_taken[k]);
            assert(flags_view(padded_taken)[k] == p.taken[k]);
        }
    }
    assert(texts_view(rows@) =~= wide_rows);
    assert(flags_view(taken@) =~= wide_taken);
    let ghost before_rows = rows@;
    assert(rows@[r as int]@.len() >= c + cs) by {
        assert(texts_view(rows@)[r as int] == wide_rows[r as int]);
        assert(wide_rows[r as int] == widen(p.rows[r as int], c + cs));
        assert(wide_rows[r as int].len() >= c + cs);
        assert(texts_view(rows@)[r as int] == texts_of(rows@[r as int]@));
    }
    rows[r].set(c, text.clone());
    assert forall|k: int| 0 <= k < rows.len() implies #[trigger] texts_view(rows@)[k] =~= wide_rows.update(
        r as int,
        wide_rows[r as int].update(c as int, text@),
    )[k] by {
        if k != r {
            assert(rows@[k] == before_rows[k]);
            assert(texts_view(before_rows)[k] == wide_rows[k]);
        } else {
            assert(texts_view(before_rows)[k] == wide_rows[k]);
        }
    }
    assert(texts_view(rows@) =~= wide_rows.update(r as int, wide_rows[r as int].update(c as int, text@)));
    let ghost before_cells = cells@;
    cells.push(Cell { row: r, column: c, row_span: rs, column_span: cs, text: text.clone() });
    assert(cells_view(cells@) =~= cells_view(before_cells).push(
        CellView { row: r as int, column: c as int, row_span: rs as int, column_span: cs as int, text: text@ },
    ));
    assert(grid_of(rows@, taken@, cells@) =~= occupy(g, r as int, c as int, rs as int, cs as int, text@));
}


/// The rest of the rows after row `r` has been placed.
pub open spec fn after_row(g: Option<Grid>, rows: Seq<Seq<HtmlCellView>>, r: int) -> Option<Grid> {
    match g {
        None => None,
        Some(next) => place_rows(next, rows, r + 1),
    }
}

/// Every row of texts and of flags holds at most 10000 entries.
pub open spec fn narrow(g: Grid) -> bool {
    &&& g.rows.len() == g.taken.len()
    &&& forall|y: int| 0 <= y < g.rows.len() ==> #[trigger] g.rows[y].len() <= 10000
    &&& forall|y: int| 0 <= y < g.taken.len() ==> #[trigger] g.taken[y].len() <= 10000
}

/// The texts by position and the cells of the first table of an HTML fragment, with
/// merged cells spread over the positions they cover (spans are clamped to `1..=100`);
/// `None` without a table or when the table is too large.
pub fn html_cells(html: &str) -> (r: Option<(Vec<Vec<String>>, Vec<Cell>)>)
    ensures
        match r {
            Some((rows, cells)) => html_grid(html@) == Some((texts_view(rows@), cells_view(cells@))),
            None => html_grid(html@) is None,
        },
{
    let table = match read_html_table(html) {
        None => {
            return None;
        },
        Some(t) => t,
    };
    let ghost tv = html_rows_view(table@);
    let mut rows: Vec<Vec<String>> = Vec::new();
    let mut taken: Vec<Vec<bool>> = Vec::new();
    let mut cells: Vec<Cell> = Vec::new();
    let ghost empty = Grid { rows: Seq::empty(), taken: Seq::empty(), cells: Seq::empty() };
    assert(grid_of(rows@, taken@, cells@) =~= empty);
    let mut r: usize = 0;
    while r < table.len()
        invariant
            tv == html_rows_view(table@),
            html_table(html@) == Some(tv),
            empty == (Grid { rows: Seq::empty(), taken: Seq::empty(), cells: Seq::empty() }),
            r <= table.len(),
            rows.len() == taken.len(),
            narrow(grid_of(rows@, taken@, cells@)),
            place_rows(empty, tv, 0) == place_rows(grid_of(rows@, taken@, cells@), tv, r as int),
        decreases table.len() - r,
    {
        if r >= 1000 {
            assert(place_rows(grid_of(rows@, taken@, cells@), tv, r as int) is None);
            assert(html_grid(html@) is None);
            return None;
        }
        let ghost before = grid_of(rows@, taken@, cells@);
        pad_exec(&mut rows, &mut taken, r + 1);
        assert(grid_of(rows@, taken@, cells@) =~= pad_rows(before, r + 1));
        assert(narrow(grid_of(rows@, taken@, cells@))) by {
            let n = grid_of(rows@, taken@, cells@);
            assert forall|y: int| 0 <= y < n.rows.len() implies #[trigger] n.rows[y].len() <= 10000 by {
                if y >= before.rows.len() {
                    assert(n.rows[y].len() == 0);
                }
            }
            assert forall|y: int| 0 <= y < n.taken.len() implies #[trigger] n.taken[y].len() <= 10000 by {
                if y >= before.taken.len() {
                    assert(n.taken[y].len() == 0);
                }
            }
        }
        let row = &table[r];
        let ghost cv = tv[r as int];
        assert(cv == row@.map_values(|c: HtmlCell| c@));
        let mut c: usize = 0;
        let mut j: usize = 0;
        while j < row.len()
            invariant
                tv == html_rows_view(table@),
                html_table(html@) == Some(tv),
                empty == (Grid { rows: Seq::empty(), taken: Seq::empty(), cells: Seq::empty() }),
                r < table.len(),
                r < 1000,
                cv == tv[r as int],
                cv == row@.map_values(|c: HtmlCell| c@),
                j <= row.len(),
                c <= 10000,
                rows.len() == taken.len(),
                r < rows.len(),
                narrow(grid_of(rows@, taken@, cells@)),
                place_rows(empty, tv, 0) == after_row(
                    place_cells(grid_of(rows@, taken@, cells@), r as int, cv, j as int, c as int),
                    tv,
                    r as int,
                ),
            decreases row.len() - j,
        {
            let ghost g = grid_of(rows@, taken@, cells@);
            let ghost c0 = c as int;
            assert(g.taken[r as int] == taken@[r as int]@);
            while c < taken[r].len() && taken[r][c]
                invariant
                    r < taken.len(),
                    c0 <= c,
                    c <= 10000,
                    taken@[r as int]@.len() <= 10000,
                    g.taken[r as int] == taken@[r as int]@,
                    free_from(g.taken[r as int], c0) == free_from(g.taken[r as int], c as int),
                decreases taken@[r as int]@.len() - c,
            {
                c += 1;
            }
            assert(free_from(g.taken[r as int], c as int) == c);
            let cell = &row[j];
            assert(cv[j as int] == cell@);
            let rs = span_value(&cell.rowspan);
            let cs = span_value(&cell.colspan);
            assert((r + rs) * (c + cs) <= 1100 * 10100) by (nonlinear_arith)
                requires
                    r < 1000,
                    rs <= 100,
                    c <= 10000,
                    cs <= 100,
            ;
            if (r + rs) * (c + cs) > 10000 {
                assert(place_cells(g, r as int, cv, j as int, c0) is None);
                assert(html_grid(html@) is None);
                return None;
            }
            assert(c + cs <= 10000) by (nonlinear_arith)
                requires
                    (r + rs) * (c + cs) <= 10000,
                    1 <= rs,
            ;
            occupy_exec(&mut rows, &mut taken, &mut cells, r, c, rs, cs, &cell.text);
            let ghost n = grid_of(rows@, taken@, cells@);
            assert(n == occupy(g, r as int, c as int, rs as int, cs as int, cell.text@));
            assert forall|y: int| 0 <= y < n.rows.len() implies #[trigger] n.rows[y].len() <= 10000 by {
                let p = pad_rows(g, r + rs);
                if y != r {
                    assert(n.rows[y].len() == (if r <= y < r + rs { widen(p.rows[y], c + cs) } else { p.rows[y] }).len());
                }
            }
            assert forall|y: int| 0 <= y < n.taken.len() implies #[trigger] n.taken[y].len() <= 10000 by {
                let p = pad_rows(g, r + rs);
                assert(n.taken[y].len() == (if r <= y < r + rs { take_span(p.taken[y], c as int, c + cs) } else { p.taken[y] }).len());
            }
            c = c + cs;
            j += 1;
        }
        r += 1;
    }
    assert(html_grid(html@) == Some((texts_view(rows@), cells_view(cells@))));
    Some((rows, cells))
}

} // verus!
