//! What a paint does to the terminal: the terminal is modelled as a grid that
//! reads what is written to it.

use crate::escape::{csi, is_param};
use crate::frame_laws::{
    is_clean_cell, is_clean_grid, is_clean_link, is_clean_row, is_csi, is_style,
    law_a_clean_link_reads_back, law_a_closed_link_reads_back, law_a_csi_is_consumed_whole,
    law_an_osc_is_consumed_whole, law_decimal_reads_back, lemma_csi_is_csi,
    lemma_machine_decimal_len, lemma_plain,
};
use crate::render::{
    bottom_row, cell_at, grid_row, lead, link_change, link_of, min_of, paint_cells, straddles,
    style_of, style_text, window_top, RendererModel,
};
use crate::screen::{
    cursor_mode, glyph, position_col, position_row, CellModel, GridModel, RowModel, Screen,
    Token,
};
use crate::text::{decimal, first_at, is_digit_char, text_ends_with, unsigned_value};
use crate::width::cell_width;
use vstd::prelude::*;

verus! {

// ---------------------------------------------------------------------------
// cursor positions

proof fn lemma_found(s: Seq<char>, c: char, from: int, k: int)
    requires
        0 <= from <= k <= s.len(),
        forall|i: int| from <= i < k ==> s[i] != c,
        k < s.len() ==> s[k] == c,
    ensures
        first_at(s, c, from) == k,
    decreases k - from,
{
    if from < k {
        lemma_found(s, c, from + 1, k);
    }
}

/// What moves the pen to a row and a column, counted from one.
pub open spec fn cup(row: nat, col: nat) -> Seq<char> {
    "\x1b["@ + decimal(row) + ";"@ + decimal(col) + "H"@
}

/// A position that is written is read back.
pub proof fn law_a_position_reads_back(row: nat, col: nat, t: Seq<char>, s: Screen)
    requires
        1 <= row <= usize::MAX,
        1 <= col <= usize::MAX,
    ensures
        s.run(cup(row, col) + t) == (Screen {
            row: (row - 1) as nat,
            col: (col - 1) as nat,
            ..s
        }).run(t),
{
    reveal_strlit("\x1b[");
    reveal_strlit(";");
    reveal_strlit("H");
    let a = decimal(row);
    let b = decimal(col);
    let params = a + ";"@ + b;
    let p = cup(row, col);
    let m = p.len() - 1;
    law_decimal_reads_back(row);
    law_decimal_reads_back(col);
    lemma_machine_decimal_len(row);
    lemma_machine_decimal_len(col);
    assert(p =~= seq!['\u{1b}', '['] + params + seq!['H']);
    assert(p.subrange(2, m) =~= params);
    assert forall|j: int| 2 <= j < m implies is_param(#[trigger] p[j]) by {
        assert(p[j] == params[j - 2]);
        if j - 2 < a.len() {
            assert(params[j - 2] == a[j - 2]);
            assert(is_digit_char(a[j - 2]));
        } else if j - 2 > a.len() {
            assert(params[j - 2] == b[j - 2 - a.len() - 1]);
            assert(is_digit_char(b[j - 2 - a.len() - 1]));
        }
    }
    assert(is_csi(p, m));
    law_a_csi_is_consumed_whole(p, m, t, s);
    assert forall|i: int| 0 <= i < a.len() implies params[i] != ';' by {
        assert(params[i] == a[i]);
        assert(is_digit_char(a[i]));
    }
    assert(params[a.len() as int] == ';');
    lemma_found(params, ';', 0, a.len() as int);
    assert(params.take(a.len() as int) =~= a);
    assert(params.skip(a.len() as int + 1) =~= b);
    assert forall|i: int| 0 <= i < b.len() implies b[i] != ';' by {
        assert(is_digit_char(b[i]));
    }
    lemma_found(b, ';', 0, b.len() as int);
    assert(b.take(b.len() as int) =~= b);
    assert(unsigned_value(a, usize::MAX as nat) == Some(row));
    assert(unsigned_value(b, usize::MAX as nat) == Some(col));
    assert(position_row(params) == row - 1);
    assert(position_col(params) == col - 1);
}

// ---------------------------------------------------------------------------
// styles and links

proof fn lemma_style(sgr: Seq<char>, t: Seq<char>, s: Screen)
    requires
        is_style(sgr),
    ensures
        s.run(sgr + t) == (Screen { sgr, ..s }).run(t),
{
    lemma_csi_is_csi(sgr);
    let c = csi(sgr)->0;
    assert(sgr.take(c.len) =~= sgr);
    law_a_csi_is_consumed_whole(sgr, 2 + c.params.len() as int, t, s);
}

/// The plain style is a style.
pub proof fn lemma_plain_style()
    ensures
        is_style("\x1b[0m"@),
{
    reveal_strlit("\x1b[0m");
    let p = "\x1b[0m"@;
    let s = Screen {
        rows: Seq::empty(),
        width: 0,
        height: 0,
        visible: false,
        row: 0,
        col: 0,
        sgr: Seq::empty(),
        link: None,
    };
    assert(is_csi(p, 3));
    law_a_csi_is_consumed_whole(p, 3, Seq::empty(), s);
    assert(p + Seq::<char>::empty() =~= p);
}

/// The reverse style is a style.
proof fn lemma_reverse_style()
    ensures
        is_style("\x1b[0;7m"@),
{
    reveal_strlit("\x1b[0;7m");
    let p = "\x1b[0;7m"@;
    let s = Screen {
        rows: Seq::empty(),
        width: 0,
        height: 0,
        visible: false,
        row: 0,
        col: 0,
        sgr: Seq::empty(),
        link: None,
    };
    assert(is_csi(p, 5));
    law_a_csi_is_consumed_whole(p, 5, Seq::empty(), s);
    assert(p + Seq::<char>::empty() =~= p);
}

proof fn lemma_link_change(link: Option<Seq<char>>, t: Seq<char>, s: Screen)
    requires
        link matches Some(uri) ==> is_clean_link(uri),
    ensures
        s.run(link_change(link) + t) == (Screen { link, ..s }).run(t),
{
    match link {
        Some(uri) => {
            law_a_clean_link_reads_back(uri);
        },
        None => {
            law_a_closed_link_reads_back();
        },
    }
    law_an_osc_is_consumed_whole(link_change(link), t, s);
}

/// The pen for a cell: its style and its link.
pub open spec fn pen_for(s: Screen, cell: Option<CellModel>) -> Screen {
    Screen { sgr: style_text(style_of(cell)), link: link_of(cell), ..s }
}

/// Does the pen have the style that was written last, and the link?
spec fn pen_is(s: Screen, prev_sgr: Option<Seq<char>>, prev_link: Option<Seq<char>>) -> bool {
    &&& prev_sgr matches Some(sgr) ==> s.sgr == style_text(sgr)
    &&& s.link == prev_link
}

proof fn lemma_lead(
    cell: Option<CellModel>,
    prev_sgr: Option<Seq<char>>,
    prev_link: Option<Seq<char>>,
    t: Seq<char>,
    s: Screen,
)
    requires
        is_clean_cell(cell),
        pen_is(s, prev_sgr, prev_link),
    ensures
        s.run(lead(style_of(cell), link_of(cell), prev_sgr, prev_link) + t) == pen_for(
            s,
            cell,
        ).run(t),
{
    lemma_plain_style();
    let sgr = style_of(cell);
    let link = link_of(cell);
    let style = if prev_sgr == Some(sgr) {
        Seq::empty()
    } else {
        style_text(sgr)
    };
    let change = if prev_link == link {
        Seq::empty()
    } else {
        link_change(link)
    };
    let whole = lead(sgr, link, prev_sgr, prev_link) + t;
    assert(whole =~= style + (change + t));
    assert(is_style(style_text(sgr))) by {
        if let Some(c) = cell {
            if c.sgr.len() == 0 {
                assert(style_text(sgr) == "\x1b[0m"@);
            }
        } else {
            reveal_strlit("\x1b[0m");
        }
    }
    let styled = Screen { sgr: style_text(sgr), ..s };
    if prev_sgr == Some(sgr) {
        assert(style + (change + t) =~= change + t);
        assert(styled == s);
    } else {
        lemma_style(style_text(sgr), change + t, s);
    }
    if prev_link == link {
        assert(change + t =~= t);
        assert(pen_for(s, cell) == styled);
    } else {
        lemma_link_change(link, t, styled);
    }
}

// ---------------------------------------------------------------------------
// a row of cells

/// What a cell is on a terminal: a cell without a style has the plain one, and
/// a cell that was never drawn is a plain blank.
pub open spec fn on_terminal(cells: RowModel, c: int) -> CellModel {
    if 0 <= c < cells.len() && cells[c] is Some {
        let cell = cells[c]->0;
        CellModel {
            sgr: if cell.sgr.len() == 0 {
                "\x1b[0m"@
            } else {
                cell.sgr
            },
            link: cell.link,
            ch: cell.ch,
        }
    } else {
        CellModel { sgr: "\x1b[0m"@, link: None, ch: ' ' }
    }
}

/// Is the character at a column cut off: does it take up two columns where only
/// one is left?
pub open spec fn is_cut_off(cells: RowModel, c: int, limit: int) -> bool {
    cell_width(on_terminal(cells, c).ch) == 2 && c == limit - 1
}

/// The character that is painted for a cell at a column: a blank for one that
/// would be cut off.
pub open spec fn shown_char(cells: RowModel, c: int, limit: int) -> char {
    if is_cut_off(cells, c, limit) {
        ' '
    } else {
        on_terminal(cells, c).ch
    }
}

/// The column after the one that is painted.
pub open spec fn next_col(cells: RowModel, c: int, limit: int) -> int {
    if is_cut_off(cells, c, limit) {
        c + 1
    } else {
        c + cell_width(on_terminal(cells, c).ch)
    }
}

/// The terminal after the columns of a row from `c` on.
spec fn drawn(s: Screen, cells: RowModel, c: int, limit: int) -> Screen
    decreases
            (if c < limit {
                limit - c
            } else {
                0
            }),
{
    if c >= limit {
        Screen { link: None, ..s }
    } else {
        drawn(
            pen_for(s, cell_at(cells, c)).print(shown_char(cells, c, limit)),
            cells,
            next_col(cells, c, limit),
            limit,
        )
    }
}

proof fn lemma_paint_cells(
    cells: RowModel,
    c: int,
    limit: int,
    prev_sgr: Option<Seq<char>>,
    prev_link: Option<Seq<char>>,
    t: Seq<char>,
    s: Screen,
)
    requires
        0 <= c,
        is_clean_row(cells),
        pen_is(s, prev_sgr, prev_link),
    ensures
        s.run(paint_cells(cells, c, limit, prev_sgr, prev_link) + t) == drawn(
            s,
            cells,
            c,
            limit,
        ).run(t),
    decreases
            (if c < limit {
                limit - c
            } else {
                0
            }),
{
    if c >= limit {
        if prev_link is Some {
            lemma_link_change(None, t, s);
        } else {
            assert(paint_cells(cells, c, limit, prev_sgr, prev_link) + t =~= t);
            assert(drawn(s, cells, c, limit) == s);
        }
    } else {
        let cell = cell_at(cells, c);
        assert(is_clean_cell(cell)) by {
            if 0 <= c < cells.len() {
                assert(is_clean_cell(cells[c]));
            }
        }
        let before = lead(style_of(cell), link_of(cell), prev_sgr, prev_link);
        let ch = shown_char(cells, c, limit);
        let next = next_col(cells, c, limit);
        let rest = paint_cells(cells, next, limit, Some(style_of(cell)), link_of(cell));
        assert(paint_cells(cells, c, limit, prev_sgr, prev_link) == before.push(ch) + rest);
        assert((before.push(ch) + rest) + t =~= before + (seq![ch] + (rest + t)));
        lemma_lead(cell, prev_sgr, prev_link, seq![ch] + (rest + t), s);
        let pen = pen_for(s, cell);
        lemma_plain(ch, rest + t, pen);
        assert(pen.feed(Token::Plain(ch)) == pen.print(ch));
        lemma_paint_cells(
            cells,
            next,
            limit,
            Some(style_of(cell)),
            link_of(cell),
            t,
            pen.print(ch),
        );
    }
}

/// What the columns of a row from `from` on leave at a column: `None` where
/// they leave it alone.
pub open spec fn painted_cell(cells: RowModel, from: int, limit: int, c: int) -> Option<
    Option<CellModel>,
>
    decreases
            (if from < limit {
                limit - from
            } else {
                0
            }),
{
    if from >= limit || c < from {
        None
    } else if c == from {
        Some(Some(CellModel { ch: shown_char(cells, from, limit), ..on_terminal(cells, from) }))
    } else if c == from + 1 && cell_width(shown_char(cells, from, limit)) == 2 {
        Some(None)
    } else {
        painted_cell(cells, next_col(cells, from, limit), limit, c)
    }
}

/// A terminal row after the columns of a row from `from` on.
pub open spec fn painted_row(row: RowModel, cells: RowModel, from: int, limit: int) -> RowModel {
    Seq::new(
        row.len(),
        |c: int|
            match painted_cell(cells, from, limit, c) {
                Some(cell) => cell,
                None => row[c],
            },
    )
}

/// A screen with as many rows and columns as it says.
pub open spec fn is_full(s: Screen) -> bool {
    &&& s.rows.len() == s.height
    &&& forall|r: int| 0 <= r < s.height ==> (#[trigger] s.rows[r]).len() == s.width
}

proof fn lemma_drawn(s: Screen, cells: RowModel, c: int, limit: int)
    requires
        is_full(s),
        s.row < s.height,
        0 <= c,
        limit <= s.width <= usize::MAX,
        c < limit ==> s.col == c,
    ensures
        ({
            let after = drawn(s, cells, c, limit);
            &&& after.rows == s.rows.update(
                s.row as int,
                painted_row(s.rows[s.row as int], cells, c, limit),
            )
            &&& after.width == s.width
            &&& after.height == s.height
            &&& after.visible == s.visible
            &&& after.row == s.row
            &&& after.link is None
        }),
    decreases
            (if c < limit {
                limit - c
            } else {
                0
            }),
{
    let r = s.row as int;
    let row = s.rows[r];
    if c >= limit {
        assert(painted_row(row, cells, c, limit) =~= row);
        assert(s.rows.update(r, row) =~= s.rows);
    } else {
        let ch = shown_char(cells, c, limit);
        let next = next_col(cells, c, limit);
        let pen = pen_for(s, cell_at(cells, c));
        let one = pen.print(ch);
        let cell = Some(CellModel { sgr: pen.sgr, link: pen.link, ch });
        let wide = cell_width(ch) == 2 && c + 1 < s.width;
        let row1 = if wide {
            row.update(c, cell).update(c + 1, None)
        } else {
            row.update(c, cell)
        };
        assert(one.rows =~= s.rows.update(r, row1));
        assert(is_full(one));
        assert(next > c);
        if next < limit {
            assert(one.col == next);
        }
        lemma_drawn(one, cells, next, limit);
        assert(one.rows[r] == row1);
        assert forall|k: int| 0 <= k < row.len() implies painted_row(
            row1,
            cells,
            next,
            limit,
        )[k] == #[trigger] painted_row(row, cells, c, limit)[k] by {
            if k > c + 1 || (k == c + 1 && cell_width(ch) != 2) {
                assert(painted_cell(cells, c, limit, k) == painted_cell(cells, next, limit, k));
            }
        }
        assert(painted_row(row1, cells, next, limit) =~= painted_row(row, cells, c, limit));
        assert(one.rows.update(r, painted_row(row1, cells, next, limit)) =~= s.rows.update(
            r,
            painted_row(row, cells, c, limit),
        ));
    }
}

// ---------------------------------------------------------------------------
// a status

/// Can a status be written to a terminal: no control character of ASCII?
pub open spec fn is_printable(text: Seq<char>) -> bool {
    forall|i: int| 0 <= i < text.len() ==> #[trigger] text[i] >= ' '
}

/// The terminal after some printable characters.
spec fn typed(s: Screen, text: Seq<char>) -> Screen
    decreases text.len(),
{
    if text.len() == 0 {
        s
    } else {
        typed(s.print(text[0]), text.skip(1))
    }
}

proof fn lemma_typed(text: Seq<char>, t: Seq<char>, s: Screen)
    requires
        is_printable(text),
    ensures
        s.run(text + t) == typed(s, text).run(t),
    decreases text.len(),
{
    if text.len() == 0 {
        assert(text + t =~= t);
    } else {
        let rest = text.skip(1);
        assert(text + t =~= seq![text[0]] + (rest + t));
        lemma_plain(text[0], rest + t, s);
        assert forall|i: int| 0 <= i < rest.len() implies #[trigger] rest[i] >= ' ' by {
            assert(rest[i] == text[i + 1]);
        }
        lemma_typed(rest, t, s.print(text[0]));
    }
}

/// What some characters from a column on leave at a column: `None` where they
/// leave it alone.
pub open spec fn typed_cell(text: Seq<char>, sgr: Seq<char>, from: int, c: int) -> Option<
    Option<CellModel>,
>
    decreases text.len(),
{
    if text.len() == 0 || c < from {
        None
    } else if c == from {
        Some(Some(CellModel { sgr, link: None, ch: text[0] }))
    } else if c == from + 1 && cell_width(text[0]) == 2 {
        Some(None)
    } else {
        typed_cell(text.skip(1), sgr, from + cell_width(text[0]), c)
    }
}

/// A terminal row after some characters from a column on.
pub open spec fn typed_row(row: RowModel, text: Seq<char>, sgr: Seq<char>, from: int) -> RowModel {
    Seq::new(
        row.len(),
        |c: int|
            match typed_cell(text, sgr, from, c) {
                Some(cell) => cell,
                None => row[c],
            },
    )
}

/// A terminal row after one character.
spec fn printed_row(row: RowModel, cell: Option<CellModel>, col: int, w: nat) -> RowModel {
    if col >= row.len() {
        row
    } else if w == 2 && col + 1 < row.len() {
        row.update(col, cell).update(col + 1, None)
    } else {
        row.update(col, cell)
    }
}

proof fn lemma_printed_row(row: RowModel, cell: Option<CellModel>, col: int, w: nat, k: int)
    requires
        0 <= k < row.len(),
        0 <= col,
    ensures
        printed_row(row, cell, col, w).len() == row.len(),
        printed_row(row, cell, col, w)[k] == if k == col {
            cell
        } else if k == col + 1 && w == 2 {
            None
        } else {
            row[k]
        },
{
}

proof fn lemma_print(s: Screen, ch: char)
    requires
        is_full(s),
        s.row < s.height,
    ensures
        s.print(ch).rows == s.rows.update(
            s.row as int,
            printed_row(
                s.rows[s.row as int],
                Some(CellModel { sgr: s.sgr, link: s.link, ch }),
                s.col as int,
                cell_width(ch),
            ),
        ),
        is_full(s.print(ch)),
{
    let r = s.row as int;
    let row = s.rows[r];
    assert(row.len() == s.width);
    let cell = Some(CellModel { sgr: s.sgr, link: s.link, ch });
    let after = s.rows.update(r, printed_row(row, cell, s.col as int, cell_width(ch)));
    assert(s.print(ch).rows =~= after);
}

proof fn lemma_typed_rows(s: Screen, text: Seq<char>, from: int)
    requires
        is_full(s),
        s.row < s.height,
        s.width <= usize::MAX,
        s.link is None,
        0 <= from,
        s.col == from || (from >= s.width && s.col >= s.width),
    ensures
        ({
            let after = typed(s, text);
            &&& after.rows == s.rows.update(
                s.row as int,
                typed_row(s.rows[s.row as int], text, s.sgr, from),
            )
            &&& after.width == s.width
            &&& after.height == s.height
            &&& after.visible == s.visible
            &&& after.row == s.row
            &&& after.link is None
        }),
    decreases text.len(),
{
    let r = s.row as int;
    let row = s.rows[r];
    assert(row.len() == s.width);
    if text.len() == 0 {
        assert(typed_row(row, text, s.sgr, from) =~= row);
        assert(s.rows.update(r, row) =~= s.rows);
    } else {
        let ch = text[0];
        let rest = text.skip(1);
        let next = from + cell_width(ch);
        let one = s.print(ch);
        let cell = Some(CellModel { sgr: s.sgr, link: s.link, ch });
        let row1 = printed_row(row, cell, s.col as int, cell_width(ch));
        lemma_print(s, ch);
        lemma_typed_rows(one, rest, next);
        assert(one.rows[r] == row1);
        assert forall|k: int| 0 <= k < row.len() implies typed_row(row1, rest, s.sgr, next)[k]
            == #[trigger] typed_row(row, text, s.sgr, from)[k] by {
            lemma_printed_row(row, cell, s.col as int, cell_width(ch), k);
        }
        assert(typed_row(row1, rest, s.sgr, next) =~= typed_row(row, text, s.sgr, from));
        assert(one.rows.update(r, typed_row(row1, rest, s.sgr, next)) =~= s.rows.update(
            r,
            typed_row(row, text, s.sgr, from),
        ));
    }
}

// ---------------------------------------------------------------------------
// a terminal row

proof fn lemma_erase(t: Seq<char>, s: Screen)
    ensures
        s.run("\x1b[K"@ + t) == s.run(t),
{
    reveal_strlit("\x1b[K");
    let p = "\x1b[K"@;
    assert(is_csi(p, 2));
    law_a_csi_is_consumed_whole(p, 2, t, s);
}

/// The characters of the row that shows a status.
pub open spec fn status_chars(status: Seq<char>) -> Seq<char> {
    " "@ + status + " "@
}

/// The first grid row of the window: the lowest of content and cursor is its
/// last row, unless both are within the first rows of the grid anyway.
pub open spec fn top_row(g: GridModel, out_rows: nat) -> int {
    if g.content_bottom < out_rows && g.cursor_row < out_rows {
        0
    } else if g.content_bottom > g.cursor_row {
        g.content_bottom + 1 - out_rows
    } else {
        g.cursor_row + 1 - out_rows
    }
}

/// The cells of a grid row; below the grid there are none.
pub open spec fn cells_of(g: GridModel, r: int) -> RowModel {
    if r < g.rows.len() {
        g.rows[r]
    } else {
        Seq::empty()
    }
}

/// How many columns of the grid the terminal has room for.
pub open spec fn shown_cols(g: GridModel, out_cols: nat) -> int {
    if g.width < out_cols {
        g.width as int
    } else {
        out_cols as int
    }
}

impl RendererModel {
    /// What a paint makes of a terminal row: the status, which takes the last
    /// row where there is one, or the cells of the window.
    pub open spec fn row_after(
        self,
        g: GridModel,
        out_cols: nat,
        out_rows: nat,
        r: int,
        row: RowModel,
    ) -> RowModel {
        if self.status_text.len() > 0 && r + 1 == out_rows {
            typed_row(row, status_chars(self.status_text), "\x1b[0;7m"@, 0)
        } else {
            painted_row(row, cells_of(g, r + top_row(g, out_rows)), 0, shown_cols(g, out_cols))
        }
    }
}

/// Painting a row again changes nothing.
proof fn lemma_row_after_is_stable(
    m: RendererModel,
    g: GridModel,
    cols: nat,
    rows: nat,
    r: int,
    row: RowModel,
)
    ensures
        m.row_after(g, cols, rows, r, m.row_after(g, cols, rows, r, row)) == m.row_after(
            g,
            cols,
            rows,
            r,
            row,
        ),
        m.row_after(g, cols, rows, r, row).len() == row.len(),
{
    let once = m.row_after(g, cols, rows, r, row);
    assert(m.row_after(g, cols, rows, r, once) =~= once);
}

/// What a renderer needs to be given: a clean grid and a status, if any, that
/// can be written.
pub open spec fn can_paint(m: RendererModel, g: GridModel) -> bool {
    is_clean_grid(g) && is_printable(m.status_text)
}

/// What a terminal row reads: it goes to the row, and shows what was painted.
proof fn lemma_row_write(
    m: RendererModel,
    g: GridModel,
    cols: nat,
    rows: nat,
    r: int,
    t: Seq<char>,
    s: Screen,
) -> (after: Screen)
    requires
        can_paint(m, g),
        0 <= r < rows <= usize::MAX,
        is_full(s),
        s.height == rows,
        s.width == cols,
        cols <= usize::MAX,
        s.link is None,
    ensures
        s.run(cup((r + 1) as nat, 1) + m.painted(g, cols, rows, r) + t) == after.run(t),
        after.rows == s.rows.update(r, m.row_after(g, cols, rows, r, s.rows[r])),
        is_full(after),
        after.width == s.width,
        after.height == s.height,
        after.visible == s.visible,
        after.link is None,
{
    let text = m.painted(g, cols, rows, r);
    let at = Screen { row: r as nat, col: 0, ..s };
    assert(cup((r + 1) as nat, 1) + text + t =~= cup((r + 1) as nat, 1) + (text + t));
    law_a_position_reads_back((r + 1) as nat, 1, text + t, s);
    lemma_plain_style();
    lemma_row_after_is_stable(m, g, cols, rows, r, s.rows[r]);
    if m.is_status_row(r, rows) {
        lemma_reverse_style();
        reveal_strlit("\x1b[0;7m ");
        reveal_strlit("\x1b[0;7m");
        reveal_strlit(" ");
        reveal_strlit(" \x1b[0m\x1b[K");
        reveal_strlit("\x1b[0m");
        reveal_strlit("\x1b[K");
        let chars = status_chars(m.status_text);
        let tail = "\x1b[0m"@ + ("\x1b[K"@ + t);
        assert(text + t =~= "\x1b[0;7m"@ + (chars + tail));
        lemma_style("\x1b[0;7m"@, chars + tail, at);
        let pen = Screen { sgr: "\x1b[0;7m"@, ..at };
        assert forall|i: int| 0 <= i < chars.len() implies #[trigger] chars[i] >= ' ' by {
            if 1 <= i < chars.len() - 1 {
                assert(chars[i] == m.status_text[i - 1]);
            }
        }
        lemma_typed(chars, tail, pen);
        lemma_typed_rows(pen, chars, 0);
        let shown = typed(pen, chars);
        lemma_style("\x1b[0m"@, "\x1b[K"@ + t, shown);
        let after = Screen { sgr: "\x1b[0m"@, ..shown };
        lemma_erase(t, after);
        after
    } else {
        let limit = min_of(cols, g.width) as int;
        let cells = grid_row(g, r + window_top(g, rows));
        let line = paint_cells(cells, 0, limit, None, None);
        assert(is_clean_row(cells)) by {
            let i = r + window_top(g, rows);
            if 0 <= i < g.rows.len() {
                assert(is_clean_row(g.rows[i]));
            }
        }
        lemma_drawn(at, cells, 0, limit);
        let shown = drawn(at, cells, 0, limit);
        let after = Screen { sgr: "\x1b[0m"@, ..shown };
        if limit >= cols {
            assert(text + t =~= line + ("\x1b[0m"@ + t));
            lemma_paint_cells(cells, 0, limit, None, None, "\x1b[0m"@ + t, at);
            lemma_style("\x1b[0m"@, t, shown);
        } else {
            reveal_strlit("\x1b[0m\x1b[K");
            reveal_strlit("\x1b[0m");
            reveal_strlit("\x1b[K");
            let tail = "\x1b[0m"@ + ("\x1b[K"@ + t);
            assert("\x1b[0m\x1b[K"@ =~= "\x1b[0m"@ + "\x1b[K"@);
            assert(text + t =~= line + tail);
            lemma_paint_cells(cells, 0, limit, None, None, tail, at);
            lemma_style("\x1b[0m"@, "\x1b[K"@ + t, shown);
            lemma_erase(t, after);
        }
        after
    }
}

// ---------------------------------------------------------------------------
// the rows of a paint

/// The terminal shows what the renderer takes it to show: writing a row again
/// that the renderer remembers would change nothing.
pub open spec fn in_sync(m: RendererModel, terminal: GridModel) -> bool {
    forall|r: int|
        0 <= r < terminal.height ==> (#[trigger] m.last(r) matches Some(text)
            ==> terminal.start().run(cup((r + 1) as nat, 1) + text).rows == terminal.rows)
}

/// Is a terminal row written?
pub open spec fn is_written(m: RendererModel, g: GridModel, cols: nat, rows: nat, r: int) -> bool {
    m.last(r) != Some(m.painted(g, cols, rows, r))
}

/// The text of a row that is written begins with its position.
proof fn lemma_row_update_text(m: RendererModel, g: GridModel, cols: nat, rows: nat, r: int)
    requires
        is_written(m, g, cols, rows, r),
        0 <= r,
    ensures
        m.row_update(g, cols, rows, r) == cup((r + 1) as nat, 1) + m.painted(g, cols, rows, r),
{
    reveal_strlit(";1H");
    reveal_strlit(";");
    reveal_strlit("H");
    assert(decimal(1) =~= seq!['1']);
    assert(";1H"@ =~= ";"@ + decimal(1) + "H"@);
    assert(m.row_update(g, cols, rows, r) =~= cup((r + 1) as nat, 1) + m.painted(g, cols, rows, r));
}

/// What the first `n` terminal rows read.
proof fn lemma_row_updates(
    m: RendererModel,
    g: GridModel,
    cols: nat,
    rows: nat,
    n: int,
    t: Seq<char>,
    s: Screen,
) -> (after: Screen)
    requires
        can_paint(m, g),
        0 <= n <= rows <= usize::MAX,
        is_full(s),
        s.height == rows,
        s.width == cols,
        cols <= usize::MAX,
        s.link is None,
    ensures
        s.run(m.row_updates(g, cols, rows, n) + t) == after.run(t),
        is_full(after),
        after.width == s.width,
        after.height == s.height,
        after.visible == s.visible,
        after.link is None,
        forall|r: int|
            0 <= r < rows ==> #[trigger] after.rows[r] == if r < n && is_written(
                m,
                g,
                cols,
                rows,
                r,
            ) {
                m.row_after(g, cols, rows, r, s.rows[r])
            } else {
                s.rows[r]
            },
    decreases n,
{
    if n <= 0 {
        assert(m.row_updates(g, cols, rows, n) + t =~= t);
        s
    } else {
        let update = m.row_update(g, cols, rows, n - 1);
        let before = m.row_updates(g, cols, rows, n - 1);
        assert(m.row_updates(g, cols, rows, n) + t =~= before + (update + t));
        let mid = lemma_row_updates(m, g, cols, rows, n - 1, update + t, s);
        if is_written(m, g, cols, rows, n - 1) {
            lemma_row_update_text(m, g, cols, rows, n - 1);
            let after = lemma_row_write(m, g, cols, rows, n - 1, t, mid);
            assert(update + t =~= cup(n as nat, 1) + m.painted(g, cols, rows, n - 1) + t);
            after
        } else {
            assert(update + t =~= t);
            mid
        }
    }
}

/// A row that is not written shows already what it should.
proof fn lemma_unwritten_row(
    m: RendererModel,
    g: GridModel,
    cols: nat,
    rows: nat,
    r: int,
    terminal: GridModel,
)
    requires
        can_paint(m, g),
        0 <= r < rows <= usize::MAX,
        terminal.wf(),
        terminal.height == rows,
        terminal.width == cols,
        cols <= usize::MAX,
        in_sync(m, terminal),
        !is_written(m, g, cols, rows, r),
    ensures
        terminal.rows[r] == m.row_after(g, cols, rows, r, terminal.rows[r]),
{
    let s = terminal.start();
    let text = m.painted(g, cols, rows, r);
    let after = lemma_row_write(m, g, cols, rows, r, Seq::empty(), s);
    assert(m.last(r) == Some(text));
    assert(cup((r + 1) as nat, 1) + text + Seq::<char>::empty() =~= cup((r + 1) as nat, 1) + text);
    assert(after.rows == terminal.rows);
    assert(after.rows[r] == m.row_after(g, cols, rows, r, terminal.rows[r]));
}

// ---------------------------------------------------------------------------
// a whole paint

proof fn lemma_mode(p: Seq<char>, m: int, t: Seq<char>, s: Screen)
    requires
        is_csi(p, m),
        p.last() == 'h' || p.last() == 'l',
    ensures
        s.run(p + t) == (if p.subrange(2, m) == cursor_mode() {
            Screen { visible: p.last() == 'h', ..s }
        } else {
            s
        }).run(t),
{
    law_a_csi_is_consumed_whole(p, m, t, s);
}

/// What stands before the rows hides the cursor.
proof fn lemma_prologue(t: Seq<char>, s: Screen)
    ensures
        s.run("\x1b[?2026h\x1b[?25l"@ + t) == (Screen { visible: false, ..s }).run(t),
{
    reveal_strlit("\x1b[?2026h\x1b[?25l");
    let all = "\x1b[?2026h\x1b[?25l"@;
    let a = all.take(8);
    let b = all.skip(8);
    assert(all + t =~= a + (b + t));
    assert(is_csi(a, 7));
    assert(a.subrange(2, 7).len() != cursor_mode().len());
    lemma_mode(a, 7, b + t, s);
    assert(is_csi(b, 5));
    assert(b.subrange(2, 5) =~= cursor_mode());
    lemma_mode(b, 5, t, s);
}

proof fn lemma_epilogue(s: Screen)
    ensures
        s.run("\x1b[?2026l"@) == s,
{
    reveal_strlit("\x1b[?2026l");
    let p = "\x1b[?2026l"@;
    assert(is_csi(p, 7));
    assert(p.subrange(2, 7).len() != cursor_mode().len());
    lemma_mode(p, 7, Seq::empty(), s);
    assert(p + Seq::<char>::empty() =~= p);
}

/// The last column of a terminal.
pub open spec fn last_col(cols: nat) -> nat {
    if cols > 0 {
        (cols - 1) as nat
    } else {
        0
    }
}

proof fn lemma_cursor(
    m: RendererModel,
    g: GridModel,
    cols: nat,
    rows: nat,
    t: Seq<char>,
    s: Screen,
) -> (after: Screen)
    requires
        rows <= usize::MAX,
        cols <= usize::MAX,
    ensures
        s.run(m.cursor_text(g, cols, rows) + t) == after.run(t),
        after.rows == s.rows,
        m.shows_cursor(g, rows) ==> {
            &&& after.visible
            &&& after.row == g.cursor_row - window_top(g, rows)
            &&& after.col == min_of(g.cursor_col, last_col(cols))
        },
        !m.shows_cursor(g, rows) ==> after == s,
{
    let text = m.cursor_text(g, cols, rows);
    if m.shows_cursor(g, rows) {
        let row = (g.cursor_row - window_top(g, rows) + 1) as nat;
        let col = min_of(g.cursor_col, last_col(cols)) + 1;
        reveal_strlit("H\x1b[?25h");
        reveal_strlit("H");
        let show = "H\x1b[?25h"@.skip(1);
        assert("H\x1b[?25h"@ =~= "H"@ + show);
        assert(text + t =~= cup(row, col) + (show + t));
        law_a_position_reads_back(row, col, show + t, s);
        let at = Screen { row: (row - 1) as nat, col: (col - 1) as nat, ..s };
        assert(is_csi(show, 5));
        assert(show.subrange(2, 5) =~= cursor_mode());
        lemma_mode(show, 5, t, at);
        Screen { visible: true, ..at }
    } else {
        assert(text + t =~= t);
        s
    }
}

/// Is the cursor shown? It is visible in the grid, its row is in the window, and
/// there is no status.
pub open spec fn is_cursor_shown(m: RendererModel, g: GridModel, rows: nat) -> bool {
    g.cursor_visible && m.status_text.len() == 0 && rows > 0 && top_row(g, rows) <= g.cursor_row
}

/// A paint makes the terminal show the window: whatever the renderer has left
/// out, each row shows the status or the cells of the grid, with their styles
/// and links, and the cursor is where the grid has it, or hidden. What the
/// renderer remembers is then again what the terminal shows.
pub proof fn law_a_paint_shows_the_window(
    m: RendererModel,
    g: GridModel,
    terminal: GridModel,
)
    requires
        can_paint(m, g),
        terminal.wf(),
        terminal.width <= usize::MAX,
        terminal.height <= usize::MAX,
        in_sync(m, terminal),
    ensures
        ({
            let cols = terminal.width;
            let rows = terminal.height;
            let after = terminal.apply(m.paint_text(g, cols, rows));
            &&& after.wf()
            &&& after.width == cols
            &&& after.height == rows
            &&& forall|r: int|
                0 <= r < rows ==> #[trigger] after.rows[r] == m.row_after(
                    g,
                    cols,
                    rows,
                    r,
                    terminal.rows[r],
                )
            &&& after.cursor_visible == is_cursor_shown(m, g, rows)
            &&& is_cursor_shown(m, g, rows) ==> after.cursor_row == g.cursor_row - top_row(g, rows)
            &&& is_cursor_shown(m, g, rows) && g.cursor_col < cols ==> after.cursor_col
                == g.cursor_col
            &&& is_cursor_shown(m, g, rows) && g.cursor_col >= cols ==> after.cursor_col
                == last_col(cols)
            &&& in_sync(m.after_paint(g, cols, rows), after)
        }),
{
    let cols = terminal.width;
    let rows = terminal.height;
    let updates = m.row_updates(g, cols, rows, rows as int);
    let cursor = m.cursor_text(g, cols, rows);
    let end = "\x1b[?2026l"@;
    let text = m.paint_text(g, cols, rows);
    let s = terminal.start();
    assert(text =~= "\x1b[?2026h\x1b[?25l"@ + (updates + (cursor + end)));
    lemma_prologue(updates + (cursor + end), s);
    let hidden = Screen { visible: false, ..s };
    let shown = lemma_row_updates(m, g, cols, rows, rows as int, cursor + end, hidden);
    let done = lemma_cursor(m, g, cols, rows, end, shown);
    lemma_epilogue(done);
    let after = terminal.apply(text);
    assert(after.rows == done.rows);
    assert forall|r: int| 0 <= r < rows implies #[trigger] after.rows[r] == m.row_after(
        g,
        cols,
        rows,
        r,
        terminal.rows[r],
    ) by {
        assert(after.rows[r] == shown.rows[r]);
        if !is_written(m, g, cols, rows, r) {
            lemma_unwritten_row(m, g, cols, rows, r, terminal);
        }
    }
    let next = m.after_paint(g, cols, rows);
    assert forall|r: int| 0 <= r < after.height implies (#[trigger] next.last(r) matches Some(
        text,
    ) ==> after.start().run(cup((r + 1) as nat, 1) + text).rows == after.rows) by {
        let painted = m.painted(g, cols, rows, r);
        assert(next.last(r) == Some(painted));
        let again = lemma_row_write(m, g, cols, rows, r, Seq::empty(), after.start());
        assert(cup((r + 1) as nat, 1) + painted + Seq::<char>::empty() =~= cup((r + 1) as nat, 1)
            + painted);
        lemma_row_after_is_stable(m, g, cols, rows, r, terminal.rows[r]);
        assert(after.rows[r] == m.row_after(g, cols, rows, r, terminal.rows[r]));
        assert(again.rows =~= after.rows);
    }
}

// ---------------------------------------------------------------------------
// what is written

/// A grid that has not changed is painted without writing a row.
pub proof fn law_an_unchanged_grid_writes_no_row(
    m: RendererModel,
    g: GridModel,
    cols: nat,
    rows: nat,
    n: int,
)
    requires
        n <= rows,
    ensures
        m.after_paint(g, cols, rows).row_updates(g, cols, rows, n) == Seq::<char>::empty(),
        m.after_paint(g, cols, rows).after_paint(g, cols, rows) == m.after_paint(g, cols, rows),
    decreases n,
{
    let after = m.after_paint(g, cols, rows);
    assert(after.after_paint(g, cols, rows).last_rows =~= after.last_rows);
    if n > 0 {
        law_an_unchanged_grid_writes_no_row(m, g, cols, rows, n - 1);
        assert(after.last(n - 1) == Some(m.painted(g, cols, rows, n - 1)));
        assert(after.painted(g, cols, rows, n - 1) == m.painted(g, cols, rows, n - 1));
    }
}

/// After an invalidation every row is written; and a renderer that remembers
/// nothing, and one that was given a status, are in sync with the terminal.
pub proof fn law_forgetting_keeps_in_sync(
    m: RendererModel,
    g: GridModel,
    cols: nat,
    rows: nat,
    terminal: GridModel,
    status: Seq<char>,
)
    ensures
        forall|r: int| #[trigger] is_written(m.invalidate(), g, cols, rows, r),
        in_sync(m.invalidate(), terminal),
        in_sync(m, terminal) ==> in_sync(m.status(status), terminal),
{
    if in_sync(m, terminal) {
        let after = m.status(status);
        assert forall|r: int| 0 <= r < terminal.height implies (#[trigger] after.last(
            r,
        ) matches Some(text) ==> terminal.start().run(cup((r + 1) as nat, 1) + text).rows
            == terminal.rows) by {
            if after.last(r) is Some {
                assert(m.last(r) == after.last(r));
            }
        }
    }
}

/// A row painted to the full width ends without an erase, which would wipe its
/// last cell; a narrower one ends with an erase of what is right of it.
pub proof fn law_only_a_narrow_row_erases(
    m: RendererModel,
    g: GridModel,
    cols: nat,
    rows: nat,
    r: int,
)
    requires
        m.status_text.len() == 0 || r + 1 != rows,
    ensures
        text_ends_with(m.painted(g, cols, rows, r), "\x1b[K"@) <==> g.width < cols,
{
    reveal_strlit("\x1b[0m");
    reveal_strlit("\x1b[K");
    reveal_strlit("\x1b[0m\x1b[K");
    let text = m.painted(g, cols, rows, r);
    let erase = "\x1b[K"@;
    if g.width < cols {
        assert(text.skip(text.len() - erase.len()) =~= erase);
    } else {
        assert(text.last() == 'm');
        if text_ends_with(text, erase) {
            assert(text.skip(text.len() - erase.len())[2] == text.last());
        }
    }
}

/// No link is left open at the end of a row: what is painted after it cannot
/// become part of the link.
pub proof fn law_no_link_leaks_past_a_row(
    m: RendererModel,
    g: GridModel,
    terminal: GridModel,
    r: int,
)
    requires
        can_paint(m, g),
        terminal.wf(),
        terminal.width <= usize::MAX,
        0 <= r < terminal.height <= usize::MAX,
    ensures
        terminal.start().run(
            cup((r + 1) as nat, 1) + m.painted(g, terminal.width, terminal.height, r),
        ).link is None,
{
    let text = m.painted(g, terminal.width, terminal.height, r);
    let after = lemma_row_write(
        m,
        g,
        terminal.width,
        terminal.height,
        r,
        Seq::empty(),
        terminal.start(),
    );
    assert(cup((r + 1) as nat, 1) + text + Seq::<char>::empty() =~= cup((r + 1) as nat, 1) + text);
}

/// A row without wide characters is shown column by column: each cell with its
/// character, its style and its link.
pub proof fn law_narrow_cells_are_shown(row: RowModel, cells: RowModel, limit: int, c: int)
    requires
        0 <= c < limit <= row.len(),
    ensures
        (forall|k: int| 0 <= k < limit ==> #[trigger] width_at(cells, k) == 1) ==> painted_row(
            row,
            cells,
            0,
            limit,
        )[c] == Some(on_terminal(cells, c)),
{
    if forall|k: int| 0 <= k < limit ==> #[trigger] width_at(cells, k) == 1 {
        lemma_narrow(cells, 0, limit, c);
    }
}

/// How many columns the character at a column takes up.
pub open spec fn width_at(cells: RowModel, c: int) -> nat {
    cell_width(on_terminal(cells, c).ch)
}

proof fn lemma_narrow(cells: RowModel, from: int, limit: int, c: int)
    requires
        0 <= from <= c < limit,
        forall|k: int| 0 <= k < limit ==> #[trigger] width_at(cells, k) == 1,
    ensures
        painted_cell(cells, from, limit, c) == Some(Some(on_terminal(cells, c))),
    decreases c - from,
{
    assert(width_at(cells, from) == 1);
    if from < c {
        lemma_narrow(cells, from + 1, limit, c);
    }
}

/// The window holds the lowest row that matters, content or cursor.
pub proof fn law_the_window_holds_the_bottom_row(g: GridModel, rows: nat)
    requires
        rows > 0,
    ensures
        window_top(g, rows) <= bottom_row(g) < window_top(g, rows) + rows,
        g.content_bottom <= bottom_row(g) && g.cursor_row <= bottom_row(g),
        bottom_row(g) == g.content_bottom || bottom_row(g) == g.cursor_row,
{
}

/// The window is anchored at the lowest of content and cursor, and at nothing
/// else: its top is that row plus one less the rows of the terminal, or the
/// first row of the grid where that is not positive.
pub proof fn law_the_window_is_anchored_at_content_and_cursor(g: GridModel, rows: nat)
    ensures
        window_top(g, rows) == top_row(g, rows),
        g.content_bottom < rows && g.cursor_row < rows ==> window_top(g, rows) == 0,
        g.content_bottom + 1 >= rows && g.content_bottom >= g.cursor_row ==> window_top(g, rows)
            + rows == g.content_bottom + 1,
        g.cursor_row + 1 >= rows && g.cursor_row >= g.content_bottom ==> window_top(g, rows)
            + rows == g.cursor_row + 1,
{
}

/// Where content and cursor both lie within the first rows of the grid, terminal
/// row `r` shows grid row `r`, and the cursor is where the grid has it.
pub proof fn law_what_fits_is_shown_from_the_first_row(
    m: RendererModel,
    g: GridModel,
    terminal: GridModel,
    r: int,
)
    requires
        can_paint(m, g),
        m.status_text.len() == 0,
        terminal.wf(),
        terminal.width <= usize::MAX,
        terminal.height <= usize::MAX,
        in_sync(m, terminal),
        g.content_bottom < terminal.height,
        g.cursor_row < terminal.height,
        0 <= r < terminal.height,
    ensures
        ({
            let after = terminal.apply(m.paint_text(g, terminal.width, terminal.height));
            &&& r < g.height ==> after.rows[r] == painted_row(
                terminal.rows[r],
                g.rows[r],
                0,
                shown_cols(g, terminal.width),
            )
            &&& after.cursor_visible == g.cursor_visible
            &&& g.cursor_visible ==> after.cursor_row == g.cursor_row
        }),
{
    law_a_paint_shows_the_window(m, g, terminal);
    let after = terminal.apply(m.paint_text(g, terminal.width, terminal.height));
    assert(after.rows[r] == m.row_after(
        g,
        terminal.width,
        terminal.height,
        r,
        terminal.rows[r],
    ));
}

// ---------------------------------------------------------------------------
// what is left out

/// Rows that agree in the columns that are shown are painted alike.
proof fn lemma_paint_cells_alike(
    a: RowModel,
    b: RowModel,
    c: int,
    limit: int,
    prev_sgr: Option<Seq<char>>,
    prev_link: Option<Seq<char>>,
)
    requires
        0 <= c,
        forall|k: int| 0 <= k < limit ==> #[trigger] cell_at(a, k) == cell_at(b, k),
    ensures
        paint_cells(a, c, limit, prev_sgr, prev_link) == paint_cells(
            b,
            c,
            limit,
            prev_sgr,
            prev_link,
        ),
    decreases
            (if c < limit {
                limit - c
            } else {
                0
            }),
{
    if c < limit {
        let cell = cell_at(a, c);
        assert(cell == cell_at(b, c));
        let ch = glyph(cell);
        if straddles(ch, c, limit) {
            lemma_paint_cells_alike(a, b, c + 1, limit, Some(style_of(cell)), link_of(cell));
        } else {
            lemma_paint_cells_alike(
                a,
                b,
                c + cell_width(ch),
                limit,
                Some(style_of(cell)),
                link_of(cell),
            );
        }
    }
}

/// The cell of a grid at a place; outside it there is none.
pub open spec fn grid_cell(g: GridModel, r: int, c: int) -> Option<CellModel> {
    if 0 <= r < g.rows.len() && 0 <= c < g.rows[r].len() {
        g.rows[r][c]
    } else {
        None
    }
}

/// Between two paints a row is left out if its cells in the window have not
/// changed, whatever has changed elsewhere.
pub proof fn law_a_row_that_shows_the_same_is_not_written(
    m: RendererModel,
    g: GridModel,
    next: GridModel,
    cols: nat,
    rows: nat,
    r: int,
)
    requires
        0 <= r < rows,
        g.width == next.width,
        forall|c: int|
            0 <= c < shown_cols(g, cols) ==> #[trigger] grid_cell(g, r + top_row(g, rows), c)
                == grid_cell(next, r + top_row(next, rows), c),
    ensures
        m.after_paint(g, cols, rows).row_update(next, cols, rows, r) == Seq::<char>::empty(),
{
    let limit = shown_cols(g, cols);
    let a = grid_row(g, r + window_top(g, rows));
    let b = grid_row(next, r + window_top(next, rows));
    assert forall|k: int| 0 <= k < limit implies #[trigger] cell_at(a, k) == cell_at(b, k) by {
        assert(grid_cell(g, r + top_row(g, rows), k) == grid_cell(
            next,
            r + top_row(next, rows),
            k,
        ));
    }
    lemma_paint_cells_alike(a, b, 0, limit, None, None);
    let after = m.after_paint(g, cols, rows);
    assert(after.last(r) == Some(m.painted(g, cols, rows, r)));
    assert(after.painted(next, cols, rows, r) == m.painted(g, cols, rows, r));
}

/// A row whose text has changed is written with its position; the text stands
/// between the marks that hide the cursor and end the update.
pub proof fn law_a_paint_holds_each_changed_row(
    m: RendererModel,
    g: GridModel,
    cols: nat,
    rows: nat,
    r: int,
)
    requires
        0 <= r < rows,
    ensures
        !(r < m.last_rows.len() && m.last_rows[r] == Some(m.painted(g, cols, rows, r)))
            ==> m.row_update(g, cols, rows, r) == cup((r + 1) as nat, 1) + m.painted(
            g,
            cols,
            rows,
            r,
        ),
        r < m.last_rows.len() && m.last_rows[r] == Some(m.painted(g, cols, rows, r))
            ==> m.row_update(g, cols, rows, r) == Seq::<char>::empty(),
{
    if is_written(m, g, cols, rows, r) {
        lemma_row_update_text(m, g, cols, rows, r);
    }
}

/// A status is kept until another one is set, and setting one changes no row
/// that is known but the last.
pub proof fn law_a_status_is_kept(m: RendererModel, text: Seq<char>, g: GridModel, cols: nat, rows: nat)
    ensures
        m.status(text).status_text == text,
        m.status(text).after_paint(g, cols, rows).status_text == text,
        m.status(text).invalidate().status_text == text,
        m.invalidate().last_rows.len() == 0,
        m.last_rows.len() > 0 ==> m.status(text).last_rows == m.last_rows.take(
            m.last_rows.len() - 1,
        ),
{
    if m.last_rows.len() > 0 {
        assert(m.last_rows.drop_last() =~= m.last_rows.take(m.last_rows.len() - 1));
    }
}

/// Before a character stands its style just where it differs from the style
/// before, and then its link just where it differs from the link before.
pub proof fn law_styles_and_links_are_written_where_they_change(
    sgr: Seq<char>,
    link: Option<Seq<char>>,
    prev_sgr: Option<Seq<char>>,
    prev_link: Option<Seq<char>>,
)
    ensures
        lead(sgr, link, Some(sgr), link) == Seq::<char>::empty(),
        prev_sgr != Some(sgr) && sgr.len() > 0 ==> lead(sgr, link, prev_sgr, link) == sgr,
        prev_sgr != Some(sgr) && sgr.len() == 0 ==> lead(sgr, link, prev_sgr, link) == "\x1b[0m"@,
        prev_link != link && link is None ==> lead(sgr, link, Some(sgr), prev_link)
            == "\x1b]8;;\x1b\\"@,
        prev_link != link ==> (link matches Some(uri) ==> lead(sgr, link, Some(sgr), prev_link)
            == "\x1b]8;;"@ + uri + "\x1b\\"@),
        lead(sgr, link, prev_sgr, prev_link) == lead(sgr, link, prev_sgr, link) + lead(
            sgr,
            link,
            Some(sgr),
            prev_link,
        ),
{
    assert(Seq::<char>::empty() + link_change(link) =~= link_change(link));
    assert(lead(sgr, link, prev_sgr, prev_link) =~= lead(sgr, link, prev_sgr, link) + lead(
        sgr,
        link,
        Some(sgr),
        prev_link,
    ));
}

/// The columns of a row are written one after the other: each character once,
/// over the columns that it takes up, a space for one of two columns that would
/// straddle the right edge, and at the end what closes an open link.
pub proof fn law_columns_are_written_in_order(
    cells: RowModel,
    c: int,
    limit: int,
    prev_sgr: Option<Seq<char>>,
    prev_link: Option<Seq<char>>,
)
    requires
        0 <= c,
    ensures
        c >= limit && prev_link is None ==> paint_cells(cells, c, limit, prev_sgr, prev_link)
            == Seq::<char>::empty(),
        c >= limit && prev_link is Some ==> paint_cells(cells, c, limit, prev_sgr, prev_link)
            == "\x1b]8;;\x1b\\"@,
        c < limit ==> ({
            let cell = if c < cells.len() && cells[c] is Some {
                cells[c]->0
            } else {
                CellModel { sgr: "\x1b[0m"@, link: None, ch: ' ' }
            };
            let w = cell_width(cell.ch);
            let cut = w == 2 && c + 1 == limit;
            paint_cells(cells, c, limit, prev_sgr, prev_link) == lead(
                cell.sgr,
                cell.link,
                prev_sgr,
                prev_link,
            ) + seq![
                if cut {
                    ' '
                } else {
                    cell.ch
                },
            ] + paint_cells(
                cells,
                if cut {
                    c + 1
                } else {
                    c + w
                },
                limit,
                Some(cell.sgr),
                cell.link,
            )
        }),
{
    if c < limit {
        let cell = cell_at(cells, c);
        let ch = glyph(cell);
        let before = lead(style_of(cell), link_of(cell), prev_sgr, prev_link);
        assert(before.push(' ') =~= before + seq![' ']);
        assert(before.push(ch) =~= before + seq![ch]);
    }
}

/// The text of a terminal row: in the last one the status, inverted, if there is
/// one; else the columns that grid and terminal both have, of the grid row that
/// the window has there.
pub proof fn law_the_text_of_a_terminal_row(
    m: RendererModel,
    g: GridModel,
    cols: nat,
    rows: nat,
    r: int,
)
    requires
        0 <= r < rows,
    ensures
        r == rows - 1 && m.status_text.len() > 0 ==> m.painted(g, cols, rows, r) == "\x1b[0;7m "@
            + m.status_text + " \x1b[0m\x1b[K"@,
        !(r == rows - 1 && m.status_text.len() > 0) ==> m.painted(g, cols, rows, r) == paint_cells(
            if r + top_row(g, rows) < g.rows.len() {
                g.rows[r + top_row(g, rows)]
            } else {
                Seq::empty()
            },
            0,
            if cols <= g.width {
                cols as int
            } else {
                g.width as int
            },
            None,
            None,
        ) + (if cols <= g.width {
            "\x1b[0m"@
        } else {
            "\x1b[0m\x1b[K"@
        }),
{
}

/// A paint is the mark of an update, what hides the cursor, the rows from the
/// first to the last, the cursor where it is shown, and the mark of the end.
/// What is remembered of each row that was painted is its text.
pub proof fn law_what_a_paint_writes(m: RendererModel, g: GridModel, cols: nat, rows: nat, r: int)
    requires
        0 <= r < rows,
    ensures
        m.paint_text(g, cols, rows) == "\x1b[?2026h\x1b[?25l"@ + m.row_updates(
            g,
            cols,
            rows,
            rows as int,
        ) + m.cursor_text(g, cols, rows) + "\x1b[?2026l"@,
        m.row_updates(g, cols, rows, 0) == Seq::<char>::empty(),
        m.row_updates(g, cols, rows, r + 1) == m.row_updates(g, cols, rows, r) + m.row_update(
            g,
            cols,
            rows,
            r,
        ),
        !is_cursor_shown(m, g, rows) ==> m.cursor_text(g, cols, rows) == Seq::<char>::empty(),
        is_cursor_shown(m, g, rows) && g.cursor_col < cols ==> m.cursor_text(g, cols, rows)
            == "\x1b["@ + decimal((g.cursor_row - top_row(g, rows) + 1) as nat) + ";"@ + decimal(
            g.cursor_col + 1,
        ) + "H\x1b[?25h"@,
        is_cursor_shown(m, g, rows) && g.cursor_col >= cols ==> m.cursor_text(g, cols, rows)
            == "\x1b["@ + decimal((g.cursor_row - top_row(g, rows) + 1) as nat) + ";"@ + decimal(
            last_col(cols) + 1,
        ) + "H\x1b[?25h"@,
        m.after_paint(g, cols, rows).last_rows.len() >= rows,
        m.after_paint(g, cols, rows).last_rows.len() >= m.last_rows.len(),
        m.after_paint(g, cols, rows).last_rows.len() == rows || m.after_paint(
            g,
            cols,
            rows,
        ).last_rows.len() == m.last_rows.len(),
        m.after_paint(g, cols, rows).last_rows[r] == Some(m.painted(g, cols, rows, r)),
        forall|i: int|
            rows <= i < m.last_rows.len() ==> #[trigger] m.after_paint(g, cols, rows).last_rows[i]
                == m.last_rows[i],
{
}

} // verus!
