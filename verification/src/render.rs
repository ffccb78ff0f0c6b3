//! The renderer: paints a window of the grid onto the local terminal.

use crate::grid::{row_view, Cell, Grid};
use crate::screen::{glyph, CellModel, GridModel, RowModel};
use crate::text::{decimal, push_decimal, same_text};
use crate::width::{cell_width, cw};
use vstd::prelude::*;

verus! {

// ---------------------------------------------------------------------------
// a row of cells as terminal text

/// The cell at a column, if the row has one there.
pub open spec fn cell_at(cells: RowModel, c: int) -> Option<CellModel> {
    if 0 <= c < cells.len() {
        cells[c]
    } else {
        None
    }
}

/// The style of a cell; a blank cell has the plain one.
pub open spec fn style_of(cell: Option<CellModel>) -> Seq<char> {
    match cell {
        Some(c) => c.sgr,
        None => "\x1b[0m"@,
    }
}

pub open spec fn link_of(cell: Option<CellModel>) -> Option<Seq<char>> {
    match cell {
        Some(c) => c.link,
        None => None,
    }
}

/// What switches to a style; no style is the plain one.
pub open spec fn style_text(sgr: Seq<char>) -> Seq<char> {
    if sgr.len() == 0 {
        "\x1b[0m"@
    } else {
        sgr
    }
}

/// What opens a link, or closes the open one.
pub open spec fn link_change(link: Option<Seq<char>>) -> Seq<char> {
    match link {
        Some(uri) => "\x1b]8;;"@ + uri + "\x1b\\"@,
        None => "\x1b]8;;\x1b\\"@,
    }
}

/// What stands before a character: its style where that differs from the style
/// before, then its link where that differs.
pub open spec fn lead(
    sgr: Seq<char>,
    link: Option<Seq<char>>,
    prev_sgr: Option<Seq<char>>,
    prev_link: Option<Seq<char>>,
) -> Seq<char> {
    let style = if prev_sgr == Some(sgr) {
        Seq::empty()
    } else {
        style_text(sgr)
    };
    if prev_link == link {
        style
    } else {
        style + link_change(link)
    }
}

/// Would a character of two columns at this column straddle the right edge?
pub open spec fn straddles(ch: char, c: int, limit: int) -> bool {
    cell_width(ch) == 2 && c + 1 >= limit
}

/// The columns of a row from `c` on. A wide character takes up the columns it
/// spans, so its spacer cell is skipped; one that would straddle the right edge
/// is blanked. A link that is still open at the end is closed.
pub open spec fn paint_cells(
    cells: RowModel,
    c: int,
    limit: int,
    prev_sgr: Option<Seq<char>>,
    prev_link: Option<Seq<char>>,
) -> Seq<char>
    decreases
            if c < limit {
                limit - c
            } else {
                0
            },
{
    if c >= limit {
        if prev_link is Some {
            link_change(None)
        } else {
            Seq::empty()
        }
    } else {
        let cell = cell_at(cells, c);
        let ch = glyph(cell);
        let lead = lead(style_of(cell), link_of(cell), prev_sgr, prev_link);
        if straddles(ch, c, limit) {
            lead.push(' ') + paint_cells(
                cells,
                c + 1,
                limit,
                Some(style_of(cell)),
                link_of(cell),
            )
        } else {
            lead.push(ch) + paint_cells(
                cells,
                c + cell_width(ch),
                limit,
                Some(style_of(cell)),
                link_of(cell),
            )
        }
    }
}

// ---------------------------------------------------------------------------
// a whole paint

pub open spec fn min_of(a: nat, b: nat) -> nat {
    if a <= b {
        a
    } else {
        b
    }
}

pub open spec fn max_of(a: nat, b: nat) -> nat {
    if a >= b {
        a
    } else {
        b
    }
}

/// The lowest row that matters: content or cursor.
pub open spec fn bottom_row(g: GridModel) -> nat {
    max_of(g.content_bottom, g.cursor_row)
}

/// The first grid row of a window of `rows` rows, anchored at the bottom.
pub open spec fn window_top(g: GridModel, rows: nat) -> nat {
    if bottom_row(g) + 1 > rows {
        (bottom_row(g) + 1 - rows) as nat
    } else {
        0
    }
}

/// The cells of a grid row; below the grid there are none.
pub open spec fn grid_row(g: GridModel, r: int) -> RowModel {
    if 0 <= r < g.rows.len() {
        g.rows[r]
    } else {
        Seq::empty()
    }
}

#[verifier::ext_equal]
pub struct RendererModel {
    /// what each terminal row was last painted with, as far as it is known
    pub last_rows: Seq<Option<Seq<char>>>,
    pub status_text: Seq<char>,
}

impl RendererModel {
    /// Is this the row that shows the status?
    pub open spec fn is_status_row(self, r: int, out_rows: nat) -> bool {
        r == out_rows - 1 && self.status_text.len() > 0
    }

    /// What a terminal row shows. A row painted to the full width ends without
    /// an erase: the cursor still stands in the last column there, and an erase
    /// would wipe the cell just written.
    pub open spec fn painted(self, g: GridModel, out_cols: nat, out_rows: nat, r: int) -> Seq<
        char,
    > {
        let limit = min_of(out_cols, g.width);
        if self.is_status_row(r, out_rows) {
            "\x1b[0;7m "@ + self.status_text + " \x1b[0m\x1b[K"@
        } else {
            let line = paint_cells(
                grid_row(g, r + window_top(g, out_rows)),
                0,
                limit as int,
                None,
                None,
            );
            if limit >= out_cols {
                line + "\x1b[0m"@
            } else {
                line + "\x1b[0m\x1b[K"@
            }
        }
    }

    /// What a terminal row was last painted with.
    pub open spec fn last(self, r: int) -> Option<Seq<char>> {
        if 0 <= r < self.last_rows.len() {
            self.last_rows[r]
        } else {
            None
        }
    }

    /// What is written for a terminal row: nothing where it already shows what
    /// it should.
    pub open spec fn row_update(self, g: GridModel, out_cols: nat, out_rows: nat, r: int) -> Seq<
        char,
    > {
        let text = self.painted(g, out_cols, out_rows, r);
        if self.last(r) == Some(text) {
            Seq::empty()
        } else {
            "\x1b["@ + decimal((r + 1) as nat) + ";1H"@ + text
        }
    }

    /// What is written for the first `n` terminal rows.
    pub open spec fn row_updates(
        self,
        g: GridModel,
        out_cols: nat,
        out_rows: nat,
        n: int,
    ) -> Seq<char>
        decreases n,
    {
        if n <= 0 {
            Seq::empty()
        } else {
            self.row_updates(g, out_cols, out_rows, n - 1) + self.row_update(
                g,
                out_cols,
                out_rows,
                n - 1,
            )
        }
    }

    /// Is the cursor shown? Only within the window, and not beside a status.
    pub open spec fn shows_cursor(self, g: GridModel, out_rows: nat) -> bool {
        &&& g.cursor_visible
        &&& window_top(g, out_rows) <= g.cursor_row
        &&& g.cursor_row - window_top(g, out_rows) < out_rows
        &&& self.status_text.len() == 0
    }

    pub open spec fn cursor_text(self, g: GridModel, out_cols: nat, out_rows: nat) -> Seq<char> {
        if self.shows_cursor(g, out_rows) {
            let row = (g.cursor_row - window_top(g, out_rows) + 1) as nat;
            let last_col = if out_cols > 0 {
                (out_cols - 1) as nat
            } else {
                0
            };
            let col = min_of(g.cursor_col, last_col) + 1;
            "\x1b["@ + decimal(row) + ";"@ + decimal(col) + "H\x1b[?25h"@
        } else {
            Seq::empty()
        }
    }

    /// All that a paint writes, between the marks of a synchronised update.
    pub open spec fn paint_text(self, g: GridModel, out_cols: nat, out_rows: nat) -> Seq<char> {
        "\x1b[?2026h\x1b[?25l"@ + self.row_updates(g, out_cols, out_rows, out_rows as int)
            + self.cursor_text(g, out_cols, out_rows) + "\x1b[?2026l"@
    }

    /// What is known of the terminal after a paint.
    pub open spec fn after_paint(self, g: GridModel, out_cols: nat, out_rows: nat) -> RendererModel {
        RendererModel {
            last_rows: Seq::new(
                max_of(self.last_rows.len(), out_rows),
                |r: int|
                    if r < out_rows {
                        Some(self.painted(g, out_cols, out_rows, r))
                    } else {
                        self.last_rows[r]
                    },
            ),
            ..self
        }
    }

    /// A new status; the last known row is forgotten, so that it is repainted.
    pub open spec fn status(self, text: Seq<char>) -> RendererModel {
        RendererModel {
            last_rows: if self.last_rows.len() > 0 {
                self.last_rows.drop_last()
            } else {
                self.last_rows
            },
            status_text: text,
        }
    }

    pub open spec fn invalidate(self) -> RendererModel {
        RendererModel { last_rows: Seq::empty(), ..self }
    }
}

// ---------------------------------------------------------------------------
// the renderer

#[derive(Default)]
pub struct Renderer {
    last_rows: Vec<Option<String>>,
    status_text: String,
}

spec fn known(row: Option<String>) -> Option<Seq<char>> {
    match row {
        Some(text) => Some(text@),
        None => None,
    }
}

impl View for Renderer {
    type V = RendererModel;

    closed spec fn view(&self) -> RendererModel {
        RendererModel {
            last_rows: self.last_rows@.map_values(|row: Option<String>| known(row)),
            status_text: self.status_text@,
        }
    }
}

/// The text of an optional string.
spec fn opt_text(s: Option<&str>) -> Option<Seq<char>> {
    match s {
        Some(text) => Some(text@),
        None => None,
    }
}

fn same_opt_text(a: Option<&str>, b: Option<&str>) -> (r: bool)
    ensures
        r == (opt_text(a) == opt_text(b)),
{
    match (a, b) {
        (Some(x), Some(y)) => same_text(x, y),
        (None, None) => true,
        _ => false,
    }
}

/// Writes what stands before a character.
fn push_lead(
    line: &mut String,
    sgr: &str,
    link: Option<&str>,
    prev_sgr: Option<&str>,
    prev_link: Option<&str>,
)
    ensures
        final(line)@ == old(line)@ + lead(
            sgr@,
            opt_text(link),
            opt_text(prev_sgr),
            opt_text(prev_link),
        ),
{
    if !same_opt_text(prev_sgr, Some(sgr)) {
        if sgr.is_empty() {
            line.append("\x1b[0m");
        } else {
            line.append(sgr);
        }
    }
    if !same_opt_text(prev_link, link) {
        match link {
            Some(uri) => {
                line.append("\x1b]8;;");
                line.append(uri);
                line.append("\x1b\\");
            },
            None => {
                line.append("\x1b]8;;\x1b\\");
            },
        }
    }
    assert(line@ =~= old(line)@ + lead(
        sgr@,
        opt_text(link),
        opt_text(prev_sgr),
        opt_text(prev_link),
    ));
}

/// The columns of a row up to `limit` as terminal text.
fn paint_line(cells: &[Option<Cell>], limit: usize) -> (line: String)
    ensures
        line@ == paint_cells(row_view(cells@), 0, limit as int, None, None),
{
    let mut line = String::new();
    let mut prev_sgr: Option<&str> = None;
    // every row is painted from its own cursor position, so no link is open here
    let mut prev_link: Option<&str> = None;
    let mut c: usize = 0;
    let ghost model = row_view(cells@);
    assert(line@ + paint_cells(model, 0, limit as int, None, None) =~= paint_cells(
        model,
        0,
        limit as int,
        None,
        None,
    ));
    while c < limit
        invariant
            model == row_view(cells@),
            line@ + paint_cells(model, c as int, limit as int, opt_text(prev_sgr), opt_text(prev_link))
                == paint_cells(model, 0, limit as int, None, None),
        decreases
                if c < limit {
                    limit - c
                } else {
                    0
                },
    {
        let ghost start = line@;
        let ghost at = c as int;
        let ghost cell_model = cell_at(model, c as int);
        let ghost before = lead(
            style_of(cell_model),
            link_of(cell_model),
            opt_text(prev_sgr),
            opt_text(prev_link),
        );
        let ghost rest = paint_cells(
            model,
            c as int,
            limit as int,
            opt_text(prev_sgr),
            opt_text(prev_link),
        );
        let cell: Option<&Cell> = if c < cells.len() {
            match &cells[c] {
                Some(x) => Some(x),
                None => None,
            }
        } else {
            None
        };
        let sgr: &str = match cell {
            Some(x) => &x.sgr,
            None => "\x1b[0m",
        };
        let link: Option<&str> = match cell {
            Some(x) => match &x.link {
                Some(uri) => Some(uri),
                None => None,
            },
            None => None,
        };
        let ch: char = match cell {
            Some(x) => x.ch,
            None => ' ',
        };
        assert(sgr@ == style_of(cell_model));
        assert(opt_text(link) == link_of(cell_model));
        assert(ch == glyph(cell_model));
        push_lead(&mut line, sgr, link, prev_sgr, prev_link);
        prev_sgr = Some(sgr);
        prev_link = link;
        let w = cw(ch);
        if w == 2 && c + 1 >= limit {
            line.push(' ');
            c += 1;
        } else {
            line.push(ch);
            c = c.saturating_add(w);
        }
        proof {
            let tail = paint_cells(
                model,
                c as int,
                limit as int,
                opt_text(prev_sgr),
                opt_text(prev_link),
            );
            if straddles(ch, at, limit as int) {
                assert(rest == before.push(' ') + tail);
                assert(start + (before.push(' ') + tail) =~= (start + before).push(' ') + tail);
            } else {
                assert(paint_cells(
                    model,
                    at + cell_width(ch),
                    limit as int,
                    opt_text(prev_sgr),
                    opt_text(prev_link),
                ) == tail);
                assert(rest == before.push(ch) + tail);
                assert(start + (before.push(ch) + tail) =~= (start + before).push(ch) + tail);
            }
        }
    }
    // a link left open would swallow everything painted after this row
    if prev_link.is_some() {
        line.append("\x1b]8;;\x1b\\");
    }
    line
}

impl Renderer {
    pub fn new() -> (r: Renderer)
        ensures
            r@ == (RendererModel { last_rows: Seq::empty(), status_text: Seq::empty() }),
    {
        let r = Renderer { last_rows: Vec::new(), status_text: String::new() };
        assert(r@.last_rows =~= Seq::empty());
        r
    }

    /// Forgets what the terminal shows, so that the next paint writes every row.
    pub fn invalidate(&mut self)
        ensures
            final(self)@ == old(self)@.invalidate(),
    {
        self.last_rows.clear();
        assert(self@.last_rows =~= Seq::empty());
    }

    /// Sets the status that the bottom row shows; empty for none.
    pub fn status(&mut self, text: &str)
        ensures
            final(self)@ == old(self)@.status(text@),
    {
        self.status_text = text.to_owned();
        let _ = self.last_rows.pop();
        assert(self@.last_rows =~= old(self)@.status(text@).last_rows);
    }

    /// What terminal row `r` is to show.
    fn row_text(&self, grid: &Grid, out_cols: usize, out_rows: usize, top: usize, r: usize) -> (text:
        String)
        requires
            r < out_rows,
            top == window_top(grid@, out_rows as nat),
            r + top <= usize::MAX,
        ensures
            text@ == self@.painted(grid@, out_cols as nat, out_rows as nat, r as int),
    {
        if r == out_rows - 1 && !self.status_text.as_str().is_empty() {
            let mut text = "\x1b[0;7m ".to_owned();
            text.append(self.status_text.as_str());
            text.append(" \x1b[0m\x1b[K");
            return text;
        }
        let limit: usize = if out_cols <= grid.width {
            out_cols
        } else {
            grid.width
        };
        // every terminal row is painted (missing grid rows as blanks), or the
        // pane stays blank before the first frame
        let blank: Vec<Option<Cell>> = Vec::new();
        let cells: &Vec<Option<Cell>> = if r + top < grid.rows.len() {
            &grid.rows[r + top]
        } else {
            &blank
        };
        assert(row_view(cells@) =~= grid_row(grid@, r + top));
        let mut text = paint_line(cells.as_slice(), limit);
        if limit >= out_cols {
            text.append("\x1b[0m");
        } else {
            text.append("\x1b[0m\x1b[K");
        }
        text
    }

    /// Makes room for `out_rows` rows, the new ones unknown.
    fn grow(&mut self, out_rows: usize)
        ensures
            final(self)@.status_text == old(self)@.status_text,
            final(self)@.last_rows.len() == max_of(old(self)@.last_rows.len(), out_rows as nat),
            forall|i: int| #[trigger] final(self)@.last(i) == old(self)@.last(i),
    {
        while self.last_rows.len() < out_rows
            invariant
                self@.status_text == old(self)@.status_text,
                self@.last_rows.len() >= old(self)@.last_rows.len(),
                self@.last_rows.len() <= max_of(old(self)@.last_rows.len(), out_rows as nat),
                forall|i: int| #[trigger] self@.last(i) == old(self)@.last(i),
            decreases out_rows - self.last_rows@.len(),
        {
            let ghost before = self@;
            self.last_rows.push(None);
            assert forall|i: int| #[trigger] self@.last(i) == old(self)@.last(i) by {
                assert(before.last(i) == old(self)@.last(i));
            }
        }
    }

    /// Writes terminal row `r` if it is to show something new.
    fn paint_row(
        &mut self,
        out: &mut String,
        grid: &Grid,
        out_cols: usize,
        out_rows: usize,
        top: usize,
        r: usize,
    )
        requires
            r < out_rows,
            r < old(self)@.last_rows.len(),
            top == window_top(grid@, out_rows as nat),
            r + top <= usize::MAX,
        ensures
            final(out)@ == old(out)@ + old(self)@.row_update(
                grid@,
                out_cols as nat,
                out_rows as nat,
                r as int,
            ),
            final(self)@ == (RendererModel {
                last_rows: old(self)@.last_rows.update(
                    r as int,
                    Some(old(self)@.painted(grid@, out_cols as nat, out_rows as nat, r as int)),
                ),
                ..old(self)@
            }),
    {
        let text = self.row_text(grid, out_cols, out_rows, top, r);
        let ghost painted = text@;
        let same: bool = match &self.last_rows[r] {
            Some(last) => same_text(last.as_str(), text.as_str()),
            None => false,
        };
        assert(same == (old(self)@.last(r as int) == Some(text@)));
        if !same {
            out.append("\x1b[");
            push_decimal(out, (r + 1) as u64);
            out.append(";1H");
            out.append(text.as_str());
            self.last_rows.set(r, Some(text));
        }
        assert(out@ =~= old(out)@ + old(self)@.row_update(
            grid@,
            out_cols as nat,
            out_rows as nat,
            r as int,
        ));
        assert(self@.last_rows =~= old(self)@.last_rows.update(r as int, Some(painted)));
    }

    /// Writes the cursor where it is shown.
    fn paint_cursor(
        &self,
        out: &mut String,
        grid: &Grid,
        out_cols: usize,
        out_rows: usize,
        top: usize,
    )
        requires
            out_rows > 0 ==> top == window_top(grid@, out_rows as nat),
        ensures
            final(out)@ == old(out)@ + self@.cursor_text(grid@, out_cols as nat, out_rows as nat),
    {
        if grid.cursor_visible && grid.cursor_row >= top && grid.cursor_row - top < out_rows
            && self.status_text.as_str().is_empty() {
            let last_col: usize = if out_cols > 0 {
                out_cols - 1
            } else {
                0
            };
            let col: usize = if grid.cursor_col <= last_col {
                grid.cursor_col
            } else {
                last_col
            };
            out.append("\x1b[");
            push_decimal(out, (grid.cursor_row - top) as u64 + 1);
            out.append(";");
            push_decimal(out, col as u64 + 1);
            out.append("H\x1b[?25h");
        }
        assert(out@ =~= old(out)@ + self@.cursor_text(grid@, out_cols as nat, out_rows as nat));
    }

    /// The text that paints the grid into a terminal of `out_cols` columns and
    /// `out_rows` rows. The window is anchored at the bottom, where agent
    /// interfaces live.
    pub fn paint(&mut self, grid: &Grid, out_cols: usize, out_rows: usize) -> (out: String)
        ensures
            out@ == old(self)@.paint_text(grid@, out_cols as nat, out_rows as nat),
            final(self)@ == old(self)@.after_paint(grid@, out_cols as nat, out_rows as nat),
    {
        let ghost cols = out_cols as nat;
        let ghost rows = out_rows as nat;
        let ghost first = self@;
        let bottom: usize = if grid.content_bottom >= grid.cursor_row {
            grid.content_bottom
        } else {
            grid.cursor_row
        };
        let top: usize = if bottom >= out_rows {
            (bottom - out_rows).saturating_add(1)
        } else {
            0
        };
        let mut out = "\x1b[?2026h\x1b[?25l".to_owned();
        self.grow(out_rows);
        let mut r: usize = 0;
        let ghost head = out@;
        assert(head + first.row_updates(grid@, cols, rows, 0) =~= head);
        while r < out_rows
            invariant
                r <= out_rows,
                cols == out_cols,
                rows == out_rows,
                out_rows > 0 ==> top == window_top(grid@, rows),
                out_rows > 0 ==> out_rows - 1 + top <= usize::MAX,
                self@.status_text == first.status_text,
                self@.last_rows.len() == max_of(first.last_rows.len(), rows),
                forall|i: int| r <= i ==> #[trigger] self@.last(i) == first.last(i),
                forall|i: int|
                    0 <= i < r ==> #[trigger] self@.last(i) == Some(
                        first.painted(grid@, cols, rows, i),
                    ),
                out@ == head + first.row_updates(grid@, cols, rows, r as int),
            decreases out_rows - r,
        {
            let ghost now = self@;
            let ghost before = out@;
            self.paint_row(&mut out, grid, out_cols, out_rows, top, r);
            proof {
                assert(now.last(r as int) == first.last(r as int));
                assert(now.painted(grid@, cols, rows, r as int) == first.painted(
                    grid@,
                    cols,
                    rows,
                    r as int,
                ));
                assert forall|i: int| i != r implies #[trigger] self@.last(i) == now.last(i) by {}
                assert(head + first.row_updates(grid@, cols, rows, r + 1) =~= before
                    + first.row_update(grid@, cols, rows, r as int));
            }
            r += 1;
        }
        self.paint_cursor(&mut out, grid, out_cols, out_rows, top);
        out.append("\x1b[?2026l");
        proof {
            lemma_after_paint(first, self@, grid@, cols, rows);
        }
        out
    }
}

proof fn lemma_after_paint(
    first: RendererModel,
    now: RendererModel,
    g: GridModel,
    cols: nat,
    rows: nat,
)
    requires
        now.status_text == first.status_text,
        now.last_rows.len() == max_of(first.last_rows.len(), rows),
        forall|i: int| rows <= i ==> #[trigger] now.last(i) == first.last(i),
        forall|i: int|
            0 <= i < rows ==> #[trigger] now.last(i) == Some(first.painted(g, cols, rows, i)),
    ensures
        now == first.after_paint(g, cols, rows),
{
    let after = first.after_paint(g, cols, rows);
    assert forall|i: int| 0 <= i < after.last_rows.len() implies now.last_rows[i]
        == after.last_rows[i] by {
        assert(now.last(i) == now.last_rows[i]);
    }
    assert(now.last_rows =~= after.last_rows);
}

} // verus!
