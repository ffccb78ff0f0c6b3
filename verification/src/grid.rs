//! The cell grid of a mirror pane and the decoder that draws frames on it.
//!
//! Frames are strictly per cell: a cursor position, a style, a character, with
//! a final cursor position and a visibility toggle. There are no scroll regions
//! and no relative moves, so a grid and a small parser decode them completely.

use crate::escape::{parse_csi, parse_osc, parse_osc8};
use crate::screen::{
    blank_rows, cursor_mode, glyph, has_content, last_content, lemma_token_len, position_col,
    position_field, position_row, put, row_text, token, CellModel, GridModel, RowModel, Screen,
};
use crate::shared::{link_text, share, share_link, shared_str};
use crate::text::{chars_of, find_char, parse_unsigned, same_text, string_of, texts, trimmed_len};
use crate::width::cw;
use std::rc::Rc;
use vstd::prelude::*;
use vstd::slice::slice_subrange;

verus! {

/// One cell: its style, the link it sits in, and its character.
#[derive(Clone, PartialEq)]
pub struct Cell {
    /// runs of cells share one allocation
    pub sgr: Rc<str>,
    /// OSC 8 target, carried per cell because rows are repainted in isolation
    pub link: Option<Rc<str>>,
    pub ch: char,
}

impl View for Cell {
    type V = CellModel;

    open spec fn view(&self) -> CellModel {
        CellModel { sgr: self.sgr@, link: link_text(self.link), ch: self.ch }
    }
}

pub open spec fn cell_view(cell: Option<Cell>) -> Option<CellModel> {
    match cell {
        Some(c) => Some(c@),
        None => None,
    }
}

pub open spec fn row_view(row: Seq<Option<Cell>>) -> RowModel {
    row.map_values(|c: Option<Cell>| cell_view(c))
}

pub open spec fn rows_view(rows: Seq<Vec<Option<Cell>>>) -> Seq<RowModel> {
    rows.map_values(|row: Vec<Option<Cell>>| row_view(row@))
}

#[derive(Default)]
pub struct Grid {
    pub rows: Vec<Vec<Option<Cell>>>,
    pub width: usize,
    pub height: usize,
    pub cursor_row: usize,
    pub cursor_col: usize,
    pub cursor_visible: bool,
    /// last row with content, counted from zero
    pub content_bottom: usize,
}

impl View for Grid {
    type V = GridModel;

    open spec fn view(&self) -> GridModel {
        GridModel {
            rows: rows_view(self.rows@),
            width: self.width as nat,
            height: self.height as nat,
            cursor_row: self.cursor_row as nat,
            cursor_col: self.cursor_col as nat,
            cursor_visible: self.cursor_visible,
            content_bottom: self.content_bottom as nat,
        }
    }
}

fn blank_line(width: usize) -> (row: Vec<Option<Cell>>)
    ensures
        row_view(row@) == Seq::new(width as nat, |c: int| None::<CellModel>),
{
    let mut row: Vec<Option<Cell>> = Vec::new();
    let mut c: usize = 0;
    while c < width
        invariant
            c <= width,
            row@.len() == c,
            forall|i: int| 0 <= i < c ==> row@[i] is None,
        decreases width - c,
    {
        row.push(None);
        c += 1;
    }
    assert(row_view(row@) =~= Seq::new(width as nat, |c: int| None::<CellModel>));
    row
}

/// Reads one field of a cursor position, counted from zero.
fn read_field(chars: &[char]) -> (n: usize)
    ensures
        n == position_field(chars@),
{
    match parse_unsigned(chars, usize::MAX as u64) {
        Some(v) => if v >= 1 {
            (v - 1) as usize
        } else {
            0
        },
        None => 0,
    }
}

/// Reads a cursor position: row and column, counted from zero.
fn read_position(params: &str) -> (at: (usize, usize))
    ensures
        at.0 == position_row(params@),
        at.1 == position_col(params@),
{
    let chars = chars_of(params);
    let all = chars.as_slice();
    let k = find_char(all, ';', 0);
    let head = slice_subrange(all, 0, k);
    assert(head@ =~= params@.take(k as int));
    let row = read_field(head);
    if k == all.len() {
        return (row, 0);
    }
    let rest = slice_subrange(all, k + 1, all.len());
    assert(rest@ =~= params@.skip(k + 1));
    let m = find_char(rest, ';', 0);
    let second = slice_subrange(rest, 0, m);
    assert(second@ =~= rest@.take(m as int));
    (row, read_field(second))
}

/// Does a row show anything but blanks?
fn shows_content(row: &Vec<Option<Cell>>) -> (r: bool)
    ensures
        r == has_content(row_view(row@)),
{
    let mut c: usize = 0;
    while c < row.len()
        invariant
            c <= row@.len(),
            forall|j: int|
                0 <= j < c ==> !(#[trigger] row_view(row@)[j] matches Some(cell) && cell.ch
                    != ' '),
        decreases row@.len() - c,
    {
        if let Some(cell) = &row[c] {
            if cell.ch != ' ' {
                assert(row_view(row@)[c as int] matches Some(m) && m.ch != ' ');
                return true;
            }
        }
        c += 1;
    }
    false
}

impl Grid {
    pub open spec fn wf(self) -> bool {
        self@.wf()
    }

    pub fn new() -> (g: Grid)
        ensures
            g.wf(),
            g@ == (GridModel {
                rows: Seq::empty(),
                width: 0,
                height: 0,
                cursor_row: 0,
                cursor_col: 0,
                cursor_visible: true,
                content_bottom: 0,
            }),
    {
        let g = Grid {
            rows: Vec::new(),
            width: 0,
            height: 0,
            cursor_row: 0,
            cursor_col: 0,
            cursor_visible: true,
            content_bottom: 0,
        };
        assert(rows_view(g.rows@) =~= Seq::empty());
        g
    }

    pub fn resize(&mut self, width: usize, height: usize)
        ensures
            old(self).wf() ==> final(self).wf(),
            final(self)@ == old(self)@.resize(width as nat, height as nat),
    {
        if width == self.width && height == self.height {
            return;
        }
        self.width = width;
        self.height = height;
        self.clear();
    }

    pub fn clear(&mut self)
        ensures
            final(self).wf(),
            final(self)@ == old(self)@.clear(),
    {
        let mut rows: Vec<Vec<Option<Cell>>> = Vec::new();
        let mut r: usize = 0;
        let width = self.width;
        let height = self.height;
        while r < height
            invariant
                r <= height,
                rows@.len() == r,
                forall|i: int|
                    0 <= i < r ==> row_view((#[trigger] rows@[i])@) == Seq::new(
                        width as nat,
                        |c: int| None::<CellModel>,
                    ),
            decreases height - r,
        {
            rows.push(blank_line(width));
            r += 1;
        }
        assert(rows_view(rows@) =~= blank_rows(width as nat, height as nat));
        self.rows = rows;
        self.content_bottom = 0;
    }

    /// Sets one cell.
    fn put(&mut self, row: usize, col: usize, cell: Option<Cell>)
        requires
            old(self).wf(),
            row < old(self).height,
            col < old(self).width,
        ensures
            final(self).wf(),
            final(self)@ == (GridModel {
                rows: put(old(self)@.rows, row as int, col as int, cell_view(cell)),
                ..old(self)@
            }),
    {
        proof {
            assert(self@.rows[row as int].len() == self.width);
        }
        self.rows[row][col] = cell;
        proof {
            assert(self@.rows[row as int] =~= old(self)@.rows[row as int].update(
                col as int,
                cell_view(cell),
            ));
            assert(self@.rows =~= put(old(self)@.rows, row as int, col as int, cell_view(cell)));
        }
    }

    /// This grid with a pen on it.
    pub open spec fn pen(
        self,
        row: nat,
        col: nat,
        sgr: Seq<char>,
        link: Option<Seq<char>>,
    ) -> Screen {
        Screen {
            rows: self@.rows,
            width: self@.width,
            height: self@.height,
            visible: self@.cursor_visible,
            row,
            col,
            sgr,
            link,
        }
    }

    /// Draws a character at the pen and returns the pen's next column.
    fn print(
        &mut self,
        row: usize,
        col: usize,
        sgr: &Rc<str>,
        link: &Option<Rc<str>>,
        ch: char,
    ) -> (next: usize)
        requires
            old(self).wf(),
        ensures
            final(self).wf(),
            final(self).pen(row as nat, next as nat, sgr@, link_text(*link)) == old(self).pen(
                row as nat,
                col as nat,
                sgr@,
                link_text(*link),
            ).print(ch),
    {
        let w = cw(ch);
        if row < self.height && col < self.width {
            self.put(row, col, Some(Cell { sgr: share(sgr), link: share_link(link), ch }));
            // a wide character spans two columns: clear any stale cell in the
            // spacer slot so that a delta frame cannot leave mixed glyphs
            if w == 2 && col + 1 < self.width {
                self.put(row, col + 1, None);
            }
        }
        col.saturating_add(w)
    }

    /// Recomputes the last row with content. A delta frame can erase content
    /// with spaces, and a stale bottom would anchor the window on blank rows.
    fn find_content(&self) -> (bottom: usize)
        ensures
            bottom == last_content(self@.rows, self@.rows.len() as int),
    {
        let mut n: usize = self.rows.len();
        while n > 0
            invariant
                n <= self.rows@.len(),
                last_content(self@.rows, n as int) == last_content(
                    self@.rows,
                    self@.rows.len() as int,
                ),
            decreases n,
        {
            if shows_content(&self.rows[n - 1]) {
                return n - 1;
            }
            n -= 1;
        }
        0
    }

    /// Draws a frame.
    pub fn apply(&mut self, ansi: &str)
        requires
            old(self).wf(),
        ensures
            final(self).wf(),
            final(self)@ == old(self)@.apply(ansi@),
    {
        let chars = chars_of(ansi);
        let mut row: usize = 0;
        let mut col: usize = 0;
        let mut sgr: Rc<str> = shared_str("");
        let mut link: Option<Rc<str>> = None;
        let mut i: usize = 0;
        proof {
            reveal_strlit("");
            assert(sgr@ =~= Seq::empty());
            assert(chars@.skip(0) =~= chars@);
        }
        while i < chars.len()
            invariant
                i <= chars@.len(),
                chars@ == ansi@,
                self.wf(),
                self.width == old(self).width,
                self.height == old(self).height,
                self.pen(row as nat, col as nat, sgr@, link_text(link)).run(chars@.skip(i as int))
                    == old(self)@.start().run(ansi@),
            decreases chars@.len() - i,
        {
            let rest = slice_subrange(chars.as_slice(), i, chars.len());
            let ghost before = self.pen(row as nat, col as nat, sgr@, link_text(link));
            proof {
                assert(rest@ =~= chars@.skip(i as int));
                lemma_token_len(rest@);
                assert(rest@.skip(token(rest@).1) =~= chars@.skip(i + token(rest@).1));
            }
            if rest[0] == '\u{1b}' {
                if let Some((params, last, len)) = parse_csi(rest) {
                    if last == 'H' {
                        let at = read_position(params.as_str());
                        row = at.0;
                        col = at.1;
                    } else if last == 'm' {
                        let style = slice_subrange(rest, 0, len);
                        assert(style@ =~= rest@.take(len as int));
                        let text = string_of(style);
                        sgr = shared_str(text.as_str());
                    } else if last == 'J' {
                        self.clear();
                    } else if last == 'h' || last == 'l' {
                        proof {
                            reveal_strlit("?25");
                            assert("?25"@ =~= cursor_mode());
                        }
                        if same_text(params.as_str(), "?25") {
                            self.cursor_visible = last == 'h';
                        }
                    }
                    assert(self.pen(row as nat, col as nat, sgr@, link_text(link)) == before.feed(
                        token(rest@).0,
                    ));
                    i += len;
                } else if let Some(len) = parse_osc(rest) {
                    let seq = slice_subrange(rest, 0, len);
                    assert(seq@ =~= rest@.take(len as int));
                    // presentation-free apart from OSC 8, which carries the
                    // hyperlink that a click needs
                    if let Some(target) = parse_osc8(seq) {
                        link = target;
                    }
                    assert(self.pen(row as nat, col as nat, sgr@, link_text(link)) == before.feed(
                        token(rest@).0,
                    ));
                    i += len;
                } else {
                    // two-byte escape (charset selection and the like)
                    i = if chars.len() - i < 2 {
                        chars.len()
                    } else {
                        i + 2
                    };
                }
            } else {
                let ch = rest[0];
                if ch == '\t' {
                    col = self.print(row, col, &sgr, &link, ' ');
                } else if ch >= ' ' {
                    col = self.print(row, col, &sgr, &link, ch);
                }
                i += 1;
            }
        }
        // the pen position is the cursor: a frame ends with an explicit cursor
        // position followed only by visibility toggles
        self.cursor_row = row;
        self.cursor_col = col;
        self.content_bottom = self.find_content();
    }

    /// The text of each row, without the blanks at its end.
    pub fn text_lines(&self) -> (lines: Vec<String>)
        ensures
            texts(lines@) == self@.text_lines(),
    {
        let mut lines: Vec<String> = Vec::new();
        let mut r: usize = 0;
        while r < self.rows.len()
            invariant
                r <= self.rows@.len(),
                lines@.len() == r,
                forall|i: int|
                    0 <= i < r ==> (#[trigger] lines@[i])@ == row_text(self@.rows[i]),
            decreases self.rows@.len() - r,
        {
            lines.push(line_text(&self.rows[r]));
            r += 1;
        }
        assert(texts(lines@) =~= self@.text_lines());
        lines
    }
}

/// The text of a row, without the blanks at its end.
fn line_text(row: &Vec<Option<Cell>>) -> (text: String)
    ensures
        text@ == row_text(row_view(row@)),
{
    let mut chars: Vec<char> = Vec::new();
    let mut c: usize = 0;
    while c < row.len()
        invariant
            c <= row@.len(),
            chars@.len() == c,
            forall|i: int| 0 <= i < c ==> #[trigger] chars@[i] == glyph(row_view(row@)[i]),
        decreases row@.len() - c,
    {
        let ch = match &row[c] {
            Some(cell) => cell.ch,
            None => ' ',
        };
        chars.push(ch);
        c += 1;
    }
    let ghost model = row_view(row@);
    assert(chars@ =~= Seq::new(model.len(), |c: int| glyph(model[c])));
    let n = trimmed_len(chars.as_slice());
    let kept = slice_subrange(chars.as_slice(), 0, n);
    assert(kept@ =~= chars@.take(n as int));
    string_of(kept)
}

} // verus!
