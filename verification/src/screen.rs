//! What a frame means: the model of a cell grid and of the pen that a frame of
//! ANSI text moves over it.

use crate::escape::{csi, lemma_csi_len, lemma_osc_len, osc, osc8};
use crate::text::{first_at, trim_end, unsigned_value};
use crate::width::cell_width;
use vstd::prelude::*;

verus! {

/// A painted cell.
pub struct CellModel {
    pub sgr: Seq<char>,
    pub link: Option<Seq<char>>,
    pub ch: char,
}

pub type RowModel = Seq<Option<CellModel>>;

/// A cell grid with its cursor.
#[verifier::ext_equal]
pub struct GridModel {
    pub rows: Seq<RowModel>,
    pub width: nat,
    pub height: nat,
    pub cursor_row: nat,
    pub cursor_col: nat,
    pub cursor_visible: bool,
    pub content_bottom: nat,
}

/// A grid while a frame is being drawn on it: the cells, and the pen with its
/// position, its style and its link.
#[verifier::ext_equal]
pub struct Screen {
    pub rows: Seq<RowModel>,
    pub width: nat,
    pub height: nat,
    pub visible: bool,
    pub row: nat,
    pub col: nat,
    pub sgr: Seq<char>,
    pub link: Option<Seq<char>>,
}

// ---------------------------------------------------------------------------
// tokens

/// One unit of a frame.
pub enum Token {
    /// a CSI sequence: parameters, final byte, and the whole sequence
    Csi { params: Seq<char>, last: char, text: Seq<char> },
    /// an OSC sequence, whole
    Osc { text: Seq<char> },
    /// any other escape: the ESC and the character after it
    Escape,
    /// a character
    Plain(char),
}

/// The unit that a text begins with, and how many characters it takes up.
pub open spec fn token(s: Seq<char>) -> (Token, int) {
    if s[0] != '\u{1b}' {
        (Token::Plain(s[0]), 1)
    } else {
        match csi(s) {
            Some(c) => (
                Token::Csi { params: c.params, last: c.last, text: s.take(c.len) },
                c.len,
            ),
            None => match osc(s) {
                Some(len) => (Token::Osc { text: s.take(len) }, len),
                None => (Token::Escape, if s.len() < 2 {
                    1
                } else {
                    2
                }),
            },
        }
    }
}

/// A unit takes up at least one character of the text that it begins.
pub proof fn lemma_token_len(s: Seq<char>)
    requires
        s.len() > 0,
    ensures
        1 <= token(s).1 <= s.len(),
{
    lemma_csi_len(s);
    lemma_osc_len(s);
}

// ---------------------------------------------------------------------------
// cursor position

/// A field of a cursor position, counted from zero. What is no number, and
/// zero, count as one.
pub open spec fn position_field(field: Seq<char>) -> nat {
    match unsigned_value(field, usize::MAX as nat) {
        Some(v) => if v >= 1 {
            (v - 1) as nat
        } else {
            0
        },
        None => 0,
    }
}

/// The part of a text before the first semicolon.
pub open spec fn first_field(params: Seq<char>) -> Seq<char> {
    params.take(first_at(params, ';', 0))
}

pub open spec fn position_row(params: Seq<char>) -> nat {
    position_field(first_field(params))
}

pub open spec fn position_col(params: Seq<char>) -> nat {
    let k = first_at(params, ';', 0);
    if 0 <= k < params.len() {
        position_field(first_field(params.skip(k + 1)))
    } else {
        0
    }
}

// ---------------------------------------------------------------------------
// drawing

pub open spec fn blank_rows(width: nat, height: nat) -> Seq<RowModel> {
    Seq::new(height, |r: int| Seq::new(width, |c: int| None::<CellModel>))
}

pub open spec fn put(rows: Seq<RowModel>, r: int, c: int, cell: Option<CellModel>) -> Seq<
    RowModel,
> {
    rows.update(r, rows[r].update(c, cell))
}

/// The parameter of the cursor visibility sequences.
pub open spec fn cursor_mode() -> Seq<char> {
    seq!['?', '2', '5']
}

impl Screen {
    /// A character drawn at the pen, which then moves on by the width of the
    /// character. A character of two columns blanks the cell to its right.
    /// Outside the grid nothing is drawn; the pen column stops at the largest
    /// machine integer, which is outside every grid.
    pub open spec fn print(self, ch: char) -> Screen {
        let w = cell_width(ch);
        let cell = Some(CellModel { sgr: self.sgr, link: self.link, ch });
        let rows = if self.row < self.height && self.col < self.width {
            let drawn = put(self.rows, self.row as int, self.col as int, cell);
            if w == 2 && self.col + 1 < self.width {
                put(drawn, self.row as int, self.col as int + 1, None)
            } else {
                drawn
            }
        } else {
            self.rows
        };
        let col = if self.col + w <= usize::MAX {
            self.col + w
        } else {
            usize::MAX as nat
        };
        Screen { rows, col, ..self }
    }

    /// What one unit of a frame does.
    pub open spec fn feed(self, t: Token) -> Screen {
        match t {
            Token::Csi { params, last, text } => if last == 'H' {
                Screen { row: position_row(params), col: position_col(params), ..self }
            } else if last == 'm' {
                Screen { sgr: text, ..self }
            } else if last == 'J' {
                Screen { rows: blank_rows(self.width, self.height), ..self }
            } else if (last == 'h' || last == 'l') && params == cursor_mode() {
                Screen { visible: last == 'h', ..self }
            } else {
                self
            },
            Token::Osc { text } => match osc8(text) {
                Some(link) => Screen { link, ..self },
                None => self,
            },
            Token::Escape => self,
            Token::Plain(c) => if c == '\t' {
                self.print(' ')
            } else if c >= ' ' {
                self.print(c)
            } else {
                self
            },
        }
    }

    /// What a text does, unit by unit.
    pub open spec fn run(self, s: Seq<char>) -> Screen
        decreases s.len(),
    {
        if s.len() == 0 {
            self
        } else {
            proof {
                lemma_token_len(s);
            }
            self.feed(token(s).0).run(s.skip(token(s).1))
        }
    }
}

// ---------------------------------------------------------------------------
// the grid as a whole

/// Does a row show anything but blanks?
pub open spec fn has_content(row: RowModel) -> bool {
    exists|c: int|
        0 <= c < row.len() && (#[trigger] row[c] matches Some(cell) && cell.ch != ' ')
}

/// The last of the first `n` rows that shows something, or row zero.
pub open spec fn last_content(rows: Seq<RowModel>, n: int) -> nat
    decreases n,
{
    if n <= 0 {
        0
    } else if has_content(rows[n - 1]) {
        (n - 1) as nat
    } else {
        last_content(rows, n - 1)
    }
}

/// The character that a cell shows.
pub open spec fn glyph(cell: Option<CellModel>) -> char {
    match cell {
        Some(c) => c.ch,
        None => ' ',
    }
}

/// The text of a row, without the blanks at its end.
pub open spec fn row_text(row: RowModel) -> Seq<char> {
    trim_end(Seq::new(row.len(), |c: int| glyph(row[c])))
}

impl GridModel {
    /// As many rows and columns as the grid says.
    pub open spec fn wf(self) -> bool {
        &&& self.rows.len() == self.height
        &&& forall|r: int| 0 <= r < self.height ==> (#[trigger] self.rows[r]).len() == self.width
    }

    /// A frame starts with the pen at the origin, without style or link.
    pub open spec fn start(self) -> Screen {
        Screen {
            rows: self.rows,
            width: self.width,
            height: self.height,
            visible: self.cursor_visible,
            row: 0,
            col: 0,
            sgr: Seq::empty(),
            link: None,
        }
    }

    /// The grid after a frame: the cursor is where the pen stopped.
    pub open spec fn apply(self, ansi: Seq<char>) -> GridModel {
        let end = self.start().run(ansi);
        GridModel {
            rows: end.rows,
            cursor_row: end.row,
            cursor_col: end.col,
            cursor_visible: end.visible,
            content_bottom: last_content(end.rows, end.rows.len() as int),
            ..self
        }
    }

    /// All cells blank.
    pub open spec fn clear(self) -> GridModel {
        GridModel { rows: blank_rows(self.width, self.height), content_bottom: 0, ..self }
    }

    /// A grid of another size is blank; of the same size it is untouched.
    pub open spec fn resize(self, width: nat, height: nat) -> GridModel {
        if width == self.width && height == self.height {
            self
        } else {
            (GridModel { width, height, ..self }).clear()
        }
    }

    /// The text of each row.
    pub open spec fn text_lines(self) -> Seq<Seq<char>> {
        self.rows.map_values(|row: RowModel| row_text(row))
    }
}

} // verus!
