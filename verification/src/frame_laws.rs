//! What the decoder of frames promises.

use crate::escape::{
    csi, hyperlink_target, intermediates_end, is_intermediate, is_param,
    lemma_csi_len, osc, osc8, osc_body, osc_stop, params_end, without_controls, Csi,
};
use crate::grid::Grid;
use crate::screen::{
    blank_rows, cursor_mode, glyph, has_content, last_content, lemma_token_len, position_col,
    position_field, position_row, put, token, CellModel, GridModel, RowModel, Screen, Token,
};
use crate::text::{
    all_digits, decimal, digit_char, digits_value, first_at, is_control_char, is_digit_char,
    is_white_space_char, trim_end, unsigned_value,
};
use crate::text_laws::law_trim_end_cuts_white_space;
use crate::width::cell_width;
use vstd::prelude::*;

verus! {

// ---------------------------------------------------------------------------
// numbers

/// A number written in decimal is digits, and they read as that number.
pub proof fn law_decimal_reads_back(n: nat)
    ensures
        decimal(n).len() >= 1,
        all_digits(decimal(n)),
        digits_value(decimal(n)) == n,
        forall|max: nat| n <= max ==> #[trigger] unsigned_value(decimal(n), max) == Some(n),
    decreases n,
{
    if n < 10 {
        assert(decimal(n) =~= seq![digit_char(n)]);
        assert(is_digit_char(digit_char(n)));
        assert(decimal(n).drop_last() =~= Seq::empty());
        assert(digits_value(Seq::<char>::empty()) == 0);
        assert(decimal(n).last() == digit_char(n));
    } else {
        law_decimal_reads_back(n / 10);
        let d = digit_char(n % 10);
        assert(is_digit_char(d));
        assert(decimal(n) == decimal(n / 10).push(d));
        assert(decimal(n).drop_last() =~= decimal(n / 10));
        assert(decimal(n).last() == d);
        assert forall|i: int| 0 <= i < decimal(n).len() implies is_digit_char(
            #[trigger] decimal(n)[i],
        ) by {
            if i < decimal(n / 10).len() {
                assert(decimal(n)[i] == decimal(n / 10)[i]);
            }
        }
    }
    assert(is_digit_char(decimal(n)[0]));
}

/// A number below a power of ten has no more digits than the power has zeros.
pub proof fn lemma_decimal_len(n: nat, digits: nat)
    requires
        digits >= 1,
        n < pow10(digits),
    ensures
        decimal(n).len() <= digits,
    decreases digits,
{
    if digits > 1 && n >= 10 {
        assert(n / 10 < pow10((digits - 1) as nat));
        lemma_decimal_len(n / 10, (digits - 1) as nat);
    } else if digits == 1 {
        reveal_with_fuel(pow10, 2);
    }
}

/// A power of ten.
pub open spec fn pow10(digits: nat) -> nat
    decreases digits,
{
    if digits == 0 {
        1
    } else {
        10 * pow10((digits - 1) as nat)
    }
}

/// A machine integer has at most twenty digits.
pub proof fn lemma_machine_decimal_len(n: nat)
    requires
        n <= usize::MAX,
    ensures
        decimal(n).len() <= 20,
{
    assert(pow10(20) == 100_000_000_000_000_000_000) by {
        reveal_with_fuel(pow10, 21);
    }
    lemma_decimal_len(n, 20);
}

// ---------------------------------------------------------------------------
// escape sequences

proof fn lemma_params_end_is(s: Seq<char>, i: int, m: int)
    requires
        0 <= i <= m < s.len(),
        forall|j: int| i <= j < m ==> is_param(#[trigger] s[j]),
        !is_param(s[m]),
    ensures
        params_end(s, i) == m,
    decreases m - i,
{
    if i < m {
        assert(is_param(s[i]));
        lemma_params_end_is(s, i + 1, m);
    }
}

proof fn lemma_intermediates_end_is(s: Seq<char>, i: int, k: int)
    requires
        0 <= i <= k < s.len(),
        forall|j: int| i <= j < k ==> is_intermediate(#[trigger] s[j]),
        !is_intermediate(s[k]),
    ensures
        intermediates_end(s, i) == k,
    decreases k - i,
{
    if i < k {
        assert(is_intermediate(s[i]));
        lemma_intermediates_end_is(s, i + 1, k);
    }
}

/// Is a text one CSI sequence: `ESC [`, parameters up to `m`, intermediates,
/// and the final byte, within the length that is recognised?
pub open spec fn is_csi(p: Seq<char>, m: int) -> bool {
    &&& 2 <= m < p.len() <= 64
    &&& p[0] == '\u{1b}'
    &&& p[1] == '['
    &&& forall|j: int| 2 <= j < m ==> '\u{30}' <= #[trigger] p[j] <= '\u{3f}'
    &&& forall|j: int| m <= j < p.len() - 1 ==> '\u{20}' <= #[trigger] p[j] <= '\u{2f}'
    &&& '\u{40}' <= p.last() <= '\u{7e}'
}

/// Every CSI sequence is consumed whole, whatever follows it, and none of it
/// is printed.
pub proof fn law_a_csi_is_consumed_whole(p: Seq<char>, m: int, t: Seq<char>, s: Screen)
    requires
        is_csi(p, m),
    ensures
        token(p + t) == (
            Token::Csi { params: p.subrange(2, m), last: p.last(), text: p },
            p.len() as int,
        ),
        s.run(p + t) == s.feed(
            Token::Csi { params: p.subrange(2, m), last: p.last(), text: p },
        ).run(t),
{
    let all = p + t;
    let k = p.len() - 1;
    assert forall|j: int| 2 <= j < m implies is_param(#[trigger] all[j]) by {
        assert(all[j] == p[j]);
    }
    assert forall|j: int| m <= j < k implies is_intermediate(#[trigger] all[j]) by {
        assert(all[j] == p[j]);
    }
    assert(all[k] == p.last());
    assert(all[m] == p[m]);
    if m < k {
        assert(is_intermediate(p[m]));
    }
    lemma_params_end_is(all, 2, m);
    lemma_intermediates_end_is(all, m, k);
    assert(all.subrange(2, m) =~= p.subrange(2, m));
    assert(all.take(p.len() as int) =~= p);
    assert(all.skip(p.len() as int) =~= t);
    assert(csi(all) == Some(Csi { params: p.subrange(2, m), last: p.last(), len: k + 1 }));
}

/// What is recognised as a CSI sequence is one.
pub proof fn lemma_csi_is_csi(s: Seq<char>)
    ensures
        csi(s) matches Some(c) ==> is_csi(s.take(c.len), 2 + c.params.len() as int)
            && c.params == s.take(
            c.len,
        ).subrange(2, 2 + c.params.len() as int),
{
    if let Some(c) = csi(s) {
        let m = params_end(s, 2);
        lemma_csi_len(s);
        lemma_params_run(s, 2);
        lemma_intermediates_run(s, m);
        let p = s.take(c.len);
        assert(p.last() == s[c.len - 1]);
        assert(p.subrange(2, m) =~= s.subrange(2, m));
        assert(c.params.len() == m - 2);
    }
}

proof fn lemma_params_run(s: Seq<char>, i: int)
    requires
        0 <= i <= s.len(),
    ensures
        i <= params_end(s, i) <= s.len(),
        forall|j: int| i <= j < params_end(s, i) ==> is_param(#[trigger] s[j]),
    decreases s.len() - i,
{
    if i < s.len() && is_param(s[i]) {
        lemma_params_run(s, i + 1);
    }
}

proof fn lemma_intermediates_run(s: Seq<char>, i: int)
    requires
        0 <= i <= s.len(),
    ensures
        i <= intermediates_end(s, i) <= s.len(),
        forall|j: int| i <= j < intermediates_end(s, i) ==> is_intermediate(#[trigger] s[j]),
    decreases s.len() - i,
{
    if i < s.len() && is_intermediate(s[i]) {
        lemma_intermediates_run(s, i + 1);
    }
}

/// Has the decoder no use for a CSI sequence with these parameters and this
/// final byte? It is no position, no style, no erase and no cursor visibility.
pub open spec fn is_unused_csi(params: Seq<char>, last: char) -> bool {
    &&& last != 'H' && last != 'm' && last != 'J'
    &&& (last == 'h' || last == 'l') ==> params != cursor_mode()
}

/// A CSI sequence that the decoder has no use for is as if it were not there:
/// neither its parameters nor its intermediates are printed.
pub proof fn law_an_unused_csi_changes_nothing(p: Seq<char>, m: int, t: Seq<char>, s: Screen)
    requires
        is_csi(p, m),
        is_unused_csi(p.subrange(2, m), p.last()),
    ensures
        s.run(p + t) == s.run(t),
{
    law_a_csi_is_consumed_whole(p, m, t, s);
}

proof fn lemma_osc_stop_is(s: Seq<char>, i: int, k: int)
    requires
        0 <= i <= k < s.len(),
        forall|j: int| i <= j < k ==> s[j] != '\u{7}' && s[j] != '\u{1b}',
        s[k] == '\u{7}' || s[k] == '\u{1b}',
    ensures
        osc_stop(s, i) == k,
    decreases k - i,
{
    if i < k {
        lemma_osc_stop_is(s, i + 1, k);
    }
}

/// Is a text one OSC sequence whose terminator begins at `k`: BEL, or `ESC \`?
pub open spec fn is_osc_to(p: Seq<char>, k: int) -> bool {
    &&& 2 <= k < p.len()
    &&& p[0] == '\u{1b}'
    &&& p[1] == ']'
    &&& forall|j: int| 2 <= j < k ==> p[j] != '\u{7}' && p[j] != '\u{1b}'
    &&& (p[k] == '\u{7}' && k + 1 == p.len()) || (p[k] == '\u{1b}' && k + 2 == p.len() && p[k
        + 1] == '\\')
}

/// Is a text one OSC sequence?
pub open spec fn is_osc(p: Seq<char>) -> bool {
    exists|k: int| #[trigger] is_osc_to(p, k)
}

/// Every OSC sequence is consumed whole, whatever follows it.
pub proof fn law_an_osc_is_consumed_whole(p: Seq<char>, t: Seq<char>, s: Screen)
    requires
        is_osc(p),
    ensures
        token(p + t) == (Token::Osc { text: p }, p.len() as int),
        s.run(p + t) == s.feed(Token::Osc { text: p }).run(t),
{
    let all = p + t;
    let k = choose|k: int| #[trigger] is_osc_to(p, k);
    assert forall|j: int| 2 <= j < k implies all[j] != '\u{7}' && all[j] != '\u{1b}' by {
        assert(all[j] == p[j]);
    }
    assert(all[k] == p[k]);
    if p[k] == '\u{1b}' {
        assert(all[k + 1] == p[k + 1]);
    }
    lemma_osc_stop_is(all, 2, k);
    assert(all.take(p.len() as int) =~= p);
    assert(all.skip(p.len() as int) =~= t);
    assert(csi(all) is None);
}

/// An OSC sequence that is no hyperlink is as if it were not there.
pub proof fn law_another_osc_changes_nothing(p: Seq<char>, t: Seq<char>, s: Screen)
    requires
        is_osc(p),
        osc8(p) is None,
    ensures
        s.run(p + t) == s.run(t),
{
    law_an_osc_is_consumed_whole(p, t, s);
}

/// A character that is no escape is consumed alone.
pub proof fn lemma_plain(c: char, t: Seq<char>, s: Screen)
    requires
        c != '\u{1b}',
    ensures
        s.run(seq![c] + t) == s.feed(Token::Plain(c)).run(t),
{
    let all = seq![c] + t;
    assert(all[0] == c);
    assert(all.skip(1) =~= t);
}

// ---------------------------------------------------------------------------
// hyperlinks

/// A link that may be written to a terminal: not empty, and without control
/// characters, which would end its sequence early.
pub open spec fn is_clean_link(uri: Seq<char>) -> bool {
    &&& uri.len() > 0
    &&& forall|i: int| 0 <= i < uri.len() ==> !is_control_char(#[trigger] uri[i])
}

proof fn lemma_without_controls(s: Seq<char>)
    ensures
        forall|i: int|
            0 <= i < without_controls(s).len() ==> !is_control_char(
                #[trigger] without_controls(s)[i],
            ),
        (forall|i: int| 0 <= i < s.len() ==> !is_control_char(#[trigger] s[i]))
            ==> without_controls(s) == s,
    decreases s.len(),
{
    if s.len() > 0 {
        lemma_without_controls(s.drop_last());
        let before = without_controls(s.drop_last());
        let kept = without_controls(s);
        assert forall|i: int| 0 <= i < kept.len() implies !is_control_char(#[trigger] kept[i]) by {
            if i < before.len() {
                assert(kept[i] == before[i]);
            }
        }
        if forall|i: int| 0 <= i < s.len() ==> !is_control_char(#[trigger] s[i]) {
            assert forall|i: int| 0 <= i < s.drop_last().len() implies !is_control_char(
                #[trigger] s.drop_last()[i],
            ) by {
                assert(s.drop_last()[i] == s[i]);
            }
            assert(!is_control_char(s[s.len() - 1]));
            assert(s.drop_last().push(s.last()) =~= s);
        }
    }
}

/// Whatever a hyperlink sequence holds, the link that it opens is clean.
pub proof fn law_links_are_clean(s: Seq<char>)
    ensures
        osc8(s) matches Some(Some(uri)) ==> is_clean_link(uri),
{
    if let Some(body) = osc_body(s) {
        let rest = body.skip(2);
        let k = first_at(rest, ';', 0);
        lemma_without_controls(rest.skip(k + 1));
    }
}

/// A hyperlink sequence without its second semicolon closes the link: it does
/// not leave the one before it open.
pub proof fn law_a_malformed_hyperlink_closes(rest: Seq<char>)
    requires
        forall|i: int| 0 <= i < rest.len() ==> rest[i] != ';',
    ensures
        hyperlink_target(rest) is None,
{
    lemma_not_found(rest, ';', 0);
}

proof fn lemma_not_found(s: Seq<char>, c: char, from: int)
    requires
        0 <= from <= s.len(),
        forall|i: int| from <= i < s.len() ==> s[i] != c,
    ensures
        first_at(s, c, from) == s.len(),
    decreases s.len() - from,
{
    if from < s.len() {
        lemma_not_found(s, c, from + 1);
    }
}

/// What opens or closes a link in a terminal is read back as that link.
pub proof fn law_a_clean_link_reads_back(uri: Seq<char>)
    requires
        is_clean_link(uri),
    ensures
        is_osc("\x1b]8;;"@ + uri + "\x1b\\"@),
        osc8("\x1b]8;;"@ + uri + "\x1b\\"@) == Some(Some(uri)),
{
    reveal_strlit("\x1b]8;;");
    reveal_strlit("\x1b\\");
    let p = "\x1b]8;;"@ + uri + "\x1b\\"@;
    let n = p.len();
    assert forall|j: int| 2 <= j < n - 2 implies p[j] != '\u{7}' && p[j] != '\u{1b}' by {
        if j >= 5 {
            assert(p[j] == uri[j - 5]);
            assert(!is_control_char(uri[j - 5]));
        }
    }
    assert(p[n - 2] == '\u{1b}');
    assert(p[n - 1] == '\\');
    assert(is_osc_to(p, n - 2));
    let body = p.skip(2);
    assert(body[body.len() - 1] == '\\' && body[body.len() - 2] == '\u{1b}');
    let inner = body.take(body.len() - 2);
    assert(osc_body(p) == Some(inner));
    assert(inner[0] == '8' && inner[1] == ';' && inner[2] == ';');
    let rest = inner.skip(2);
    assert(rest[0] == ';');
    assert(first_at(rest, ';', 0) == 0);
    assert(rest.skip(1) =~= uri);
    lemma_without_controls(uri);
}

pub proof fn law_a_closed_link_reads_back()
    ensures
        is_osc("\x1b]8;;\x1b\\"@),
        osc8("\x1b]8;;\x1b\\"@) == Some(None::<Seq<char>>),
{
    reveal_strlit("\x1b]8;;\x1b\\");
    let p = "\x1b]8;;\x1b\\"@;
    assert(is_osc_to(p, 5));
    let body = p.skip(2);
    let inner = body.take(body.len() - 2);
    assert(osc_body(p) == Some(inner));
    assert(inner[0] == '8' && inner[1] == ';' && inner[2] == ';');
    let rest = inner.skip(2);
    assert(rest[0] == ';');
    assert(first_at(rest, ';', 0) == 0);
    assert(rest.skip(1) =~= Seq::empty());
    assert(without_controls(Seq::<char>::empty()) =~= Seq::empty());
}

// ---------------------------------------------------------------------------
// cells

/// Is a text a style: one CSI sequence with the final byte `m`?
pub open spec fn is_style(sgr: Seq<char>) -> bool {
    &&& csi(sgr) matches Some(c) && c.last == 'm' && c.len == sgr.len()
}

/// A cell that may be written to a terminal: its style is complete, its link is
/// clean, and its character is no control character of ASCII.
pub open spec fn is_clean_cell(cell: Option<CellModel>) -> bool {
    match cell {
        Some(c) => {
            &&& c.sgr.len() == 0 || is_style(c.sgr)
            &&& c.link matches Some(uri) ==> is_clean_link(uri)
            &&& c.ch >= ' '
        },
        None => true,
    }
}

pub open spec fn is_clean_row(row: RowModel) -> bool {
    forall|c: int| 0 <= c < row.len() ==> is_clean_cell(#[trigger] row[c])
}

pub open spec fn are_clean_rows(rows: Seq<RowModel>) -> bool {
    forall|r: int| 0 <= r < rows.len() ==> is_clean_row(#[trigger] rows[r])
}

/// A screen whose cells and pen are clean, with as many rows and columns as it
/// says.
pub open spec fn is_clean_screen(s: Screen) -> bool {
    &&& s.rows.len() == s.height
    &&& forall|r: int| 0 <= r < s.height ==> (#[trigger] s.rows[r]).len() == s.width
    &&& are_clean_rows(s.rows)
    &&& s.sgr.len() == 0 || is_style(s.sgr)
    &&& s.link matches Some(uri) ==> is_clean_link(uri)
}

proof fn lemma_put_is_clean(rows: Seq<RowModel>, r: int, c: int, cell: Option<CellModel>)
    requires
        are_clean_rows(rows),
        0 <= r < rows.len(),
        0 <= c < rows[r].len(),
        is_clean_cell(cell),
    ensures
        are_clean_rows(put(rows, r, c, cell)),
{
    let after = put(rows, r, c, cell);
    assert forall|i: int| 0 <= i < after.len() implies is_clean_row(#[trigger] after[i]) by {
        assert(is_clean_row(rows[i]));
        assert forall|j: int| 0 <= j < after[i].len() implies is_clean_cell(
            #[trigger] after[i][j],
        ) by {
            if i != r || j != c {
                assert(after[i][j] == rows[i][j]);
            }
        }
    }
}

proof fn lemma_print_is_clean(s: Screen, ch: char)
    requires
        is_clean_screen(s),
        ch >= ' ',
    ensures
        is_clean_screen(s.print(ch)),
{
    let cell = Some(CellModel { sgr: s.sgr, link: s.link, ch });
    if s.row < s.height && s.col < s.width {
        assert(s.rows[s.row as int].len() == s.width);
        lemma_put_is_clean(s.rows, s.row as int, s.col as int, cell);
        let drawn = put(s.rows, s.row as int, s.col as int, cell);
        if cell_width(ch) == 2 && s.col + 1 < s.width {
            lemma_put_is_clean(drawn, s.row as int, s.col as int + 1, None);
        }
    }
}

proof fn lemma_feed_is_clean(s: Screen, text: Seq<char>)
    requires
        is_clean_screen(s),
        text.len() > 0,
    ensures
        is_clean_screen(s.feed(token(text).0)),
{
    match token(text).0 {
        Token::Csi { params, last, text: whole } => {
            lemma_csi_is_csi(text);
            let c = csi(text)->0;
            lemma_csi_len(text);
            law_a_csi_is_consumed_whole(whole, 2 + c.params.len() as int, Seq::empty(), s);
            assert(whole + Seq::<char>::empty() =~= whole);
            assert(csi(whole) is Some);
            if last == 'J' {
                let blank = blank_rows(s.width, s.height);
                assert forall|r: int| 0 <= r < blank.len() implies is_clean_row(
                    #[trigger] blank[r],
                ) by {}
            }
        },
        Token::Osc { text: whole } => {
            law_links_are_clean(whole);
        },
        Token::Escape => {},
        Token::Plain(c) => {
            if c == '\t' {
                lemma_print_is_clean(s, ' ');
            } else if c >= ' ' {
                lemma_print_is_clean(s, c);
            }
        },
    }
}

proof fn lemma_run_is_clean(s: Screen, text: Seq<char>)
    requires
        is_clean_screen(s),
    ensures
        is_clean_screen(s.run(text)),
        s.run(text).width == s.width,
        s.run(text).height == s.height,
    decreases text.len(),
{
    if text.len() > 0 {
        lemma_token_len(text);
        lemma_feed_is_clean(s, text);
        lemma_run_is_clean(s.feed(token(text).0), text.skip(token(text).1));
    }
}

/// A grid in which all cells are clean.
pub open spec fn is_clean_grid(g: GridModel) -> bool {
    g.wf() && are_clean_rows(g.rows)
}

/// Whatever a remote sends, the cells that its frames leave can be written to
/// the local terminal: complete styles, links without control characters, and
/// no control character of ASCII. A blank grid is clean, and a grid keeps its
/// size.
pub proof fn law_frames_leave_clean_cells(g: GridModel, ansi: Seq<char>, width: nat, height: nat)
    requires
        is_clean_grid(g),
    ensures
        is_clean_grid(g.apply(ansi)),
        is_clean_grid(g.resize(width, height)),
        is_clean_grid(g.clear()),
        forall|blank: GridModel|
            #[trigger] blank.rows == blank_rows(blank.width, blank.height) ==> is_clean_grid(blank),
        g.apply(ansi).width == g.width && g.apply(ansi).height == g.height,
{
    lemma_run_is_clean(g.start(), ansi);
    assert(is_clean_grid(g.clear()));
    assert(is_clean_grid(g.resize(width, height)));
}

// ---------------------------------------------------------------------------
// drawing

/// A character changes the cell at the pen and, if it is wide, blanks the cell
/// to its right, where nothing stale survives. All other cells stay.
pub proof fn law_a_character_changes_its_own_cells(s: Screen, ch: char, r: int, c: int)
    requires
        s.rows.len() == s.height,
        forall|i: int| 0 <= i < s.height ==> (#[trigger] s.rows[i]).len() == s.width,
        0 <= r < s.height,
        0 <= c < s.width,
    ensures
        s.print(ch).rows[r][c] == if r == s.row && c == s.col {
            Some(CellModel { sgr: s.sgr, link: s.link, ch })
        } else if r == s.row && c == s.col + 1 && cell_width(ch) == 2 {
            None
        } else {
            s.rows[r][c]
        },
{
    assert(s.rows[r].len() == s.width);
    if s.row < s.height && s.col < s.width {
        assert(s.rows[s.row as int].len() == s.width);
    }
}

/// Is a cell blank: never drawn, or drawn with a space?
pub open spec fn is_blank(cell: Option<CellModel>) -> bool {
    match cell {
        Some(c) => c.ch == ' ',
        None => true,
    }
}

/// After a frame the content bottom is the last row that shows something: all
/// cells below it are blank, and one of its own is not, unless it is row zero.
pub proof fn law_content_bottom_is_the_last_content(g: GridModel, ansi: Seq<char>)
    ensures
        ({
            let after = g.apply(ansi);
            let bottom = after.content_bottom;
            &&& forall|r: int|
                bottom < r < after.rows.len() ==> !has_content(#[trigger] after.rows[r])
            &&& bottom > 0 ==> bottom < after.rows.len() && has_content(after.rows[bottom as int])
            &&& forall|r: int, c: int|
                bottom < r < after.rows.len() && 0 <= c < after.rows[r].len() ==> is_blank(
                    #[trigger] after.rows[r][c],
                )
            &&& bottom > 0 ==> exists|c: int|
                0 <= c < after.rows[bottom as int].len() && !is_blank(
                    #[trigger] after.rows[bottom as int][c],
                )
        }),
{
    let after = g.apply(ansi);
    let rows = after.rows;
    lemma_last_content(rows, rows.len() as int);
    let bottom = after.content_bottom as int;
    assert forall|r: int, c: int|
        bottom < r < rows.len() && 0 <= c < rows[r].len() implies is_blank(
        #[trigger] rows[r][c],
    ) by {
        assert(!has_content(rows[r]));
        if !is_blank(rows[r][c]) {
            assert(rows[r][c] matches Some(cell) && cell.ch != ' ');
        }
    }
    if bottom > 0 {
        let row = rows[bottom];
        assert(has_content(row));
        let c = choose|c: int|
            0 <= c < row.len() && (#[trigger] row[c] matches Some(cell) && cell.ch != ' ');
        assert(!is_blank(row[c]));
        assert(!is_blank(rows[bottom][c]));
    }
}

/// A cell that is not blank is never below the content bottom, whatever
/// character it holds.
pub proof fn law_content_is_not_below_the_bottom(g: GridModel, ansi: Seq<char>, r: int, c: int)
    requires
        0 <= r < g.apply(ansi).rows.len(),
        0 <= c < g.apply(ansi).rows[r].len(),
        g.apply(ansi).rows[r][c] matches Some(cell) && cell.ch != ' ',
    ensures
        r <= g.apply(ansi).content_bottom,
{
    law_content_bottom_is_the_last_content(g, ansi);
    let rows = g.apply(ansi).rows;
    if r > g.apply(ansi).content_bottom {
        assert(is_blank(rows[r][c]));
    }
}

proof fn lemma_last_content(rows: Seq<RowModel>, n: int)
    requires
        0 <= n <= rows.len(),
    ensures
        forall|r: int| last_content(rows, n) < r < n ==> !has_content(#[trigger] rows[r]),
        last_content(rows, n) > 0 ==> last_content(rows, n) < n && has_content(
            rows[last_content(rows, n) as int],
        ),
    decreases n,
{
    if n > 0 && !has_content(rows[n - 1]) {
        lemma_last_content(rows, n - 1);
    }
}

// ---------------------------------------------------------------------------
// frames drawn twice

/// Do two screens have the same size and the same pen?
spec fn same_pen(a: Screen, b: Screen) -> bool {
    a.width == b.width && a.height == b.height && a.row == b.row && a.col == b.col && a.sgr
        == b.sgr && a.link == b.link
}

/// As many rows and columns as the screen says.
spec fn is_whole(s: Screen) -> bool {
    &&& s.rows.len() == s.height
    &&& forall|r: int| 0 <= r < s.height ==> (#[trigger] s.rows[r]).len() == s.width
}

/// Two screens on which the same was drawn, from two others: each cell is the
/// same on both, or was drawn on neither.
spec fn drawn_alike(a0: Screen, b0: Screen, a: Screen, b: Screen) -> bool {
    &&& is_whole(a0) && is_whole(b0) && is_whole(a) && is_whole(b)
    &&& a0.width == a.width && a0.height == a.height
    &&& b0.width == b.width && b0.height == b.height
    &&& same_pen(a, b)
    &&& a.visible == b.visible || (a.visible == a0.visible && b.visible == b0.visible)
    &&& forall|r: int, c: int|
        0 <= r < a.height && 0 <= c < a.width ==> #[trigger] a.rows[r][c] == b.rows[r][c] || (
        a.rows[r][c] == a0.rows[r][c] && b.rows[r][c] == b0.rows[r][c])
}

proof fn lemma_print_alike(a0: Screen, b0: Screen, a: Screen, b: Screen, ch: char)
    requires
        drawn_alike(a0, b0, a, b),
    ensures
        drawn_alike(a0, b0, a.print(ch), b.print(ch)),
{
    let a1 = a.print(ch);
    let b1 = b.print(ch);
    assert forall|r: int, c: int| 0 <= r < a1.height && 0 <= c < a1.width implies #[trigger] a1.rows[r][c]
        == b1.rows[r][c] || (a1.rows[r][c] == a0.rows[r][c] && b1.rows[r][c] == b0.rows[r][c]) by {
        law_a_character_changes_its_own_cells(a, ch, r, c);
        law_a_character_changes_its_own_cells(b, ch, r, c);
        assert(a.rows[r][c] == b.rows[r][c] || (a.rows[r][c] == a0.rows[r][c] && b.rows[r][c]
            == b0.rows[r][c]));
    }
    if a.row < a.height {
        assert(a.rows[a.row as int].len() == a.width);
        assert(b.rows[b.row as int].len() == b.width);
    }
}

proof fn lemma_feed_alike(a0: Screen, b0: Screen, a: Screen, b: Screen, t: Token)
    requires
        drawn_alike(a0, b0, a, b),
    ensures
        drawn_alike(a0, b0, a.feed(t), b.feed(t)),
{
    match t {
        Token::Plain(c) => {
            if c == '\t' {
                lemma_print_alike(a0, b0, a, b, ' ');
            } else if c >= ' ' {
                lemma_print_alike(a0, b0, a, b, c);
            }
        },
        _ => {},
    }
}

proof fn lemma_run_alike(a0: Screen, b0: Screen, a: Screen, b: Screen, text: Seq<char>)
    requires
        drawn_alike(a0, b0, a, b),
    ensures
        drawn_alike(a0, b0, a.run(text), b.run(text)),
    decreases text.len(),
{
    if text.len() > 0 {
        lemma_token_len(text);
        let t = token(text).0;
        lemma_feed_alike(a0, b0, a, b, t);
        lemma_run_alike(a0, b0, a.feed(t), b.feed(t), text.skip(token(text).1));
    }
}

/// A frame that is drawn twice leaves what it leaves when it is drawn once.
pub proof fn law_a_frame_drawn_twice_is_drawn_once(g: GridModel, ansi: Seq<char>)
    requires
        g.wf(),
    ensures
        g.apply(ansi).apply(ansi) == g.apply(ansi),
{
    let once = g.apply(ansi);
    let a = g.start();
    lemma_run_alike(a, a, a, a, ansi);
    let b = once.start();
    lemma_run_alike(a, b, a, b, ansi);
    let x = a.run(ansi);
    let y = b.run(ansi);
    assert forall|r: int| 0 <= r < x.height implies y.rows[r] == #[trigger] x.rows[r] by {
        assert forall|c: int| 0 <= c < x.width implies y.rows[r][c] == x.rows[r][c] by {
            assert(x.rows[r][c] == y.rows[r][c] || (x.rows[r][c] == a.rows[r][c] && y.rows[r][c]
                == b.rows[r][c]));
        }
        assert(y.rows[r] =~= x.rows[r]);
    }
    assert(y.rows =~= x.rows);
}

// ---------------------------------------------------------------------------
// what each part of a frame does

/// Every character from the space on is printed, a tab is printed as a space,
/// and all other control characters but the escape are left out.
pub proof fn law_characters_are_printed(c: char, t: Seq<char>, s: Screen)
    requires
        c != '\u{1b}',
    ensures
        c >= ' ' ==> s.run(seq![c] + t) == s.print(c).run(t),
        c == '\t' ==> s.run(seq![c] + t) == s.print(' ').run(t),
        c < ' ' && c != '\t' ==> s.run(seq![c] + t) == s.run(t),
{
    lemma_plain(c, t, s);
}

/// Printing moves the pen on by the columns of the character and changes
/// nothing else of it.
pub proof fn law_printing_moves_the_pen(s: Screen, ch: char)
    ensures
        s.col + cell_width(ch) <= usize::MAX ==> s.print(ch).col == s.col + cell_width(ch),
        s.col + cell_width(ch) > usize::MAX ==> s.print(ch).col == usize::MAX,
        s.print(ch).row == s.row,
        s.print(ch).sgr == s.sgr,
        s.print(ch).link == s.link,
        s.print(ch).visible == s.visible,
        s.print(ch).width == s.width,
        s.print(ch).height == s.height,
{
}

/// A style sequence, whatever its parameters, is the style from there on, whole
/// as it was sent; nothing else changes.
pub proof fn law_a_style_is_kept_whole(p: Seq<char>, m: int, t: Seq<char>, s: Screen)
    requires
        is_csi(p, m),
        p.last() == 'm',
    ensures
        s.run(p + t) == (Screen { sgr: p, ..s }).run(t),
{
    law_a_csi_is_consumed_whole(p, m, t, s);
}

/// An erase, whatever its parameters, blanks every cell and leaves the pen.
pub proof fn law_an_erase_blanks_every_cell(p: Seq<char>, m: int, t: Seq<char>, s: Screen) -> (
    after: Screen)
    requires
        is_csi(p, m),
        p.last() == 'J',
    ensures
        s.run(p + t) == after.run(t),
        after == (Screen { rows: after.rows, ..s }),
        after.rows.len() == s.height,
        forall|r: int| 0 <= r < s.height ==> (#[trigger] after.rows[r]).len() == s.width,
        forall|r: int, c: int|
            0 <= r < s.height && 0 <= c < s.width ==> #[trigger] after.rows[r][c]
                == None::<CellModel>,
{
    law_a_csi_is_consumed_whole(p, m, t, s);
    Screen { rows: blank_rows(s.width, s.height), ..s }
}

/// The cursor is shown and hidden by its own two sequences.
pub proof fn law_the_cursor_is_shown_and_hidden(t: Seq<char>, s: Screen)
    ensures
        s.run("\x1b[?25h"@ + t) == (Screen { visible: true, ..s }).run(t),
        s.run("\x1b[?25l"@ + t) == (Screen { visible: false, ..s }).run(t),
{
    reveal_strlit("\x1b[?25h");
    reveal_strlit("\x1b[?25l");
    let on = "\x1b[?25h"@;
    let off = "\x1b[?25l"@;
    assert(is_csi(on, 5) && is_csi(off, 5));
    assert(on.subrange(2, 5) =~= cursor_mode());
    assert(off.subrange(2, 5) =~= cursor_mode());
    law_a_csi_is_consumed_whole(on, 5, t, s);
    law_a_csi_is_consumed_whole(off, 5, t, s);
}

/// Any other CSI sequence is as if it were not there.
pub proof fn law_other_csis_change_nothing(p: Seq<char>, m: int, t: Seq<char>, s: Screen)
    requires
        is_csi(p, m),
        p.last() != 'H' && p.last() != 'm' && p.last() != 'J',
        p.last() == 'h' || p.last() == 'l' ==> !(m == 5 && p[2] == '?' && p[3] == '2' && p[4]
            == '5'),
    ensures
        s.run(p + t) == s.run(t),
{
    let params = p.subrange(2, m);
    if params == cursor_mode() {
        assert(params.len() == 3);
        assert(params[0] == p[2] && params[1] == p[3] && params[2] == p[4]);
    }
    law_a_csi_is_consumed_whole(p, m, t, s);
}

proof fn lemma_osc_is_osc(s: Seq<char>)
    ensures
        osc(s) matches Some(n) ==> is_osc_to(s.take(n), osc_stop(s, 2)),
{
    if s.len() >= 2 {
        lemma_osc_stop_run(s, 2);
        if let Some(n) = osc(s) {
            let k = osc_stop(s, 2);
            let p = s.take(n);
            assert(p[k] == s[k]);
        }
    }
}

proof fn lemma_osc_stop_run(s: Seq<char>, i: int)
    requires
        0 <= i <= s.len(),
    ensures
        i <= osc_stop(s, i) <= s.len(),
        forall|j: int| i <= j < osc_stop(s, i) ==> s[j] != '\u{7}' && s[j] != '\u{1b}',
        osc_stop(s, i) < s.len() ==> s[osc_stop(s, i)] == '\u{7}' || s[osc_stop(s, i)] == '\u{1b}',
    decreases s.len() - i,
{
    if i < s.len() && s[i] != '\u{7}' && s[i] != '\u{1b}' {
        lemma_osc_stop_run(s, i + 1);
    }
}

/// An escape that begins neither a CSI nor an OSC sequence takes one character
/// with it, and nothing is drawn for the two.
pub proof fn law_another_escape_is_two_characters(text: Seq<char>, s: Screen)
    requires
        text.len() > 0,
        text[0] == '\u{1b}',
        forall|n: int, m: int| 0 <= n <= text.len() ==> !#[trigger] is_csi(text.take(n), m),
        forall|n: int, k: int| 0 <= n <= text.len() ==> !#[trigger] is_osc_to(text.take(n), k),
    ensures
        text.len() >= 2 ==> s.run(text) == s.run(text.skip(2)),
        text.len() == 1 ==> s.run(text) == s,
{
    lemma_csi_is_csi(text);
    lemma_csi_len(text);
    lemma_osc_is_osc(text);
    if let Some(c) = csi(text) {
        assert(is_csi(text.take(c.len), 2 + c.params.len() as int));
    }
    if let Some(n) = osc(text) {
        lemma_osc_stop_run(text, 2);
        assert(is_osc_to(text.take(n), osc_stop(text, 2)));
    }
    if text.len() == 1 {
        let rest = text.skip(1);
        assert(rest.len() == 0);
        assert(s.run(rest) == s);
    }
}

/// A position moves the pen to the row and the column that its fields tell, and
/// nothing else. A field that is empty counts as one.
pub proof fn law_a_position_moves_the_pen(p: Seq<char>, m: int, t: Seq<char>, s: Screen)
    requires
        is_csi(p, m),
        p.last() == 'H',
    ensures
        s.run(p + t) == (Screen {
            row: position_row(p.subrange(2, m)),
            col: position_col(p.subrange(2, m)),
            ..s
        }).run(t),
        position_field(Seq::empty()) == 0,
{
    law_a_csi_is_consumed_whole(p, m, t, s);
}

/// A position without a column is in the first one.
pub proof fn law_a_position_without_a_column(row: nat, t: Seq<char>, s: Screen)
    requires
        1 <= row <= usize::MAX,
    ensures
        s.run("\x1b["@ + decimal(row) + "H"@ + t) == (Screen {
            row: (row - 1) as nat,
            col: 0,
            ..s
        }).run(t),
{
    reveal_strlit("\x1b[");
    reveal_strlit("H");
    let a = decimal(row);
    let p = "\x1b["@ + a + "H"@;
    let m = p.len() - 1;
    law_decimal_reads_back(row);
    lemma_machine_decimal_len(row);
    assert forall|j: int| 2 <= j < m implies '\u{30}' <= #[trigger] p[j] <= '\u{3f}' by {
        assert(p[j] == a[j - 2]);
        assert(is_digit_char(a[j - 2]));
    }
    assert(p.subrange(2, m) =~= a);
    law_a_csi_is_consumed_whole(p, m, t, s);
    assert forall|i: int| 0 <= i < a.len() implies a[i] != ';' by {
        assert(is_digit_char(a[i]));
    }
    lemma_not_found(a, ';', 0);
    assert(a.take(a.len() as int) =~= a);
    assert(unsigned_value(a, usize::MAX as nat) == Some(row));
}

/// A field of a position is its number less one; zero counts as one, and so
/// does what is no number or one that is too large.
pub proof fn law_fields_count_from_one(field: Seq<char>)
    requires
        field.len() > 0,
        forall|i: int| 0 <= i < field.len() ==> '\u{30}' <= #[trigger] field[i] <= '\u{3f}',
    ensures
        (forall|i: int| 0 <= i < field.len() ==> '0' <= #[trigger] field[i] <= '9')
            && 1 <= digits_value(field) <= usize::MAX ==> position_field(field) + 1
            == digits_value(field),
        !((forall|i: int| 0 <= i < field.len() ==> '0' <= #[trigger] field[i] <= '9')
            && digits_value(field) <= usize::MAX) ==> position_field(field) == 0,
        digits_value(field) == 0 ==> position_field(field) == 0,
{
    assert(field[0] != '+');
    if all_digits(field) {
        assert forall|i: int| 0 <= i < field.len() implies '0' <= #[trigger] field[i] <= '9' by {
            assert(is_digit_char(field[i]));
        }
    } else {
        let i = choose|i: int| 0 <= i < field.len() && !is_digit_char(#[trigger] field[i]);
        assert(!('0' <= field[i] <= '9'));
    }
}

/// Fields after the second are left out.
pub proof fn law_a_position_has_two_fields(a: Seq<char>, b: Seq<char>, more: Seq<char>)
    requires
        forall|i: int| 0 <= i < a.len() ==> a[i] != ';',
        forall|i: int| 0 <= i < b.len() ==> b[i] != ';',
    ensures
        position_row(a + seq![';'] + b + seq![';'] + more) == position_field(a),
        position_col(a + seq![';'] + b + seq![';'] + more) == position_field(b),
        position_row(a + seq![';'] + b) == position_field(a),
        position_col(a + seq![';'] + b) == position_field(b),
        position_row(a) == position_field(a),
        position_col(a) == 0,
{
    let two = a + seq![';'] + b;
    let all = two + seq![';'] + more;
    lemma_found_at(all, ';', 0, a.len() as int);
    lemma_found_at(two, ';', 0, a.len() as int);
    lemma_not_found(a, ';', 0);
    assert(all.take(a.len() as int) =~= a);
    assert(two.take(a.len() as int) =~= a);
    assert(a.take(a.len() as int) =~= a);
    let rest = all.skip(a.len() as int + 1);
    assert(rest =~= b + seq![';'] + more);
    lemma_found_at(rest, ';', 0, b.len() as int);
    assert(rest.take(b.len() as int) =~= b);
    assert(two.skip(a.len() as int + 1) =~= b);
    lemma_not_found(b, ';', 0);
    assert(b.take(b.len() as int) =~= b);
}

proof fn lemma_found_at(s: Seq<char>, c: char, from: int, k: int)
    requires
        0 <= from <= k < s.len(),
        forall|i: int| from <= i < k ==> s[i] != c,
        s[k] == c,
    ensures
        first_at(s, c, from) == k,
    decreases k - from,
{
    if from < k {
        lemma_found_at(s, c, from + 1, k);
    }
}

/// A hyperlink sequence, whatever its parameters, opens the link to its target
/// without the control characters, and closes the link where none is left.
/// Either terminator will do.
pub proof fn law_a_hyperlink_opens_its_target(params: Seq<char>, uri: Seq<char>, bel: bool)
    requires
        forall|i: int| 0 <= i < params.len() ==> params[i] != ';',
    ensures
        ({
            let end = if bel {
                seq!['\u{7}']
            } else {
                seq!['\u{1b}', '\\']
            };
            let kept = uri.filter(|c: char| !is_control_char(c));
            let s = seq!['\u{1b}', ']', '8', ';'] + params + seq![';'] + uri + end;
            osc8(s) == Some(
                if kept.len() > 0 {
                    Some(kept)
                } else {
                    None
                },
            )
        }),
{
    let end = if bel {
        seq!['\u{7}']
    } else {
        seq!['\u{1b}', '\\']
    };
    let head = seq!['\u{1b}', ']', '8', ';'];
    let s = head + params + seq![';'] + uri + end;
    let n = s.len();
    let body = s.skip(2);
    let inner = seq!['8', ';'] + params + seq![';'] + uri;
    if bel {
        assert(body[body.len() - 1] == '\u{7}');
        assert(body.take(body.len() - 1) =~= inner);
    } else {
        assert(body[body.len() - 1] == '\\');
        assert(body[body.len() - 2] == '\u{1b}');
        assert(body.take(body.len() - 2) =~= inner);
    }
    assert(osc_body(s) == Some(inner));
    let rest = inner.skip(2);
    assert(rest =~= params + seq![';'] + uri);
    lemma_found_at(rest, ';', 0, params.len() as int);
    assert(rest.skip(params.len() as int + 1) =~= uri);
    lemma_without_controls_is_filter(uri);
}

proof fn lemma_without_controls_is_filter(s: Seq<char>)
    ensures
        without_controls(s) == s.filter(|c: char| !is_control_char(c)),
    decreases s.len(),
{
    reveal(Seq::filter);
    if s.len() > 0 {
        lemma_without_controls_is_filter(s.drop_last());
    } else {
        assert(without_controls(s) =~= s.filter(|c: char| !is_control_char(c)));
    }
}

/// A hyperlink sequence sets the link of the pen, and nothing else.
pub proof fn law_a_hyperlink_sets_the_link(p: Seq<char>, t: Seq<char>, s: Screen)
    requires
        is_osc(p),
        osc8(p) is Some,
    ensures
        s.run(p + t) == (Screen { link: osc8(p)->0, ..s }).run(t),
{
    law_an_osc_is_consumed_whole(p, t, s);
}

/// A sequence is a hyperlink if and only if it is an OSC sequence whose text
/// begins with the digit eight and a semicolon.
pub proof fn law_a_hyperlink_is_told_by_its_number(p: Seq<char>, k: int)
    requires
        is_osc_to(p, k),
    ensures
        osc8(p) is Some <==> k >= 4 && p[2] == '8' && p[3] == ';',
{
    let body = p.skip(2);
    if p[k] == '\u{7}' {
        assert(body[body.len() - 1] == '\u{7}');
        assert(osc_body(p) == Some(body.take(k - 2)));
    } else {
        assert(body[body.len() - 1] == '\\');
        assert(body[body.len() - 2] == '\u{1b}');
        assert(osc_body(p) == Some(body.take(k - 2)));
    }
    let inner = body.take(k - 2);
    if k >= 4 {
        assert(inner[0] == p[2] && inner[1] == p[3]);
    }
}

/// A text is no hyperlink unless it begins with `ESC ] 8 ;` and ends with BEL or
/// with `ESC \`; one without a further semicolon between closes the link.
pub proof fn law_what_is_no_hyperlink(s: Seq<char>)
    ensures
        !(s.len() >= 5 && s[0] == '\u{1b}' && s[1] == ']' && s[2] == '8' && s[3] == ';') ==> osc8(
            s,
        ) is None,
        s.len() > 0 && s.last() != '\u{7}' && !(s.len() >= 2 && s.last() == '\\' && s[s.len() - 2]
            == '\u{1b}') ==> osc8(s) is None,
        s.len() >= 5 && s[0] == '\u{1b}' && s[1] == ']' && s[2] == '8' && s[3] == ';' && s.last()
            == '\u{7}' && (forall|i: int| 4 <= i < s.len() ==> s[i] != ';') ==> osc8(s) == Some(
            None::<Seq<char>>,
        ),
        s.len() >= 6 && s[0] == '\u{1b}' && s[1] == ']' && s[2] == '8' && s[3] == ';' && s.last()
            == '\\' && s[s.len() - 2] == '\u{1b}' && (forall|i: int| 4 <= i < s.len() ==> s[i]
            != ';') ==> osc8(s) == Some(None::<Seq<char>>),
{
    if let Some(body) = osc_body(s) {
        assert(s.skip(2)[s.skip(2).len() - 1] == s.last());
        if s.skip(2).len() >= 2 {
            assert(s.skip(2)[s.skip(2).len() - 2] == s[s.len() - 2]);
        }
        if body.len() >= 2 {
            assert(body[0] == s[2] && body[1] == s[3]);
            let rest = body.skip(2);
            if forall|i: int| 4 <= i < s.len() ==> s[i] != ';' {
                assert forall|i: int| 0 <= i < rest.len() implies rest[i] != ';' by {
                    assert(rest[i] == s[i + 4]);
                }
                law_a_malformed_hyperlink_closes(rest);
            }
        }
    }
}

// ---------------------------------------------------------------------------
// whole frames

/// A frame starts at the first cell without a style or a link, wherever the
/// frame before it ended: what it leaves depends on the cells and on whether
/// the cursor was visible, and on nothing else.
pub proof fn law_a_frame_starts_afresh(g: GridModel, other: GridModel, ansi: Seq<char>)
    requires
        g.rows == other.rows,
        g.width == other.width,
        g.height == other.height,
        g.cursor_visible == other.cursor_visible,
    ensures
        g.apply(ansi) == other.apply(ansi),
{
}

/// The first character of a frame is drawn in the first cell, plain.
pub proof fn law_the_first_character_is_at_the_origin(g: GridModel, ch: char)
    requires
        g.wf(),
        g.width > 0,
        g.height > 0,
        ch >= ' ',
    ensures
        g.apply(seq![ch]).rows[0][0] == Some(
            CellModel { sgr: Seq::empty(), link: None, ch },
        ),
        g.apply(seq![ch]).cursor_row == 0,
        g.apply(Seq::empty()).rows == g.rows,
        g.apply(Seq::empty()).cursor_row == 0,
        g.apply(Seq::empty()).cursor_col == 0,
        g.apply(Seq::empty()).cursor_visible == g.cursor_visible,
{
    let s = g.start();
    law_characters_are_printed(ch, Seq::empty(), s);
    assert(seq![ch] + Seq::<char>::empty() =~= seq![ch]);
    law_a_character_changes_its_own_cells(s, ch, 0, 0);
}

/// The cursor of a grid is where its last frame left the pen, and as visible.
pub proof fn law_the_cursor_is_where_the_pen_stopped(g: GridModel, ansi: Seq<char>)
    ensures
        g.apply(ansi).cursor_row == g.start().run(ansi).row,
        g.apply(ansi).cursor_col == g.start().run(ansi).col,
        g.apply(ansi).cursor_visible == g.start().run(ansi).visible,
        g.apply(ansi).rows == g.start().run(ansi).rows,
{
}

/// A cleared grid is blank and keeps its size and its cursor; so does one that
/// is given another size. One that is given its own size is untouched.
pub proof fn law_another_size_is_blank(g: GridModel, width: nat, height: nat)
    ensures
        ({
            let after = g.resize(width, height);
            let changed = width != g.width || height != g.height;
            &&& !changed ==> after == g
            &&& after.width == width && after.height == height
            &&& after.cursor_row == g.cursor_row && after.cursor_col == g.cursor_col
            &&& after.cursor_visible == g.cursor_visible
            &&& changed ==> after.content_bottom == 0 && after.rows.len() == height
            &&& changed ==> forall|r: int|
                0 <= r < height ==> (#[trigger] after.rows[r]).len() == width
            &&& changed ==> forall|r: int, c: int|
                0 <= r < height && 0 <= c < width ==> #[trigger] after.rows[r][c]
                    == None::<CellModel>
        }),
        ({
            let after = g.clear();
            &&& after == (GridModel { rows: after.rows, content_bottom: 0, ..g })
            &&& after.rows.len() == g.height
            &&& forall|r: int| 0 <= r < g.height ==> (#[trigger] after.rows[r]).len() == g.width
            &&& forall|r: int, c: int|
                0 <= r < g.height && 0 <= c < g.width ==> #[trigger] after.rows[r][c]
                    == None::<CellModel>
        }),
{
}

/// The text of a row is the characters of its cells, with a space for a cell
/// that was never drawn, up to the white space at its end.
pub proof fn law_the_text_of_a_row(g: GridModel, r: int)
    requires
        0 <= r < g.rows.len(),
    ensures
        g.text_lines().len() == g.rows.len(),
        ({
            let row = g.rows[r];
            let text = g.text_lines()[r];
            &&& text.len() <= row.len()
            &&& forall|c: int|
                0 <= c < text.len() ==> #[trigger] text[c] == match row[c] {
                    Some(cell) => cell.ch,
                    None => ' ',
                }
            &&& forall|c: int|
                text.len() <= c < row.len() ==> (#[trigger] row[c] matches Some(cell)
                    ==> is_white_space_char(cell.ch))
            &&& text.len() > 0 ==> !is_white_space_char(text.last())
        }),
{
    let row = g.rows[r];
    let chars = Seq::new(row.len(), |c: int| glyph(row[c]));
    law_trim_end_cuts_white_space(chars);
    assert(g.text_lines()[r] == trim_end(chars));
    assert forall|c: int| trim_end(chars).len() <= c < row.len() implies (
    #[trigger] row[c] matches Some(cell) ==> is_white_space_char(cell.ch)) by {
        assert(is_white_space_char(chars[c]));
    }
}

/// A grid is read cell by cell: the model of a grid has at each place the style,
/// the link and the character of the cell there, or none where there is none.
pub proof fn law_a_grid_is_read_cell_by_cell(g: Grid, r: int, c: int)
    requires
        0 <= r < g.rows@.len(),
        0 <= c < g.rows@[r]@.len(),
    ensures
        g@.rows.len() == g.rows@.len(),
        g@.rows[r].len() == g.rows@[r]@.len(),
        g.rows@[r]@[c] is None ==> g@.rows[r][c] is None,
        g.rows@[r]@[c] matches Some(cell) ==> {
            &&& g@.rows[r][c] is Some
            &&& g@.rows[r][c]->0.sgr == cell.sgr@
            &&& g@.rows[r][c]->0.ch == cell.ch
            &&& cell.link is None ==> g@.rows[r][c]->0.link is None
            &&& cell.link matches Some(uri) ==> g@.rows[r][c]->0.link == Some(uri@)
        },
        g@.width == g.width && g@.height == g.height,
        g@.cursor_row == g.cursor_row && g@.cursor_col == g.cursor_col,
        g@.cursor_visible == g.cursor_visible,
        g@.content_bottom == g.content_bottom,
{
}

} // verus!
