use herdr_mirror::escape::parse_csi;
use herdr_mirror::grid::Grid;
use herdr_mirror::render::Renderer;


#[test]
fn decodes_per_cell_frame() {
    let mut g = Grid::new();
    g.resize(10, 4);
    g.apply("\x1b[1;1H\x1b[0mhi\x1b[3;2H\x1b[31mX\x1b[2;1H\x1b[?25h");
    assert_eq!(g.text_lines(), vec!["hi", "", " X", ""]);
    assert_eq!(g.content_bottom, 2);
    assert_eq!((g.cursor_row, g.cursor_col), (1, 0));
    assert!(g.cursor_visible);
    assert_eq!(&*g.rows[2][1].as_ref().unwrap().sgr, "\x1b[31m");
}

/// Stream cleanliness: an idle window writes nothing. The renderer diffs
/// rows against its last paint, so painting an UNCHANGED grid emits no row
/// content — the seam where the old predictive-echo overlay injected
/// optimistic keystroke ghosts (stray characters in idle panes).
#[test]
fn unchanged_grid_repaints_no_content() {
    let mut g = Grid::new();
    g.resize(12, 3);
    g.apply("\x1b[1;1H\x1b[0mhello\x1b[2;1Hworld\x1b[?25h");
    let mut r = Renderer::default();
    let first = r.paint(&g, 12, 3);
    assert!(first.contains("hello"), "first paint must show the content");
    assert!(first.contains("world"));

    // idle: same grid, again and again — no row content may reappear
    for _ in 0..3 {
        let repaint = r.paint(&g, 12, 3);
        assert!(
            !repaint.contains("hello") && !repaint.contains("world"),
            "idle repaint injected content: {repaint:?}"
        );
    }

    // a real frame change repaints exactly the changed rows
    g.apply("\x1b[2;1Hnew\x1b[0m");
    let changed = r.paint(&g, 12, 3);
    assert!(changed.contains("new"), "changed row must repaint");
    assert!(!changed.contains("hello"), "unchanged row must not repaint");
}

#[test]
fn cursor_style_does_not_print_itself() {
    // DECSCUSR: ESC [ 2 SP q. The space is an intermediate byte, so a
    // params-only parser bails and `apply` prints the "2 q" tail into the
    // grid — the stray characters seen in mirrored agent prompts.
    let mut g = Grid::new();
    g.resize(10, 2);
    g.apply("\x1b[1;1H\x1b[2 qhi");
    assert_eq!(g.text_lines(), vec!["hi", ""]);
}

#[test]
fn non_alphabetic_finals_are_consumed() {
    // @ and ~ are legal CSI finals; unparsed, they print their params too
    let mut g = Grid::new();
    g.resize(10, 2);
    g.apply("\x1b[1;1H\x1b[3~\x1b[2@ok");
    assert_eq!(g.text_lines(), vec!["ok", ""]);
}

#[test]
fn csi_parsing_shape() {
    // params stop at the first intermediate; the final is reported
    assert_eq!(parse_csi(&"\x1b[2 q".chars().collect::<Vec<_>>()), Some(("2".into(), 'q', 5)));
    assert_eq!(parse_csi(&"\x1b[?25h".chars().collect::<Vec<_>>()), Some(("?25".into(), 'h', 6)));
    assert_eq!(parse_csi(&"\x1b[1;31m".chars().collect::<Vec<_>>()), Some(("1;31".into(), 'm', 7)));
    // C1 and other non-CSI bytes are still rejected
    assert_eq!(parse_csi(&"\x1b[1;\x07m".chars().collect::<Vec<_>>()), None);
}

#[test]
fn clear_and_visibility() {
    let mut g = Grid::new();
    g.resize(4, 2);
    g.apply("\x1b[1;1Habcd\x1b[2;1Hwxyz");
    assert_eq!(g.content_bottom, 1);
    g.apply("\x1b[2J\x1b[?25l");
    assert_eq!(g.text_lines(), vec!["", ""]);
    assert!(!g.cursor_visible);
}

#[test]
fn skips_osc_and_tabs() {
    let mut g = Grid::new();
    g.resize(8, 1);
    g.apply("\x1b]0;title\x07\x1b[1;1Ha\tb");
    assert_eq!(g.text_lines(), vec!["a b"]);
}

#[test]
fn content_bottom_shrinks_when_delta_erases() {
    let mut g = Grid::new();
    g.resize(6, 8);
    g.apply("\x1b[1;1Htop\x1b[7;1Hbottom");
    assert_eq!(g.content_bottom, 6);
    // delta frame erases the bottom content with spaces
    g.apply("\x1b[7;1H      ");
    assert_eq!(g.content_bottom, 0);
}

#[test]
fn wide_chars_do_not_drift() {
    let mut g = Grid::new();
    g.resize(10, 1);
    // the server skips the spacer cell after a wide char with a CUP jump
    g.apply("\x1b[1;1H한\x1b[1;3H글\x1b[1;5H!");
    assert_eq!((g.cursor_row, g.cursor_col), (0, 5));
    let mut r = Renderer::new();
    let out = r.paint(&g, 10, 1);
    // without width handling this painted "한 글 !" and drifted right
    assert!(out.contains("한글!"), "got: {out:?}");
}

#[test]
fn wide_char_overwrites_stale_spacer() {
    let mut g = Grid::new();
    g.resize(10, 1);
    g.apply("\x1b[1;1Hab"); // narrow content first
    g.apply("\x1b[1;1H한"); // delta frame paints a wide char over it
    let mut r = Renderer::new();
    let out = r.paint(&g, 10, 1);
    assert!(!out.contains('b'), "stale spacer cell survived: {out:?}");
}

#[test]
fn a_full_width_row_is_not_erased_by_its_own_el() {
    // EL after filling the last column erases the cell just written: the
    // cursor is still IN that column with the deferred-wrap flag set, so
    // "erase to end of line" starts there. Cost was one character on every
    // row long enough to wrap — a wrapped line lost the char at the break.
    let mut g = Grid::new();
    g.resize(5, 1);
    g.apply("\x1b[1;1Habcde");
    let mut r = Renderer::new();
    let out = r.paint(&g, 5, 1);
    assert!(out.contains("abcde"), "got: {out:?}");
    assert!(!out.contains("abcde\x1b[0m\x1b[K"), "EL would erase the 'e': {out:?}");
}

#[test]
fn a_short_row_still_clears_its_tail() {
    // the other half: when the remote is narrower than the local pane the
    // gutter must still be cleared, or stale content survives to the right
    let mut g = Grid::new();
    g.resize(3, 1);
    g.apply("\x1b[1;1Hab");
    let mut r = Renderer::new();
    let out = r.paint(&g, 10, 1);
    assert!(out.contains("\x1b[K"), "narrow grid must still emit EL: {out:?}");
}

#[test]
fn status_paints_on_empty_grid() {
    // before the first frame the grid is 0x0 — status must still render
    let g = Grid::new();
    let mut r = Renderer::new();
    r.status("reconnecting in 5s");
    let out = r.paint(&g, 80, 24);
    assert!(out.contains("reconnecting in 5s"));
}

#[test]
fn renderer_bottom_anchors_and_status() {
    let mut g = Grid::new();
    g.resize(5, 10);
    g.apply("\x1b[10;1Hlast"); // content at the bottom row of a tall grid
    let mut r = Renderer::new();
    let out = r.paint(&g, 5, 3);
    // window shows rows 8..10 → "last" lands on the visible last row
    assert!(out.contains("last"));
    r.status("HELLO");
    let out2 = r.paint(&g, 5, 3);
    assert!(out2.contains("HELLO"));
    // unchanged rows are not repainted
    let out3 = r.paint(&g, 5, 3);
    assert!(!out3.contains("last"));
}

const LINK: &str = "\x1b]8;;https://example.com/x\x1b\\";
const UNLINK: &str = "\x1b]8;;\x1b\\";

#[test]
fn osc8_is_captured_on_cells_and_repainted() {
    let mut g = Grid::new();
    g.resize(8, 2);
    g.apply(&format!("\x1b[1;1H{LINK}PR\x1b[1;3H{UNLINK}ok"));
    // the link rides the cells it covers, and only those
    assert_eq!(g.rows[0][0].as_ref().unwrap().link.as_deref(), Some("https://example.com/x"));
    assert_eq!(g.rows[0][1].as_ref().unwrap().link.as_deref(), Some("https://example.com/x"));
    assert_eq!(g.rows[0][3].as_ref().unwrap().link, None);
    // and survives the repaint, which is the whole point
    let out = Renderer::new().paint(&g, 8, 2);
    assert!(out.contains(LINK), "open sequence missing: {out:?}");
    assert!(out.contains(UNLINK), "close sequence missing: {out:?}");
}

#[test]
fn osc8_params_are_ignored_and_bel_terminates() {
    // the `id=` form with a BEL terminator is equally valid
    let mut g = Grid::new();
    g.resize(4, 1);
    g.apply("\x1b[1;1H\x1b]8;id=7;https://example.com/y\x07hi");
    assert_eq!(g.rows[0][0].as_ref().unwrap().link.as_deref(), Some("https://example.com/y"));
}

#[test]
fn non_hyperlink_osc_still_skipped() {
    // OSC 0 (window title) must neither print nor be mistaken for a link
    let mut g = Grid::new();
    g.resize(4, 1);
    g.apply("\x1b[1;1H\x1b]0;some title\x07hi");
    assert_eq!(g.text_lines(), vec!["hi"]);
    assert_eq!(g.rows[0][0].as_ref().unwrap().link, None);
}

#[test]
fn open_link_cannot_leak_past_the_row() {
    // a link still open at the right edge would swallow the next row's
    // content, which the terminal paints from a fresh CUP
    let mut g = Grid::new();
    g.resize(2, 2);
    g.apply(&format!("\x1b[1;1H{LINK}ab\x1b[2;1H{UNLINK}cd"));
    let out = Renderer::new().paint(&g, 2, 2);
    let row2 = out.split("\x1b[2;1H").nth(1).expect("row 2 painted");
    assert!(!row2.contains("\x1b]8;;https"), "link leaked into row 2: {out:?}");
    assert_eq!(out.matches(UNLINK).count(), 1, "expected exactly one close: {out:?}");
}

#[test]
fn malformed_osc8_closes_instead_of_bleeding() {
    // `8;` with no second `;` is not a link we can resolve. Treating it as
    // "not an OSC 8" would leave the open link riding every later cell, so
    // a click on unrelated text would open a URL the text never showed.
    let mut g = Grid::new();
    g.resize(4, 1);
    g.apply(&format!("\x1b[1;1H{LINK}ab\x1b]8;\x1b\\cd"));
    assert_eq!(g.rows[0][0].as_ref().unwrap().link.as_deref(), Some("https://example.com/x"));
    assert_eq!(g.rows[0][2].as_ref().unwrap().link, None, "stale link bled past the malformed close");
    assert_eq!(g.rows[0][3].as_ref().unwrap().link, None);
}

#[test]
fn osc8_uri_control_bytes_are_stripped() {
    // the URI is re-emitted into the local terminal: a control byte inside
    // an OSC ends the string there and the tail is executed, so a hostile
    // remote could drive the terminal. herdr strips these too.
    let mut g = Grid::new();
    g.resize(4, 1);
    g.apply("\x1b[1;1H\x1b]8;;https://e.com/\r\n\x0ex\x1b\\hi");
    assert_eq!(g.rows[0][0].as_ref().unwrap().link.as_deref(), Some("https://e.com/x"));
    let out = Renderer::new().paint(&g, 4, 1);
    assert!(!out.contains('\r') && !out.contains('\x0e'), "control byte re-emitted: {out:?}");

    // nothing left after filtering is a close, not a link to ""
    let mut g = Grid::new();
    g.resize(4, 1);
    g.apply("\x1b[1;1H\x1b]8;;\r\n\x1b\\hi");
    assert_eq!(g.rows[0][0].as_ref().unwrap().link, None);
}

#[test]
fn wrapped_link_reopens_on_the_continuation_row() {
    // rows are painted from their own CUP, so a link spanning a wrap must
    // be re-opened on the next row or only its first half stays clickable
    let mut g = Grid::new();
    g.resize(2, 2);
    g.apply(&format!("\x1b[1;1H{LINK}ab\x1b[2;1Hcd{UNLINK}"));
    let out = Renderer::new().paint(&g, 2, 2);
    let row2 = out.split("\x1b[2;1H").nth(1).expect("row 2 painted");
    assert!(row2.contains(LINK), "continuation row lost the link: {out:?}");
    assert_eq!(out.matches(LINK).count(), 2, "expected one open per row: {out:?}");
    assert_eq!(out.matches(UNLINK).count(), 2, "expected one close per row: {out:?}");
}
