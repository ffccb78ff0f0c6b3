use herdr_mirror::grid::Grid;
use herdr_mirror::render::Renderer;

const BEGIN: &str = "\x1b[?2026h\x1b[?25l";
const END: &str = "\x1b[?2026l";

fn grid(width: usize, height: usize, frame: &str) -> Grid {
    let mut g = Grid::new();
    g.resize(width, height);
    g.apply(frame);
    g
}

/// The exact text of a paint: rows with their positions, styles where they
/// change, and the cursor.
#[test]
fn a_paint_is_exact() {
    let g = grid(3, 2, "\x1b[1;1H\x1b[31mab\x1b[1;3H\x1b[0mc\x1b[2;2H\x1b[?25h");
    let out = Renderer::new().paint(&g, 3, 2);
    let row1 = "\x1b[1;1H\x1b[31mab\x1b[0mc\x1b[0m";
    let row2 = "\x1b[2;1H\x1b[0m   \x1b[0m";
    assert_eq!(out, format!("{BEGIN}{row1}{row2}\x1b[2;2H\x1b[?25h{END}"));
}

#[test]
fn an_unstyled_cell_is_painted_plain() {
    let g = grid(2, 1, "\x1b[1;1Hab\x1b[?25l");
    let out = Renderer::new().paint(&g, 2, 1);
    assert_eq!(out, format!("{BEGIN}\x1b[1;1H\x1b[0mab\x1b[0m{END}"));
}

#[test]
fn a_narrow_grid_is_erased_to_the_right() {
    let g = grid(2, 1, "\x1b[1;1Hab\x1b[?25l");
    let out = Renderer::new().paint(&g, 4, 1);
    assert_eq!(out, format!("{BEGIN}\x1b[1;1H\x1b[0mab\x1b[0m\x1b[K{END}"));
}

#[test]
fn an_unchanged_grid_writes_only_the_cursor() {
    let g = grid(2, 1, "\x1b[1;1Hab\x1b[1;2H");
    let mut r = Renderer::new();
    let _ = r.paint(&g, 2, 1);
    assert_eq!(r.paint(&g, 2, 1), format!("{BEGIN}\x1b[1;2H\x1b[?25h{END}"));
    r.invalidate();
    assert!(r.paint(&g, 2, 1).contains("ab"));
}

#[test]
fn a_status_takes_the_bottom_row_and_hides_the_cursor() {
    let g = grid(4, 2, "\x1b[1;1Hab\x1b[2;1Hcd");
    let mut r = Renderer::new();
    r.status("hi");
    let out = r.paint(&g, 4, 2);
    assert!(out.contains("\x1b[2;1H\x1b[0;7m hi \x1b[0m\x1b[K"));
    assert!(!out.contains("\x1b[?25h"));
    assert!(!out.contains("cd"));
    r.status("");
    let out = r.paint(&g, 4, 2);
    assert!(out.contains("cd"));
    assert!(out.contains("\x1b[?25h"));
}

#[test]
fn the_cursor_stays_within_the_terminal() {
    let g = grid(9, 1, "\x1b[1;9H");
    assert!(Renderer::new().paint(&g, 4, 1).ends_with(&format!("\x1b[1;4H\x1b[?25h{END}")));
    let out = Renderer::new().paint(&g, 0, 1);
    assert!(out.ends_with(&format!("\x1b[1;1H\x1b[?25h{END}")));
    assert_eq!(Renderer::new().paint(&g, 4, 0), format!("{BEGIN}{END}"));
}

/// A cursor above a window that is anchored at lower content is not shown.
#[test]
fn a_cursor_above_the_window_is_hidden() {
    let g = grid(4, 6, "\x1b[6;1Hend\x1b[1;1H\x1b[?25h");
    let out = Renderer::new().paint(&g, 4, 2);
    assert!(out.contains("end"));
    assert!(!out.contains("\x1b[?25h"));
}

#[test]
fn a_wide_character_at_the_edge_is_blanked() {
    let g = grid(4, 1, "\x1b[1;1Habc한\x1b[?25l");
    let out = Renderer::new().paint(&g, 4, 1);
    assert_eq!(out, format!("{BEGIN}\x1b[1;1H\x1b[0mabc \x1b[0m{END}"));
}

/// What the cells of a grid are worth on a terminal: character, style, link.
fn shown(g: &Grid) -> Vec<Vec<Option<(char, String, Option<String>)>>> {
    g.rows
        .iter()
        .map(|row| {
            row.iter()
                .map(|c| {
                    c.as_ref().map(|c| {
                        let sgr = if c.sgr.is_empty() { "\x1b[0m" } else { &*c.sgr };
                        (c.ch, sgr.to_string(), c.link.as_deref().map(String::from))
                    })
                })
                .collect()
        })
        .collect()
}

/// A terminal that reads what is painted shows the window, paint after paint.
#[test]
fn a_terminal_shows_what_is_painted() {
    let frames = [
        "\x1b[1;1H\x1b[1mone\x1b[2;1H\x1b]8;;http://x\x07li\x1b[0mnk\x1b]8;;\x07!\x1b[3;1H한글\x1b[2;3H\x1b[?25h",
        "\x1b[2;2H\x1b[32mX\x1b[1;1H   ",
        "\x1b[2J\x1b[3;5Hz\x1b[3;1H\x1b]8;;http://y\x1b\\w\x1b[?25l",
    ];
    let mut g = Grid::new();
    g.resize(5, 3);
    let mut terminal = Grid::new();
    terminal.resize(5, 3);
    let mut r = Renderer::new();
    for frame in frames {
        g.apply(frame);
        terminal.apply(&r.paint(&g, 5, 3));
        let want = shown(&g);
        for (row, cells) in shown(&terminal).into_iter().enumerate() {
            for (col, cell) in cells.into_iter().enumerate() {
                match &want[row][col] {
                    Some(w) => assert_eq!(cell.as_ref(), Some(w)),
                    // a blank is painted as a plain space, or is the spacer of
                    // a wide character
                    None => assert!(cell.is_none_or(|(ch, sgr, link)| ch == ' '
                        && sgr == "\x1b[0m"
                        && link.is_none())),
                }
            }
        }
        assert_eq!(terminal.cursor_visible, g.cursor_visible);
        if g.cursor_visible {
            assert_eq!((terminal.cursor_row, terminal.cursor_col), (g.cursor_row, g.cursor_col));
        }
    }
}

/// The window is anchored at the bottom: content or cursor, whichever is lower.
#[test]
fn the_window_holds_the_bottom_row() {
    let g = grid(4, 9, "\x1b[1;1Htop\x1b[4;1Hmid\x1b[9;1H");
    let out = Renderer::new().paint(&g, 4, 6);
    assert!(out.contains("\x1b[1;1H\x1b[0mmid"));
    assert!(!out.contains("top"));
    assert!(out.contains("\x1b[6;1H\x1b[?25h"));
}
