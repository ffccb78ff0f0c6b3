use herdr_mirror::escape::{parse_csi, parse_osc, parse_osc8};
use herdr_mirror::grid::Grid;

fn chars(s: &str) -> Vec<char> {
    s.chars().collect()
}

fn grid(width: usize, height: usize, frame: &str) -> Grid {
    let mut g = Grid::new();
    g.resize(width, height);
    g.apply(frame);
    g
}

#[test]
fn a_csi_needs_an_introducer_and_a_final() {
    assert_eq!(parse_csi(&chars("")), None);
    assert_eq!(parse_csi(&chars("\x1b")), None);
    assert_eq!(parse_csi(&chars("\x1b[")), None);
    assert_eq!(parse_csi(&chars("x[1m")), None);
    assert_eq!(parse_csi(&chars("\x1b]1m")), None);
    assert_eq!(parse_csi(&chars("\x1b[12;34")), None);
    assert_eq!(parse_csi(&chars("\x1b[m")), Some((String::new(), 'm', 3)));
    assert_eq!(parse_csi(&chars("\x1b[1mtail")), Some(("1".to_string(), 'm', 4)));
}

#[test]
fn a_parameter_after_an_intermediate_is_no_csi() {
    assert_eq!(parse_csi(&chars("\x1b[1 2q")), None);
    assert_eq!(parse_csi(&chars("\x1b[!p")), Some((String::new(), 'p', 4)));
}

#[test]
fn a_csi_has_at_most_sixty_four_characters() {
    let longest = format!("\x1b[{}m", "1".repeat(61));
    assert_eq!(longest.len(), 64);
    assert_eq!(parse_csi(&chars(&longest)), Some(("1".repeat(61), 'm', 64)));
    let longer = format!("\x1b[{}m", "1".repeat(62));
    assert_eq!(parse_csi(&chars(&longer)), None);
    let spaced = format!("\x1b[{}m", " ".repeat(62));
    assert_eq!(parse_csi(&chars(&spaced)), None);
}

#[test]
fn an_osc_ends_with_bel_or_string_terminator() {
    assert_eq!(parse_osc(&chars("\x1b]0;t\x07rest")), Some(6));
    assert_eq!(parse_osc(&chars("\x1b]0;t\x1b\\rest")), Some(7));
    assert_eq!(parse_osc(&chars("\x1b]0;t\x1b[m\x07")), None);
    assert_eq!(parse_osc(&chars("\x1b]0;t")), None);
    assert_eq!(parse_osc(&chars("\x1b[0m")), None);
    assert_eq!(parse_osc(&chars("\x1b]\x07")), Some(3));
}

#[test]
fn hyperlinks_open_close_and_are_told_from_other_oscs() {
    let uri = |s: &str| parse_osc8(&chars(s)).map(|link| link.map(|u| u.to_string()));
    assert_eq!(uri("\x1b]8;;http://a\x07"), Some(Some("http://a".to_string())));
    assert_eq!(uri("\x1b]8;id=1;http://a;b\x1b\\"), Some(Some("http://a;b".to_string())));
    assert_eq!(uri("\x1b]8;;\x07"), Some(None));
    assert_eq!(uri("\x1b]8;\x07"), Some(None));
    assert_eq!(uri("\x1b]8;no-second\x07"), Some(None));
    assert_eq!(uri("\x1b]0;title\x07"), None);
    assert_eq!(uri("\x1b]8\x07"), None);
    assert_eq!(uri("\x1b]8;;http://a"), None);
    assert_eq!(uri("x"), None);
}

/// Control characters of C1 and DEL are stripped from a link as well.
#[test]
fn links_lose_every_control_character() {
    let link = parse_osc8(&chars("\x1b]8;;a\u{7f}b\u{85}c\td\x07"));
    assert_eq!(link.unwrap().as_deref(), Some("abcd"));
}

#[test]
fn unused_sequences_print_nothing() {
    let g = grid(6, 1, "\x1b[1;1H\x1b[4h\x1b[?7l\x1b[2K\x1b(B\x1b]2;t\x07ok");
    // the two-byte escape is ESC and one more character
    assert_eq!(g.text_lines(), vec!["Bok"]);
    let g = grid(6, 1, "\x1b[1;1H\x1b7ok\x1b");
    assert_eq!(g.text_lines(), vec!["ok"]);
}

#[test]
fn positions_default_to_one_and_ignore_what_is_no_number() {
    let at = |frame: &str| {
        let g = grid(9, 9, frame);
        (g.cursor_row, g.cursor_col)
    };
    assert_eq!(at("\x1b[H"), (0, 0));
    assert_eq!(at("\x1b[3H"), (2, 0));
    assert_eq!(at("\x1b[0;0H"), (0, 0));
    assert_eq!(at("\x1b[;5H"), (0, 4));
    assert_eq!(at("\x1b[?2;5H"), (0, 4));
    assert_eq!(at("\x1b[4;5;6H"), (3, 4));
    assert_eq!(at("\x1b[99999999999999999999;2H"), (0, 1));
    assert_eq!(at("\x1b[20;30H"), (19, 29));
}

#[test]
fn nothing_is_drawn_outside_the_grid() {
    let g = grid(3, 2, "\x1b[1;3Habc\x1b[9;1Hx");
    assert_eq!(g.text_lines(), vec!["  a", ""]);
    assert_eq!((g.cursor_row, g.cursor_col), (8, 1));
    let g = grid(3, 1, "\x1b[1;18446744073709551615Hab");
    assert_eq!(g.text_lines(), vec![""]);
}

/// Whatever a remote sends, the cells are clean.
#[test]
fn frames_leave_clean_cells() {
    let g = grid(6, 1, "\x1b[1;1H\x1b[31;1m\x01a\x0b\x1b]8;;u\x02ri\x07b\x7f");
    for cell in g.rows[0].iter().flatten() {
        assert_eq!(&*cell.sgr, "\x1b[31;1m");
        assert!(cell.ch >= ' ');
        assert!(cell.link.as_deref().is_none_or(|uri| uri == "uri"));
    }
    assert_eq!(g.rows[0][1].as_ref().unwrap().link.as_deref(), Some("uri"));
}

#[test]
fn a_resize_blanks_only_a_grid_of_another_size() {
    let mut g = grid(3, 1, "\x1b[1;1Habc");
    g.resize(3, 1);
    assert_eq!(g.text_lines(), vec!["abc"]);
    g.resize(2, 2);
    assert_eq!(g.text_lines(), vec!["", ""]);
    assert_eq!(g.content_bottom, 0);
    g.apply("\x1b[2;1Hx");
    assert_eq!(g.content_bottom, 1);
    g.clear();
    assert_eq!(g.text_lines(), vec!["", ""]);
    assert_eq!(g.content_bottom, 0);
    // the cursor stays where the frame left it
    assert_eq!((g.cursor_row, g.cursor_col), (1, 1));
}

#[test]
fn a_wide_character_in_the_last_column_blanks_no_other_cell() {
    let g = grid(3, 2, "\x1b[2;1Hxyz\x1b[1;3H한");
    assert_eq!(g.rows[0][2].as_ref().unwrap().ch, '한');
    assert_eq!(g.text_lines()[1], "xyz");
}

#[test]
fn a_frame_drawn_twice_is_drawn_once() {
    let frame = "\x1b[1;2H\x1b[31ma한\x1b[1;3Hb\x1b[2;1H\x1b]8;;u\x07x\x1b[?25l";
    let cells = |g: &Grid| -> Vec<Vec<Option<(String, Option<String>, char)>>> {
        let cell = |c: &herdr_mirror::grid::Cell| {
            (c.sgr.to_string(), c.link.as_deref().map(String::from), c.ch)
        };
        g.rows.iter().map(|row| row.iter().map(|c| c.as_ref().map(cell)).collect()).collect()
    };
    let mut g = grid(5, 2, "\x1b[1;1Hzzzzz\x1b[2;1Hzzzzz");
    g.apply(frame);
    let once = (cells(&g), g.cursor_row, g.cursor_col, g.cursor_visible, g.content_bottom);
    g.apply(frame);
    assert_eq!((cells(&g), g.cursor_row, g.cursor_col, g.cursor_visible, g.content_bottom), once);
}
