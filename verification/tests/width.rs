use herdr_mirror::width::{columns_of, cw};
use unicode_width::UnicodeWidthChar;

#[test]
fn characters_take_up_their_columns() {
    assert_eq!(cw('a'), 1);
    assert_eq!(cw(' '), 1);
    assert_eq!(cw('~'), 1);
    assert_eq!(cw('한'), 2);
    assert_eq!(cw('語'), 2);
    assert_eq!(cw('\u{1f600}'), 2);
}

/// A character without a width still moves the pen.
#[test]
fn no_character_takes_up_less_than_a_column() {
    assert_eq!(cw('\u{301}'), 1);
    assert_eq!(cw('\u{200b}'), 1);
    assert_eq!(cw('\u{7}'), 1);
    assert_eq!(cw('\u{9b}'), 1);
}

#[test]
fn columns_of_a_table_entry() {
    assert_eq!(columns_of(None), 1);
    assert_eq!(columns_of(Some(0)), 1);
    assert_eq!(columns_of(Some(1)), 1);
    assert_eq!(columns_of(Some(2)), 2);
    assert_eq!(columns_of(Some(3)), 3);
}

/// What is claimed of the tables, on every character there is.
#[test]
fn the_tables_are_as_claimed() {
    for c in '\0'..=char::MAX {
        let w = UnicodeWidthChar::width(c);
        assert_eq!(w.is_none(), c.is_control(), "{c:?}");
        assert!(w.is_none_or(|w| w <= 3), "{c:?}");
        if (' '..='~').contains(&c) {
            assert_eq!(w, Some(1), "{c:?}");
        }
        assert_eq!(cw(c), w.unwrap_or(1).max(1), "{c:?}");
    }
}
