use herdr_mirror::text::{
    ends_with, is_ascii_alphanumeric, is_control, is_white_space, join_texts, lines_of, parse_i32,
    parse_unsigned, push_decimal, push_padded, push_signed, starts_with, text_before, trim_chars,
};

fn chars(s: &str) -> Vec<char> {
    s.chars().collect()
}

#[test]
fn classes_of_characters() {
    for c in '\0'..=char::MAX {
        assert_eq!(is_control(c), c.is_control(), "{c:?}");
        assert_eq!(is_white_space(c), c.is_whitespace(), "{c:?}");
        assert_eq!(is_ascii_alphanumeric(c), c.is_ascii_alphanumeric(), "{c:?}");
    }
}

/// A number in decimal reads back as the number.
#[test]
fn numbers_in_decimal() {
    for n in [0u64, 7, 10, 99, 100, 12345, u64::MAX] {
        let mut s = String::new();
        push_decimal(&mut s, n);
        assert_eq!(s, n.to_string());
        assert_eq!(parse_unsigned(&chars(&s), u64::MAX), Some(n));
    }
    for n in [0i32, -1, 42, i32::MIN, i32::MAX] {
        let mut s = String::new();
        push_signed(&mut s, n);
        assert_eq!(s, n.to_string());
        assert_eq!(parse_i32(&chars(&s)), Some(n));
    }
    let mut s = String::new();
    push_padded(&mut s, 7, 3);
    push_padded(&mut s, 1234, 3);
    push_padded(&mut s, 0, 2);
    assert_eq!(s, "007123400");
}

#[test]
fn numbers_that_are_none() {
    for s in ["", "+", "-", "1a", " 1", "1 ", "0x1", "--1", "٣"] {
        assert_eq!(parse_i32(&chars(s)), s.parse::<i32>().ok(), "{s:?}");
        assert_eq!(parse_unsigned(&chars(s), u64::MAX), s.parse::<u64>().ok(), "{s:?}");
    }
    for s in ["+5", "-5", "0005", "2147483647", "2147483648", "-2147483648", "-2147483649", "-0"] {
        assert_eq!(parse_i32(&chars(s)), s.parse::<i32>().ok(), "{s:?}");
    }
    for s in ["+5", "18446744073709551615", "18446744073709551616", "99999999999999999999999"] {
        assert_eq!(parse_unsigned(&chars(s), u64::MAX), s.parse::<u64>().ok(), "{s:?}");
    }
    assert_eq!(parse_unsigned(&chars("100"), 99), None);
    assert_eq!(parse_unsigned(&chars("99"), 99), Some(99));
}

#[test]
fn trimming_and_lines() {
    for s in ["", "  ", "a", " \ta b\u{3000}\n", "\u{a0}x\u{85}"] {
        assert_eq!(trim_chars(&chars(s)).into_iter().collect::<String>(), s.trim(), "{s:?}");
    }
    for s in ["", "\n", "a", "a\n", "a\nb", "a\r\nb\r", "\r\n\n x\n"] {
        let want: Vec<String> = s.lines().map(String::from).collect();
        assert_eq!(lines_of(&chars(s)), want, "{s:?}");
    }
}

#[test]
fn joining_and_ends() {
    assert_eq!(join_texts(&[], ", "), "");
    assert_eq!(join_texts(&["a".to_string()], ", "), "a");
    assert_eq!(join_texts(&["a".to_string(), String::new(), "b".to_string()], ", "), "a, , b");
    assert!(starts_with("abc", "") && starts_with("abc", "ab") && !starts_with("abc", "abcd"));
    assert!(ends_with("abc", "") && ends_with("abc", "bc") && !ends_with("abc", "ab"));
}

#[test]
fn texts_are_ordered_as_strings() {
    let texts = ["", "a", "aa", "ab", "b", "w10", "w9", "é", "한", "\u{1f600}"];
    for a in texts {
        for b in texts {
            assert_eq!(text_before(a, b), a < b, "{a:?} {b:?}");
        }
    }
}
