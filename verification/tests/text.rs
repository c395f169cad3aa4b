use lisp_balance::text::{
    count_lines, ends_with_newline, ends_with_whitespace, is_blank, is_whitespace, push_decimal,
    same_text, split_lines,
};

const SAMPLES: [&str; 12] = [
    "", "\n", "a", "a\n", "\na", "a\nb", "a\n\nb\n", "\n\n", "a\r\nb\r\n", "\r", "é\nλ", "a\n\r",
];

#[test]
fn white_space_is_that_of_unicode() {
    for v in 0..=0x10ffffu32 {
        if let Some(c) = char::from_u32(v) {
            assert_eq!(is_whitespace(c), c.is_whitespace(), "{v:x}");
        }
    }
}

#[test]
fn lines_are_split_at_newlines() {
    for s in SAMPLES {
        assert_eq!(split_lines(s), s.split('\n').collect::<Vec<_>>(), "{s:?}");
    }
    assert_eq!(split_lines("a\n\nb"), vec!["a", "", "b"]);
}

#[test]
fn lines_are_counted() {
    for s in SAMPLES {
        assert_eq!(count_lines(s), s.lines().count(), "{s:?}");
    }
    assert_eq!(count_lines("a\nb\n"), 2);
    assert_eq!(count_lines("a\nb"), 2);
}

#[test]
fn blank_texts() {
    assert!(is_blank(""));
    assert!(is_blank(" \t\n\u{2003}"));
    assert!(!is_blank(" x "));
    assert!(ends_with_whitespace("x\u{a0}"));
    assert!(!ends_with_whitespace(" x"));
    assert!(!ends_with_whitespace(""));
    assert!(ends_with_newline("x\n"));
    assert!(!ends_with_newline("x\r"));
    assert!(!ends_with_newline(""));
}

#[test]
fn decimal_notation() {
    for n in [0usize, 7, 10, 99, 100, 1234567890, usize::MAX] {
        let mut out = String::from("n=");
        push_decimal(&mut out, n);
        assert_eq!(out, format!("n={n}"));
    }
}

#[test]
fn same_text_compares_contents() {
    assert!(same_text("aé", "aé"));
    assert!(!same_text("aé", "ae"));
    assert!(!same_text("a", "ab"));
}
