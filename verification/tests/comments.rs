use lisp_balance::balance::{postprocess, preprocess};
use lisp_balance::comments::{find_comment, reattach_comments, strip_comments, strip_for};
use lisp_balance::language::LanguageFeatures;

fn comment_of(line: &str, comment_char: char) -> (String, Option<String>) {
    let (code, mut comments) = strip_comments(line, comment_char);
    assert_eq!(comments.len(), 1);
    (code, comments.remove(0))
}

#[test]
fn strip_comments_removes_line_comments() {
    let src = "(foo) ;; a | b\n(bar)\n";
    let (code, comments) = strip_comments(src, ';');
    assert_eq!(code, "(foo) \n(bar)\n");
    assert_eq!(comments[0].as_deref(), Some(";; a | b"));
    assert_eq!(comments[1], None);
}

#[test]
fn strip_comments_ignores_semicolon_in_string() {
    let src = "(princ \"a;b|c\") ;; real ; comment\n";
    let (code, comments) = strip_comments(src, ';');
    assert_eq!(code, "(princ \"a;b|c\") \n");
    assert_eq!(comments[0].as_deref(), Some(";; real ; comment"));
}

#[test]
fn strip_comments_respects_cl_char_literal() {
    // `#\;` is the CL character literal for `;`, not a comment start.
    let src = "(char= (char rest 0) #\\;) ;; trailing comment\n";
    let (code, comments) = strip_comments(src, ';');
    assert_eq!(code, "(char= (char rest 0) #\\;) \n");
    assert_eq!(comments[0].as_deref(), Some(";; trailing comment"));
}

#[test]
fn strip_comments_whole_line_comment_preserves_indent() {
    let src = "  ;; module show|find\n(foo)\n";
    let (code, comments) = strip_comments(src, ';');
    // A whole-line comment is hidden as an empty line and kept as it is.
    assert_eq!(code, "\n(foo)\n");
    assert_eq!(comments[0].as_deref(), Some("  ;; module show|find"));
}

#[test]
fn comments_round_trip_through_strip_and_reattach() {
    let cases = [
        "(foo) ;; a | b\n",
        ";; header line\n(foo)\n",
        "  ;; indented whole-line\n",
        "(princ \"a;b\") ;; trailing\n",
        "(+ 1 2)\n",
    ];
    for src in cases {
        let (code, comments) = strip_comments(src, ';');
        let back = reattach_comments(&code, &comments);
        assert_eq!(back, src, "round-trip failed for {src:?}");
    }
}

#[test]
fn comment_directly_behind_code_gets_a_space() {
    let (code, comments) = strip_comments("(foo);x\n(bar) ;y", ';');
    assert_eq!(code, "(foo)\n(bar) ");
    assert_eq!(reattach_comments(&code, &comments), "(foo) ;x\n(bar) ;y");
}

#[test]
fn empty_text_is_one_empty_line() {
    let (code, comments) = strip_comments("", ';');
    assert_eq!(code, "");
    assert_eq!(comments, vec![None]);
    assert_eq!(reattach_comments(&code, &comments), "");
}

#[test]
fn escapes_in_strings_are_skipped() {
    assert_eq!(
        comment_of("\"a\\\";b\" ;c", ';'),
        ("\"a\\\";b\" ".to_string(), Some(";c".to_string()))
    );
    // A backslash at the very end of an open string.
    assert_eq!(comment_of("\"a\\", ';'), ("\"a\\".to_string(), None));
    assert_eq!(comment_of("\"a;b", ';'), ("\"a;b".to_string(), None));
}

#[test]
fn a_string_is_followed_over_its_lines() {
    assert_eq!(
        strip_comments("\"a\n;b\" x", ';'),
        ("\"a\n;b\" x".to_string(), vec![None, None])
    );
    let (code, comments) = strip_comments("(f \"a\nb;c\") ;d", ';');
    assert_eq!(code, "(f \"a\nb;c\") ");
    assert_eq!(comments, vec![None, Some(";d".to_string())]);
    // Lines in the middle of a string, one of them blank, one all comment.
    let src = "\"a\n\n;; b\n  ; c\" ;d\n;e";
    let (code, comments) = strip_comments(src, ';');
    assert_eq!(code, "\"a\n\n;; b\n  ; c\" \n");
    assert_eq!(
        comments,
        vec![
            None,
            None,
            None,
            Some(";d".to_string()),
            Some(";e".to_string())
        ]
    );
    assert_eq!(reattach_comments(&code, &comments), src);
}

#[test]
fn an_escape_at_a_line_end_does_not_reach_the_next_line() {
    assert_eq!(
        strip_comments("\"a\\\n\";b", ';'),
        (
            "\"a\\\n\"".to_string(),
            vec![None, Some(";b".to_string())]
        )
    );
}

#[test]
fn a_quote_in_a_comment_opens_no_string() {
    assert_eq!(
        strip_comments("a ;\"\nb ;c", ';'),
        (
            "a \nb ".to_string(),
            vec![Some(";\"".to_string()), Some(";c".to_string())]
        )
    );
    assert_eq!(
        strip_comments("#\\\"\nb ;c", ';'),
        ("#\\\"\nb ".to_string(), vec![None, Some(";c".to_string())])
    );
}

#[test]
fn character_literals_are_skipped() {
    assert_eq!(
        comment_of("#\\\" ;x", ';'),
        ("#\\\" ".to_string(), Some(";x".to_string()))
    );
    assert_eq!(
        comment_of("#\\Space;x", ';'),
        ("#\\Space".to_string(), Some(";x".to_string()))
    );
    assert_eq!(comment_of("#\\;", ';'), ("#\\;".to_string(), None));
    assert_eq!(comment_of("#\\", ';'), ("#\\".to_string(), None));
}

/// The code and the comments of a text in the given dialect.
fn strip_as(lang: &str, text: &str) -> (String, Vec<Option<String>>) {
    strip_for(text, &LanguageFeatures::for_language(lang))
}

#[test]
fn expression_comments_are_code_in_scheme() {
    for lang in ["scheme", "racket"] {
        assert_eq!(strip_as(lang, "#;x"), ("#;x".to_string(), vec![None]));
        assert_eq!(
            strip_as(lang, "(a #;(b) c) ;d"),
            ("(a #;(b) c) ".to_string(), vec![Some(";d".to_string())])
        );
        assert_eq!(
            strip_as(lang, "#;;x"),
            ("#;".to_string(), vec![Some(";x".to_string())])
        );
        assert_eq!(strip_as(lang, "a#"), ("a#".to_string(), vec![None]));
    }
}

#[test]
fn a_semicolon_behind_a_number_sign_starts_a_comment_elsewhere() {
    assert_eq!(
        comment_of("#;x", ';'),
        ("#".to_string(), Some(";x".to_string()))
    );
    for lang in ["lisp", "clojure", "hy"] {
        assert_eq!(
            strip_as(lang, "(a #;b)"),
            ("(a #".to_string(), vec![Some(";b)".to_string())])
        );
    }
    for lang in ["janet", "picolisp"] {
        assert_eq!(
            strip_as(lang, "(a #;b)"),
            ("(a ".to_string(), vec![Some("#;b)".to_string())])
        );
    }
    // Where a number sign starts comments, expression comments do not matter.
    let odd = LanguageFeatures {
        comment_char: '#',
        ..LanguageFeatures::scheme()
    };
    assert_eq!(
        strip_for("a #;x", &odd),
        ("a ".to_string(), vec![Some("#;x".to_string())])
    );
}

/// Whether a comment on the line behind `before` is stripped, that is, whether
/// `before` leaves no string open.
fn closed_behind(lang: &str, before: &str) -> bool {
    let (code, comments) = strip_as(lang, &format!("{before}\nx ;y #z"));
    let (mark, rest) = if lang == "janet" || lang == "picolisp" {
        ("#z", "x ;y ")
    } else {
        (";y #z", "x ")
    };
    let found = comments[comments.len() - 1].as_deref() == Some(mark);
    assert_eq!(found, code.ends_with(&format!("\n{rest}")));
    found
}

#[test]
fn quotes_that_open_no_string_hide_no_comments() {
    // Behind a backslash.
    for lang in ["lisp", "scheme", "clojure", "hy"] {
        assert!(closed_behind(lang, "(def q \\\")"));
        assert!(closed_behind(lang, "#\\\""));
        assert!(!closed_behind(lang, "\\\\ \""));
    }
    assert_eq!(
        strip_comments("(def q \\\")\n; (c", ';'),
        (
            "(def q \\\")\n".to_string(),
            vec![None, Some("; (c".to_string())]
        )
    );
    // In a block comment, also over lines and one in the other.
    for lang in ["lisp", "scheme", "racket"] {
        assert!(closed_behind(lang, "#| \" |#"));
        assert!(closed_behind(lang, "#|\n a \"b\n|#"));
        assert!(closed_behind(lang, "#| #| \" |# \" |#"));
        assert!(closed_behind(lang, "#| \""));
        assert!(!closed_behind(lang, "#| |# \""));
        assert!(!closed_behind(lang, "#|#|||#|#\""));
    }
    assert!(!closed_behind("clojure", "#| \" |#"));
    assert_eq!(
        strip_comments("#| \" |#\nx ;c", ';').1,
        vec![None, Some(";c".to_string())]
    );
    // Between bars.
    for lang in ["lisp", "scheme", "picolisp"] {
        assert!(closed_behind(lang, "|sym\"bol|"));
        assert!(closed_behind(lang, "|sym\\|\"bol|"));
        assert!(closed_behind(lang, "|sym\n\"bol|"));
        assert!(!closed_behind(lang, "|sym| \""));
    }
    assert!(!closed_behind("hy", "(| a \""));
    assert!(closed_behind("hy", "(| a b)\n(c \"d|e\")"));
    assert_eq!(
        strip_comments("|sym\"bol|\nx ;c", ';').1,
        vec![None, Some(";c".to_string())]
    );
}

#[test]
fn quotes_in_other_strings_hide_no_comments() {
    // The long strings of Janet.
    assert!(closed_behind("janet", "`a \" b`"));
    assert!(closed_behind("janet", "``a ` \"\n``"));
    assert!(!closed_behind("janet", "`a` \""));
    assert!(!closed_behind("janet", "``a``\""));
    assert!(!closed_behind("lisp", "`a \""));
    // The bracket strings of Hy.
    assert!(closed_behind("hy", "#[[a \" b]]"));
    assert!(closed_behind("hy", "#[x[a ]] \" ]y]\n \" ]x]"));
    assert!(!closed_behind("hy", "#[x[a]x] \""));
    assert!(!closed_behind("hy", "#[x[a]]x] \""));
    assert!(!closed_behind("hy", "#[x] \""));
    assert!(!closed_behind("hy", "#[x\n\""));
    assert!(!closed_behind("lisp", "#[[a \""));
    // The block comments of Guile.
    let guile = LanguageFeatures {
        guile_block_comments: true,
        ..LanguageFeatures::scheme()
    };
    let comments = strip_for("#! \"\n\" !!#\nx ;y", &guile).1;
    assert_eq!(comments, vec![None, None, Some(";y".to_string())]);
    let comments = strip_for("#! a !# \"\nx ;y", &guile).1;
    assert_eq!(comments, vec![None, None]);
}

#[test]
fn only_code_leaves_strings_open() {
    // The bar that ends the comment is cut off with what looks like a comment.
    assert_eq!(
        strip_comments("#| a ; |#\n\"b\n;c\"", ';').1,
        vec![
            Some("; |#".to_string()),
            None,
            Some(";c\"".to_string())
        ]
    );
}

#[test]
fn number_sign_comments() {
    assert_eq!(
        comment_of("(+ 1 2) # sum; total", '#'),
        ("(+ 1 2) ".to_string(), Some("# sum; total".to_string()))
    );
    // A character literal still comes before the comment character.
    assert_eq!(comment_of("#\\x", '#'), ("#\\x".to_string(), None));
}

#[test]
fn text_beyond_ascii_is_kept_whole() {
    assert_eq!(
        comment_of("(λ \"é;ü\") #\\λ ;; für", ';'),
        (
            "(λ \"é;ü\") #\\λ ".to_string(),
            Some(";; für".to_string())
        )
    );
    // White space beyond ASCII before a comment makes the line a comment.
    assert_eq!(
        comment_of("\u{3000}\u{a0};x", ';'),
        (String::new(), Some("\u{3000}\u{a0};x".to_string()))
    );
}

#[test]
fn only_the_low_byte_of_a_comment_character_counts() {
    // U+013B has the low byte of a semicolon.
    assert_eq!(
        comment_of("a ;b", '\u{13b}'),
        ("a ".to_string(), Some(";b".to_string()))
    );
}

#[test]
fn find_comment_gives_byte_positions() {
    let n = LanguageFeatures::clojure();
    assert_eq!(find_comment("é;".as_bytes(), &n, false), 2);
    assert_eq!(find_comment("abc".as_bytes(), &n, false), 3);
    assert_eq!(find_comment("\";\";".as_bytes(), &n, false), 3);
    assert_eq!(find_comment(b"a;b", &n, true), 3);
    assert_eq!(find_comment(b"a\" ;\"", &n, true), 3);
    assert_eq!(find_comment(b"\\\";\";", &n, true), 4);
    assert_eq!(find_comment(b"", &n, true), 0);
    // On the same line any quote opens a string.
    assert_eq!(find_comment(b"\\\" ;x", &n, false), 5);
    assert_eq!(find_comment(b"|\"| ;x", &LanguageFeatures::common_lisp(), false), 6);
}

#[test]
fn lines_outside_strings_are_stripped_alone() {
    let src = "(a) ;x\n\"b\n;c\"\n(d \\\" ;e\n  ;f";
    let (code, comments) = strip_comments(src, ';');
    assert_eq!(code, "(a) \n\"b\n;c\"\n(d \\\" ;e\n");
    for i in [0, 1, 3, 4] {
        let line = src.split('\n').nth(i).unwrap();
        assert_eq!(comment_of(line, ';').1, comments[i]);
    }
    assert_eq!(comments[2], None);
}

#[test]
fn carriage_return_stays_with_the_line() {
    let (code, comments) = strip_comments("(a) ;x\r\n(b)\r\n", ';');
    assert_eq!(code, "(a) \n(b)\r\n");
    assert_eq!(comments[0].as_deref(), Some(";x\r"));
    assert_eq!(reattach_comments(&code, &comments), "(a) ;x\r\n(b)\r\n");
}

#[test]
fn stripping_twice_finds_nothing_more() {
    let (code, _) = strip_comments("(a \";\") ;x\n ;y\n#\\; ;z", ';');
    let (again, comments) = strip_comments(&code, ';');
    assert_eq!(again, code);
    assert_eq!(comments, vec![None, None, None]);
    let (code, _) = strip_comments("\"a\n;b\" ;x\n;y", ';');
    assert_eq!(code, "\"a\n;b\" \n");
    let (again, comments) = strip_comments(&code, ';');
    assert_eq!(again, code);
    assert_eq!(comments, vec![None, None, None]);
}

#[test]
fn a_second_round_changes_nothing() {
    for src in [
        "(foo);c\n#\\a;b\n\"x\";y\n  ;z",
        "\"a\n;b\";c\n#;(d);e",
        "a#;b;c",
        "\\;\"\n\";a",
        "#|;x\n|;\"\n\";a",
        "(λ);é",
        "",
    ] {
        let (code, comments) = strip_comments(src, ';');
        let once = reattach_comments(&code, &comments);
        let (code, again) = strip_comments(&once, ';');
        assert_eq!(again, comments, "{src:?}");
        assert_eq!(reattach_comments(&code, &again), once, "{src:?}");
    }
    // A space that starts comments takes in the one that is put before it.
    let (code, comments) = strip_comments("a b", ' ');
    let once = reattach_comments(&code, &comments);
    assert_eq!(once, "a  b");
    assert_eq!(strip_comments(&once, ' ').1, vec![Some("  b".to_string())]);
}

#[test]
fn comments_follow_their_lines() {
    let (code, comments) = strip_comments("(a ;x\n;y\n(b)", ';');
    assert_eq!(code, "(a \n\n(b)");
    assert_eq!(
        reattach_comments("(a)\n\n(b)", &comments),
        "(a) ;x\n;y\n(b)"
    );
    // Lines beyond the comments, and comments beyond the lines.
    assert_eq!(
        reattach_comments("(a)\nq\n(b)\n(c)", &comments),
        "(a) ;x\nq ;y\n(b)\n(c)"
    );
    assert_eq!(reattach_comments("(a)", &comments), "(a) ;x");
}

#[test]
fn preprocess_and_postprocess_use_the_dialect() {
    let features = LanguageFeatures::janet();
    let (code, comments) = preprocess("(a) # b ; c\n", &features);
    assert_eq!(code, "(a) \n");
    assert_eq!(comments, vec![Some("# b ; c".to_string()), None]);
    assert_eq!(postprocess(&code, &comments), "(a) # b ; c\n");
}
