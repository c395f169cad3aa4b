use lisp_balance::balance::{finish, make_request, prepare, Answer, Error};
use lisp_balance::language::LanguageFeatures;

fn answer(text: &str) -> Answer {
    Answer {
        success: true,
        error: None,
        text: text.to_string(),
    }
}

#[test]
fn request_holds_code_and_notation() {
    let (request, notes) = prepare("(a ; note|\n", "smart", "Scheme");
    assert_eq!(request.mode, "smart");
    assert_eq!(request.text, "(a \n");
    assert_eq!(notes, vec![Some("; note|".to_string()), None]);
    let o = request.options;
    assert!(o.cursor_x.is_none() && o.cursor_line.is_none());
    assert!(o.prev_cursor_x.is_none() && o.prev_cursor_line.is_none());
    assert!(o.prev_text.is_none() && o.selection_start_line.is_none());
    assert!(o.changes.is_empty());
    assert_eq!(o.string_delimiters, vec!["\"".to_string()]);
    assert_eq!(o.comment_char, ';');
    assert!(o.lisp_vline_symbols && o.lisp_block_comments && o.scheme_sexp_comments);
    assert!(!o.guile_block_comments && !o.janet_long_strings && !o.hy_bracket_strings);
}

#[test]
fn request_follows_the_features() {
    let (request, notes) = make_request("x # y", "indent", &LanguageFeatures::janet());
    assert_eq!(request.mode, "indent");
    assert_eq!(request.text, "x ");
    assert_eq!(notes, vec![Some("# y".to_string())]);
    assert_eq!(request.options.comment_char, '#');
    assert!(request.options.janet_long_strings);
    assert!(!request.options.lisp_vline_symbols);
}

#[test]
fn bars_and_quotes_in_comments_stay_out_of_the_request() {
    let (request, _) = prepare(
        "(load \"lint.lisp\")\n;; module show|find query\n",
        "smart",
        "lisp",
    );
    assert_eq!(request.text, "(load \"lint.lisp\")\n\n");
    let (request, _) = prepare(";; he said \"hi\n(+ 1 2)\n", "smart", "clojure");
    assert_eq!(request.text, "\n(+ 1 2)\n");
}

#[test]
fn comments_come_back_behind_the_balanced_code() {
    let src = "(defun foo ()\n  ;; note: a|b and \"oops\n  (let ((x 1)\n    (bar x)\n";
    let (request, notes) = prepare(src, "smart", "lisp");
    assert_eq!(request.text, "(defun foo ()\n\n  (let ((x 1)\n    (bar x)\n");
    let balanced = "(defun foo ()\n\n  (let ((x 1)\n    (bar x))))\n";
    let outcome = finish(answer(balanced), &notes);
    assert!(outcome.success);
    assert!(outcome.error.is_none());
    assert_eq!(
        outcome.text,
        "(defun foo ()\n  ;; note: a|b and \"oops\n  (let ((x 1)\n    (bar x))))\n"
    );
}

#[test]
fn unchanged_code_gives_the_text_back() {
    for (src, lang) in [
        ("(defn foo [x]\n  (+ x 1))\n", "clojure"),
        ("(+ 1 (* 2 3))", "lisp"),
        ("(list '(a b c))\n", "lisp"),
        ("(a) ; b\n; c\n", "hy"),
        ("(a #;(b) c)\n", "scheme"),
        ("(f \"a\n;b\") ; c\n", "racket"),
    ] {
        let (request, notes) = prepare(src, "smart", lang);
        assert_eq!(finish(answer(&request.text), &notes).text, src);
    }
}

#[test]
fn expression_comments_are_sent_whole() {
    let src = "(a #;(b) c)\n";
    let (request, notes) = prepare(src, "smart", "scheme");
    assert_eq!(request.text, src);
    assert_eq!(notes, vec![None, None]);
    assert_eq!(finish(answer(src), &notes).text, src);
}

#[test]
fn only_scheme_has_expression_comments() {
    let (request, notes) = prepare("(a #;b)", "smart", "lisp");
    assert_eq!(request.text, "(a #");
    assert_eq!(notes, vec![Some(";b)".to_string())]);
}

#[test]
fn comments_do_not_sway_the_request() {
    let texts = [
        "(a) ; b\n  ; c",
        "(a) ; \"|(\n;",
        "(a) ;\n\t;;; \\ #|",
    ];
    for lang in ["lisp", "scheme", "clojure", "hy"] {
        let first = prepare(texts[0], "indent", lang).0;
        for text in texts {
            let request = prepare(text, "indent", lang).0;
            assert_eq!(request.text, "(a) \n");
            assert_eq!(format!("{request:?}"), format!("{first:?}"));
        }
    }
}

#[test]
fn strings_over_lines_are_sent_whole() {
    let src = "(f \"a\n;; b\")\n";
    let (request, notes) = prepare(src, "smart", "lisp");
    assert_eq!(request.text, src);
    assert_eq!(notes, vec![None, None, None]);
}

#[test]
fn failures_are_handed_on() {
    let (request, notes) = prepare("(a \" ; b", "smart", "lisp");
    let outcome = finish(
        Answer {
            success: false,
            error: Some(Error {
                name: "unclosed-quote".to_string(),
                message: "String is missing a closing quote.".to_string(),
                line_no: 0,
                x: 3,
            }),
            text: request.text,
        },
        &notes,
    );
    assert!(!outcome.success);
    let error = outcome.error.unwrap();
    assert_eq!(error.name, "unclosed-quote");
    assert_eq!((error.line_no, error.x), (0, 3));
    assert_eq!(outcome.text, "(a \" ; b");
}
