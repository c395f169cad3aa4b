use lisp_balance::language::LanguageFeatures;

#[test]
fn dialects_by_name() {
    let cl = LanguageFeatures::common_lisp();
    assert!(cl.lisp_vline_symbols && cl.lisp_block_comments && !cl.scheme_sexp_comments);
    assert_eq!(cl.comment_char, ';');
    assert_eq!(LanguageFeatures::for_language("lisp"), cl);
    assert_eq!(LanguageFeatures::for_language("common-lisp"), cl);
    assert_eq!(
        LanguageFeatures::for_language("clojure"),
        LanguageFeatures::default()
    );
    assert_eq!(
        LanguageFeatures::for_language("scheme"),
        LanguageFeatures::scheme()
    );
    assert!(LanguageFeatures::scheme().scheme_sexp_comments);
    assert_eq!(LanguageFeatures::racket(), LanguageFeatures::scheme());
    assert_eq!(
        LanguageFeatures::for_language("racket"),
        LanguageFeatures::racket()
    );
    let hy = LanguageFeatures::for_language("hy");
    assert_eq!(hy, LanguageFeatures::hy());
    assert!(hy.hy_bracket_strings && !hy.lisp_vline_symbols);
    let janet = LanguageFeatures::for_language("janet");
    assert_eq!(janet, LanguageFeatures::janet());
    assert!(janet.janet_long_strings);
    assert_eq!(janet.comment_char, '#');
    let pico = LanguageFeatures::for_language("picolisp");
    assert_eq!(pico, LanguageFeatures::picolisp());
    assert!(pico.lisp_vline_symbols && pico.lisp_block_comments);
    assert_eq!(pico.comment_char, '#');
    assert_eq!(LanguageFeatures::for_lowercase_name("hy"), hy);
}

#[test]
fn names_are_read_in_any_case() {
    assert_eq!(
        LanguageFeatures::for_language("Scheme"),
        LanguageFeatures::scheme()
    );
    assert_eq!(
        LanguageFeatures::for_language("JANET"),
        LanguageFeatures::janet()
    );
    // The Kelvin sign has a lower case in ASCII.
    assert_eq!(
        LanguageFeatures::for_language("rac\u{212a}et"),
        LanguageFeatures::racket()
    );
    // A name that is already taken as lower case is not.
    assert_eq!(
        LanguageFeatures::for_lowercase_name("JANET"),
        LanguageFeatures::common_lisp()
    );
}

#[test]
fn unknown_dialects_are_read_as_common_lisp() {
    assert_eq!(
        LanguageFeatures::for_language("fennel"),
        LanguageFeatures::common_lisp()
    );
    assert_eq!(
        LanguageFeatures::for_language(""),
        LanguageFeatures::common_lisp()
    );
}

#[test]
fn no_dialect_has_guile_comments() {
    for lang in ["lisp", "scheme", "racket", "clojure", "hy", "janet", "picolisp"] {
        assert!(!LanguageFeatures::for_language(lang).guile_block_comments);
    }
}
