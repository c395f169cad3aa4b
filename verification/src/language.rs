//! The Lisp dialects and what sets their notation apart.

use vstd::prelude::*;
use vstd::string::*;
use vstd::utf8::*;

use crate::encoding;
use crate::text;

verus! {

/// The notation of a dialect, as far as balancing parentheses depends on it.
#[derive(Clone, Copy, Debug, PartialEq, Eq, Structural)]
pub struct LanguageFeatures {
    /// The character that starts a comment.
    pub comment_char: char,
    /// Symbols may be written between bars: `|a symbol|`.
    pub lisp_vline_symbols: bool,
    /// Comments may be written as `#| ... |#`.
    pub lisp_block_comments: bool,
    /// Comments may be written as `#! ... !#`.
    pub guile_block_comments: bool,
    /// `#;` comments out the expression behind it.
    pub scheme_sexp_comments: bool,
    /// Strings may be written between runs of backquotes.
    pub janet_long_strings: bool,
    /// Strings may be written as `#[ ... ]`.
    pub hy_bracket_strings: bool,
}

/// The notation without any dialect's additions.
pub open spec fn plain() -> LanguageFeatures {
    LanguageFeatures {
        comment_char: ';',
        lisp_vline_symbols: false,
        lisp_block_comments: false,
        guile_block_comments: false,
        scheme_sexp_comments: false,
        janet_long_strings: false,
        hy_bracket_strings: false,
    }
}

/// The notation of Common Lisp.
pub open spec fn common_lisp_notation() -> LanguageFeatures {
    LanguageFeatures { lisp_vline_symbols: true, lisp_block_comments: true, ..plain() }
}

/// The notation of Scheme, which Racket shares.
pub open spec fn scheme_notation() -> LanguageFeatures {
    LanguageFeatures { scheme_sexp_comments: true, ..common_lisp_notation() }
}

/// The notation of the dialect with the given name in lower case. A name that
/// is not known stands for Common Lisp.
pub open spec fn notation_of(name: Seq<char>) -> LanguageFeatures {
    if name == "clojure"@ {
        plain()
    } else if name == "scheme"@ || name == "racket"@ {
        scheme_notation()
    } else if name == "hy"@ {
        LanguageFeatures { hy_bracket_strings: true, ..plain() }
    } else if name == "janet"@ {
        LanguageFeatures { comment_char: '#', janet_long_strings: true, ..plain() }
    } else if name == "picolisp"@ {
        LanguageFeatures { comment_char: '#', ..common_lisp_notation() }
    } else {
        common_lisp_notation()
    }
}

/// The lower case of an ASCII character; any other character itself.
pub open spec fn ascii_lower(c: char) -> char {
    if 'A' <= c <= 'Z' {
        (c as u32 + 32) as char
    } else {
        c
    }
}

/// What `str::to_lowercase` makes of the text `s`.
pub uninterp spec fn lowercase(s: Seq<char>) -> Seq<char>;

/// Calls `str::to_lowercase` of the standard library, the lower case that
/// Unicode defines. It depends on the text alone. Of a text in ASCII the
/// letters `A` to `Z` become `a` to `z`, and nothing else changes.
#[verifier::external_body]
fn to_lowercase(s: &str) -> (r: String)
    ensures
        r@ == lowercase(s@),
        is_ascii_chars(s@) ==> r@ == s@.map_values(|c: char| ascii_lower(c)),
{
    s.to_lowercase()
}

impl LanguageFeatures {
    /// The notation of the dialect `lang`, named in upper or lower case.
    pub fn for_language(lang: &str) -> (r: Self)
        ensures
            r == notation_of(lowercase(lang@)),
            is_ascii_chars(lang@) ==> r == notation_of(
                lang@.map_values(|c: char| ascii_lower(c)),
            ),
    {
        let name = to_lowercase(lang);
        Self::for_lowercase_name(name.as_str())
    }

    /// The notation of the dialect with the given name in lower case.
    pub fn for_lowercase_name(name: &str) -> (r: Self)
        ensures
            r == notation_of(name@),
    {
        if text::same_text(name, "clojure") {
            Self::clojure()
        } else if text::same_text(name, "common-lisp") || text::same_text(name, "lisp") {
            proof {
                lemma_dialect_names();
            }
            Self::common_lisp()
        } else if text::same_text(name, "scheme") {
            Self::scheme()
        } else if text::same_text(name, "racket") {
            Self::racket()
        } else if text::same_text(name, "hy") {
            Self::hy()
        } else if text::same_text(name, "janet") {
            Self::janet()
        } else if text::same_text(name, "picolisp") {
            Self::picolisp()
        } else {
            Self::common_lisp()
        }
    }

    /// Clojure has the plain notation.
    pub fn clojure() -> (r: Self)
        ensures
            r == plain(),
    {
        Self::default()
    }

    /// Common Lisp has symbols between bars and block comments.
    pub fn common_lisp() -> (r: Self)
        ensures
            r == common_lisp_notation(),
    {
        Self { lisp_vline_symbols: true, lisp_block_comments: true, ..Self::default() }
    }

    /// Scheme has expression comments besides what Common Lisp has.
    pub fn scheme() -> (r: Self)
        ensures
            r == scheme_notation(),
    {
        Self {
            lisp_vline_symbols: true,
            lisp_block_comments: true,
            scheme_sexp_comments: true,
            ..Self::default()
        }
    }

    /// Racket has the notation of Scheme.
    pub fn racket() -> (r: Self)
        ensures
            r == scheme_notation(),
    {
        Self {
            lisp_vline_symbols: true,
            lisp_block_comments: true,
            scheme_sexp_comments: true,
            ..Self::default()
        }
    }

    /// Hy has bracket strings.
    pub fn hy() -> (r: Self)
        ensures
            r == (LanguageFeatures { hy_bracket_strings: true, ..plain() }),
    {
        Self { hy_bracket_strings: true, ..Self::default() }
    }

    /// Janet has long strings, and comments that start with `#`.
    pub fn janet() -> (r: Self)
        ensures
            r == (LanguageFeatures { comment_char: '#', janet_long_strings: true, ..plain() }),
    {
        Self { comment_char: '#', janet_long_strings: true, ..Self::default() }
    }

    /// PicoLisp has the notation of Common Lisp, but comments that start with
    /// `#`.
    pub fn picolisp() -> (r: Self)
        ensures
            r == (LanguageFeatures { comment_char: '#', ..common_lisp_notation() }),
    {
        Self {
            comment_char: '#',
            lisp_vline_symbols: true,
            lisp_block_comments: true,
            ..Self::default()
        }
    }
}

impl Default for LanguageFeatures {
    /// The plain notation.
    fn default() -> (r: Self)
        ensures
            r == plain(),
    {
        Self {
            comment_char: ';',
            lisp_vline_symbols: false,
            lisp_block_comments: false,
            guile_block_comments: false,
            scheme_sexp_comments: false,
            janet_long_strings: false,
            hy_bracket_strings: false,
        }
    }
}

/// The names of Common Lisp are the names of no other dialect.
proof fn lemma_dialect_names()
    ensures
        notation_of("common-lisp"@) == common_lisp_notation(),
        notation_of("lisp"@) == common_lisp_notation(),
{
    reveal_strlit("common-lisp");
    reveal_strlit("lisp");
    reveal_strlit("clojure");
    reveal_strlit("scheme");
    reveal_strlit("racket");
    reveal_strlit("hy");
    reveal_strlit("janet");
    reveal_strlit("picolisp");
    assert("lisp"@[0] == 'l');
    assert("common-lisp"@.len() == 11);
}

/// The comments of every dialect start with an ASCII character.
pub proof fn law_comment_char_is_ascii(name: Seq<char>)
    ensures
        notation_of(name).comment_char == ';' || notation_of(name).comment_char == '#',
        encoding::is_ascii_char(notation_of(name).comment_char),
{
}

/// What sets the dialects apart, for every name: Clojure, Hy and Janet have
/// neither symbols between bars nor block comments, and every other dialect has
/// both; Scheme and Racket have expression comments; Hy has bracket strings and
/// Janet long strings; comments start with a number sign in Janet and PicoLisp,
/// and with a semicolon elsewhere. None has the block comments of Guile.
pub proof fn law_dialects_are_told_apart(name: Seq<char>)
    ensures
        notation_of(name).comment_char == if name == "janet"@ || name == "picolisp"@ {
            '#'
        } else {
            ';'
        },
        notation_of(name).lisp_vline_symbols <==> name != "clojure"@ && name != "hy"@ && name
            != "janet"@,
        notation_of(name).lisp_block_comments <==> name != "clojure"@ && name != "hy"@ && name
            != "janet"@,
        !notation_of(name).guile_block_comments,
        notation_of(name).scheme_sexp_comments <==> name == "scheme"@ || name == "racket"@,
        notation_of(name).janet_long_strings <==> name == "janet"@,
        notation_of(name).hy_bracket_strings <==> name == "hy"@,
{
    reveal_strlit("clojure");
    reveal_strlit("scheme");
    reveal_strlit("racket");
    reveal_strlit("hy");
    reveal_strlit("janet");
    reveal_strlit("picolisp");
    assert("janet"@.len() == 5 && "hy"@.len() == 2 && "clojure"@.len() == 7);
    assert("scheme"@.len() == 6 && "racket"@.len() == 6 && "picolisp"@.len() == 8);
}

/// The plain notation has comments with a semicolon and nothing else. Common Lisp
/// adds symbols between bars and block comments, Scheme expression comments on
/// top of these.
pub proof fn law_notations_build_on_each_other()
    ensures
        plain().comment_char == ';',
        !plain().lisp_vline_symbols,
        !plain().lisp_block_comments,
        !plain().guile_block_comments,
        !plain().scheme_sexp_comments,
        !plain().janet_long_strings,
        !plain().hy_bracket_strings,
        common_lisp_notation() == (LanguageFeatures {
            lisp_vline_symbols: true,
            lisp_block_comments: true,
            ..plain()
        }),
        scheme_notation() == (LanguageFeatures {
            scheme_sexp_comments: true,
            ..common_lisp_notation()
        }),
{
}

/// The lower case of the letters `A` to `Z` are the letters `a` to `z`, in order;
/// no other character changes, and none changes twice.
pub proof fn law_lower_case_of_ascii(c: char)
    ensures
        65 <= c as u32 <= 90 ==> ascii_lower(c) as u32 == c as u32 + 32,
        !(65 <= c as u32 <= 90) ==> ascii_lower(c) == c,
        ascii_lower(ascii_lower(c)) == ascii_lower(c),
{
}

/// Names that differ in the case of ASCII letters alone name the same dialect.
pub proof fn law_case_of_name_does_not_matter(a: Seq<char>, b: Seq<char>)
    requires
        a.len() == b.len(),
        forall|i: int|
            0 <= i < a.len() ==> (#[trigger] a[i]) == b[i] || (65 <= a[i] as u32 <= 90 && b[i] as u32
                == a[i] as u32 + 32),
    ensures
        notation_of(a.map_values(|c: char| ascii_lower(c))) == notation_of(
            b.map_values(|c: char| ascii_lower(c)),
        ),
{
    let x = a.map_values(|c: char| ascii_lower(c));
    let y = b.map_values(|c: char| ascii_lower(c));
    assert forall|i: int| 0 <= i < x.len() implies x[i] == y[i] by {
        lemma_same_lower_case(a[i], b[i]);
    }
    assert(x == y);
}

/// A letter and its lower case have the same lower case.
proof fn lemma_same_lower_case(c: char, d: char)
    requires
        c == d || (65 <= c as u32 <= 90 && d as u32 == c as u32 + 32),
    ensures
        ascii_lower(c) == ascii_lower(d),
{
}

} // verus!
