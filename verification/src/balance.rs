//! What is asked of the balancer, Parinfer, and what is made of its answer.

use vstd::prelude::*;
use vstd::string::*;
use vstd::utf8::*;

use crate::comment_laws;
use crate::comments;
use crate::language;
use crate::language::LanguageFeatures;
use crate::text;

verus! {

/// An edit that the balancer may be told of.
#[derive(Debug)]
pub struct Change {
    /// The line of the edit.
    pub line_no: usize,
    /// The column of the edit.
    pub x: usize,
    /// The text before the edit.
    pub old_text: String,
    /// The text after the edit.
    pub new_text: String,
}

/// How the balancer is to read the code, and what it may know of the editor.
#[derive(Debug)]
pub struct Options {
    /// The column of the cursor.
    pub cursor_x: Option<usize>,
    /// The line of the cursor.
    pub cursor_line: Option<usize>,
    /// The column where the cursor was before.
    pub prev_cursor_x: Option<usize>,
    /// The line where the cursor was before.
    pub prev_cursor_line: Option<usize>,
    /// The text before the last edit.
    pub prev_text: Option<String>,
    /// The line where the selection starts.
    pub selection_start_line: Option<usize>,
    /// The last edits.
    pub changes: Vec<Change>,
    /// The character that starts a comment.
    pub comment_char: char,
    /// What opens and closes a string.
    pub string_delimiters: Vec<String>,
    /// See [`LanguageFeatures`].
    pub lisp_vline_symbols: bool,
    /// See [`LanguageFeatures`].
    pub lisp_block_comments: bool,
    /// See [`LanguageFeatures`].
    pub guile_block_comments: bool,
    /// See [`LanguageFeatures`].
    pub scheme_sexp_comments: bool,
    /// See [`LanguageFeatures`].
    pub janet_long_strings: bool,
    /// See [`LanguageFeatures`].
    pub hy_bracket_strings: bool,
}

/// What is asked of the balancer.
#[derive(Debug)]
pub struct Request {
    /// The way of balancing: `indent`, `paren` or `smart`.
    pub mode: String,
    /// The code.
    pub text: String,
    /// How to read it.
    pub options: Options,
}

/// Why the balancer gave up.
#[derive(Debug)]
pub struct Error {
    /// The kind of error.
    pub name: String,
    /// The error in words.
    pub message: String,
    /// The line of the error.
    pub line_no: usize,
    /// The column of the error.
    pub x: usize,
}

/// What the balancer answered, and what became of a text.
#[derive(Debug)]
pub struct Answer {
    /// Whether the code could be balanced.
    pub success: bool,
    /// Why not.
    pub error: Option<Error>,
    /// The text.
    pub text: String,
}

impl Options {
    /// Whether these are the options for code in the given notation, with
    /// nothing known of an editor.
    pub open spec fn is_for(self, features: LanguageFeatures) -> bool {
        &&& self.cursor_x is None
        &&& self.cursor_line is None
        &&& self.prev_cursor_x is None
        &&& self.prev_cursor_line is None
        &&& self.prev_text is None
        &&& self.selection_start_line is None
        &&& self.changes@.len() == 0
        &&& self.comment_char == features.comment_char
        &&& self.string_delimiters.deep_view() == seq![seq!['"']]
        &&& self.lisp_vline_symbols == features.lisp_vline_symbols
        &&& self.lisp_block_comments == features.lisp_block_comments
        &&& self.guile_block_comments == features.guile_block_comments
        &&& self.scheme_sexp_comments == features.scheme_sexp_comments
        &&& self.janet_long_strings == features.janet_long_strings
        &&& self.hy_bracket_strings == features.hy_bracket_strings
    }
}

/// Whether the request asks to balance the code of `s`, comments left out, and
/// whether `notes` are the comments.
pub open spec fn asks_to_balance(
    request: Request,
    notes: Seq<Option<Seq<char>>>,
    s: Seq<char>,
    mode: Seq<char>,
    features: LanguageFeatures,
) -> bool {
    &&& request.mode@ == mode
    &&& request.text@ == text::join(comments::code_lines(s, features))
    &&& request.options.is_for(features)
    &&& notes == comments::line_comments(s, features)
}

/// Strips the comments of a text by the comment character of its dialect, so
/// that code alone is left. [`make_request`] goes by the whole notation.
pub fn preprocess(s: &str, features: &LanguageFeatures) -> (r: (String, Vec<Option<String>>))
    requires
        comments::strippable(s@, comments::lisp_with(features.comment_char)),
    ensures
        r.0@ == text::join(
            comments::code_lines(s@, comments::lisp_with(features.comment_char)),
        ),
        r.1.deep_view() == comments::line_comments(
            s@,
            comments::lisp_with(features.comment_char),
        ),
{
    comments::strip_comments(s, features.comment_char)
}

/// Attaches the comments to the code that the balancer handed back.
pub fn postprocess(code: &str, notes: &[Option<String>]) -> (r: String)
    ensures
        r@ == text::join(comments::attached_lines(code@, notes.deep_view())),
{
    comments::reattach_comments(code, notes)
}

/// Makes up the request to balance a text in the given notation, and keeps the
/// comments of the text.
pub fn make_request(s: &str, mode: &str, features: &LanguageFeatures) -> (r: (
    Request,
    Vec<Option<String>>,
))
    requires
        comments::strippable(s@, *features),
    ensures
        asks_to_balance(r.0, r.1.deep_view(), s@, mode@, *features),
        r.0.text@ == text::join(comments::code_lines(s@, *features)),
        r.1.deep_view() == comments::line_comments(s@, *features),
        r.0.mode@ == mode@,
        r.0.options.cursor_x is None,
        r.0.options.cursor_line is None,
        r.0.options.prev_cursor_x is None,
        r.0.options.prev_cursor_line is None,
        r.0.options.prev_text is None,
        r.0.options.selection_start_line is None,
        r.0.options.changes@.len() == 0,
        r.0.options.string_delimiters.deep_view() == seq![seq!['"']],
        r.0.options.comment_char == features.comment_char,
        r.0.options.lisp_vline_symbols == features.lisp_vline_symbols,
        r.0.options.lisp_block_comments == features.lisp_block_comments,
        r.0.options.guile_block_comments == features.guile_block_comments,
        r.0.options.scheme_sexp_comments == features.scheme_sexp_comments,
        r.0.options.janet_long_strings == features.janet_long_strings,
        r.0.options.hy_bracket_strings == features.hy_bracket_strings,
{
    let (code, notes) = comments::strip_for(s, features);
    let mut string_delimiters: Vec<String> = Vec::new();
    string_delimiters.push("\"".to_owned());
    proof {
        reveal_strlit("\"");
        assert("\""@ == seq!['"']);
        assert(string_delimiters.deep_view() == seq![seq!['"']]);
    }
    let options = Options {
        cursor_x: None,
        cursor_line: None,
        prev_cursor_x: None,
        prev_cursor_line: None,
        prev_text: None,
        selection_start_line: None,
        changes: Vec::new(),
        comment_char: features.comment_char,
        string_delimiters,
        lisp_vline_symbols: features.lisp_vline_symbols,
        lisp_block_comments: features.lisp_block_comments,
        guile_block_comments: features.guile_block_comments,
        scheme_sexp_comments: features.scheme_sexp_comments,
        janet_long_strings: features.janet_long_strings,
        hy_bracket_strings: features.hy_bracket_strings,
    };
    (Request { mode: mode.to_owned(), text: code, options }, notes)
}

/// Makes up the request to balance a text of the dialect `lang`, and keeps the
/// comments of the text.
pub fn prepare(s: &str, mode: &str, lang: &str) -> (r: (Request, Vec<Option<String>>))
    ensures
        asks_to_balance(
            r.0,
            r.1.deep_view(),
            s@,
            mode@,
            language::notation_of(language::lowercase(lang@)),
        ),
        is_ascii_chars(lang@) ==> asks_to_balance(
            r.0,
            r.1.deep_view(),
            s@,
            mode@,
            language::notation_of(lang@.map_values(|c: char| language::ascii_lower(c))),
        ),
        r.0.text@ == text::join(
            comments::code_lines(s@, language::notation_of(language::lowercase(lang@))),
        ),
        r.1.deep_view() == comments::line_comments(
            s@,
            language::notation_of(language::lowercase(lang@)),
        ),
        r.0.mode@ == mode@,
        r.0.options.cursor_x is None,
        r.0.options.cursor_line is None,
        r.0.options.prev_cursor_x is None,
        r.0.options.prev_cursor_line is None,
        r.0.options.prev_text is None,
        r.0.options.selection_start_line is None,
        r.0.options.changes@.len() == 0,
        r.0.options.string_delimiters.deep_view() == seq![seq!['"']],
        r.0.options.comment_char == language::notation_of(
            language::lowercase(lang@),
        ).comment_char,
        r.0.options.lisp_vline_symbols == language::notation_of(
            language::lowercase(lang@),
        ).lisp_vline_symbols,
        r.0.options.lisp_block_comments == language::notation_of(
            language::lowercase(lang@),
        ).lisp_block_comments,
        r.0.options.guile_block_comments == language::notation_of(
            language::lowercase(lang@),
        ).guile_block_comments,
        r.0.options.scheme_sexp_comments == language::notation_of(
            language::lowercase(lang@),
        ).scheme_sexp_comments,
        r.0.options.janet_long_strings == language::notation_of(
            language::lowercase(lang@),
        ).janet_long_strings,
        r.0.options.hy_bracket_strings == language::notation_of(
            language::lowercase(lang@),
        ).hy_bracket_strings,
{
    let features = LanguageFeatures::for_language(lang);
    proof {
        language::law_comment_char_is_ascii(language::lowercase(lang@));
    }
    make_request(s, mode, &features)
}

/// What becomes of a text once the balancer has answered the request for it:
/// the verdict is the balancer's, and the comments are back in the text.
pub fn finish(answer: Answer, notes: &[Option<String>]) -> (r: Answer)
    ensures
        r.success == answer.success,
        r.error == answer.error,
        r.text@ == text::join(comments::attached_lines(answer.text@, notes.deep_view())),
{
    let restored = postprocess(answer.text.as_str(), notes);
    Answer { success: answer.success, error: answer.error, text: restored }
}

/// Where the balancer finds nothing to change, and every comment follows white
/// space or stands on a line of its own, the text comes back as it was.
pub proof fn law_balanced_text_passes_through(
    request: Request,
    notes: Seq<Option<Seq<char>>>,
    s: Seq<char>,
    mode: Seq<char>,
    features: LanguageFeatures,
)
    requires
        comments::strippable(s, features),
        asks_to_balance(request, notes, s, mode, features),
        comment_laws::all_stand_apart(s, features),
    ensures
        text::join(comments::attached_lines(request.text@, notes)) == s,
{
    comment_laws::law_round_trip(s, features);
}

/// Comments cannot sway the balancer: for two texts with the same code the same
/// is asked of it, in the same way and with the same options.
pub proof fn law_comments_do_not_sway_the_request(
    first: Request,
    first_notes: Seq<Option<Seq<char>>>,
    s: Seq<char>,
    second: Request,
    second_notes: Seq<Option<Seq<char>>>,
    t: Seq<char>,
    mode: Seq<char>,
    features: LanguageFeatures,
)
    requires
        asks_to_balance(first, first_notes, s, mode, features),
        asks_to_balance(second, second_notes, t, mode, features),
        text::join(comments::code_lines(s, features)) == text::join(
            comments::code_lines(t, features),
        ),
    ensures
        first.mode@ == second.mode@,
        first.text@ == second.text@,
        first.options.cursor_x == second.options.cursor_x,
        first.options.cursor_line == second.options.cursor_line,
        first.options.prev_cursor_x == second.options.prev_cursor_x,
        first.options.prev_cursor_line == second.options.prev_cursor_line,
        first.options.prev_text.deep_view() == second.options.prev_text.deep_view(),
        first.options.selection_start_line == second.options.selection_start_line,
        first.options.changes@ == second.options.changes@,
        first.options.comment_char == second.options.comment_char,
        first.options.string_delimiters.deep_view() == second.options.string_delimiters.deep_view(),
        first.options.lisp_vline_symbols == second.options.lisp_vline_symbols,
        first.options.lisp_block_comments == second.options.lisp_block_comments,
        first.options.guile_block_comments == second.options.guile_block_comments,
        first.options.scheme_sexp_comments == second.options.scheme_sexp_comments,
        first.options.janet_long_strings == second.options.janet_long_strings,
        first.options.hy_bracket_strings == second.options.hy_bracket_strings,
{
}

/// A request hands on the mode and the code, and each notation of the dialect
/// under its own name; quotes alone open and close strings, and nothing is said of
/// an editor. The comments are kept beside it.
pub proof fn law_request_hands_on_notation(
    request: Request,
    notes: Seq<Option<Seq<char>>>,
    s: Seq<char>,
    mode: Seq<char>,
    features: LanguageFeatures,
)
    ensures
        asks_to_balance(request, notes, s, mode, features) <==> {
            let o = request.options;
            &&& request.mode@ == mode
            &&& request.text@ == text::join(comments::code_lines(s, features))
            &&& notes == comments::line_comments(s, features)
            &&& o.comment_char == features.comment_char
            &&& o.lisp_vline_symbols == features.lisp_vline_symbols
            &&& o.lisp_block_comments == features.lisp_block_comments
            &&& o.guile_block_comments == features.guile_block_comments
            &&& o.scheme_sexp_comments == features.scheme_sexp_comments
            &&& o.janet_long_strings == features.janet_long_strings
            &&& o.hy_bracket_strings == features.hy_bracket_strings
            &&& o.string_delimiters.deep_view() == seq![seq!['"']]
            &&& o.changes@.len() == 0
            &&& o.cursor_x is None
            &&& o.cursor_line is None
            &&& o.prev_cursor_x is None
            &&& o.prev_cursor_line is None
            &&& o.prev_text is None
            &&& o.selection_start_line is None
        },
{
}

/// The options of a request for the dialect with the given name in lower case,
/// for every name.
pub proof fn law_request_is_in_notation_of_dialect(
    request: Request,
    notes: Seq<Option<Seq<char>>>,
    s: Seq<char>,
    mode: Seq<char>,
    name: Seq<char>,
)
    requires
        asks_to_balance(request, notes, s, mode, language::notation_of(name)),
    ensures
        ({
            let o = request.options;
            let plain = name == "clojure"@ || name == "hy"@ || name == "janet"@;
            &&& o.comment_char == if name == "janet"@ || name == "picolisp"@ {
                '#'
            } else {
                ';'
            }
            &&& o.lisp_vline_symbols == !plain
            &&& o.lisp_block_comments == !plain
            &&& !o.guile_block_comments
            &&& o.scheme_sexp_comments == (name == "scheme"@ || name == "racket"@)
            &&& o.janet_long_strings == (name == "janet"@)
            &&& o.hy_bracket_strings == (name == "hy"@)
        }),
{
    language::law_dialects_are_told_apart(name);
}

} // verus!
