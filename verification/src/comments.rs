//! Takes the comments out of Lisp code, line by line, and puts them back.
//!
//! Comment text has no bearing on the structure of the code, yet a stray quote
//! or bar in it can mislead a parenthesis balancer. So comments are removed
//! before balancing, and attached again to the lines they came from.

use vstd::prelude::*;
use vstd::string::*;
use vstd::utf8::*;

use crate::encoding;
use crate::language;
use crate::language::LanguageFeatures;
use crate::reader;
use crate::reader::{Place, PlaceView, BACKSLASH, HASH, QUOTE, SEMICOLON};
use crate::text;

verus! {

/// Whether `b` is an ASCII letter.
pub open spec fn letter(b: u8) -> bool {
    65 <= b <= 90 || 97 <= b <= 122
}

/// Where the string literal whose text starts at `i` ends: behind the first
/// quote that no backslash escapes, or at the end of the line.
pub open spec fn string_end(b: Seq<u8>, i: int) -> int
    decreases b.len() + 1 - i,
{
    if i >= b.len() {
        b.len() as int
    } else if b[i] == BACKSLASH {
        string_end(b, i + 2)
    } else if b[i] == QUOTE {
        i + 1
    } else {
        string_end(b, i + 1)
    }
}

/// Whether the string literal whose text reaches `i` is closed on the line.
pub open spec fn string_closes(b: Seq<u8>, i: int) -> bool
    decreases b.len() + 1 - i,
{
    if i >= b.len() {
        false
    } else if b[i] == BACKSLASH {
        string_closes(b, i + 2)
    } else {
        b[i] == QUOTE || string_closes(b, i + 1)
    }
}

/// Where the run of letters at `i` ends.
pub open spec fn name_end(b: Seq<u8>, i: int) -> int
    decreases b.len() - i,
{
    if i >= b.len() {
        b.len() as int
    } else if letter(b[i]) {
        name_end(b, i + 1)
    } else {
        i
    }
}

/// Whether a string literal starts at `i`.
pub open spec fn starts_string(b: Seq<u8>, i: int) -> bool {
    b[i] == QUOTE
}

/// Whether a character literal, such as `#\x` or `#\Space`, starts at `i`.
pub open spec fn starts_character(b: Seq<u8>, i: int) -> bool {
    b[i] == HASH && i + 1 < b.len() && b[i + 1] == BACKSLASH
}

/// Whether the mark of an expression comment, `#;`, starts at `i`, in a dialect
/// that has it.
pub open spec fn starts_expression_comment(b: Seq<u8>, n: LanguageFeatures, i: int) -> bool {
    n.scheme_sexp_comments && b[i] == HASH && i + 1 < b.len() && b[i + 1] == SEMICOLON
}

/// Where the lexeme at `i` ends. A string literal, a character literal and the
/// mark of an expression comment are one lexeme each; every other byte is a
/// lexeme of its own.
pub open spec fn lexeme_end(b: Seq<u8>, n: LanguageFeatures, i: int) -> int {
    if starts_string(b, i) {
        string_end(b, i + 1)
    } else if starts_character(b, i) {
        name_end(b, i + 3)
    } else if starts_expression_comment(b, n, i) {
        i + 2
    } else {
        i + 1
    }
}

/// Whether a comment starts at the lexeme at `i`: with the byte of the comment
/// character, unless a literal starts there.
pub open spec fn starts_comment(b: Seq<u8>, n: LanguageFeatures, i: int) -> bool {
    b[i] == n.comment_char as u8 && !starts_string(b, i) && !starts_character(b, i)
}

/// Where the first comment at or behind the lexeme at `i` starts, or the end of
/// the line.
pub open spec fn comment_from(b: Seq<u8>, n: LanguageFeatures, i: int) -> int
    decreases b.len() - i,
{
    if i < 0 || i >= b.len() {
        b.len() as int
    } else if starts_comment(b, n, i) {
        i
    } else {
        proof {
            lemma_lexeme_end(b, n, i);
        }
        comment_from(b, n, lexeme_end(b, n, i))
    }
}

/// Where the first lexeme of the line `b` starts: behind the string literal
/// that is open from the line before, if there is one.
pub open spec fn first_lexeme(b: Seq<u8>, open: bool) -> int {
    if open {
        string_end(b, 0)
    } else {
        0
    }
}

/// Where the comment of the line `b` starts, the end of the line if it has
/// none. `open` tells whether the line starts inside a string literal.
pub open spec fn comment_start(b: Seq<u8>, n: LanguageFeatures, open: bool) -> int {
    comment_from(b, n, first_lexeme(b, open))
}

/// The code of a line, and its comment if it has one; `open` tells whether the
/// line starts inside a string literal. A line with nothing but white space
/// before the comment is a comment as a whole: its code is empty, and the whole
/// line is kept as the comment.
pub open spec fn strip_line(line: Seq<char>, n: LanguageFeatures, open: bool) -> (
    Seq<char>,
    Option<Seq<char>>,
) {
    let b = encode_utf8(line);
    let k = comment_start(b, n, open);
    let code = decode_utf8(b.subrange(0, k));
    if k == b.len() {
        (line, None)
    } else if text::blank(code) {
        (Seq::empty(), Some(line))
    } else {
        (code, Some(decode_utf8(b.subrange(k, b.len() as int))))
    }
}

/// Where a reader of the code of the lines `ls` stands before line `i`.
pub open spec fn place_before(ls: Seq<Seq<char>>, n: LanguageFeatures, i: int) -> PlaceView
    decreases i,
{
    if i <= 0 {
        reader::at(reader::Mode::Code)
    } else {
        let p = place_before(ls, n, i - 1);
        let code = strip_line(ls[i - 1], n, reader::in_string(p)).0;
        reader::place_behind(encode_utf8(code), n, p)
    }
}

/// Whether line `i` of the lines `ls` starts inside a string literal.
pub open spec fn open_before(ls: Seq<Seq<char>>, n: LanguageFeatures, i: int) -> bool {
    reader::in_string(place_before(ls, n, i))
}

/// Line `i` of `s`, stripped.
pub open spec fn stripped_line(s: Seq<char>, n: LanguageFeatures, i: int) -> (
    Seq<char>,
    Option<Seq<char>>,
) {
    strip_line(text::lines(s)[i], n, open_before(text::lines(s), n, i))
}

/// The code of each line of `s`.
pub open spec fn code_lines(s: Seq<char>, n: LanguageFeatures) -> Seq<Seq<char>> {
    Seq::new(text::lines(s).len(), |i: int| stripped_line(s, n, i).0)
}

/// The comment of each line of `s`.
pub open spec fn line_comments(s: Seq<char>, n: LanguageFeatures) -> Seq<Option<Seq<char>>> {
    Seq::new(text::lines(s).len(), |i: int| stripped_line(s, n, i).1)
}

/// The notation of Common Lisp with the given comment character.
pub open spec fn lisp_with(comment_char: char) -> LanguageFeatures {
    LanguageFeatures { comment_char, ..language::common_lisp_notation() }
}

/// Whether the comment of the line starts between two characters.
pub open spec fn cuts_between_characters(line: Seq<char>, n: LanguageFeatures, open: bool) -> bool {
    is_char_boundary(
        encode_utf8(line),
        comment_start(encode_utf8(line), n, open),
    )
}

/// Whether the comments of `s` can be cut off. An ASCII comment character
/// always allows that. Of another one only the low byte is looked for, and
/// that byte must not be found inside a character.
pub open spec fn strippable(s: Seq<char>, n: LanguageFeatures) -> bool {
    encoding::is_ascii_char(n.comment_char) || forall|i: int|
        0 <= i < text::lines(s).len() ==> cuts_between_characters(
            #[trigger] text::lines(s)[i],
            n,
            open_before(text::lines(s), n, i),
        )
}

/// A line with its comment behind it. A space goes between them where the line
/// ends in something other than white space.
pub open spec fn attach(line: Seq<char>, comment: Option<Seq<char>>) -> Seq<char> {
    match comment {
        None => line,
        Some(c) => if line.len() > 0 && !text::ends_blank(line) {
            line + seq![' '] + c
        } else {
            line + c
        },
    }
}

/// The comment for line `i`, if there is one.
pub open spec fn comment_at(comments: Seq<Option<Seq<char>>>, i: int) -> Option<Seq<char>> {
    if 0 <= i < comments.len() {
        comments[i]
    } else {
        None
    }
}

/// The lines of `code`, each with its comment.
pub open spec fn attached_lines(code: Seq<char>, comments: Seq<Option<Seq<char>>>) -> Seq<
    Seq<char>,
> {
    text::lines(code).map(|i: int, l: Seq<char>| attach(l, comment_at(comments, i)))
}

/// The end of a lexeme lies behind its start, within the line.
pub proof fn lemma_lexeme_end(b: Seq<u8>, n: LanguageFeatures, i: int)
    requires
        0 <= i < b.len(),
    ensures
        i < lexeme_end(b, n, i) <= b.len(),
{
    lemma_string_end(b, i + 1);
    lemma_name_end(b, i + 3);
}

/// The end of a string literal lies behind its start, within the line.
pub proof fn lemma_string_end(b: Seq<u8>, i: int)
    requires
        0 <= i,
    ensures
        string_end(b, i) <= b.len(),
        i <= b.len() ==> i <= string_end(b, i),
        i < b.len() ==> i < string_end(b, i),
    decreases b.len() + 1 - i,
{
    if i < b.len() {
        lemma_string_end(b, i + 1);
        lemma_string_end(b, i + 2);
    }
}

/// A string literal that is closed on the line ends in a quote; one that is not
/// ends with the line.
pub proof fn lemma_string_closes(b: Seq<u8>, i: int)
    requires
        0 <= i,
    ensures
        string_closes(b, i) ==> i < string_end(b, i) && b[string_end(b, i) - 1] == QUOTE,
        !string_closes(b, i) ==> string_end(b, i) == b.len(),
    decreases b.len() + 1 - i,
{
    if i < b.len() {
        lemma_string_closes(b, i + 1);
        lemma_string_closes(b, i + 2);
    }
}

/// The end of a run of letters lies within the line.
pub proof fn lemma_name_end(b: Seq<u8>, i: int)
    requires
        0 <= i,
    ensures
        name_end(b, i) <= b.len(),
        i <= b.len() ==> i <= name_end(b, i),
        i > b.len() ==> name_end(b, i) == b.len(),
    decreases b.len() - i,
{
    if i < b.len() {
        lemma_name_end(b, i + 1);
    }
}

/// A comment starts within the line, with the comment character.
pub proof fn lemma_comment_from(b: Seq<u8>, n: LanguageFeatures, i: int)
    ensures
        0 <= comment_from(b, n, i) <= b.len(),
        0 <= i <= b.len() ==> i <= comment_from(b, n, i),
        comment_from(b, n, i) < b.len() ==> b[comment_from(b, n, i)] == n.comment_char as u8,
    decreases b.len() - i,
{
    if 0 <= i < b.len() {
        lemma_lexeme_end(b, n, i);
        lemma_comment_from(b, n, lexeme_end(b, n, i));
    }
}

/// The first lexeme starts within the line.
pub proof fn lemma_first_lexeme(b: Seq<u8>, open: bool)
    ensures
        0 <= first_lexeme(b, open) <= b.len(),
{
    lemma_string_end(b, 0);
}

/// An ASCII comment character is always found between two characters.
pub proof fn lemma_ascii_cuts_between_characters(line: Seq<char>, n: LanguageFeatures, open: bool)
    requires
        encoding::is_ascii_char(n.comment_char),
    ensures
        cuts_between_characters(line, n, open),
{
    let b = encode_utf8(line);
    let k = comment_start(b, n, open);
    lemma_comment_from(b, n, first_lexeme(b, open));
    if k < b.len() {
        encoding::lemma_ascii_byte_is_boundary(line, k);
    } else {
        encoding::lemma_end_is_boundary(line);
    }
}

/// The position behind the string literal whose text starts at `start`.
fn skip_string(b: &[u8], start: usize) -> (r: usize)
    requires
        start <= b@.len(),
    ensures
        r == string_end(b@, start as int),
{
    let len: usize = b.len();
    let mut i: usize = start;
    while i < len
        invariant
            0 <= i <= len,
            len == b@.len(),
            string_end(b@, i as int) == string_end(b@, start as int),
        decreases len - i,
    {
        if b[i] == BACKSLASH {
            if len - i <= 2 {
                assert(string_end(b@, i + 2) == len);
                return len;
            }
            i = i + 2;
        } else if b[i] == QUOTE {
            return i + 1;
        } else {
            i = i + 1;
        }
    }
    len
}

/// The position behind the run of letters at `start`.
fn skip_name(b: &[u8], start: usize) -> (r: usize)
    requires
        start <= b@.len(),
    ensures
        r == name_end(b@, start as int),
{
    let len: usize = b.len();
    let mut i: usize = start;
    while i < len && ((65 <= b[i] && b[i] <= 90) || (97 <= b[i] && b[i] <= 122))
        invariant
            0 <= i <= len,
            len == b@.len(),
            name_end(b@, i as int) == name_end(b@, start as int),
        decreases len - i,
    {
        i = i + 1;
    }
    i
}

/// Finds where the comment of a line starts; `open` tells whether the line
/// starts inside a string literal.
pub fn find_comment(b: &[u8], n: &LanguageFeatures, open: bool) -> (r: usize)
    ensures
        r == comment_start(b@, *n, open),
{
    let cc: u8 = n.comment_char as u8;
    let len: usize = b.len();
    let mut i: usize = 0;
    proof {
        lemma_first_lexeme(b@, open);
        assert(comment_from(b@, *n, len as int) == len);
    }
    if open {
        i = skip_string(b, 0);
    }
    while i < len
        invariant
            0 <= i <= len,
            len == b@.len(),
            cc == n.comment_char as u8,
            comment_from(b@, *n, len as int) == len,
            comment_from(b@, *n, i as int) == comment_start(b@, *n, open),
        decreases len - i,
    {
        proof {
            lemma_lexeme_end(b@, *n, i as int);
        }
        if b[i] == QUOTE {
            i = skip_string(b, i + 1);
        } else if b[i] == HASH && len - i > 1 && b[i + 1] == BACKSLASH {
            if len - i <= 3 {
                assert(lexeme_end(b@, *n, i as int) == len);
                return len;
            }
            i = skip_name(b, i + 3);
        } else if b[i] == cc {
            return i;
        } else if n.scheme_sexp_comments && b[i] == HASH && len - i > 1 && b[i + 1] == SEMICOLON {
            i = i + 2;
        } else {
            i = i + 1;
        }
    }
    len
}

/// Strips the comment of every line.
///
/// The result holds the code alone and, for each line, the comment that was on
/// it, or `None` if the line had none. A comment character inside a string
/// literal, which may span lines, or inside a character literal `#\x` starts no
/// comment.
///
/// On its own line every quote outside a character literal `#\x` opens or closes
/// a string. Whether a string is left open at the end of a line is told as a
/// reader of Common Lisp would tell it from the code: a quote behind a
/// backslash, between bars or in a block comment opens none there.
/// [`strip_for`] goes by the notation of a given dialect.
pub fn strip_comments(s: &str, comment_char: char) -> (r: (String, Vec<Option<String>>))
    requires
        strippable(s@, lisp_with(comment_char)),
    ensures
        r.0@ == text::join(code_lines(s@, lisp_with(comment_char))),
        r.1.deep_view() == line_comments(s@, lisp_with(comment_char)),
{
    let n = LanguageFeatures { comment_char, ..LanguageFeatures::common_lisp() };
    strip_for(s, &n)
}

/// Strips the comment of every line, as [`strip_comments`] does, from code in
/// the notation `n`.
///
/// Which strings are left open at the end of a line goes by that notation, as
/// far as [`LanguageFeatures`] tells it. Where it has expression comments, the
/// semicolon of `#;` starts no comment.
pub fn strip_for(s: &str, n: &LanguageFeatures) -> (r: (String, Vec<Option<String>>))
    requires
        strippable(s@, *n),
    ensures
        r.0@ == text::join(code_lines(s@, *n)),
        r.1.deep_view() == line_comments(s@, *n),
{
    let ls = text::split_lines(s);
    let count: usize = ls.len();
    let ghost codes = code_lines(s@, *n);
    let ghost notes = line_comments(s@, *n);
    let mut code: String = String::new();
    let mut comments: Vec<Option<String>> = Vec::new();
    let mut place = Place::start();
    let mut i: usize = 0;
    proof {
        text::lemma_lines_nonempty(s@);
        assert(codes.take(0) == Seq::<Seq<char>>::empty());
        assert(comments.deep_view() == notes.take(0));
        reveal_strlit("\n");
        reveal_strlit("");
    }
    while i < count
        invariant
            0 <= i <= count,
            count == ls@.len(),
            ls.deep_view() == text::lines(s@),
            codes == code_lines(s@, *n),
            notes == line_comments(s@, *n),
            strippable(s@, *n),
            place@ == place_before(text::lines(s@), *n, i as int),
            "\n"@ == seq!['\n'],
            ""@ == Seq::<char>::empty(),
            code@ == text::join(codes.take(i as int)),
            comments.deep_view() == notes.take(i as int),
        decreases count - i,
    {
        let line = ls[i];
        let b = line.as_bytes();
        let open = place.is_in_string();
        let k: usize = find_comment(b, n, open);
        proof {
            assert(ls.deep_view()[i as int] == line@);
            assert(codes[i as int] == strip_line(line@, *n, open).0);
            assert(notes[i as int] == strip_line(line@, *n, open).1);
            if encoding::is_ascii_char(n.comment_char) {
                lemma_ascii_cuts_between_characters(line@, *n, open);
            }
            assert(cuts_between_characters(line@, *n, open));
            encoding::lemma_cut(line@, k as int);
            assert(codes.take(i + 1).drop_last() == codes.take(i as int));
            assert(codes.take(i + 1).last() == codes[i as int]);
            assert(notes.take(i + 1) == notes.take(i as int).push(notes[i as int]));
        }
        let ghost before = comments.deep_view();
        let mut kept: &str = line;
        if k == b.len() {
            comments.push(None);
            assert(comments.deep_view() == before.push(None));
        } else {
            let (head, tail) = line.split_at(k);
            proof {
                encoding::lemma_encode_injective(
                    head@,
                    decode_utf8(encode_utf8(line@).subrange(0, k as int)),
                );
                encoding::lemma_encode_injective(
                    tail@,
                    decode_utf8(
                        encode_utf8(line@).subrange(k as int, encode_utf8(line@).len() as int),
                    ),
                );
            }
            if text::is_blank(head) {
                kept = "";
                comments.push(Some(line.to_owned()));
                assert(comments.deep_view() == before.push(Some(line@)));
            } else {
                kept = head;
                comments.push(Some(tail.to_owned()));
                assert(comments.deep_view() == before.push(Some(tail@)));
            }
        }
        assert(kept@ == codes[i as int]);
        if i > 0 {
            code.append("\n");
        }
        code.append(kept);
        assert(code@ == text::join(codes.take(i + 1)));
        place.read_line(n, kept.as_bytes());
        i = i + 1;
    }
    assert(codes.take(count as int) == codes);
    assert(notes.take(count as int) == notes);
    (code, comments)
}

/// Attaches the comments that [`strip_comments`] removed to the lines of
/// `code`.
pub fn reattach_comments(code: &str, comments: &[Option<String>]) -> (r: String)
    ensures
        r@ == text::join(attached_lines(code@, comments.deep_view())),
{
    let ls = text::split_lines(code);
    let n: usize = ls.len();
    let ghost whole = attached_lines(code@, comments.deep_view());
    let mut out: String = String::new();
    let mut i: usize = 0;
    proof {
        text::lemma_lines_nonempty(code@);
        assert(whole.take(0) == Seq::<Seq<char>>::empty());
        reveal_strlit("\n");
        reveal_strlit(" ");
    }
    while i < n
        invariant
            0 <= i <= n,
            n == ls@.len(),
            ls.deep_view() == text::lines(code@),
            whole == attached_lines(code@, comments.deep_view()),
            "\n"@ == seq!['\n'],
            " "@ == seq![' '],
            out@ == text::join(whole.take(i as int)),
        decreases n - i,
    {
        let line = ls[i];
        let ghost before = out@;
        proof {
            assert(ls.deep_view()[i as int] == line@);
            assert(whole[i as int] == attach(line@, comment_at(comments.deep_view(), i as int)));
            assert(whole.take(i + 1).drop_last() == whole.take(i as int));
            assert(whole.take(i + 1).last() == whole[i as int]);
        }
        if i > 0 {
            out.append("\n");
        }
        let ghost started = out@;
        out.append(line);
        if i < comments.len() {
            assert(comments.deep_view()[i as int] == comments@[i as int].deep_view());
            match &comments[i] {
                Some(comment) => {
                    if !line.is_empty() && !text::ends_with_whitespace(line) {
                        out.append(" ");
                    }
                    out.append(comment.as_str());
                },
                None => {},
            }
        }
        assert(out@ == started + whole[i as int]);
        assert(out@ == text::join(whole.take(i + 1)));
        i = i + 1;
    }
    assert(whole.take(n as int) == whole);
    out
}

} // verus!
