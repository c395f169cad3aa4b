//! What holds of the search for the comment of a line.
//!
//! Every line is made up of plain bytes, string literals, character literals and
//! marks of expression comments, up to its comment. The laws say what each of
//! these at the start of a line does to the search; together they say where the
//! comment of any line starts.

use vstd::prelude::*;
use vstd::utf8::*;

use crate::comments;
use crate::encoding;
use crate::language::LanguageFeatures;
use crate::text;

verus! {

/// Whether `body` is the text of a string literal: backslashes escape what
/// follows them, and no quote stands unescaped.
pub open spec fn string_body(body: Seq<u8>) -> bool
    decreases body.len(),
{
    if body.len() == 0 {
        true
    } else if body[0] == 92 {
        body.len() >= 2 && string_body(body.skip(2))
    } else {
        body[0] != 34 && string_body(body.skip(1))
    }
}

/// Whether every byte of `name` is an ASCII letter.
pub open spec fn letters(name: Seq<u8>) -> bool {
    forall|j: int|
        0 <= j < name.len() ==> 65 <= (#[trigger] name[j]) <= 90 || 97 <= name[j] <= 122
}

/// A string literal ends at the same place wherever the line starts.
proof fn lemma_string_end_shift(x: Seq<u8>, r: Seq<u8>, i: int)
    requires
        0 <= i,
    ensures
        comments::string_end(x + r, x.len() + i) == x.len() + comments::string_end(r, i),
        comments::string_closes(x + r, x.len() + i) == comments::string_closes(r, i),
    decreases r.len() + 1 - i,
{
    if i < r.len() {
        assert((x + r)[x.len() + i] == r[i]);
        lemma_string_end_shift(x, r, i + 1);
        lemma_string_end_shift(x, r, i + 2);
    }
}

/// A run of letters ends at the same place wherever the line starts.
proof fn lemma_name_end_shift(x: Seq<u8>, r: Seq<u8>, i: int)
    requires
        0 <= i,
    ensures
        comments::name_end(x + r, x.len() + i) == x.len() + comments::name_end(r, i),
    decreases r.len() - i,
{
    if i < r.len() {
        assert((x + r)[x.len() + i] == r[i]);
        lemma_name_end_shift(x, r, i + 1);
    }
}

/// The search finds the same from a lexeme on, whatever stands before it.
proof fn lemma_search_shift(x: Seq<u8>, r: Seq<u8>, n: LanguageFeatures, i: int)
    requires
        0 <= i <= r.len(),
    ensures
        comments::comment_from(x + r, n, x.len() + i) == x.len() + comments::comment_from(r, n, i),
    decreases r.len() - i,
{
    let b = x + r;
    if i < r.len() {
        assert(b[x.len() + i] == r[i]);
        if i + 1 < r.len() {
            assert(b[x.len() + i + 1] == r[i + 1]);
        }
        lemma_string_end_shift(x, r, i + 1);
        lemma_name_end_shift(x, r, i + 3);
        comments::lemma_lexeme_end(r, n, i);
        assert(comments::lexeme_end(b, n, x.len() + i) == x.len() + comments::lexeme_end(r, n, i));
        lemma_search_shift(x, r, n, comments::lexeme_end(r, n, i));
    }
}

/// A string literal ends behind the quote that follows its text.
pub proof fn law_string_ends_behind_its_quote(body: Seq<u8>, rest: Seq<u8>)
    requires
        string_body(body),
    ensures
        comments::string_end(body + seq![34u8] + rest, 0) == body.len() + 1,
        comments::string_closes(body + seq![34u8] + rest, 0),
    decreases body.len(),
{
    let b = body + seq![34u8] + rest;
    if body.len() > 0 {
        assert(b[0] == body[0]);
        let d: int = if body[0] == 92 {
            2
        } else {
            1
        };
        let x = b.take(d);
        let r = body.skip(d) + seq![34u8] + rest;
        law_string_ends_behind_its_quote(body.skip(d), rest);
        assert(b == x + r);
        lemma_string_end_shift(x, r, 0);
    }
}

/// A string literal without a quote behind its text ends with the line, also
/// where the line ends in a backslash.
pub proof fn law_unclosed_string_ends_with_its_line(body: Seq<u8>)
    requires
        string_body(body),
    ensures
        comments::string_end(body, 0) == body.len(),
        !comments::string_closes(body, 0),
        comments::string_end(body.push(92), 0) == body.len() + 1,
        !comments::string_closes(body.push(92), 0),
    decreases body.len(),
{
    let b = body.push(92);
    if body.len() > 0 {
        assert(b[0] == body[0]);
        let d: int = if body[0] == 92 {
            2
        } else {
            1
        };
        let x = body.take(d);
        let r = body.skip(d);
        law_unclosed_string_ends_with_its_line(r);
        assert(body == x + r);
        assert(b == x + r.push(92));
        lemma_string_end_shift(x, r, 0);
        lemma_string_end_shift(x, r.push(92), 0);
    } else {
        assert(b[0] == 92);
        assert(comments::string_end(b, 2) == 1);
        assert(!comments::string_closes(b, 2));
    }
}

/// Letters end where something else follows them.
proof fn lemma_letters_end(name: Seq<u8>, rest: Seq<u8>)
    requires
        letters(name),
        rest.len() > 0 ==> !letters(rest.take(1)),
    ensures
        comments::name_end(name + rest, 0) == name.len(),
    decreases name.len(),
{
    let b = name + rest;
    if name.len() > 0 {
        let tail = name.skip(1);
        assert forall|j: int| 0 <= j < tail.len() implies 65 <= (#[trigger] tail[j]) <= 90 || 97
            <= tail[j] <= 122 by {
            assert(tail[j] == name[j + 1]);
        }
        lemma_letters_end(tail, rest);
        assert(b == name.take(1) + (tail + rest));
        lemma_name_end_shift(name.take(1), tail + rest, 0);
        assert(b[0] == name[0]);
    } else if rest.len() > 0 {
        assert(b[0] == rest[0]);
        assert(rest.take(1)[0] == rest[0]);
        assert(!comments::letter(b[0])) by {
            if comments::letter(b[0]) {
                assert(letters(rest.take(1)));
            }
        }
    }
}

/// An empty line has no comment.
pub proof fn law_empty_line_has_no_comment(n: LanguageFeatures, open: bool)
    ensures
        comments::comment_start(Seq::empty(), n, open) == 0,
{
}

/// The comment character at the start of a line starts a comment. A quote never
/// does, and a number sign does not where a backslash follows it.
pub proof fn law_comment_char_starts_comment(rest: Seq<u8>, n: LanguageFeatures)
    requires
        n.comment_char as u8 != 34,
        n.comment_char as u8 == 35 && rest.len() > 0 ==> rest[0] != 92,
    ensures
        comments::comment_start(seq![n.comment_char as u8] + rest, n, false) == 0,
{
    let b = seq![n.comment_char as u8] + rest;
    assert(b[0] == n.comment_char as u8);
    if rest.len() > 0 {
        assert(b[1] == rest[0]);
    }
}

/// A plain byte at the start of a line only moves the comment by one: any byte
/// but a quote, a number sign and the comment character.
pub proof fn law_plain_byte_is_code(c: u8, rest: Seq<u8>, n: LanguageFeatures)
    requires
        c != 34,
        c != 35,
        c != n.comment_char as u8,
    ensures
        comments::comment_start(seq![c] + rest, n, false) == 1 + comments::comment_start(
            rest,
            n,
            false,
        ),
{
    let b = seq![c] + rest;
    assert(b[0] == c);
    lemma_search_shift(seq![c], rest, n, 0);
}

/// A number sign that neither a backslash follows nor, in a dialect with
/// expression comments, a semicolon is a plain byte, unless it is the comment
/// character.
pub proof fn law_number_sign_is_code(rest: Seq<u8>, n: LanguageFeatures)
    requires
        n.comment_char as u8 != 35,
        rest.len() > 0 ==> rest[0] != 92 && !(n.scheme_sexp_comments && rest[0] == 59),
    ensures
        comments::comment_start(seq![35u8] + rest, n, false) == 1 + comments::comment_start(
            rest,
            n,
            false,
        ),
{
    let b = seq![35u8] + rest;
    assert(b[0] == 35);
    if rest.len() > 0 {
        assert(b[1] == rest[0]);
    }
    lemma_search_shift(seq![35u8], rest, n, 0);
}

/// In a dialect with expression comments `#;` only moves the comment by two,
/// unless a number sign starts comments.
pub proof fn law_expression_mark_is_code(rest: Seq<u8>, n: LanguageFeatures)
    requires
        n.comment_char as u8 != 35,
        n.scheme_sexp_comments,
    ensures
        comments::comment_start(seq![35u8, 59u8] + rest, n, false) == 2 + comments::comment_start(
            rest,
            n,
            false,
        ),
{
    let b = seq![35u8, 59u8] + rest;
    assert(b[0] == 35 && b[1] == 59);
    lemma_search_shift(seq![35u8, 59u8], rest, n, 0);
}

/// A character literal only moves the comment by its length: `#\`, one byte
/// whatever it is, and the letters behind it.
pub proof fn law_character_literal_is_code(
    c: u8,
    name: Seq<u8>,
    rest: Seq<u8>,
    n: LanguageFeatures,
)
    requires
        letters(name),
        rest.len() > 0 ==> !letters(rest.take(1)),
    ensures
        comments::comment_start(seq![35u8, 92u8, c] + name + rest, n, false) == 3 + name.len()
            + comments::comment_start(rest, n, false),
{
    let x = seq![35u8, 92u8, c];
    let b = x + name + rest;
    assert(b == x + (name + rest));
    assert(b[0] == 35 && b[1] == 92);
    lemma_letters_end(name, rest);
    lemma_name_end_shift(x, name + rest, 0);
    assert(comments::lexeme_end(b, n, 0) == 3 + name.len());
    assert(b == (x + name) + rest);
    lemma_search_shift(x + name, rest, n, 0);
}

/// A character literal that the end of the line cuts off leaves no comment.
pub proof fn law_cut_character_literal_is_code(n: LanguageFeatures)
    ensures
        comments::comment_start(seq![35u8, 92u8], n, false) == 2,
{
    let b = seq![35u8, 92u8];
    assert(b[0] == 35 && b[1] == 92);
    assert(comments::lexeme_end(b, n, 0) == 2);
    assert(comments::comment_from(b, n, 2) == 2);
}

/// A string literal only moves the comment by its length, whatever it holds.
pub proof fn law_string_literal_is_code(body: Seq<u8>, rest: Seq<u8>, n: LanguageFeatures)
    requires
        string_body(body),
    ensures
        comments::comment_start(seq![34u8] + body + seq![34u8] + rest, n, false) == 2 + body.len()
            + comments::comment_start(rest, n, false),
        comments::comment_start(body + seq![34u8] + rest, n, true) == 1 + body.len()
            + comments::comment_start(rest, n, false),
{
    let inner = body + seq![34u8] + rest;
    let b = seq![34u8] + body + seq![34u8] + rest;
    law_string_ends_behind_its_quote(body, rest);
    assert(b == seq![34u8] + inner);
    assert(b[0] == 34);
    lemma_string_end_shift(seq![34u8], inner, 0);
    assert(comments::lexeme_end(b, n, 0) == 2 + body.len());
    assert(b == (seq![34u8] + body + seq![34u8]) + rest);
    lemma_search_shift(seq![34u8] + body + seq![34u8], rest, n, 0);
    assert(inner == (body + seq![34u8]) + rest);
    lemma_search_shift(body + seq![34u8], rest, n, 0);
}

/// A string literal that the line does not close leaves no comment, whether it
/// starts on the line or was open before; so with a backslash at the end.
pub proof fn law_unclosed_string_literal_is_code(body: Seq<u8>, n: LanguageFeatures)
    requires
        string_body(body),
    ensures
        comments::comment_start(seq![34u8] + body, n, false) == 1 + body.len(),
        comments::comment_start(seq![34u8] + body.push(92), n, false) == 2 + body.len(),
        comments::comment_start(body, n, true) == body.len(),
        comments::comment_start(body.push(92), n, true) == 1 + body.len(),
{
    law_unclosed_string_ends_with_its_line(body);
    let (b, c) = (seq![34u8] + body, seq![34u8] + body.push(92));
    assert(b[0] == 34 && c[0] == 34);
    lemma_string_end_shift(seq![34u8], body, 0);
    lemma_string_end_shift(seq![34u8], body.push(92), 0);
    assert(comments::comment_from(b, n, b.len() as int) == b.len());
    assert(comments::comment_from(c, n, c.len() as int) == c.len());
}

/// Bytes that cannot start a literal or a comment only move the comment by their
/// number.
pub proof fn law_plain_bytes_are_code(before: Seq<u8>, rest: Seq<u8>, n: LanguageFeatures)
    requires
        forall|j: int|
            0 <= j < before.len() ==> (#[trigger] before[j]) != 34 && before[j] != 35 && before[j]
                != n.comment_char as u8,
    ensures
        comments::comment_start(before + rest, n, false) == before.len() + comments::comment_start(
            rest,
            n,
            false,
        ),
    decreases before.len(),
{
    if before.len() == 0 {
        assert(before + rest == rest);
    } else {
        let tail = before.skip(1);
        assert forall|j: int| 0 <= j < tail.len() implies (#[trigger] tail[j]) != 34 && tail[j]
            != 35 && tail[j] != n.comment_char as u8 by {
            assert(tail[j] == before[j + 1]);
        }
        law_plain_bytes_are_code(tail, rest, n);
        law_plain_byte_is_code(before[0], tail + rest, n);
        assert(before + rest == seq![before[0]] + (tail + rest));
    }
}

/// The code of a line is what its encoding holds before the comment, and the
/// comment is the rest. Where nothing but white space precedes the comment, the
/// code is empty and the comment is the whole line; where there is none, the
/// code is the whole line.
pub proof fn law_line_is_cut_at_its_comment(
    head: Seq<char>,
    tail: Seq<char>,
    n: LanguageFeatures,
    open: bool,
)
    requires
        encode_utf8(head).len() == comments::comment_start(encode_utf8(head + tail), n, open),
    ensures
        comments::strip_line(head + tail, n, open) == if tail.len() == 0 {
            (head + tail, None::<Seq<char>>)
        } else if forall|j: int| 0 <= j < head.len() ==> text::white_space(#[trigger] head[j]) {
            (Seq::<char>::empty(), Some(head + tail))
        } else {
            (head, Some(tail))
        },
{
    let line = head + tail;
    let b = encode_utf8(line);
    let k = encode_utf8(head).len() as int;
    encoding::lemma_encode_concat(head, tail);
    assert(b.subrange(0, k) == encode_utf8(head));
    assert(b.subrange(k, b.len() as int) == encode_utf8(tail));
    encode_utf8_decode_utf8(head);
    encode_utf8_decode_utf8(tail);
    if tail.len() == 0 {
        assert(encode_utf8(tail).len() == 0);
    } else {
        assert(encode_utf8(tail).len() > 0) by {
            if encode_utf8(tail).len() == 0 {
                assert(encode_utf8(tail) == encode_utf8(Seq::<char>::empty()));
                encoding::lemma_encode_injective(tail, Seq::empty());
            }
        }
    }
}

/// The encoding of a text without an ASCII character does not hold its byte.
proof fn lemma_byte_of_char(s: Seq<char>, c: char, k: int)
    requires
        c as u32 <= 0x7f,
        0 <= k < encode_utf8(s).len(),
        encode_utf8(s)[k] == c as u8,
    ensures
        s.contains(c),
{
    encoding::lemma_ascii_byte_is_boundary(s, k);
    encoding::lemma_cut(s, k);
    let b = encode_utf8(s);
    let head = decode_utf8(b.subrange(0, k));
    let tail = decode_utf8(b.subrange(k, b.len() as int));
    encoding::lemma_starts_with_ascii(tail);
    encoding::lemma_char_byte_char(c);
    assert(s[head.len() as int] == c);
}

/// The first comment character behind code without quotes and number signs
/// starts the comment, and the comment reaches to the end of the line.
pub proof fn law_first_comment_char_starts_comment(
    before: Seq<char>,
    behind: Seq<char>,
    n: LanguageFeatures,
)
    requires
        n.comment_char as u32 <= 0x7f,
        n.comment_char != '"',
        !before.contains('"'),
        !before.contains('#'),
        !before.contains(n.comment_char),
        n.comment_char == '#' && behind.len() > 0 ==> behind[0] != '\\',
    ensures
        comments::strip_line(before + (seq![n.comment_char] + behind), n, false) == if forall|
            j: int,
        |
            0 <= j < before.len() ==> text::white_space(#[trigger] before[j]) {
            (Seq::<char>::empty(), Some(before + (seq![n.comment_char] + behind)))
        } else {
            (before, Some(seq![n.comment_char] + behind))
        },
{
    let c = n.comment_char;
    let tail = seq![c] + behind;
    let (x, y) = (encode_utf8(before), encode_utf8(behind));
    encoding::lemma_encode_concat(before, tail);
    encoding::lemma_encode_concat(seq![c], behind);
    encoding::lemma_encode_ascii_char(c);
    assert(encode_utf8(seq![c]) == seq![c as u8]) by {
        assert(seq![c].drop_first() == Seq::<char>::empty());
        assert(encode_utf8(Seq::<char>::empty()) == Seq::<u8>::empty());
    }
    assert forall|j: int| 0 <= j < x.len() implies (#[trigger] x[j]) != 34 && x[j] != 35 && x[j]
        != c as u8 by {
        if x[j] == 34 {
            lemma_byte_of_char(before, '"', j);
        }
        if x[j] == 35 {
            lemma_byte_of_char(before, '#', j);
        }
        if x[j] == c as u8 {
            lemma_byte_of_char(before, c, j);
        }
    }
    if c == '#' && y.len() > 0 && y[0] == 92 {
        encoding::lemma_starts_with_ascii(behind);
    }
    law_plain_bytes_are_code(x, seq![c as u8] + y, n);
    law_comment_char_starts_comment(y, n);
    law_line_is_cut_at_its_comment(before, tail, n, false);
}

/// A line without quotes, number signs and comment characters is all code.
pub proof fn law_line_without_marks_is_code(line: Seq<char>, n: LanguageFeatures)
    requires
        n.comment_char as u32 <= 0x7f,
        !line.contains('"'),
        !line.contains('#'),
        !line.contains(n.comment_char),
    ensures
        comments::strip_line(line, n, false) == (line, None::<Seq<char>>),
{
    let x = encode_utf8(line);
    assert forall|j: int| 0 <= j < x.len() implies (#[trigger] x[j]) != 34 && x[j] != 35 && x[j]
        != n.comment_char as u8 by {
        if x[j] == 34 {
            lemma_byte_of_char(line, '"', j);
        }
        if x[j] == 35 {
            lemma_byte_of_char(line, '#', j);
        }
        if x[j] == n.comment_char as u8 {
            lemma_byte_of_char(line, n.comment_char, j);
        }
    }
    law_plain_bytes_are_code(x, Seq::empty(), n);
    law_empty_line_has_no_comment(n, false);
    assert(x + Seq::<u8>::empty() == x);
    assert(line + Seq::<char>::empty() == line);
    law_line_is_cut_at_its_comment(line, Seq::empty(), n, false);
}

/// Every line of a text is stripped, each by itself but for the string literal
/// that may be open before it: there is one piece of code and one comment entry
/// for each line, in order.
pub proof fn law_every_line_is_stripped(s: Seq<char>, n: LanguageFeatures)
    ensures
        comments::code_lines(s, n).len() == text::lines(s).len(),
        comments::line_comments(s, n).len() == text::lines(s).len(),
        forall|i: int|
            0 <= i < text::lines(s).len() ==> (
                #[trigger] comments::code_lines(s, n)[i],
                comments::line_comments(s, n)[i],
            ) == comments::strip_line(
                text::lines(s)[i],
                n,
                comments::place_before(text::lines(s), n, i).mode == crate::reader::Mode::Quoted,
            ),
{
}

/// The code of a text and its comments hold the whole text: each line is its
/// code with its comment behind it.
pub proof fn law_nothing_is_lost(s: Seq<char>, n: LanguageFeatures, i: int)
    requires
        comments::strippable(s, n),
        0 <= i < text::lines(s).len(),
    ensures
        text::lines(s)[i] == comments::code_lines(s, n)[i] + match comments::line_comments(
            s,
            n,
        )[i] {
            Some(comment) => comment,
            None => Seq::empty(),
        },
{
    crate::comment_laws::lemma_line_cuts(s, n, i);
    crate::comment_laws::law_line_is_code_and_comment(
        text::lines(s)[i],
        n,
        comments::open_before(text::lines(s), n, i),
    );
}

} // verus!
