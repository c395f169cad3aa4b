//! What holds of taking comments out and of putting them back.

use vstd::prelude::*;
use vstd::utf8::*;

use crate::comments;
use crate::encoding;
use crate::language::LanguageFeatures;
use crate::reader;
use crate::text;

verus! {

/// The text of a comment, empty if there is none.
pub open spec fn comment_text(comment: Option<Seq<char>>) -> Seq<char> {
    match comment {
        Some(c) => c,
        None => Seq::empty(),
    }
}

/// Whether the comment of the line, if it has one, follows white space or
/// stands on a line of its own.
pub open spec fn stands_apart(line: Seq<char>, n: LanguageFeatures, open: bool) -> bool {
    let (code, comment) = comments::strip_line(line, n, open);
    comment is None || code.len() == 0 || text::ends_blank(code)
}

/// Whether every comment of `s` follows white space or stands on a line of its
/// own.
pub open spec fn all_stand_apart(s: Seq<char>, n: LanguageFeatures) -> bool {
    forall|i: int|
        0 <= i < text::lines(s).len() ==> stands_apart(
            #[trigger] text::lines(s)[i],
            n,
            comments::open_before(text::lines(s), n, i),
        )
}

/// The code of a text, as one text.
pub open spec fn stripped(s: Seq<char>, n: LanguageFeatures) -> Seq<char> {
    text::join(comments::code_lines(s, n))
}

/// The text that comes of stripping the comments of `s` and attaching them
/// again.
pub open spec fn restored(s: Seq<char>, n: LanguageFeatures) -> Seq<char> {
    text::join(
        comments::attached_lines(
            stripped(s, n),
            comments::line_comments(s, n),
        ),
    )
}

/// Nothing of a line is lost: its code and its comment make it up.
pub proof fn law_line_is_code_and_comment(line: Seq<char>, n: LanguageFeatures, open: bool)
    requires
        comments::cuts_between_characters(line, n, open),
    ensures
        ({
            let (code, comment) = comments::strip_line(line, n, open);
            code + comment_text(comment) == line
        }),
{
    let b = encode_utf8(line);
    let k = comments::comment_start(b, n, open);
    encoding::lemma_cut(line, k);
    assert(Seq::<char>::empty() + line == line);
    assert(line + Seq::<char>::empty() == line);
}

/// Every line of a text that can be stripped can be cut between characters.
pub proof fn lemma_line_cuts(s: Seq<char>, n: LanguageFeatures, i: int)
    requires
        comments::strippable(s, n),
        0 <= i < text::lines(s).len(),
    ensures
        comments::cuts_between_characters(
            text::lines(s)[i],
            n,
            comments::open_before(text::lines(s), n, i),
        ),
{
    if encoding::is_ascii_char(n.comment_char) {
        comments::lemma_ascii_cuts_between_characters(
            text::lines(s)[i],
            n,
            comments::open_before(text::lines(s), n, i),
        );
    }
}

/// Neither the code nor the comment of a line of a text holds a newline.
pub proof fn lemma_parts_have_no_newline(s: Seq<char>, n: LanguageFeatures, i: int)
    requires
        comments::strippable(s, n),
        0 <= i < text::lines(s).len(),
    ensures
        !comments::code_lines(s, n)[i].contains('\n'),
        !comment_text(comments::line_comments(s, n)[i]).contains('\n'),
{
    let line = text::lines(s)[i];
    lemma_line_cuts(s, n, i);
    law_line_is_code_and_comment(
        line,
        n,
        comments::open_before(text::lines(s), n, i),
    );
    text::lemma_line_has_no_newline(s, i);
    let code = comments::code_lines(s, n)[i];
    let note = comment_text(comments::line_comments(s, n)[i]);
    assert(code + note == line);
    assert forall|j: int| 0 <= j < code.len() implies code[j] != '\n' by {
        assert(line[j] == code[j]);
    }
    assert forall|j: int| 0 <= j < note.len() implies note[j] != '\n' by {
        assert(line[code.len() + j] == note[j]);
    }
}

/// Stripping keeps the lines apart: the code has as many lines as the text,
/// each the code of its own line, and there is one comment entry for each.
pub proof fn law_strip_keeps_lines(s: Seq<char>, n: LanguageFeatures)
    requires
        comments::strippable(s, n),
    ensures
        text::lines(stripped(s, n)) == comments::code_lines(s, n),
        comments::code_lines(s, n).len() == text::lines(s).len(),
        comments::line_comments(s, n).len() == text::lines(s).len(),
{
    text::lemma_lines_nonempty(s);
    let codes = comments::code_lines(s, n);
    assert forall|i: int| 0 <= i < codes.len() implies !(#[trigger] codes[i]).contains('\n') by {
        lemma_parts_have_no_newline(s, n, i);
    }
    text::lemma_lines_join(codes);
}

/// Attaching the comments of `s` to any code keeps the lines of that code
/// apart: each line of the result is the line of the code with its comment.
pub proof fn law_reattach_keeps_lines(code: Seq<char>, s: Seq<char>, n: LanguageFeatures)
    requires
        comments::strippable(s, n),
    ensures
        ({
            let notes = comments::line_comments(s, n);
            text::lines(text::join(comments::attached_lines(code, notes)))
                == comments::attached_lines(code, notes)
        }),
        comments::attached_lines(code, comments::line_comments(s, n)).len()
            == text::lines(code).len(),
{
    let notes = comments::line_comments(s, n);
    let whole = comments::attached_lines(code, notes);
    text::lemma_lines_nonempty(code);
    assert forall|i: int| 0 <= i < whole.len() implies !(#[trigger] whole[i]).contains('\n') by {
        text::lemma_line_has_no_newline(code, i);
        let line = text::lines(code)[i];
        if i < notes.len() && notes[i] is Some {
            lemma_parts_have_no_newline(s, n, i);
            let note = comment_text(notes[i]);
            let l = whole[i];
            assert forall|j: int| 0 <= j < l.len() implies l[j] != '\n' by {
                if j < line.len() {
                    assert(l[j] == line[j]);
                } else if j >= l.len() - note.len() {
                    assert(l[j] == note[j - (l.len() - note.len())]);
                }
            }
        }
    }
    text::lemma_lines_join(whole);
}

/// Whatever code a balancer hands back, a line of it that had a comment ends
/// in that comment, unchanged, and starts with the code of the line; a line
/// that had none is the code alone.
pub proof fn law_comments_kept_verbatim(code: Seq<char>, s: Seq<char>, n: LanguageFeatures, i: int)
    requires
        comments::strippable(s, n),
        0 <= i < text::lines(code).len(),
    ensures
        ({
            let notes = comments::line_comments(s, n);
            let result = text::lines(text::join(comments::attached_lines(code, notes)));
            &&& result.len() == text::lines(code).len()
            &&& text::lines(code)[i].is_prefix_of(result[i])
            &&& match comments::comment_at(notes, i) {
                Some(note) => note.is_suffix_of(result[i]),
                None => result[i] == text::lines(code)[i],
            }
        }),
{
    law_reattach_keeps_lines(code, s, n);
    let notes = comments::line_comments(s, n);
    let line = text::lines(code)[i];
    let result = comments::attached_lines(code, notes)[i];
    assert(line == result.take(line.len() as int));
    if let Some(note) = comments::comment_at(notes, i) {
        assert(note == result.skip(result.len() - note.len()));
    }
}

/// Attaching comments to the code that they were stripped from gives each line
/// back as it was, but for a space before a comment that stood directly behind
/// the code.
pub proof fn lemma_restored_line(s: Seq<char>, n: LanguageFeatures, i: int)
    requires
        comments::strippable(s, n),
        0 <= i < text::lines(s).len(),
    ensures
        text::lines(restored(s, n)).len() == text::lines(s).len(),
        ({
            let line = text::lines(s)[i];
            let open = comments::open_before(text::lines(s), n, i);
            let (code, comment) = comments::strip_line(line, n, open);
            &&& text::lines(restored(s, n))[i] == comments::attach(code, comment)
            &&& comments::attach(code, comment) == if stands_apart(line, n, open) {
                line
            } else {
                code + seq![' '] + comment_text(comment)
            }
        }),
{
    let line = text::lines(s)[i];
    let open = comments::open_before(text::lines(s), n, i);
    let (code, comment) = comments::strip_line(line, n, open);
    law_strip_keeps_lines(s, n);
    law_reattach_keeps_lines(stripped(s, n), s, n);
    lemma_line_cuts(s, n, i);
    law_line_is_code_and_comment(line, n, open);
    assert(text::lines(restored(s, n))[i] == comments::attach(code, comment));
    if comment is None {
        assert(line + Seq::<char>::empty() == line);
    }
}

/// Stripping the comments and attaching them again gives the text back, if and
/// only if no comment stands directly behind code: one that does gets a space
/// before it.
pub proof fn law_round_trip(s: Seq<char>, n: LanguageFeatures)
    requires
        comments::strippable(s, n),
    ensures
        restored(s, n) == s <==> all_stand_apart(s, n),
{
    let r = restored(s, n);
    text::lemma_lines_nonempty(s);
    lemma_restored_line(s, n, 0);
    if all_stand_apart(s, n) {
        assert forall|i: int| 0 <= i < text::lines(s).len() implies text::lines(r)[i]
            == text::lines(s)[i] by {
            lemma_restored_line(s, n, i);
        }
        assert(text::lines(r) == text::lines(s));
        text::lemma_join_lines(r);
        text::lemma_join_lines(s);
    } else {
        let i = choose|i: int|
            0 <= i < text::lines(s).len() && !stands_apart(
                #[trigger] text::lines(s)[i],
                n,
                comments::open_before(text::lines(s), n, i),
            );
        let line = text::lines(s)[i];
        lemma_restored_line(s, n, i);
        lemma_line_cuts(s, n, i);
        law_line_is_code_and_comment(
            line,
            n,
            comments::open_before(text::lines(s), n, i),
        );
        assert(text::lines(r)[i].len() == line.len() + 1);
    }
}

/// Whether the line `c` starts with the `k` bytes that the line `b` starts with,
/// and goes on with the next byte of `b`, with a space, or not at all.
spec fn same_until(b: Seq<u8>, c: Seq<u8>, k: int) -> bool {
    &&& 0 <= k < b.len()
    &&& k <= c.len()
    &&& forall|j: int| 0 <= j < k ==> #[trigger] c[j] == b[j]
    &&& k < c.len() ==> c[k] == b[k] || c[k] == 32
}

/// A string literal that is closed before the place where two lines part is
/// closed at the same place in both.
proof fn lemma_same_string(b: Seq<u8>, c: Seq<u8>, i: int, k: int)
    requires
        0 <= i,
        same_until(b, c, k),
        comments::string_end(b, i) <= k,
    ensures
        comments::string_end(c, i) == comments::string_end(b, i),
    decreases b.len() + 1 - i,
{
    comments::lemma_string_end(b, i);
    if i < b.len() {
        comments::lemma_string_end(b, i + 1);
        comments::lemma_string_end(b, i + 2);
        assert(c[i] == b[i]);
        if b[i] == reader::BACKSLASH {
            lemma_same_string(b, c, i + 2, k);
        } else if b[i] != reader::QUOTE {
            lemma_same_string(b, c, i + 1, k);
        }
    }
}

/// A run of letters that ends before the place where two lines part ends at the
/// same place in both.
proof fn lemma_same_name(b: Seq<u8>, c: Seq<u8>, i: int, k: int)
    requires
        0 <= i,
        same_until(b, c, k),
        comments::name_end(b, i) <= k,
    ensures
        comments::name_end(c, i) == comments::name_end(b, i),
        i <= k,
    decreases b.len() - i,
{
    comments::lemma_name_end(b, i);
    comments::lemma_name_end(b, i + 1);
    if i < k {
        assert(c[i] == b[i]);
        if comments::letter(b[i]) {
            lemma_same_name(b, c, i + 1, k);
        }
    }
}

/// The search for a comment in a line goes through the same lexemes in another
/// line, up to the place where they part.
proof fn lemma_same_lexemes(b: Seq<u8>, c: Seq<u8>, n: LanguageFeatures, i: int)
    requires
        0 <= i <= b.len(),
        same_until(b, c, comments::comment_from(b, n, i)),
    ensures
        ({
            let k = comments::comment_from(b, n, i);
            &&& comments::comment_from(c, n, i) == comments::comment_from(c, n, k)
            &&& comments::starts_comment(b, n, k)
        }),
    decreases b.len() - i,
{
    let k = comments::comment_from(b, n, i);
    comments::lemma_comment_from(b, n, i);
    let e = comments::lexeme_end(b, n, i);
    comments::lemma_lexeme_end(b, n, i);
    comments::lemma_comment_from(b, n, e);
    if i < k {
        lemma_same_lexemes(b, c, n, e);
        assert(c[i] == b[i]);
        if i + 1 < k {
            assert(c[i + 1] == b[i + 1]);
        }
        if comments::starts_string(b, i) {
            lemma_same_string(b, c, i + 1, k);
        } else if comments::starts_character(b, i) {
            comments::lemma_name_end(b, i + 3);
            lemma_same_name(b, c, i + 3, k);
        }
        assert(comments::lexeme_end(c, n, i) == e);
        assert(!comments::starts_comment(c, n, i));
    }
}

/// The search for a comment in a line that has one goes through the same
/// lexemes in another line, up to the place where they part.
proof fn lemma_same_search(b: Seq<u8>, c: Seq<u8>, n: LanguageFeatures, open: bool)
    requires
        same_until(b, c, comments::comment_start(b, n, open)),
    ensures
        ({
            let k = comments::comment_start(b, n, open);
            &&& comments::comment_start(c, n, open) == comments::comment_from(c, n, k)
            &&& comments::starts_comment(b, n, k)
        }),
{
    let first = comments::first_lexeme(b, open);
    let k = comments::comment_start(b, n, open);
    comments::lemma_first_lexeme(b, open);
    comments::lemma_comment_from(b, n, first);
    if open {
        lemma_same_string(b, c, 0, k);
    }
    lemma_same_lexemes(b, c, n, first);
}

/// The code of a line has no comment: stripping it once more changes nothing.
pub proof fn law_code_of_line_has_no_comment(line: Seq<char>, n: LanguageFeatures, open: bool)
    requires
        comments::cuts_between_characters(line, n, open),
    ensures
        ({
            let code = comments::strip_line(line, n, open).0;
            &&& comments::strip_line(code, n, open) == (code, None::<Seq<char>>)
            &&& comments::cuts_between_characters(code, n, open)
        }),
{
    let b = encode_utf8(line);
    let k = comments::comment_start(b, n, open);
    let code = comments::strip_line(line, n, open).0;
    encoding::lemma_cut(line, k);
    if k < b.len() {
        let c = b.subrange(0, k);
        lemma_same_search(b, c, n, open);
        if text::blank(decode_utf8(c)) {
            assert(encode_utf8(code).len() == 0);
        }
    }
    encoding::lemma_end_is_boundary(code);
}

/// Whether replacing line `i` of the lines `ls` by line `i` of the lines `ms`
/// leaves a reader of their code in the same place.
spec fn keeps_place(
    ls: Seq<Seq<char>>,
    ms: Seq<Seq<char>>,
    n: LanguageFeatures,
    i: int,
) -> bool {
    let p = comments::place_before(ls, n, i);
    let code = comments::strip_line(ms[i], n, reader::in_string(p)).0;
    reader::place_behind(encode_utf8(code), n, p) == comments::place_before(ls, n, i + 1)
}

/// Before lines that replace others one by one a reader stands in the same
/// place, if each leaves the reader where the other did.
proof fn lemma_keeps_place(ls: Seq<Seq<char>>, ms: Seq<Seq<char>>, n: LanguageFeatures, i: int)
    requires
        0 <= i,
        forall|j: int| 0 <= j < i ==> #[trigger] keeps_place(ls, ms, n, j),
    ensures
        comments::place_before(ms, n, i) == comments::place_before(ls, n, i),
    decreases i,
{
    if i > 0 {
        lemma_keeps_place(ls, ms, n, i - 1);
        assert(keeps_place(ls, ms, n, i - 1));
    }
}

/// Stripping the code of a text finds no comment and leaves the code as it is.
pub proof fn law_strip_is_idempotent(s: Seq<char>, n: LanguageFeatures)
    requires
        comments::strippable(s, n),
    ensures
        comments::strippable(stripped(s, n), n),
        stripped(stripped(s, n), n) == stripped(s, n),
        forall|i: int|
            0 <= i < text::lines(s).len() ==> #[trigger] comments::line_comments(
                stripped(s, n),
                n,
            )[i] is None,
        comments::line_comments(stripped(s, n), n).len() == text::lines(
            s,
        ).len(),
{
    let t = stripped(s, n);
    let ls = text::lines(s);
    law_strip_keeps_lines(s, n);
    assert forall|i: int| 0 <= i < ls.len() implies #[trigger] keeps_place(
        ls,
        text::lines(t),
        n,
        i,
    ) by {
        lemma_line_cuts(s, n, i);
        law_code_of_line_has_no_comment(
            ls[i],
            n,
            comments::open_before(ls, n, i),
        );
    }
    assert forall|i: int| 0 <= i < text::lines(t).len() implies comments::strip_line(
        #[trigger] text::lines(t)[i],
        n,
        comments::open_before(text::lines(t), n, i),
    ) == (text::lines(t)[i], None::<Seq<char>>) && comments::cuts_between_characters(
        text::lines(t)[i],
        n,
        comments::open_before(text::lines(t), n, i),
    ) by {
        lemma_keeps_place(ls, text::lines(t), n, i);
        lemma_line_cuts(s, n, i);
        law_code_of_line_has_no_comment(
            ls[i],
            n,
            comments::open_before(ls, n, i),
        );
    }
    assert(comments::code_lines(t, n) == text::lines(t));
    text::lemma_join_lines(t);
}

/// A line whose comment was attached again has that comment, apart from its
/// code, and leaves a reader of its code where it did before.
proof fn lemma_line_again(
    line: Seq<char>,
    n: LanguageFeatures,
    p: reader::PlaceView,
    open: bool,
)
    requires
        comments::cuts_between_characters(line, n, open),
        n.comment_char as u8 != 32 || stands_apart(line, n, open),
    ensures
        ({
            let (code, comment) = comments::strip_line(line, n, open);
            let again = comments::attach(code, comment);
            &&& comments::strip_line(again, n, open).1 == comment
            &&& comments::cuts_between_characters(again, n, open)
            &&& stands_apart(again, n, open)
            &&& reader::place_behind(
                encode_utf8(comments::strip_line(again, n, open).0),
                n,
                p,
            ) == reader::place_behind(encode_utf8(code), n, p)
        }),
{
    let (code, comment) = comments::strip_line(line, n, open);
    let again = comments::attach(code, comment);
    law_line_is_code_and_comment(line, n, open);
    if stands_apart(line, n, open) {
        assert(line + Seq::<char>::empty() == line);
        assert(again == line);
    } else {
        let b = encode_utf8(line);
        let k = comments::comment_start(b, n, open);
        let note = comment_text(comment);
        let spaced = code + seq![' '];
        let c = encode_utf8(again);
        encoding::lemma_cut(line, k);
        assert(again == spaced + note);
        encoding::lemma_encode_concat(spaced, note);
        encoding::lemma_encode_concat(code, seq![' ']);
        encoding::lemma_encode_concat(seq![' '], Seq::empty());
        encoding::lemma_encode_ascii_char(' ');
        assert(encode_utf8(seq![' ']) == seq![32u8]) by {
            assert(seq![' '].drop_first() == Seq::<char>::empty());
            assert(encode_utf8(Seq::<char>::empty()) == Seq::<u8>::empty());
        }
        assert(c == b.subrange(0, k) + seq![32u8] + b.subrange(k, b.len() as int));
        assert(c[k] == 32);
        lemma_same_search(b, c, n, open);
        assert(forall|j: int| k < j < c.len() ==> #[trigger] c[j] == b[j - 1]);
        assert(c[k + 1] == b[k]);
        assert(comments::lexeme_end(c, n, k) == k + 1);
        assert(comments::starts_comment(c, n, k + 1));
        assert(comments::comment_from(c, n, k + 1) == k + 1);
        assert(comments::comment_start(c, n, open) == k + 1);
        encoding::lemma_boundary_between(spaced, note);
        assert(encode_utf8(spaced).len() == k + 1);
        assert(c.subrange(0, k + 1) == encode_utf8(spaced));
        assert(c.subrange(k + 1, c.len() as int) == encode_utf8(note));
        encode_utf8_decode_utf8(spaced);
        encode_utf8_decode_utf8(note);
        assert(spaced[code.len() - 1] == code.last());
        assert(!text::blank(spaced));
        assert(spaced.last() == ' ');
        assert(encode_utf8(spaced) == encode_utf8(code).push(32));
        reader::lemma_space_at_line_end(encode_utf8(code), n, p);
    }
}

/// Once the comments of a text were stripped and attached again, a second round
/// finds the same comments and changes nothing. A space as the comment
/// character is left out where some comment stands directly behind code: the
/// space that is put before it would belong to the comment of the second round.
pub proof fn law_second_round_changes_nothing(s: Seq<char>, n: LanguageFeatures)
    requires
        comments::strippable(s, n),
        n.comment_char as u8 != 32 || all_stand_apart(s, n),
    ensures
        comments::strippable(restored(s, n), n),
        comments::line_comments(restored(s, n), n) == comments::line_comments(s, n),
        restored(restored(s, n), n) == restored(s, n),
{
    let r = restored(s, n);
    let ls = text::lines(s);
    text::lemma_lines_nonempty(s);
    lemma_restored_line(s, n, 0);
    assert forall|i: int| 0 <= i < ls.len() implies #[trigger] keeps_place(
        ls,
        text::lines(r),
        n,
        i,
    ) by {
        lemma_line_cuts(s, n, i);
        lemma_restored_line(s, n, i);
        lemma_line_again(
            ls[i],
            n,
            comments::place_before(ls, n, i),
            comments::open_before(ls, n, i),
        );
    }
    assert forall|i: int| 0 <= i < ls.len() implies comments::stripped_line(r, n, i).1
        == comments::stripped_line(s, n, i).1 && stands_apart(
        #[trigger] text::lines(r)[i],
        n,
        comments::open_before(text::lines(r), n, i),
    ) && comments::cuts_between_characters(
        text::lines(r)[i],
        n,
        comments::open_before(text::lines(r), n, i),
    ) by {
        lemma_keeps_place(ls, text::lines(r), n, i);
        lemma_line_cuts(s, n, i);
        lemma_restored_line(s, n, i);
        lemma_line_again(
            ls[i],
            n,
            comments::place_before(ls, n, i),
            comments::open_before(ls, n, i),
        );
    }
    assert(comments::line_comments(r, n) =~= comments::line_comments(s, n)) by {
        assert forall|i: int| 0 <= i < ls.len() implies comments::line_comments(r, n)[i]
            == comments::line_comments(s, n)[i] by {
            let l = text::lines(r)[i];
        }
    }
    law_round_trip(r, n);
}

/// A comment starts with the comment character. What precedes it on the line
/// is the code, unless it is blank: the line is then a comment as a whole.
pub proof fn law_comment_starts_with_comment_char(line: Seq<char>, n: LanguageFeatures, open: bool)
    requires
        encoding::is_ascii_char(n.comment_char),
        comments::strip_line(line, n, open).1 is Some,
    ensures
        exists|before: Seq<char>, behind: Seq<char>|
            line == #[trigger] (before + seq![n.comment_char] + behind) && comments::strip_line(
                line,
                n,
                open,
            ) == if text::blank(before) {
                (Seq::<char>::empty(), Some(line))
            } else {
                (before, Some(seq![n.comment_char] + behind))
            },
{
    let b = encode_utf8(line);
    let k = comments::comment_start(b, n, open);
    comments::lemma_ascii_cuts_between_characters(line, n, open);
    comments::lemma_comment_from(b, n, comments::first_lexeme(b, open));
    encoding::lemma_cut(line, k);
    let before = decode_utf8(b.subrange(0, k));
    let note = decode_utf8(b.subrange(k, b.len() as int));
    assert(encode_utf8(note)[0] == n.comment_char as u8);
    encoding::lemma_starts_with_ascii(note);
    encoding::lemma_char_byte_char(n.comment_char);
    let behind = note.drop_first();
    assert(seq![n.comment_char] + behind == note);
    assert(before + seq![n.comment_char] + behind == before + note);
}

/// A line without the comment character has no comment.
pub proof fn law_line_without_comment_char(line: Seq<char>, n: LanguageFeatures, open: bool)
    requires
        encoding::is_ascii_char(n.comment_char),
        !line.contains(n.comment_char),
    ensures
        comments::strip_line(line, n, open) == (line, None::<Seq<char>>),
{
    if comments::strip_line(line, n, open).1 is Some {
        law_comment_starts_with_comment_char(line, n, open);
        let (before, behind) = choose|before: Seq<char>, behind: Seq<char>|
            line == #[trigger] (before + seq![n.comment_char] + behind);
        assert(line[before.len() as int] == n.comment_char);
    }
}

/// Whether the search for a comment that has come to the lexeme at `from`
/// comes to a lexeme at `i`.
pub open spec fn reaches(b: Seq<u8>, n: LanguageFeatures, from: int, i: int) -> bool
    decreases b.len() - from,
{
    if from == i {
        true
    } else if from < 0 || from >= b.len() || comments::comment_from(b, n, from) == from {
        false
    } else {
        proof {
            comments::lemma_lexeme_end(b, n, from);
        }
        reaches(b, n, comments::lexeme_end(b, n, from), i)
    }
}

/// The search for a comment finds the same from every lexeme that it reaches.
proof fn lemma_reaches(b: Seq<u8>, n: LanguageFeatures, from: int, i: int)
    requires
        reaches(b, n, from, i),
    ensures
        comments::comment_from(b, n, from) == comments::comment_from(b, n, i),
    decreases b.len() - from,
{
    if from != i {
        comments::lemma_lexeme_end(b, n, from);
        lemma_reaches(b, n, comments::lexeme_end(b, n, from), i);
    }
}

/// No comment starts inside a string literal or a character literal.
pub proof fn law_literals_hold_no_comment(b: Seq<u8>, n: LanguageFeatures, open: bool, i: int)
    requires
        0 <= i < b.len(),
        reaches(b, n, comments::first_lexeme(b, open), i),
        comments::starts_string(b, i) || comments::starts_character(b, i),
    ensures
        comments::comment_start(b, n, open) >= comments::lexeme_end(b, n, i),
{
    lemma_reaches(b, n, comments::first_lexeme(b, open), i);
    comments::lemma_lexeme_end(b, n, i);
    comments::lemma_comment_from(b, n, comments::lexeme_end(b, n, i));
}

/// A reader in a string literal comes out of it where the line closes it, and
/// stays in it if the line does not.
proof fn lemma_read_string(b: Seq<u8>, n: LanguageFeatures, i: int)
    requires
        0 <= i,
    ensures
        ({
            let end = reader::read(b, n, reader::at(reader::Mode::Quoted), i);
            if comments::string_closes(b, i) {
                end == reader::read(
                    b,
                    n,
                    reader::at(reader::Mode::Code),
                    comments::string_end(b, i),
                )
            } else {
                reader::line_end(end) == reader::at(reader::Mode::Quoted)
            }
        }),
    decreases b.len() + 1 - i,
{
    if i < b.len() {
        if b[i] == reader::BACKSLASH {
            lemma_read_string(b, n, i + 2);
            let q = reader::at(reader::Mode::QuotedEscape);
            assert(reader::step(reader::at(reader::Mode::Quoted), n, b[i]) == q);
            if i + 1 < b.len() {
                assert(reader::read(b, n, q, i + 1) == reader::read(
                    b,
                    n,
                    reader::at(reader::Mode::Quoted),
                    i + 2,
                ));
            } else {
                assert(reader::read(b, n, q, i + 1) == q);
            }
        } else if b[i] != reader::QUOTE {
            lemma_read_string(b, n, i + 1);
        }
    }
}

/// No comment starts inside a string literal that was opened on a line before.
/// Where the line does not close it, the line has no comment, and the literal
/// is open behind the line too.
pub proof fn law_open_string_holds_no_comment(b: Seq<u8>, n: LanguageFeatures)
    ensures
        comments::comment_start(b, n, true) >= comments::string_end(b, 0),
        !comments::string_closes(b, 0) ==> comments::comment_start(b, n, true) == b.len()
            && reader::in_string(
            reader::place_behind(b, n, reader::at(reader::Mode::Quoted)),
        ),
{
    comments::lemma_first_lexeme(b, true);
    comments::lemma_comment_from(b, n, comments::string_end(b, 0));
    comments::lemma_string_closes(b, 0);
    lemma_read_string(b, n, 0);
}

/// A reader who has come to position `i` goes on from there.
proof fn lemma_read_on(b: Seq<u8>, n: LanguageFeatures, p: reader::PlaceView, i: int, from: int)
    requires
        0 <= from <= i <= b.len(),
    ensures
        reader::read(b, n, p, from) == reader::read(b, n, reader::read(b.take(i), n, p, from), i),
    decreases i - from,
{
    if from < i {
        assert(b.take(i)[from] == b[from]);
        lemma_read_on(b, n, reader::step(p, n, b[from]), i, from + 1);
    }
}

/// A string literal that is opened in code and that the line does not close is
/// open behind the line.
pub proof fn law_unclosed_string_stays_open(
    b: Seq<u8>,
    n: LanguageFeatures,
    p: reader::PlaceView,
    i: int,
)
    requires
        0 <= i < b.len(),
        reader::read(b.take(i), n, p, 0) == reader::at(reader::Mode::Code),
        b[i] == reader::QUOTE,
        !comments::string_closes(b, i + 1),
    ensures
        reader::in_string(reader::place_behind(b, n, p)),
{
    lemma_read_on(b, n, p, i, 0);
    lemma_read_string(b, n, i + 1);
}

/// A quote opens a string in code alone: not behind a backslash, between bars,
/// in a comment of any kind or in a literal of another kind.
pub proof fn law_quote_opens_string_in_code_only(p: reader::PlaceView, n: LanguageFeatures)
    requires
        !(p.mode is QuotedEscape),
    ensures
        reader::in_string(reader::step(p, n, reader::QUOTE)) <==> p.mode is Code || (p.mode is Hash
            && n.comment_char as u8 != reader::HASH),
{
}

/// A line that does not start inside a string literal is stripped as if it stood
/// alone.
pub proof fn law_line_outside_strings_stands_alone(s: Seq<char>, n: LanguageFeatures, i: int)
    requires
        0 <= i < text::lines(s).len(),
        !comments::open_before(text::lines(s), n, i),
    ensures
        comments::stripped_line(s, n, i) == comments::stripped_line(text::lines(s)[i], n, 0),
{
    let line = text::lines(s)[i];
    text::lemma_line_has_no_newline(s, i);
    text::lemma_lines_single(line);
}

/// The search for a comment in a line depends on the comment character and on
/// expression comments alone.
proof fn lemma_search_in_other_notation(
    b: Seq<u8>,
    n: LanguageFeatures,
    m: LanguageFeatures,
    i: int,
)
    requires
        n.comment_char == m.comment_char,
        n.scheme_sexp_comments == m.scheme_sexp_comments,
    ensures
        comments::comment_from(b, n, i) == comments::comment_from(b, m, i),
    decreases b.len() - i,
{
    if 0 <= i < b.len() {
        comments::lemma_lexeme_end(b, n, i);
        lemma_search_in_other_notation(b, n, m, comments::lexeme_end(b, n, i));
    }
}

/// A line is stripped alike in all dialects with the same comment character that
/// have expression comments, and alike in all that have none.
pub proof fn law_dialects_strip_lines_alike(
    line: Seq<char>,
    n: LanguageFeatures,
    m: LanguageFeatures,
    open: bool,
)
    requires
        n.comment_char == m.comment_char,
        n.scheme_sexp_comments == m.scheme_sexp_comments,
    ensures
        comments::strip_line(line, n, open) == comments::strip_line(line, m, open),
{
    let b = encode_utf8(line);
    lemma_search_in_other_notation(b, n, m, comments::first_lexeme(b, open));
}

/// The semicolon of `#;`, which marks the expression behind it as a comment,
/// starts no comment that reaches to the end of the line.
pub proof fn law_expression_comment_is_code(b: Seq<u8>, n: LanguageFeatures, open: bool, i: int)
    requires
        0 <= i < b.len(),
        n.comment_char as u8 != reader::HASH,
        reaches(b, n, comments::first_lexeme(b, open), i),
        comments::starts_expression_comment(b, n, i),
    ensures
        comments::comment_start(b, n, open) >= i + 2,
{
    lemma_reaches(b, n, comments::first_lexeme(b, open), i);
    comments::lemma_comment_from(b, n, i + 2);
}

/// Attaching no comments leaves the code as it is.
pub proof fn law_no_comments_no_change(code: Seq<char>, notes: Seq<Option<Seq<char>>>)
    requires
        forall|i: int| 0 <= i < notes.len() ==> #[trigger] notes[i] is None,
    ensures
        text::join(comments::attached_lines(code, notes)) == code,
{
    assert(comments::attached_lines(code, notes) == text::lines(code));
    text::lemma_join_lines(code);
}

/// A comment is attached directly behind a line that is empty or ends in white
/// space, and one space behind any other; without a comment a line stays as it
/// is.
pub proof fn law_comment_is_attached_behind_space(line: Seq<char>, comment: Seq<char>)
    ensures
        comments::attach(line, None) == line,
        comments::attach(line, Some(comment)) == if line.len() == 0 || text::white_space(
            line[line.len() - 1],
        ) {
            line + comment
        } else {
            line + seq![' '] + comment
        },
{
}

/// Each line gets the comment with its own number, and none if there is no such
/// comment; lines are neither lost nor added.
pub proof fn law_comments_go_to_their_lines(
    code: Seq<char>,
    notes: Seq<Option<Seq<char>>>,
    i: int,
)
    requires
        0 <= i < text::lines(code).len(),
    ensures
        comments::attached_lines(code, notes).len() == text::lines(code).len(),
        comments::attached_lines(code, notes)[i] == if i < notes.len() && notes[i] is Some {
            let line = text::lines(code)[i];
            if line.len() == 0 || text::white_space(line[line.len() - 1]) {
                line + notes[i]->0
            } else {
                line + seq![' '] + notes[i]->0
            }
        } else {
            text::lines(code)[i]
        },
{
}

/// A text whose comments were stripped and attached again has the lines that it
/// had, but for one space before each comment that stood directly behind code.
pub proof fn law_restored_text_differs_by_spaces(s: Seq<char>, n: LanguageFeatures, i: int)
    requires
        comments::strippable(s, n),
        0 <= i < text::lines(s).len(),
    ensures
        restored(s, n) == text::join(
            comments::attached_lines(
                text::join(comments::code_lines(s, n)),
                comments::line_comments(s, n),
            ),
        ),
        text::lines(restored(s, n)).len() == text::lines(s).len(),
        ({
            let line = text::lines(s)[i];
            let code = comments::code_lines(s, n)[i];
            match comments::line_comments(s, n)[i] {
                None => text::lines(restored(s, n))[i] == line,
                Some(comment) => {
                    &&& line == code + comment
                    &&& text::lines(restored(s, n))[i] == if code.len() == 0 || text::white_space(
                        code[code.len() - 1],
                    ) {
                        line
                    } else {
                        code + seq![' '] + comment
                    }
                },
            }
        }),
{
    lemma_restored_line(s, n, i);
    lemma_line_cuts(s, n, i);
    law_line_is_code_and_comment(
        text::lines(s)[i],
        n,
        comments::open_before(text::lines(s), n, i),
    );
}

/// Every text can be stripped whose comments start with an ASCII character; any
/// other text can if its comments start between characters.
pub proof fn law_ascii_comments_can_be_stripped(s: Seq<char>, n: LanguageFeatures)
    ensures
        n.comment_char as u32 <= 0x7f ==> comments::strippable(s, n),
        n.comment_char as u32 > 0x7f ==> (comments::strippable(s, n) <==> forall|i: int|
            0 <= i < text::lines(s).len() ==> is_char_boundary(
                encode_utf8(#[trigger] text::lines(s)[i]),
                comments::comment_start(
                    encode_utf8(text::lines(s)[i]),
                    n,
                    comments::open_before(text::lines(s), n, i),
                ),
            )),
{
}

/// Where only the comment character is known, the notation is otherwise that of
/// Common Lisp.
pub proof fn law_unknown_notation_is_common_lisp(comment_char: char)
    ensures
        ({
            let n = comments::lisp_with(comment_char);
            &&& n.comment_char == comment_char
            &&& n.lisp_vline_symbols
            &&& n.lisp_block_comments
            &&& !n.guile_block_comments
            &&& !n.scheme_sexp_comments
            &&& !n.janet_long_strings
            &&& !n.hy_bracket_strings
        }),
{
}

} // verus!
