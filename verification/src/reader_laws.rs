//! What holds of a reader of code.
//!
//! The laws say where each kind of literal and comment leads a reader, and what
//! the reader is in the middle of where a line ends inside one.

use vstd::prelude::*;
use vstd::utf8::*;

use crate::comments;
use crate::language::LanguageFeatures;
use crate::reader;
use crate::reader::{Mode, PlaceView};
use crate::search_laws;

verus! {

/// A place outside bracket strings.
pub open spec fn spot(mode: Mode) -> PlaceView {
    PlaceView { mode, tag: Seq::empty() }
}

/// Whether `body` is the text of a symbol between bars: backslashes escape what
/// follows them, and no bar stands unescaped.
pub open spec fn bar_body(body: Seq<u8>) -> bool
    decreases body.len(),
{
    if body.len() == 0 {
        true
    } else if body[0] == 92 {
        body.len() >= 2 && bar_body(body.skip(2))
    } else {
        body[0] != 124 && bar_body(body.skip(1))
    }
}

/// Whether the byte `c` stands for nothing but itself in code.
pub open spec fn plain_byte(c: u8, n: LanguageFeatures) -> bool {
    &&& c != 34
    &&& c != 35
    &&& c != 92
    &&& c != n.comment_char as u8
    &&& !(c == 124 && n.lisp_vline_symbols)
    &&& !(c == 96 && n.janet_long_strings)
}

/// Bytes are read one after the other: a text is read in pieces as it is read as
/// a whole, and no bytes lead nowhere.
pub proof fn law_text_is_read_in_pieces(a: Seq<u8>, b: Seq<u8>, n: LanguageFeatures, p: PlaceView)
    ensures
        reader::read(a + b, n, p, 0) == reader::read(b, n, reader::read(a, n, p, 0), 0),
        reader::read(Seq::empty(), n, p, 0) == p,
    decreases b.len(),
{
    if b.len() == 0 {
        assert(a + b == a);
    } else {
        let c = b.drop_last();
        law_text_is_read_in_pieces(a, c, n, p);
        reader::lemma_read_push(a + c, n, p, 0, b.last());
        reader::lemma_read_push(c, n, reader::read(a, n, p, 0), 0, b.last());
        assert((a + c).push(b.last()) == a + b);
        assert(c.push(b.last()) == b);
    }
}

/// A single byte is read by one step.
proof fn lemma_read_one(c: u8, n: LanguageFeatures, p: PlaceView)
    ensures
        reader::read(seq![c], n, p, 0) == reader::step(p, n, c),
{
    assert(reader::read(seq![c], n, reader::step(p, n, c), 1) == reader::step(p, n, c));
}

/// Two bytes are read by two steps.
proof fn lemma_read_two(c: u8, d: u8, n: LanguageFeatures, p: PlaceView)
    ensures
        reader::read(seq![c, d], n, p, 0) == reader::step(reader::step(p, n, c), n, d),
{
    lemma_read_one(c, n, p);
    lemma_read_one(d, n, reader::step(p, n, c));
    law_text_is_read_in_pieces(seq![c], seq![d], n, p);
    assert(seq![c] + seq![d] == seq![c, d]);
}

/// Plain bytes leave the reader in code.
pub proof fn law_plain_bytes_leave_code(b: Seq<u8>, n: LanguageFeatures)
    requires
        forall|j: int| 0 <= j < b.len() ==> plain_byte(#[trigger] b[j], n),
    ensures
        reader::read(b, n, spot(Mode::Code), 0) == spot(Mode::Code),
    decreases b.len(),
{
    if b.len() > 0 {
        let c = b.drop_last();
        assert forall|j: int| 0 <= j < c.len() implies plain_byte(#[trigger] c[j], n) by {
            assert(c[j] == b[j]);
        }
        law_plain_bytes_leave_code(c, n);
        reader::lemma_read_push(c, n, spot(Mode::Code), 0, b.last());
        assert(c.push(b.last()) == b);
        assert(plain_byte(b[b.len() - 1], n));
    }
}

/// The text of a string keeps the reader in the string.
proof fn lemma_string_body(body: Seq<u8>, n: LanguageFeatures)
    requires
        search_laws::string_body(body),
    ensures
        reader::read(body, n, spot(Mode::Quoted), 0) == spot(Mode::Quoted),
    decreases body.len(),
{
    if body.len() > 0 {
        if body[0] == 92 {
            lemma_string_body(body.skip(2), n);
            lemma_read_two(92, body[1], n, spot(Mode::Quoted));
            law_text_is_read_in_pieces(seq![92u8, body[1]], body.skip(2), n, spot(Mode::Quoted));
            assert(seq![92u8, body[1]] + body.skip(2) == body);
        } else {
            lemma_string_body(body.skip(1), n);
            lemma_read_one(body[0], n, spot(Mode::Quoted));
            law_text_is_read_in_pieces(seq![body[0]], body.skip(1), n, spot(Mode::Quoted));
            assert(seq![body[0]] + body.skip(1) == body);
        }
    }
}

/// A string literal leads from code to code. Where a line ends inside it, the
/// reader is in a string behind the line, also where the line ends in a
/// backslash; and a string that was open is closed by the first quote behind its
/// text.
pub proof fn law_string_literal_is_read(body: Seq<u8>, n: LanguageFeatures)
    requires
        search_laws::string_body(body),
    ensures
        reader::read(seq![34u8] + body + seq![34u8], n, spot(Mode::Code), 0) == spot(Mode::Code),
        reader::read(body + seq![34u8], n, spot(Mode::Quoted), 0) == spot(Mode::Code),
        reader::place_behind(seq![34u8] + body, n, spot(Mode::Code)) == spot(Mode::Quoted),
        reader::place_behind(seq![34u8] + body + seq![92u8], n, spot(Mode::Code)) == spot(
            Mode::Quoted,
        ),
        reader::place_behind(body, n, spot(Mode::Quoted)) == spot(Mode::Quoted),
        reader::place_behind(body + seq![92u8], n, spot(Mode::Quoted)) == spot(Mode::Quoted),
{
    let (c, q) = (spot(Mode::Code), spot(Mode::Quoted));
    lemma_string_body(body, n);
    lemma_read_one(34, n, c);
    lemma_read_one(34, n, q);
    lemma_read_one(92, n, q);
    law_text_is_read_in_pieces(seq![34u8], body, n, c);
    law_text_is_read_in_pieces(seq![34u8] + body, seq![34u8], n, c);
    law_text_is_read_in_pieces(seq![34u8] + body, seq![92u8], n, c);
    law_text_is_read_in_pieces(body, seq![34u8], n, q);
    law_text_is_read_in_pieces(body, seq![92u8], n, q);
}

/// A byte behind a backslash, and a character literal, are code whatever the byte
/// is: a quote there opens no string.
pub proof fn law_escaped_byte_is_code(c: u8, n: LanguageFeatures)
    ensures
        n.comment_char as u8 != 92 ==> reader::read(seq![92u8, c], n, spot(Mode::Code), 0) == spot(
            Mode::Code,
        ),
        reader::read(seq![35u8, 92u8, c], n, spot(Mode::Code), 0) == spot(Mode::Code),
{
    lemma_read_two(92, c, n, spot(Mode::Code));
    lemma_read_two(35, 92, n, spot(Mode::Code));
    law_text_is_read_in_pieces(seq![35u8, 92u8], seq![c], n, spot(Mode::Code));
    assert(seq![35u8, 92u8] + seq![c] == seq![35u8, 92u8, c]);
    lemma_read_one(c, n, spot(Mode::Escape));
}

/// The text of a symbol between bars keeps the reader between them.
proof fn lemma_bar_body(body: Seq<u8>, n: LanguageFeatures)
    requires
        bar_body(body),
    ensures
        reader::read(body, n, spot(Mode::Bar), 0) == spot(Mode::Bar),
    decreases body.len(),
{
    if body.len() > 0 {
        if body[0] == 92 {
            lemma_bar_body(body.skip(2), n);
            lemma_read_two(92, body[1], n, spot(Mode::Bar));
            law_text_is_read_in_pieces(seq![92u8, body[1]], body.skip(2), n, spot(Mode::Bar));
            assert(seq![92u8, body[1]] + body.skip(2) == body);
        } else {
            lemma_bar_body(body.skip(1), n);
            lemma_read_one(body[0], n, spot(Mode::Bar));
            law_text_is_read_in_pieces(seq![body[0]], body.skip(1), n, spot(Mode::Bar));
            assert(seq![body[0]] + body.skip(1) == body);
        }
    }
}

/// In a dialect that has them, a symbol between bars leads from code to code,
/// whatever it holds; it may span lines, and no string is open behind those.
pub proof fn law_symbol_between_bars_is_read(body: Seq<u8>, n: LanguageFeatures)
    requires
        bar_body(body),
        n.lisp_vline_symbols,
        n.comment_char as u8 != 124,
    ensures
        reader::read(seq![124u8] + body + seq![124u8], n, spot(Mode::Code), 0) == spot(Mode::Code),
        reader::read(body + seq![124u8], n, spot(Mode::Bar), 0) == spot(Mode::Code),
        reader::place_behind(seq![124u8] + body, n, spot(Mode::Code)) == spot(Mode::Bar),
        reader::place_behind(body, n, spot(Mode::Bar)) == spot(Mode::Bar),
        reader::place_behind(body + seq![92u8], n, spot(Mode::Bar)) == spot(Mode::Bar),
{
    let (c, q) = (spot(Mode::Code), spot(Mode::Bar));
    lemma_bar_body(body, n);
    lemma_read_one(124, n, c);
    lemma_read_one(124, n, q);
    lemma_read_one(92, n, q);
    law_text_is_read_in_pieces(seq![124u8], body, n, c);
    law_text_is_read_in_pieces(seq![124u8] + body, seq![124u8], n, c);
    law_text_is_read_in_pieces(body, seq![124u8], n, q);
    law_text_is_read_in_pieces(body, seq![92u8], n, q);
}

/// Nothing in a comment is read.
proof fn lemma_comment_text(b: Seq<u8>, n: LanguageFeatures)
    ensures
        reader::read(b, n, spot(Mode::Comment), 0) == spot(Mode::Comment),
    decreases b.len(),
{
    if b.len() > 0 {
        lemma_comment_text(b.drop_last(), n);
        reader::lemma_read_push(b.drop_last(), n, spot(Mode::Comment), 0, b.last());
        assert(b.drop_last().push(b.last()) == b);
    }
}

/// A comment ends with its line, whatever it holds.
pub proof fn law_comment_ends_with_its_line(b: Seq<u8>, n: LanguageFeatures)
    requires
        n.comment_char as u8 != 34,
        n.comment_char as u8 == 35 && b.len() > 0 ==> b[0] != 92,
    ensures
        reader::place_behind(seq![n.comment_char as u8] + b, n, spot(Mode::Code)) == spot(
            Mode::Code,
        ),
{
    let (cc, c) = (n.comment_char as u8, spot(Mode::Code));
    lemma_read_one(cc, n, c);
    law_text_is_read_in_pieces(seq![cc], b, n, c);
    if cc != 35 {
        lemma_comment_text(b, n);
    } else if b.len() > 0 {
        lemma_read_one(b[0], n, spot(Mode::Hash));
        law_text_is_read_in_pieces(seq![b[0]], b.skip(1), n, spot(Mode::Hash));
        lemma_comment_text(b.skip(1), n);
        assert(seq![b[0]] + b.skip(1) == b);
    }
}

/// A number sign before a byte that it makes no mark with is code: the byte is
/// read as if it stood alone.
pub proof fn law_number_sign_is_read(c: u8, n: LanguageFeatures)
    requires
        n.comment_char as u8 != 35,
        c != 92,
        !(c == 124 && n.lisp_block_comments),
        !(c == 33 && n.guile_block_comments),
        !(c == 59 && n.scheme_sexp_comments),
        !(c == 91 && n.hy_bracket_strings),
    ensures
        reader::read(seq![35u8, c], n, spot(Mode::Code), 0) == reader::read(
            seq![c],
            n,
            spot(Mode::Code),
            0,
        ),
        reader::place_behind(seq![35u8], n, spot(Mode::Code)) == spot(Mode::Code),
{
    lemma_read_two(35, c, n, spot(Mode::Code));
    lemma_read_one(c, n, spot(Mode::Code));
    lemma_read_one(35, n, spot(Mode::Code));
}

/// The mark `#;` of an expression comment is code where the dialect has it.
pub proof fn law_expression_mark_is_read(n: LanguageFeatures)
    requires
        n.comment_char as u8 != 35,
        n.scheme_sexp_comments,
    ensures
        reader::read(seq![35u8, 59u8], n, spot(Mode::Code), 0) == spot(Mode::Code),
{
    lemma_read_two(35, 59, n, spot(Mode::Code));
}

/// In a dialect that has them, block comments `#| ... |#` are opened by `#|` and
/// closed by `|#`; one may stand in the other, and each must be closed. Nothing
/// else in them counts, and the end of a line does not end them.
pub proof fn law_block_comments_nest(depth: u64, c: u8, n: LanguageFeatures)
    requires
        n.lisp_block_comments,
        n.comment_char as u8 != 35,
        1 <= depth < u64::MAX,
    ensures
        reader::read(seq![35u8, 124u8], n, spot(Mode::Code), 0) == spot(Mode::Block(1)),
        reader::read(seq![35u8, 124u8], n, spot(Mode::Block(depth)), 0) == spot(
            Mode::Block((depth + 1) as u64),
        ),
        reader::read(seq![124u8, 35u8], n, spot(Mode::Block(depth)), 0) == if depth == 1 {
            spot(Mode::Code)
        } else {
            spot(Mode::Block((depth - 1) as u64))
        },
        c != 35 && c != 124 ==> {
            &&& reader::read(seq![c], n, spot(Mode::Block(depth)), 0) == spot(Mode::Block(depth))
            &&& reader::read(seq![35u8, c], n, spot(Mode::Block(depth)), 0) == spot(
                Mode::Block(depth),
            )
            &&& reader::read(seq![124u8, c], n, spot(Mode::Block(depth)), 0) == spot(
                Mode::Block(depth),
            )
        },
        reader::read(seq![35u8, 35u8], n, spot(Mode::Block(depth)), 0) == reader::read(
            seq![35u8],
            n,
            spot(Mode::Block(depth)),
            0,
        ),
        reader::read(seq![124u8, 124u8], n, spot(Mode::Block(depth)), 0) == reader::read(
            seq![124u8],
            n,
            spot(Mode::Block(depth)),
            0,
        ),
        reader::place_behind(Seq::empty(), n, spot(Mode::Block(depth))) == spot(Mode::Block(depth)),
        reader::place_behind(seq![35u8], n, spot(Mode::Block(depth))) == spot(Mode::Block(depth)),
        reader::place_behind(seq![124u8], n, spot(Mode::Block(depth))) == spot(Mode::Block(depth)),
{
    let p = spot(Mode::Block(depth));
    lemma_read_two(35, 124, n, spot(Mode::Code));
    lemma_read_two(35, 124, n, p);
    lemma_read_two(124, 35, n, p);
    lemma_read_one(c, n, p);
    lemma_read_two(35, c, n, p);
    lemma_read_two(124, c, n, p);
    lemma_read_two(35, 35, n, p);
    lemma_read_two(124, 124, n, p);
    lemma_read_one(35, n, p);
    lemma_read_one(124, n, p);
    law_text_is_read_in_pieces(Seq::empty(), Seq::empty(), n, p);
}

/// In a notation that has them, block comments `#! ... !#` are opened by `#!` and
/// closed by the first `!#`; the end of a line does not end them.
pub proof fn law_guile_comment_is_read(c: u8, n: LanguageFeatures)
    requires
        n.guile_block_comments,
        n.comment_char as u8 != 35,
    ensures
        reader::read(seq![35u8, 33u8], n, spot(Mode::Code), 0) == spot(Mode::Bang),
        reader::read(seq![33u8, 35u8], n, spot(Mode::Bang), 0) == spot(Mode::Code),
        c != 33 ==> reader::read(seq![c], n, spot(Mode::Bang), 0) == spot(Mode::Bang),
        c != 33 && c != 35 ==> reader::read(seq![33u8, c], n, spot(Mode::Bang), 0) == spot(
            Mode::Bang,
        ),
        reader::read(seq![33u8, 33u8], n, spot(Mode::Bang), 0) == reader::read(
            seq![33u8],
            n,
            spot(Mode::Bang),
            0,
        ),
        reader::place_behind(Seq::empty(), n, spot(Mode::Bang)) == spot(Mode::Bang),
        reader::place_behind(seq![33u8], n, spot(Mode::Bang)) == spot(Mode::Bang),
{
    let p = spot(Mode::Bang);
    lemma_read_two(35, 33, n, spot(Mode::Code));
    lemma_read_two(33, 35, n, p);
    lemma_read_two(33, c, n, p);
    lemma_read_two(33, 33, n, p);
    lemma_read_one(c, n, p);
    lemma_read_one(33, n, p);
    law_text_is_read_in_pieces(Seq::empty(), Seq::empty(), n, p);
}

/// `k` backquotes.
pub open spec fn ticks(k: nat) -> Seq<u8> {
    Seq::new(k, |j: int| 96u8)
}

/// So many backquotes open a long string.
proof fn lemma_opening_ticks(k: nat, n: LanguageFeatures)
    requires
        n.janet_long_strings,
        n.comment_char as u8 != 96,
        1 <= k <= u64::MAX,
    ensures
        reader::read(ticks(k), n, spot(Mode::Code), 0) == spot(Mode::Ticks(k as u64)),
    decreases k,
{
    let b = ticks((k - 1) as nat);
    assert(ticks(k) == b.push(96));
    reader::lemma_read_push(b, n, spot(Mode::Code), 0, 96);
    if k > 1 {
        lemma_opening_ticks((k - 1) as nat, n);
    } else {
        assert(b == Seq::<u8>::empty());
    }
}

/// Fewer backquotes than those that opened it do not close a long string.
proof fn lemma_closing_ticks(k: nat, m: nat, n: LanguageFeatures)
    requires
        m < k <= u64::MAX,
    ensures
        reader::read(ticks(m), n, spot(Mode::Long(k as u64, 0)), 0) == spot(
            Mode::Long(k as u64, m as u64),
        ),
    decreases m,
{
    if m > 0 {
        let b = ticks((m - 1) as nat);
        assert(ticks(m) == b.push(96));
        lemma_closing_ticks(k, (m - 1) as nat, n);
        reader::lemma_read_push(b, n, spot(Mode::Long(k as u64, 0)), 0, 96);
    } else {
        assert(ticks(m) == Seq::<u8>::empty());
    }
}

/// In a dialect that has them, a run of backquotes opens a long string, and only
/// a run of as many closes it: fewer are part of it, like anything else. The end
/// of a line does not end it.
pub proof fn law_long_string_is_read(k: nat, m: nat, c: u8, n: LanguageFeatures)
    requires
        n.janet_long_strings,
        n.comment_char as u8 != 96,
        1 <= k <= u64::MAX,
        m < k,
        c != 96,
    ensures
        ({
            let inside = spot(Mode::Long(k as u64, 0));
            &&& reader::read(ticks(k) + seq![c], n, spot(Mode::Code), 0) == inside
            &&& reader::place_behind(ticks(k), n, spot(Mode::Code)) == inside
            &&& reader::read(ticks(m) + seq![c], n, inside, 0) == inside
            &&& reader::place_behind(ticks(m), n, inside) == inside
            &&& reader::read(ticks(k), n, inside, 0) == spot(Mode::Code)
        }),
{
    let inside = spot(Mode::Long(k as u64, 0));
    lemma_opening_ticks(k, n);
    law_text_is_read_in_pieces(ticks(k), seq![c], n, spot(Mode::Code));
    lemma_read_one(c, n, spot(Mode::Ticks(k as u64)));
    lemma_closing_ticks(k, m, n);
    law_text_is_read_in_pieces(ticks(m), seq![c], n, inside);
    lemma_read_one(c, n, spot(Mode::Long(k as u64, m as u64)));
    let b = ticks((k - 1) as nat);
    lemma_closing_ticks(k, (k - 1) as nat, n);
    assert(ticks(k) == b.push(96));
    reader::lemma_read_push(b, n, inside, 0, 96);
}

/// The name of a bracket string is read byte by byte.
proof fn lemma_tag(tag: Seq<u8>, n: LanguageFeatures)
    requires
        !tag.contains(91),
        !tag.contains(93),
    ensures
        reader::read(tag, n, spot(Mode::Tag), 0) == (PlaceView { mode: Mode::Tag, tag }),
    decreases tag.len(),
{
    if tag.len() > 0 {
        let t = tag.drop_last();
        assert forall|j: int| 0 <= j < t.len() implies t[j] != 91 && t[j] != 93 by {
            assert(tag[j] == t[j]);
        }
        lemma_tag(t, n);
        assert(tag[tag.len() - 1] == tag.last());
        reader::lemma_read_push(t, n, spot(Mode::Tag), 0, tag.last());
        assert(t.push(tag.last()) == tag);
    } else {
        assert(tag == Seq::<u8>::empty());
    }
}

/// The beginning of the name behind a closing bracket may end a bracket string.
proof fn lemma_closing_tag(tag: Seq<u8>, m: int, n: LanguageFeatures)
    requires
        !tag.contains(93),
        tag.len() <= usize::MAX,
        0 <= m <= tag.len(),
    ensures
        reader::read(
            tag.take(m),
            n,
            PlaceView { mode: Mode::BracketEnd(0), tag },
            0,
        ) == (PlaceView { mode: Mode::BracketEnd(m as usize), tag }),
    decreases m,
{
    if m > 0 {
        lemma_closing_tag(tag, m - 1, n);
        reader::lemma_read_push(
            tag.take(m - 1),
            n,
            PlaceView { mode: Mode::BracketEnd(0), tag },
            0,
            tag[m - 1],
        );
        assert(tag.take(m - 1).push(tag[m - 1]) == tag.take(m));
    } else {
        assert(tag.take(0) == Seq::<u8>::empty());
    }
}

/// In a dialect that has them, `#[name[` opens a bracket string and `]name]`
/// closes it, with the same name. Anything else is part of it: other bytes, a
/// closing bracket with another one or only the beginning of the name behind it.
/// The end of a line does not end it. Without a second bracket nothing is opened.
pub proof fn law_bracket_string_is_read(tag: Seq<u8>, m: int, c: u8, n: LanguageFeatures)
    requires
        n.hy_bracket_strings,
        n.comment_char as u8 != 35,
        !tag.contains(91),
        !tag.contains(93),
        tag.len() <= usize::MAX,
        0 <= m <= tag.len(),
    ensures
        ({
            let inside = PlaceView { mode: Mode::Bracket, tag };
            let closing = PlaceView { mode: Mode::BracketEnd(0), tag };
            let code = spot(Mode::Code);
            &&& reader::read(seq![35u8, 91u8] + tag + seq![91u8], n, code, 0) == inside
            &&& reader::read(seq![35u8, 91u8] + tag + seq![93u8], n, code, 0) == code
            &&& reader::place_behind(seq![35u8, 91u8] + tag, n, code) == code
            &&& c != 93 ==> reader::read(seq![c], n, inside, 0) == inside
            &&& reader::read(seq![93u8], n, inside, 0) == closing
            &&& reader::read(tag + seq![93u8], n, closing, 0) == code
            &&& m < tag.len() ==> reader::read(tag.take(m) + seq![93u8], n, closing, 0) == closing
            &&& c != 93 && (m < tag.len() ==> c != tag[m]) ==> reader::read(
                tag.take(m) + seq![c],
                n,
                closing,
                0,
            ) == inside
            &&& reader::place_behind(Seq::empty(), n, inside) == inside
            &&& reader::place_behind(tag.take(m), n, closing) == inside
        }),
{
    let inside = PlaceView { mode: Mode::Bracket, tag };
    let closing = PlaceView { mode: Mode::BracketEnd(0), tag };
    let code = spot(Mode::Code);
    lemma_read_two(35, 91, n, code);
    lemma_tag(tag, n);
    law_text_is_read_in_pieces(seq![35u8, 91u8], tag, n, code);
    law_text_is_read_in_pieces(seq![35u8, 91u8] + tag, seq![91u8], n, code);
    law_text_is_read_in_pieces(seq![35u8, 91u8] + tag, seq![93u8], n, code);
    let named = PlaceView { mode: Mode::Tag, tag };
    lemma_read_one(91, n, named);
    lemma_read_one(93, n, named);
    lemma_read_one(c, n, inside);
    lemma_read_one(93, n, inside);
    lemma_closing_tag(tag, m, n);
    lemma_closing_tag(tag, tag.len() as int, n);
    assert(tag.take(tag.len() as int) == tag);
    law_text_is_read_in_pieces(tag, seq![93u8], n, closing);
    law_text_is_read_in_pieces(tag.take(m), seq![93u8], n, closing);
    law_text_is_read_in_pieces(tag.take(m), seq![c], n, closing);
    lemma_read_one(93, n, PlaceView { mode: Mode::BracketEnd(tag.len() as usize), tag });
    lemma_read_one(93, n, PlaceView { mode: Mode::BracketEnd(m as usize), tag });
    lemma_read_one(c, n, PlaceView { mode: Mode::BracketEnd(m as usize), tag });
    law_text_is_read_in_pieces(Seq::empty(), Seq::empty(), n, inside);
}

/// The reader starts a text in code and comes to each further line with the code
/// of the line before. A line starts inside a string literal if and only if the
/// reader is in a string between quotes then.
pub proof fn law_lines_are_read_in_order(ls: Seq<Seq<char>>, n: LanguageFeatures, i: int)
    requires
        0 <= i,
    ensures
        comments::place_before(ls, n, 0) == spot(Mode::Code),
        comments::open_before(ls, n, i) <==> comments::place_before(ls, n, i).mode == Mode::Quoted,
        comments::place_before(ls, n, i + 1) == reader::place_behind(
            encode_utf8(comments::strip_line(ls[i], n, comments::open_before(ls, n, i)).0),
            n,
            comments::place_before(ls, n, i),
        ),
{
}

/// Whatever a line held, behind its end the reader is in code, or in something
/// that spans lines.
pub proof fn law_line_end_leaves_code_or_long_literal(b: Seq<u8>, n: LanguageFeatures, p: PlaceView)
    ensures
        ({
            let m = reader::place_behind(b, n, p).mode;
            m is Code || m is Quoted || m is Bar || m is Block || m is Bang || m is Long
                || m is Bracket
        }),
{
}

/// A string literal that a line opens in plain code, and does not close, is open
/// before the next line: a comment character in it starts no comment there.
pub proof fn law_string_literal_spans_lines(
    ls: Seq<Seq<char>>,
    n: LanguageFeatures,
    i: int,
    before: Seq<u8>,
    body: Seq<u8>,
    rest: Seq<u8>,
)
    requires
        0 <= i,
        comments::place_before(ls, n, i) == spot(Mode::Code),
        forall|j: int| 0 <= j < before.len() ==> plain_byte(#[trigger] before[j], n),
        search_laws::string_body(body),
        search_laws::string_body(rest),
        encode_utf8(ls[i]) == before + (seq![34u8] + body),
        encode_utf8(ls[i + 1]) == rest,
    ensures
        comments::strip_line(ls[i], n, false) == (ls[i], None::<Seq<char>>),
        comments::place_before(ls, n, i + 1) == spot(Mode::Quoted),
        comments::strip_line(ls[i + 1], n, comments::open_before(ls, n, i + 1)) == (
            ls[i + 1],
            None::<Seq<char>>,
        ),
{
    let literal = seq![34u8] + body;
    search_laws::law_plain_bytes_are_code(before, literal, n);
    search_laws::law_unclosed_string_literal_is_code(body, n);
    search_laws::law_unclosed_string_literal_is_code(rest, n);
    law_plain_bytes_leave_code(before, n);
    law_text_is_read_in_pieces(before, literal, n, spot(Mode::Code));
    law_string_literal_is_read(body, n);
    law_lines_are_read_in_order(ls, n, i);
    law_lines_are_read_in_order(ls, n, i + 1);
}

} // verus!
