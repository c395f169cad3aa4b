//! What holds of lines, white space and numbers in decimal notation.

use vstd::prelude::*;

use crate::text;

verus! {

/// How many newlines `s` holds.
pub open spec fn newlines(s: Seq<char>) -> nat
    decreases s.len(),
{
    if s.len() == 0 {
        0
    } else if s[0] == '\n' {
        1 + newlines(s.skip(1))
    } else {
        newlines(s.skip(1))
    }
}

/// The number that the digits `ds` stand for in decimal notation.
pub open spec fn number(ds: Seq<char>) -> int
    decreases ds.len(),
{
    if ds.len() == 0 {
        0
    } else {
        10 * number(ds.drop_last()) + (ds.last() as int - '0' as int)
    }
}

/// White space are the characters that Unicode gives the property White_Space.
pub proof fn law_white_space_is_that_of_unicode(c: char)
    ensures
        text::white_space(c) <==> {
            let v = c as u32;
            9 <= v <= 13 || v == 32 || v == 133 || v == 160 || v == 5760 || 8192 <= v <= 8202 || v
                == 8232 || v == 8233 || v == 8239 || v == 8287 || v == 12288
        },
{
}

/// A text is blank if white space is all it holds, and ends blank if white space
/// is the last that it holds.
pub proof fn law_blank_text_is_all_white_space(s: Seq<char>)
    ensures
        text::blank(s) <==> forall|i: int| 0 <= i < s.len() ==> text::white_space(#[trigger] s[i]),
        text::ends_blank(s) <==> s.len() > 0 && text::white_space(s[s.len() - 1]),
{
}

/// Joined lines stand one behind the other, with a newline before each but the
/// first.
pub proof fn law_joined_lines_have_newlines_between(ls: Seq<Seq<char>>, l: Seq<char>)
    ensures
        text::join(Seq::empty()) == Seq::<char>::empty(),
        text::join(seq![l]) == l,
        ls.len() > 0 ==> text::join(ls.push(l)) == text::join(ls) + seq!['\n'] + l,
{
    if ls.len() > 0 {
        assert(ls.push(l).drop_last() == ls);
    }
}

/// Newlines part a text into its lines: there is one line more than newlines, no
/// line holds one, and the lines with newlines between them are the text. Lines
/// that were joined are found again.
pub proof fn law_newlines_part_lines(s: Seq<char>, ls: Seq<Seq<char>>)
    ensures
        text::lines(s).len() == 1 + newlines(s),
        forall|i: int|
            0 <= i < text::lines(s).len() ==> !(#[trigger] text::lines(s)[i]).contains('\n'),
        text::join(text::lines(s)) == s,
        ls.len() > 0 && (forall|i: int| 0 <= i < ls.len() ==> !(#[trigger] ls[i]).contains('\n'))
            ==> text::lines(text::join(ls)) == ls,
{
    lemma_line_number(s);
    text::lemma_join_lines(s);
    assert forall|i: int| 0 <= i < text::lines(s).len() implies !(
    #[trigger] text::lines(s)[i]).contains('\n') by {
        text::lemma_line_has_no_newline(s, i);
    }
    if ls.len() > 0 && (forall|i: int|
        0 <= i < ls.len() ==> !(#[trigger] ls[i]).contains('\n')) {
        text::lemma_lines_join(ls);
    }
}

/// There is one line more than newlines.
proof fn lemma_line_number(s: Seq<char>)
    ensures
        text::lines(s).len() == 1 + newlines(s),
    decreases s.len(),
{
    if s.len() > 0 {
        assert(s.skip(1) == s.drop_first());
        lemma_line_number(s.skip(1));
    }
}

/// The last line is empty where nothing follows the last newline.
proof fn lemma_last_line(s: Seq<char>)
    ensures
        text::lines(s).last().len() == 0 <==> s.len() == 0 || s.last() == '\n',
    decreases s.len(),
{
    if s.len() > 0 {
        let rest = s.drop_first();
        let ls = text::lines(rest);
        lemma_last_line(rest);
        text::lemma_lines_nonempty(rest);
        if rest.len() > 0 {
            assert(rest.last() == s.last());
        }
        if s[0] != '\n' && ls.len() == 1 {
            text::lemma_join_lines(rest);
            text::lemma_line_has_no_newline(rest, 0);
            assert(ls[0] == rest);
            if rest.len() > 0 && rest.last() == '\n' {
                assert(rest[rest.len() - 1] == '\n');
                assert(rest.contains('\n'));
            }
        }
    }
}

/// A text has as many lines as newlines, and one more if something follows the
/// last of them.
pub proof fn law_newlines_end_counted_lines(s: Seq<char>)
    ensures
        text::line_count(s) == newlines(s) + if s.len() == 0 || s.last() == '\n' {
            0int
        } else {
            1int
        },
        text::ended_lines(s).len() == text::line_count(s),
        forall|i: int|
            0 <= i < text::line_count(s) ==> #[trigger] text::ended_lines(s)[i] == text::lines(
                s,
            )[i],
{
    lemma_line_number(s);
    lemma_last_line(s);
}

/// The decimal notation of a number stands for that number. It is made of digits
/// alone, and starts with a zero for zero only.
pub proof fn law_decimal_stands_for_its_number(n: nat)
    ensures
        number(text::decimal(n)) == n,
        forall|i: int|
            0 <= i < text::decimal(n).len() ==> '0' <= (#[trigger] text::decimal(n)[i]) <= '9',
        text::decimal(n).len() >= 1,
        text::decimal(n)[0] == '0' ==> n == 0 && text::decimal(n).len() == 1,
    decreases n,
{
    let ds = text::decimal(n);
    if n < 10 {
        assert(ds.drop_last() == Seq::<char>::empty());
        assert(number(ds.drop_last()) == 0);
        lemma_digit(n);
    } else {
        law_decimal_stands_for_its_number(n / 10);
        lemma_digit(n % 10);
        assert(ds.drop_last() == text::decimal(n / 10));
        assert(ds[0] == text::decimal(n / 10)[0]);
        assert forall|i: int| 0 <= i < ds.len() implies '0' <= (#[trigger] ds[i]) <= '9' by {
            if i < ds.len() - 1 {
                assert(ds[i] == text::decimal(n / 10)[i]);
            }
        }
    }
}

/// The character of a digit has the value of the digit.
proof fn lemma_digit(d: nat)
    requires
        d < 10,
    ensures
        text::digit(d) as int == '0' as int + d,
        '0' <= text::digit(d) <= '9',
{
}

} // verus!
