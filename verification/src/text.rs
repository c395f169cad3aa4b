//! Lines, blanks and the building of strings.

use vstd::prelude::*;
use vstd::string::*;
use vstd::utf8::*;

use crate::encoding;

verus! {

/// The lines of `s`: the pieces between its newline characters. A text without
/// a newline is one line; a text that ends in a newline has an empty last line.
pub open spec fn lines(s: Seq<char>) -> Seq<Seq<char>>
    decreases s.len(),
{
    if s.len() == 0 {
        seq![Seq::<char>::empty()]
    } else {
        let rest = lines(s.drop_first());
        if s[0] == '\n' {
            seq![Seq::<char>::empty()] + rest
        } else {
            rest.update(0, seq![s[0]] + rest[0])
        }
    }
}

/// The given lines with a newline character between any two neighbours.
pub open spec fn join(ls: Seq<Seq<char>>) -> Seq<char>
    decreases ls.len(),
{
    if ls.len() == 0 {
        Seq::empty()
    } else if ls.len() == 1 {
        ls[0]
    } else {
        join(ls.drop_last()) + seq!['\n'] + ls.last()
    }
}

/// Whether `c` has the Unicode property White_Space.
pub open spec fn white_space(c: char) -> bool {
    ||| '\t' <= c <= '\r'
    ||| c == ' '
    ||| c == '\u{85}'
    ||| c == '\u{a0}'
    ||| c == '\u{1680}'
    ||| '\u{2000}' <= c <= '\u{200a}'
    ||| c == '\u{2028}'
    ||| c == '\u{2029}'
    ||| c == '\u{202f}'
    ||| c == '\u{205f}'
    ||| c == '\u{3000}'
}

/// Whether `s` is made of white space alone.
pub open spec fn blank(s: Seq<char>) -> bool {
    forall|i: int| 0 <= i < s.len() ==> white_space(#[trigger] s[i])
}

/// Whether `s` ends in white space.
pub open spec fn ends_blank(s: Seq<char>) -> bool {
    s.len() > 0 && white_space(s.last())
}

/// How many lines `s` has where a newline ends a line: an empty piece behind
/// the last newline is no line.
pub open spec fn line_count(s: Seq<char>) -> int {
    if lines(s).last().len() == 0 {
        lines(s).len() - 1
    } else {
        lines(s).len() as int
    }
}

/// The lines of `s` where a newline ends a line.
pub open spec fn ended_lines(s: Seq<char>) -> Seq<Seq<char>> {
    if lines(s).last().len() == 0 {
        lines(s).drop_last()
    } else {
        lines(s)
    }
}

/// The character for the digit `d`.
pub open spec fn digit(d: nat) -> char {
    (48 + d) as char
}

/// `n` in decimal notation.
pub open spec fn decimal(n: nat) -> Seq<char>
    decreases n,
{
    if n < 10 {
        seq![digit(n)]
    } else {
        decimal(n / 10).push(digit(n % 10))
    }
}

/// Every text has at least one line.
pub proof fn lemma_lines_nonempty(s: Seq<char>)
    ensures
        lines(s).len() >= 1,
    decreases s.len(),
{
    if s.len() > 0 {
        lemma_lines_nonempty(s.drop_first());
    }
}

/// A text without a newline is its only line.
pub proof fn lemma_lines_single(s: Seq<char>)
    requires
        !s.contains('\n'),
    ensures
        lines(s) == seq![s],
    decreases s.len(),
{
    if s.len() == 0 {
        assert(s == Seq::<char>::empty());
    } else {
        assert(s[0] != '\n');
        assert forall|i: int| 0 <= i < s.drop_first().len() implies s.drop_first()[i] != '\n' by {
            assert(s.drop_first()[i] == s[i + 1]);
        }
        lemma_lines_single(s.drop_first());
        assert(seq![s[0]] + s.drop_first() == s);
    }
}

/// A newline between two texts puts the lines of the second behind those of
/// the first.
pub proof fn lemma_lines_append(a: Seq<char>, b: Seq<char>)
    ensures
        lines(a + seq!['\n'] + b) == lines(a) + lines(b),
    decreases a.len(),
{
    let s = a + seq!['\n'] + b;
    if a.len() == 0 {
        assert(s.drop_first() == b);
    } else {
        assert(s.drop_first() == a.drop_first() + seq!['\n'] + b);
        lemma_lines_append(a.drop_first(), b);
        lemma_lines_nonempty(a.drop_first());
        let rest = lines(a.drop_first());
        assert(lines(s) == lines(a) + lines(b));
    }
}

/// No line holds a newline.
pub proof fn lemma_line_has_no_newline(s: Seq<char>, i: int)
    requires
        0 <= i < lines(s).len(),
    ensures
        !lines(s)[i].contains('\n'),
    decreases s.len(),
{
    if s.len() > 0 {
        let rest = lines(s.drop_first());
        lemma_lines_nonempty(s.drop_first());
        if s[0] == '\n' {
            if i > 0 {
                lemma_line_has_no_newline(s.drop_first(), i - 1);
            }
        } else {
            lemma_line_has_no_newline(s.drop_first(), i);
            if i == 0 {
                let l = seq![s[0]] + rest[0];
                assert forall|j: int| 0 <= j < l.len() implies l[j] != '\n' by {
                    if j > 0 {
                        assert(l[j] == rest[0][j - 1]);
                    }
                }
            }
        }
    }
}

/// Characters put in front of the first line are put in front of the text.
proof fn lemma_join_prepend(ls: Seq<Seq<char>>, p: Seq<char>)
    requires
        ls.len() > 0,
    ensures
        join(ls.update(0, p + ls[0])) == p + join(ls),
    decreases ls.len(),
{
    let u = ls.update(0, p + ls[0]);
    if ls.len() > 1 {
        lemma_join_prepend(ls.drop_last(), p);
        assert(u.drop_last() == ls.drop_last().update(0, p + ls.drop_last()[0]));
        assert(join(u) == p + join(ls));
    }
}

/// A line put in front of others is put in front of their text.
proof fn lemma_join_cons(l: Seq<char>, ls: Seq<Seq<char>>)
    requires
        ls.len() > 0,
    ensures
        join(seq![l] + ls) == l + seq!['\n'] + join(ls),
    decreases ls.len(),
{
    let u = seq![l] + ls;
    if ls.len() > 1 {
        lemma_join_cons(l, ls.drop_last());
        assert(u.drop_last() == seq![l] + ls.drop_last());
        assert(join(u) == l + seq!['\n'] + join(ls));
    } else {
        reveal_with_fuel(join, 2);
        assert(u.drop_last() == seq![l]);
    }
}

/// Joining the lines of a text gives the text back.
pub proof fn lemma_join_lines(s: Seq<char>)
    ensures
        join(lines(s)) == s,
    decreases s.len(),
{
    if s.len() > 0 {
        let rest = lines(s.drop_first());
        lemma_join_lines(s.drop_first());
        lemma_lines_nonempty(s.drop_first());
        if s[0] == '\n' {
            lemma_join_cons(Seq::empty(), rest);
            assert(Seq::<char>::empty() + seq!['\n'] + s.drop_first() == s);
        } else {
            lemma_join_prepend(rest, seq![s[0]]);
            assert(seq![s[0]] + s.drop_first() == s);
        }
    }
}

/// Lines that hold no newline are found again in their joined text.
pub proof fn lemma_lines_join(ls: Seq<Seq<char>>)
    requires
        ls.len() > 0,
        forall|i: int| 0 <= i < ls.len() ==> !(#[trigger] ls[i]).contains('\n'),
    ensures
        lines(join(ls)) == ls,
    decreases ls.len(),
{
    lemma_lines_single(ls.last());
    if ls.len() > 1 {
        assert forall|i: int| 0 <= i < ls.drop_last().len() implies !(
        #[trigger] ls.drop_last()[i]).contains('\n') by {
            assert(ls.drop_last()[i] == ls[i]);
        }
        lemma_lines_join(ls.drop_last());
        lemma_lines_append(join(ls.drop_last()), ls.last());
        assert(ls.drop_last() + seq![ls.last()] == ls);
    } else {
        assert(seq![ls[0]] == ls);
    }
}

/// Splits `s` into its lines.
pub fn split_lines<'a>(s: &'a str) -> (r: Vec<&'a str>)
    ensures
        r.deep_view() == lines(s@),
{
    let mut out: Vec<&'a str> = Vec::new();
    let mut rest: &'a str = s;
    assert(out.deep_view() + lines(rest@) == lines(s@));
    loop
        invariant
            out.deep_view() + lines(rest@) == lines(s@),
        decreases rest@.len(),
    {
        let bytes = rest.as_bytes();
        let len: usize = bytes.len();
        let mut k: usize = 0;
        while k < len && bytes[k] != 10
            invariant
                0 <= k <= len,
                len == bytes@.len(),
                bytes@ == encode_utf8(rest@),
                forall|j: int| 0 <= j < k ==> bytes@[j] != 10,
            decreases len - k,
        {
            k = k + 1;
        }
        if k == len {
            proof {
                if rest@.contains('\n') {
                    let i = choose|i: int| 0 <= i < rest@.len() && rest@[i] == '\n';
                    let j = encoding::lemma_ascii_char_occurs(rest@, i);
                }
                lemma_lines_single(rest@);
            }
            let ghost before = out.deep_view();
            out.push(rest);
            assert(out.deep_view() == before.push(rest@));
            assert(out.deep_view() == lines(s@));
            return out;
        }
        proof {
            encoding::lemma_ascii_byte_is_boundary(rest@, k as int);
        }
        let (head, tail) = rest.split_at(k);
        proof {
            encoding::lemma_cut_is(rest@, head@, tail@, k as int);
            assert(encode_utf8(tail@)[0] == 10);
            encoding::lemma_starts_with_ascii(tail@);
            encoding::lemma_boundary_after_ascii(tail@);
        }
        let (_, next) = tail.split_at(1);
        proof {
            assert(encode_utf8(next@) == encode_utf8(tail@.drop_first()));
            encoding::lemma_encode_injective(next@, tail@.drop_first());
            if head@.contains('\n') {
                let i = choose|i: int| 0 <= i < head@.len() && head@[i] == '\n';
                let j = encoding::lemma_ascii_char_occurs(head@, i);
                assert(encode_utf8(head@)[j] == bytes@[j]);
            }
            assert(tail@[0] == '\n');
            assert(rest@ == head@ + seq!['\n'] + next@);
            lemma_lines_append(head@, next@);
            lemma_lines_single(head@);
        }
        let ghost before = out.deep_view();
        out.push(head);
        assert(out.deep_view() == before.push(head@));
        assert(before + (seq![head@] + lines(next@)) == out.deep_view() + lines(next@));
        rest = next;
    }
}

/// Tests for white space, as Unicode defines it.
pub fn is_whitespace(c: char) -> (r: bool)
    ensures
        r == white_space(c),
{
    ('\t' <= c && c <= '\r') || c == ' ' || c == '\u{85}' || c == '\u{a0}' || c == '\u{1680}' || (
    '\u{2000}' <= c && c <= '\u{200a}') || c == '\u{2028}' || c == '\u{2029}' || c == '\u{202f}' || c
        == '\u{205f}' || c == '\u{3000}'
}

/// Tests whether a text has nothing but white space.
pub fn is_blank(s: &str) -> (r: bool)
    ensures
        r == blank(s@),
{
    let mut all: bool = true;
    for c in it: s.chars()
        invariant
            it.seq() == s@,
            all == blank(s@.take(it.index() as int)),
    {
        let ghost k = it.index() as int;
        let here = is_whitespace(c);
        proof {
            let before = s@.take(k);
            let after = s@.take(k + 1);
            assert(after == before.push(c));
            assert(after[k] == c);
            if blank(after) {
                assert forall|i: int| 0 <= i < before.len() implies white_space(
                    #[trigger] before[i],
                ) by {
                    assert(after[i] == before[i]);
                }
            }
        }
        all = all && here;
    }
    assert(s@.take(s@.len() as int) == s@);
    all
}

/// Tests whether the last character of a text is white space.
pub fn ends_with_whitespace(s: &str) -> (r: bool)
    ensures
        r == ends_blank(s@),
{
    let mut last: bool = false;
    for c in it: s.chars()
        invariant
            it.seq() == s@,
            last == ends_blank(s@.take(it.index() as int)),
    {
        assert(s@.take(it.index() + 1).last() == c);
        last = is_whitespace(c);
    }
    assert(s@.take(s@.len() as int) == s@);
    last
}

/// Tests whether a text ends in a newline.
pub fn ends_with_newline(s: &str) -> (r: bool)
    ensures
        r == (s@.len() > 0 && s@.last() == '\n'),
{
    let mut last: bool = false;
    for c in it: s.chars()
        invariant
            it.seq() == s@,
            last == (it.index() > 0 && s@[it.index() - 1] == '\n'),
    {
        last = c == '\n';
    }
    last
}

/// Counts the lines of a text, as [`line_count`] defines them.
pub fn count_lines(s: &str) -> (r: usize)
    ensures
        r == line_count(s@),
{
    let ls = split_lines(s);
    proof {
        lemma_lines_nonempty(s@);
    }
    let n: usize = ls.len();
    assert(ls.deep_view()[n - 1] == ls@[n - 1]@);
    if ls[n - 1].is_empty() {
        n - 1
    } else {
        n
    }
}

/// The text of one digit.
fn digit_text(d: usize) -> (r: &'static str)
    requires
        d < 10,
    ensures
        r@ == seq![digit(d as nat)],
{
    proof {
        reveal_strlit("0");
        reveal_strlit("1");
        reveal_strlit("2");
        reveal_strlit("3");
        reveal_strlit("4");
        reveal_strlit("5");
        reveal_strlit("6");
        reveal_strlit("7");
        reveal_strlit("8");
        reveal_strlit("9");
    }
    match d {
        0 => "0",
        1 => "1",
        2 => "2",
        3 => "3",
        4 => "4",
        5 => "5",
        6 => "6",
        7 => "7",
        8 => "8",
        _ => "9",
    }
}

/// Appends `n` in decimal notation.
pub fn push_decimal(out: &mut String, n: usize)
    ensures
        final(out)@ == old(out)@ + decimal(n as nat),
    decreases n,
{
    if n >= 10 {
        push_decimal(out, n / 10);
    }
    out.append(digit_text(n % 10));
}

/// Tests whether two texts are the same.
pub fn same_text(a: &str, b: &str) -> (r: bool)
    ensures
        r == (a@ == b@),
{
    let x = a.as_bytes();
    let y = b.as_bytes();
    let n: usize = x.len();
    if n != y.len() {
        return false;
    }
    let mut i: usize = 0;
    while i < n
        invariant
            0 <= i <= n,
            n == x@.len(),
            n == y@.len(),
            x@ == encode_utf8(a@),
            y@ == encode_utf8(b@),
            forall|j: int| 0 <= j < i ==> x@[j] == y@[j],
        decreases n - i,
    {
        if x[i] != y[i] {
            return false;
        }
        i = i + 1;
    }
    proof {
        assert(x@ == y@);
        encoding::lemma_encode_injective(a@, b@);
    }
    true
}

} // verus!
