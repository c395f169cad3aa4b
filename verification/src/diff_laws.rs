//! What holds of the difference between two texts.

use vstd::prelude::*;

use crate::diff;
use crate::diff::ChangeTag;
use crate::text;
use crate::text_laws;

verus! {

/// A line without a newline that is appended to a text with an empty last line
/// takes the place of that line.
proof fn lemma_append_to_last_line(s: Seq<char>, l: Seq<char>)
    requires
        s.len() == 0 || s.last() == '\n',
        !l.contains('\n'),
    ensures
        text::lines(s).len() >= 1,
        text::lines(s + l) == text::lines(s).drop_last().push(l),
        text::lines(s).last() == Seq::<char>::empty(),
{
    text::lemma_lines_single(l);
    if s.len() == 0 {
        assert(s + l == l);
    } else {
        let t = s.drop_last();
        text::lemma_lines_append(t, l);
        text::lemma_lines_append(t, Seq::empty());
        assert(t + seq!['\n'] + l == s + l);
        assert(t + seq!['\n'] + Seq::<char>::empty() == s);
        assert(text::lines(s).drop_last() == text::lines(t));
    }
}

/// The marked lines of changes that are not the last ones are lines of the
/// diff, one for each change.
proof fn lemma_inner_lines(changes: Seq<(ChangeTag, Seq<char>)>)
    requires
        diff::line_by_line(changes),
    ensures
        text::lines(diff::inner_lines(changes)) == diff::diff_lines(changes).push(Seq::empty()),
        changes.len() > 0 ==> diff::inner_lines(changes).len() > 0,
        changes.len() > 0 ==> diff::inner_lines(changes).last() == '\n',
    decreases changes.len(), 1int,
{
    let all = diff::diff_lines(changes);
    if changes.len() > 0 {
        let before = changes.drop_last();
        let c = changes.last();
        let l = diff::marked(c);
        let m = diff::inner_lines(before);
        lemma_one_more_line(changes);
        text::lemma_lines_append(m + l, Seq::empty());
        text::lemma_lines_single(Seq::empty());
        assert(diff::inner_lines(changes) == m + l + seq!['\n'] + Seq::<char>::empty());
        assert(all.drop_last() == diff::diff_lines(before));
        assert(text::lines(diff::inner_lines(changes)) == all.push(Seq::empty()));
    }
}

/// The last of the changes adds its marked line to the lines of the others.
proof fn lemma_one_more_line(changes: Seq<(ChangeTag, Seq<char>)>)
    requires
        diff::line_by_line(changes),
        changes.len() > 0,
    ensures
        text::lines(diff::inner_lines(changes.drop_last()) + diff::marked(changes.last()))
            == diff::diff_lines(changes),
    decreases changes.len(), 0int,
{
    let all = diff::diff_lines(changes);
    let before = changes.drop_last();
    let c = changes.last();
    assert forall|i: int| 0 <= i < before.len() implies diff::one_line(
        (#[trigger] before[i]).1,
    ) by {
        assert(before[i] == changes[i]);
    }
    lemma_inner_lines(before);
    assert(diff::one_line(changes[changes.len() - 1].1));
    let l = diff::marked(c);
    assert forall|i: int| 0 <= i < l.len() implies l[i] != '\n' by {
        if i > 0 {
            assert(l[i] == c.1[i - 1]);
        }
    }
    lemma_append_to_last_line(diff::inner_lines(before), l);
    assert(all.drop_last() == diff::diff_lines(before));
    assert(text::lines(diff::inner_lines(before) + l) == all);
}

/// Below its head a diff has one line for each change: the mark and the line. A
/// newline follows the last of them where the last change ends in one.
pub proof fn law_one_diff_line_per_change(changes: Seq<(ChangeTag, Seq<char>)>)
    requires
        diff::line_by_line(changes),
    ensures
        text::ended_lines(diff::marked_lines(changes)) == diff::diff_lines(changes),
        changes.len() > 0 ==> (diff::marked_lines(changes).last() == '\n'
            <==> changes.last().1.last() == '\n'),
{
    let all = diff::diff_lines(changes);
    if changes.len() == 0 {
        text::lemma_lines_single(Seq::empty());
        assert(text::ended_lines(diff::marked_lines(changes)) == all);
    } else {
        let c = changes.last();
        let m = diff::inner_lines(changes.drop_last());
        assert(diff::one_line(changes[changes.len() - 1].1));
        if c.1.last() == '\n' {
            lemma_inner_lines(changes);
            assert(c.1 == diff::without_newline(c.1).push('\n'));
            assert(diff::marked_lines(changes) == diff::inner_lines(changes));
            assert(all.push(Seq::empty()).drop_last() == all);
        } else {
            lemma_one_more_line(changes);
            assert(diff::marked_lines(changes) == m + diff::marked(c));
            assert(all.last() == diff::marked(c));
        }
    }
}

/// The given lines, put together.
pub open spec fn put_together(ls: Seq<Seq<char>>) -> Seq<char>
    decreases ls.len(),
{
    if ls.len() == 0 {
        Seq::empty()
    } else {
        put_together(ls.drop_last()) + ls.last()
    }
}

/// A line put before others comes first.
proof fn lemma_put_together_first(l: Seq<char>, ls: Seq<Seq<char>>)
    ensures
        put_together(seq![l] + ls) == l + put_together(ls),
    decreases ls.len(),
{
    let all = seq![l] + ls;
    if ls.len() == 0 {
        assert(all.drop_last() == Seq::<Seq<char>>::empty());
        assert(put_together(all.drop_last()) == Seq::<char>::empty());
        assert(put_together(all) == l + put_together(ls));
    } else {
        lemma_put_together_first(l, ls.drop_last());
        assert(all.last() == ls.last());
        assert(all.drop_last() == seq![l] + ls.drop_last());
    }
}

/// The lines of a text, with their line endings, make up the text. Each of them
/// is a single line, and each but the last has a line ending.
pub proof fn law_whole_lines_make_up_text(s: Seq<char>)
    ensures
        put_together(diff::whole_lines(s)) == s,
        forall|i: int|
            0 <= i < diff::whole_lines(s).len() ==> diff::one_line(
                #[trigger] diff::whole_lines(s)[i],
            ),
        forall|i: int|
            0 <= i < diff::whole_lines(s).len() - 1 ==> {
                let end = (#[trigger] diff::whole_lines(s)[i]).last();
                end == '\n' || end == '\r'
            },
    decreases s.len(),
{
    if s.len() > 0 {
        let n = diff::first_line_len(s) as int;
        let rest = s.skip(n);
        diff::lemma_first_line_len(s);
        law_whole_lines_make_up_text(rest);
        lemma_put_together_first(s.take(n), diff::whole_lines(rest));
        assert(s.take(n) + rest == s);
        assert forall|i: int| 0 <= i < diff::whole_lines(s).len() implies diff::one_line(
            #[trigger] diff::whole_lines(s)[i],
        ) by {
            if i > 0 {
                assert(diff::whole_lines(s)[i] == diff::whole_lines(rest)[i - 1]);
            }
        }
        assert forall|i: int| 0 <= i < diff::whole_lines(s).len() - 1 implies ({
            let end = (#[trigger] diff::whole_lines(s)[i]).last();
            end == '\n' || end == '\r'
        }) by {
            if i > 0 {
                assert(diff::whole_lines(s)[i] == diff::whole_lines(rest)[i - 1]);
            } else {
                lemma_first_line_ending(s);
            }
        }
    }
}

/// The first line of a text has a line ending, unless it is the whole text.
proof fn lemma_first_line_ending(s: Seq<char>)
    requires
        diff::first_line_len(s) < s.len(),
    ensures
        ({
            let end = s[diff::first_line_len(s) - 1];
            end == '\n' || end == '\r'
        }),
    decreases s.len(),
{
    let rest = s.drop_first();
    diff::lemma_first_line_len(rest);
    if diff::first_line_len(s) > 1 {
        lemma_first_line_ending(rest);
        assert(s[diff::first_line_len(s) - 1] == rest[diff::first_line_len(rest) - 1]);
    }
}

/// The two sides of the changes are their lines, put together, and every change
/// stands on one of the sides.
proof fn lemma_sides(changes: Seq<(ChangeTag, Seq<char>)>)
    ensures
        diff::old_side(changes) == put_together(diff::old_lines(changes)),
        diff::new_side(changes) == put_together(diff::new_lines(changes)),
        forall|i: int|
            0 <= i < changes.len() ==> diff::old_lines(changes).contains((#[trigger] changes[i]).1)
                || diff::new_lines(changes).contains(changes[i].1),
    decreases changes.len(),
{
    if changes.len() > 0 {
        let before = changes.drop_last();
        let l = changes.last().1;
        lemma_sides(before);
        let (a, b) = (diff::old_lines(before), diff::new_lines(before));
        assert(a.push(l).drop_last() == a);
        assert(b.push(l).drop_last() == b);
        assert forall|i: int| 0 <= i < changes.len() implies diff::old_lines(changes).contains(
            (#[trigger] changes[i]).1,
        ) || diff::new_lines(changes).contains(changes[i].1) by {
            let v = changes[i].1;
            if i < before.len() {
                assert(before[i] == changes[i]);
                if a.contains(v) {
                    let j = choose|j: int| 0 <= j < a.len() && a[j] == v;
                    assert(a.push(l)[j] == v);
                } else {
                    let j = choose|j: int| 0 <= j < b.len() && b[j] == v;
                    assert(b.push(l)[j] == v);
                }
            } else {
                assert(a.push(l)[a.len() as int] == v);
                assert(b.push(l)[b.len() as int] == v);
            }
        }
    }
}

/// The given lines of a diff without those that start with `mark`; the marks of
/// the others are taken off.
pub open spec fn unmarked(ls: Seq<Seq<char>>, mark: char) -> Seq<Seq<char>>
    decreases ls.len(),
{
    if ls.len() == 0 {
        Seq::empty()
    } else if ls.last()[0] == mark {
        unmarked(ls.drop_last(), mark)
    } else {
        unmarked(ls.drop_last(), mark).push(ls.last().drop_first())
    }
}

/// Taking the marks off the lines of a diff leaves the lines of either side.
proof fn lemma_unmarked(changes: Seq<(ChangeTag, Seq<char>)>)
    ensures
        ({
            let body = diff::diff_lines(changes);
            &&& unmarked(body, '+') == diff::bare_lines(diff::old_lines(changes))
            &&& unmarked(body, '-') == diff::bare_lines(diff::new_lines(changes))
        }),
    decreases changes.len(),
{
    if changes.len() > 0 {
        let body = diff::diff_lines(changes);
        let before = changes.drop_last();
        let c = changes.last();
        lemma_unmarked(before);
        assert(body.drop_last() == diff::diff_lines(before));
        assert(body.last() == diff::marked(c));
        assert(diff::marked(c)[0] == diff::sign(c.0));
        assert(diff::marked(c).drop_first() == diff::without_newline(c.1));
        let l = diff::without_newline(c.1);
        let (a, b) = (diff::old_lines(before), diff::new_lines(before));
        assert(diff::bare_lines(a.push(c.1)) == diff::bare_lines(a).push(l));
        assert(diff::bare_lines(b.push(c.1)) == diff::bare_lines(b).push(l));
    }
}

/// Changes that go through the lines of two texts hold both texts in full, line
/// by line. With their marks taken off, the lines of the diff that are not
/// inserted are exactly the lines of the old text, and those that are not
/// deleted exactly the lines of the new one.
pub proof fn law_changes_hold_both_texts(
    changes: Seq<(ChangeTag, Seq<char>)>,
    original: Seq<char>,
    fixed: Seq<char>,
)
    requires
        diff::old_lines(changes) == diff::whole_lines(original),
        diff::new_lines(changes) == diff::whole_lines(fixed),
    ensures
        diff::old_side(changes) == original,
        diff::new_side(changes) == fixed,
        diff::line_by_line(changes),
        ({
            let body = diff::diff_lines(changes);
            &&& unmarked(body, '+') == diff::bare_lines(diff::whole_lines(original))
            &&& unmarked(body, '-') == diff::bare_lines(diff::whole_lines(fixed))
        }),
{
    law_whole_lines_make_up_text(original);
    law_whole_lines_make_up_text(fixed);
    lemma_sides(changes);
    lemma_unmarked(changes);
    let (a, b) = (diff::old_lines(changes), diff::new_lines(changes));
    assert forall|i: int| 0 <= i < changes.len() implies diff::one_line(
        (#[trigger] changes[i]).1,
    ) by {
        let v = changes[i].1;
        if a.contains(v) {
            let j = choose|j: int| 0 <= j < a.len() && a[j] == v;
            assert(diff::one_line(diff::whole_lines(original)[j]));
        } else {
            let j = choose|j: int| 0 <= j < b.len() && b[j] == v;
            assert(diff::one_line(diff::whole_lines(fixed)[j]));
        }
    }
}

/// Where no change deletes or inserts a line, the two texts are equal, and every
/// line of the diff is marked with a space.
pub proof fn law_no_change_in_equal_texts(changes: Seq<(ChangeTag, Seq<char>)>)
    requires
        diff::unchanged(changes),
    ensures
        diff::old_side(changes) == diff::new_side(changes),
        forall|i: int|
            0 <= i < changes.len() ==> (#[trigger] diff::diff_lines(changes)[i])[0] == ' ',
    decreases changes.len(),
{
    if changes.len() > 0 {
        let before = changes.drop_last();
        assert(changes[changes.len() - 1].0 is Equal);
        assert forall|i: int| 0 <= i < before.len() implies (#[trigger] before[i]).0 is Equal by {
            assert(before[i] == changes[i]);
        }
        law_no_change_in_equal_texts(before);
    }
}

/// Whether something other than a newline follows a carriage return of `s`.
pub open spec fn has_lone_return(s: Seq<char>) -> bool {
    exists|i: int| 0 <= i < s.len() - 1 && #[trigger] s[i] == '\r' && s[i + 1] != '\n'
}

/// The head of a diff counts the lines that the diff shows of a text, and they
/// are the lines that newlines part. A text with a carriage return before
/// something other than a newline is left out: the diff parts lines there, the
/// head does not.
pub proof fn law_head_counts_shown_lines(s: Seq<char>)
    requires
        !has_lone_return(s),
    ensures
        diff::bare_lines(diff::whole_lines(s)) == text::ended_lines(s),
        diff::whole_lines(s).len() == text::line_count(s),
    decreases s.len(),
{
    text::lemma_lines_nonempty(s);
    if s.len() > 0 {
        let rest = s.drop_first();
        let n = diff::first_line_len(s) as int;
        let bare = diff::bare_lines(diff::whole_lines(s));
        let bare_rest = diff::bare_lines(diff::whole_lines(rest));
        assert forall|i: int|
            0 <= i < rest.len() - 1 && #[trigger] rest[i] == '\r' implies rest[i + 1] == '\n' by {
            assert(s[i + 1] == '\r');
        }
        law_head_counts_shown_lines(rest);
        text::lemma_lines_nonempty(rest);
        diff::lemma_first_line_len(s);
        diff::lemma_first_line_len(rest);
        if s[0] == '\n' {
            assert(s.skip(1) == rest);
            assert(s.take(1) == seq!['\n']);
            assert(diff::without_newline(s.take(1)) == Seq::<char>::empty());
            assert(bare == seq![Seq::<char>::empty()] + bare_rest);
            assert(text::ended_lines(s) == seq![Seq::<char>::empty()] + text::ended_lines(rest));
        } else if rest.len() == 0 {
            assert(n == 1);
            assert(s.take(1) == s);
            assert(s.skip(1) == Seq::<char>::empty());
            assert(diff::whole_lines(s) == seq![s]);
            assert(text::lines(rest) == seq![Seq::<char>::empty()]);
            assert(seq![s[0]] + Seq::<char>::empty() == s);
            assert(text::lines(s) == seq![s]);
            assert(bare == text::ended_lines(s));
        } else {
            assert(n == 1 + diff::first_line_len(rest));
            assert(s.skip(n) == rest.skip(n - 1));
            let l = rest.take(n - 1);
            assert(s.take(n) == seq![s[0]] + l);
            assert(diff::without_newline(s.take(n)) == seq![s[0]] + diff::without_newline(l));
            let below = diff::bare_lines(diff::whole_lines(rest.skip(n - 1)));
            assert(bare_rest == seq![diff::without_newline(l)] + below);
            assert(bare == seq![seq![s[0]] + diff::without_newline(l)] + below);
            assert(text::ended_lines(rest).len() >= 1);
            assert(text::ended_lines(s) == text::ended_lines(rest).update(
                0,
                seq![s[0]] + text::ended_lines(rest)[0],
            ));
            assert(bare == text::ended_lines(s));
        }
    }
}

/// A hunk that spans one line is headed by a one, any other by a one, a comma and
/// the number of its lines.
pub proof fn law_span_gives_number_of_lines(n: nat)
    ensures
        diff::span(n) == if n == 1 {
            seq!['1']
        } else {
            seq!['1', ','] + text::decimal(n)
        },
        n != 1 ==> text_laws::number(diff::span(n).skip(2)) == n,
{
    text_laws::law_decimal_stands_for_its_number(n);
    if n != 1 {
        assert(diff::span(n).skip(2) == text::decimal(n));
    }
}

/// The head of a diff names the file twice and gives the number of lines of
/// either text, as newlines end them.
pub proof fn law_head_names_file_and_counts_lines(
    original: Seq<char>,
    fixed: Seq<char>,
    filename: Seq<char>,
)
    ensures
        ({
            let n = text_laws::newlines(original) + if original.len() == 0 || original.last()
                == '\n' {
                0nat
            } else {
                1nat
            };
            let m = text_laws::newlines(fixed) + if fixed.len() == 0 || fixed.last() == '\n' {
                0nat
            } else {
                1nat
            };
            diff::head(original, fixed, filename) == "--- a/"@ + filename + "\n+++ b/"@ + filename
                + "\n@@ -"@ + diff::span(n) + " +"@ + diff::span(m) + " @@\n"@
        }),
{
    text_laws::law_newlines_end_counted_lines(original);
    text_laws::law_newlines_end_counted_lines(fixed);
}

/// The head of a diff counts what stands below it: the lines that are not marked
/// as inserted, and those that are not marked as deleted. The number is left out
/// where it is one. Texts with a carriage return before something other than a
/// newline are left out: the diff parts lines there, the head does not.
pub proof fn law_head_counts_marked_lines(
    changes: Seq<(ChangeTag, Seq<char>)>,
    original: Seq<char>,
    fixed: Seq<char>,
    filename: Seq<char>,
)
    requires
        diff::old_lines(changes) == diff::whole_lines(original),
        diff::new_lines(changes) == diff::whole_lines(fixed),
        !has_lone_return(original),
        !has_lone_return(fixed),
    ensures
        ({
            let n = unmarked(diff::diff_lines(changes), '+').len();
            let m = unmarked(diff::diff_lines(changes), '-').len();
            diff::head(original, fixed, filename) == "--- a/"@ + filename + "\n+++ b/"@ + filename
                + "\n@@ -"@ + (if n == 1 {
                seq!['1']
            } else {
                seq!['1', ','] + text::decimal(n)
            }) + " +"@ + (if m == 1 {
                seq!['1']
            } else {
                seq!['1', ','] + text::decimal(m)
            }) + " @@\n"@
        }),
{
    lemma_unmarked(changes);
    law_head_counts_shown_lines(original);
    law_head_counts_shown_lines(fixed);
}

/// A line of a diff is the mark of its change, a minus for a deleted line, a plus
/// for an inserted one and a space for any other, and the line behind it. There
/// is one for each change, in order.
pub proof fn law_diff_lines_are_marked(changes: Seq<(ChangeTag, Seq<char>)>)
    ensures
        diff::diff_lines(changes).len() == changes.len(),
        forall|i: int|
            0 <= i < changes.len() ==> #[trigger] diff::diff_lines(changes)[i] == seq![
                match changes[i].0 {
                    ChangeTag::Delete => '-',
                    ChangeTag::Insert => '+',
                    ChangeTag::Equal => ' ',
                },
            ] + if changes[i].1.len() > 0 && changes[i].1.last() == '\n' {
                changes[i].1.drop_last()
            } else {
                changes[i].1
            },
{
}

/// Each change adds its mark and its line to the diff, on a line of their own: a
/// newline comes before them if the change before has none at its end.
pub proof fn law_diff_grows_by_marked_line(
    changes: Seq<(ChangeTag, Seq<char>)>,
    c: (ChangeTag, Seq<char>),
)
    ensures
        diff::marked_lines(Seq::empty()) == Seq::<char>::empty(),
        ({
            let mark = match c.0 {
                ChangeTag::Delete => '-',
                ChangeTag::Insert => '+',
                ChangeTag::Equal => ' ',
            };
            diff::marked_lines(changes.push(c)) == diff::marked_lines(changes) + (if changes.len()
                == 0 || (changes.last().1.len() > 0 && changes.last().1.last() == '\n') {
                Seq::empty()
            } else {
                seq!['\n']
            }) + seq![mark] + c.1
        }),
{
    let all = changes.push(c);
    assert(all.drop_last() == changes);
    if changes.len() > 0 {
        let d = changes.last();
        let m = diff::inner_lines(changes.drop_last());
        if d.1.len() > 0 && d.1.last() == '\n' {
            assert(d.1 == d.1.drop_last().push('\n'));
            assert(diff::inner_lines(changes) == m + seq![diff::sign(d.0)] + d.1);
        } else {
            assert(diff::inner_lines(changes) == m + seq![diff::sign(d.0)] + d.1 + seq!['\n']);
        }
    } else {
        assert(diff::inner_lines(changes) == Seq::<char>::empty());
    }
    assert(diff::marked_lines(all) == diff::inner_lines(changes) + seq![diff::sign(c.0)] + c.1);
}

/// A deleted line stands on the old side alone, an inserted one on the new side
/// alone, any other on both; so with the texts that the sides make up.
pub proof fn law_change_stands_on_its_sides(
    changes: Seq<(ChangeTag, Seq<char>)>,
    c: (ChangeTag, Seq<char>),
)
    ensures
        diff::old_lines(Seq::empty()) == Seq::<Seq<char>>::empty(),
        diff::new_lines(Seq::empty()) == Seq::<Seq<char>>::empty(),
        diff::old_lines(changes.push(c)) == diff::old_lines(changes) + if c.0 == ChangeTag::Insert {
            Seq::empty()
        } else {
            seq![c.1]
        },
        diff::new_lines(changes.push(c)) == diff::new_lines(changes) + if c.0 == ChangeTag::Delete {
            Seq::empty()
        } else {
            seq![c.1]
        },
        diff::old_side(changes) == put_together(diff::old_lines(changes)),
        diff::new_side(changes) == put_together(diff::new_lines(changes)),
        diff::unchanged(changes) <==> forall|i: int|
            0 <= i < changes.len() ==> (#[trigger] changes[i]).0 == ChangeTag::Equal,
        diff::line_by_line(changes) <==> forall|i: int|
            0 <= i < changes.len() ==> diff::one_line((#[trigger] changes[i]).1),
{
    assert(changes.push(c).drop_last() == changes);
    lemma_sides(changes);
}

/// A single line is not empty and holds a newline at its end only.
pub proof fn law_single_line_has_newline_at_end_only(s: Seq<char>)
    ensures
        diff::one_line(s) <==> s.len() > 0 && !s.drop_last().contains('\n'),
{
    let t = s.drop_last();
    if s.len() > 0 {
        if diff::one_line(s) {
            assert forall|i: int| 0 <= i < t.len() implies t[i] != '\n' by {
                assert(s[i] != '\n');
            }
        } else if !t.contains('\n') {
            assert forall|i: int| 0 <= i < s.len() - 1 implies #[trigger] s[i] != '\n' by {
                assert(t[i] == s[i]);
            }
        }
    }
}

/// How far the first line of a text reaches that starts without a line ending.
proof fn lemma_first_line_reaches(a: Seq<char>, ending: Seq<char>, b: Seq<char>)
    requires
        !a.contains('\n'),
        !a.contains('\r'),
        ending == seq!['\n'] || ending == seq!['\r', '\n'] || (ending == seq!['\r'] && (b.len() == 0
            || b[0] != '\n')) || (ending.len() == 0 && b.len() == 0),
    ensures
        diff::first_line_len(a + ending + b) == a.len() + ending.len(),
    decreases a.len(),
{
    let s = a + ending + b;
    if a.len() > 0 {
        let t = a.drop_first();
        assert forall|j: int| 0 <= j < t.len() implies t[j] != '\n' && t[j] != '\r' by {
            assert(a[j + 1] == t[j]);
        }
        lemma_first_line_reaches(t, ending, b);
        assert(a[0] == s[0]);
        assert(s.drop_first() == t + ending + b);
    } else if ending.len() > 0 {
        assert(s[0] == ending[0]);
        if ending.len() == 2 {
            assert(s[1] == '\n');
            let u = s.drop_first();
            assert(u[0] == '\n');
            assert(diff::first_line_len(u) == 1);
        } else if b.len() > 0 {
            assert(s[1] == b[0]);
        }
    } else {
        assert(s == Seq::<char>::empty());
    }
}

/// A newline, a carriage return and a newline, or a lone carriage return ends a
/// line; what follows them is parted in the same way, and what no line ending
/// follows is the last line.
pub proof fn law_line_endings_part_whole_lines(a: Seq<char>, b: Seq<char>)
    requires
        !a.contains('\n'),
        !a.contains('\r'),
    ensures
        diff::whole_lines(Seq::empty()) == Seq::<Seq<char>>::empty(),
        a.len() > 0 ==> diff::whole_lines(a) == seq![a],
        diff::whole_lines(a + seq!['\n'] + b) == seq![a + seq!['\n']] + diff::whole_lines(b),
        diff::whole_lines(a + seq!['\r', '\n'] + b) == seq![a + seq!['\r', '\n']]
            + diff::whole_lines(b),
        b.len() == 0 || b[0] != '\n' ==> diff::whole_lines(a + seq!['\r'] + b) == seq![
            a + seq!['\r'],
        ] + diff::whole_lines(b),
{
    lemma_first_line_reaches(a, Seq::empty(), Seq::empty());
    assert(a + Seq::<char>::empty() + Seq::<char>::empty() == a);
    if a.len() > 0 {
        let k = a.len() as int;
        assert(a.take(k) == a);
        assert(a.skip(k) == Seq::<char>::empty());
        assert(diff::whole_lines(a.skip(k)) == Seq::<Seq<char>>::empty());
        assert(diff::whole_lines(a) == seq![a]);
    }
    lemma_first_line_reaches(a, seq!['\n'], b);
    lemma_first_line_split(a, seq!['\n'], b);
    lemma_first_line_reaches(a, seq!['\r', '\n'], b);
    lemma_first_line_split(a, seq!['\r', '\n'], b);
    if b.len() == 0 || b[0] != '\n' {
        lemma_first_line_reaches(a, seq!['\r'], b);
        lemma_first_line_split(a, seq!['\r'], b);
    }
}

/// The first line is parted from the rest.
proof fn lemma_first_line_split(a: Seq<char>, ending: Seq<char>, b: Seq<char>)
    requires
        ending.len() > 0,
        diff::first_line_len(a + ending + b) == a.len() + ending.len(),
    ensures
        diff::whole_lines(a + ending + b) == seq![a + ending] + diff::whole_lines(b),
{
    let s = a + ending + b;
    let k = (a.len() + ending.len()) as int;
    assert(s.take(k) == a + ending);
    assert(s.skip(k) == b);
}

/// The contents of a change are what became of its line, and the line.
pub proof fn law_change_holds_tag_and_line(change: diff::LineChange)
    ensures
        change.deep_view().0 == change.tag,
        change.deep_view().1 == change.value@,
{
}

} // verus!
