//! The difference between two texts, line by line.

use vstd::prelude::*;
use vstd::string::*;

use crate::diff_laws;
use crate::text;

verus! {

/// What became of a line.
#[derive(Clone, Copy, Debug, PartialEq, Eq, Structural)]
pub enum ChangeTag {
    /// The line stands in the old text only.
    Delete,
    /// The line stands in the new text only.
    Insert,
    /// The line stands in both texts.
    Equal,
}

/// A line of the old or the new text, with its line ending, and what became of
/// it.
#[derive(Debug)]
pub struct LineChange {
    /// What became of the line.
    pub tag: ChangeTag,
    /// The line.
    pub value: String,
}

impl DeepView for LineChange {
    type V = (ChangeTag, Seq<char>);

    open spec fn deep_view(&self) -> (ChangeTag, Seq<char>) {
        (self.tag, self.value@)
    }
}

/// The lines of the old text among the changes, put together.
pub open spec fn old_side(changes: Seq<(ChangeTag, Seq<char>)>) -> Seq<char>
    decreases changes.len(),
{
    if changes.len() == 0 {
        Seq::empty()
    } else if changes.last().0 is Insert {
        old_side(changes.drop_last())
    } else {
        old_side(changes.drop_last()) + changes.last().1
    }
}

/// The lines of the new text among the changes, put together.
pub open spec fn new_side(changes: Seq<(ChangeTag, Seq<char>)>) -> Seq<char>
    decreases changes.len(),
{
    if changes.len() == 0 {
        Seq::empty()
    } else if changes.last().0 is Delete {
        new_side(changes.drop_last())
    } else {
        new_side(changes.drop_last()) + changes.last().1
    }
}

/// The lines of the old text among the changes.
pub open spec fn old_lines(changes: Seq<(ChangeTag, Seq<char>)>) -> Seq<Seq<char>>
    decreases changes.len(),
{
    if changes.len() == 0 {
        Seq::empty()
    } else if changes.last().0 is Insert {
        old_lines(changes.drop_last())
    } else {
        old_lines(changes.drop_last()).push(changes.last().1)
    }
}

/// The lines of the new text among the changes.
pub open spec fn new_lines(changes: Seq<(ChangeTag, Seq<char>)>) -> Seq<Seq<char>>
    decreases changes.len(),
{
    if changes.len() == 0 {
        Seq::empty()
    } else if changes.last().0 is Delete {
        new_lines(changes.drop_last())
    } else {
        new_lines(changes.drop_last()).push(changes.last().1)
    }
}

/// How long the first line of `s` is, with its line ending: a newline, a
/// carriage return, or the two together.
pub open spec fn first_line_len(s: Seq<char>) -> nat
    decreases s.len(),
{
    if s.len() == 0 {
        0
    } else if s[0] == '\n' || (s[0] == '\r' && !(s.len() > 1 && s[1] == '\n')) {
        1
    } else {
        1 + first_line_len(s.drop_first())
    }
}

/// The lines of `s`, each with its line ending. Only the last one can be
/// without.
pub open spec fn whole_lines(s: Seq<char>) -> Seq<Seq<char>>
    decreases s.len(),
{
    if s.len() == 0 {
        Seq::empty()
    } else {
        proof {
            lemma_first_line_len(s);
        }
        let n = first_line_len(s) as int;
        seq![s.take(n)] + whole_lines(s.skip(n))
    }
}

/// Whether no change deletes or inserts a line.
pub open spec fn unchanged(changes: Seq<(ChangeTag, Seq<char>)>) -> bool {
    forall|i: int| 0 <= i < changes.len() ==> (#[trigger] changes[i]).0 is Equal
}

/// The mark of a line in a diff.
pub open spec fn sign(tag: ChangeTag) -> char {
    match tag {
        ChangeTag::Delete => '-',
        ChangeTag::Insert => '+',
        ChangeTag::Equal => ' ',
    }
}

/// A line without the newline at its end, if it has one.
pub open spec fn without_newline(line: Seq<char>) -> Seq<char> {
    if line.len() > 0 && line.last() == '\n' {
        line.drop_last()
    } else {
        line
    }
}

/// A mark and a line behind it, without the newline.
pub open spec fn marked(change: (ChangeTag, Seq<char>)) -> Seq<char> {
    seq![sign(change.0)] + without_newline(change.1)
}

/// The lines of a diff: the marked lines of all changes.
pub open spec fn diff_lines(changes: Seq<(ChangeTag, Seq<char>)>) -> Seq<Seq<char>> {
    changes.map_values(|c: (ChangeTag, Seq<char>)| marked(c))
}

/// The given lines without the newlines at their ends.
pub open spec fn bare_lines(ls: Seq<Seq<char>>) -> Seq<Seq<char>> {
    ls.map_values(|l: Seq<char>| without_newline(l))
}

/// The marked lines of changes that are not the last ones: a newline ends each.
pub open spec fn inner_lines(changes: Seq<(ChangeTag, Seq<char>)>) -> Seq<char>
    decreases changes.len(),
{
    if changes.len() == 0 {
        Seq::empty()
    } else {
        inner_lines(changes.drop_last()) + marked(changes.last()).push('\n')
    }
}

/// The marked lines of all changes. A newline ends each but the last one, which
/// ends as the changed line does.
pub open spec fn marked_lines(changes: Seq<(ChangeTag, Seq<char>)>) -> Seq<char> {
    if changes.len() == 0 {
        Seq::empty()
    } else {
        inner_lines(changes.drop_last()) + seq![sign(changes.last().0)] + changes.last().1
    }
}

/// Whether `s` is a single line: it is not empty, and a newline can only be its
/// last character.
pub open spec fn one_line(s: Seq<char>) -> bool {
    s.len() > 0 && forall|i: int| 0 <= i < s.len() - 1 ==> #[trigger] s[i] != '\n'
}

/// Whether every change is a single line.
pub open spec fn line_by_line(changes: Seq<(ChangeTag, Seq<char>)>) -> bool {
    forall|i: int| 0 <= i < changes.len() ==> one_line((#[trigger] changes[i]).1)
}

/// The lines that a hunk spans, from the first of `n` lines to the last. The
/// number of lines is left out where it is one.
pub open spec fn span(n: nat) -> Seq<char> {
    if n == 1 {
        seq!['1']
    } else {
        seq!['1', ','] + text::decimal(n)
    }
}

/// The head of a diff: the name of the file, as the old and as the new one,
/// and a single hunk that spans both texts.
pub open spec fn head(original: Seq<char>, fixed: Seq<char>, filename: Seq<char>) -> Seq<char> {
    "--- a/"@ + filename + "\n+++ b/"@ + filename + "\n@@ -"@ + span(
        text::line_count(original) as nat,
    ) + " +"@ + span(text::line_count(fixed) as nat) + " @@\n"@
}

/// The changes that `similar` finds between the lines of two texts.
pub uninterp spec fn line_changes(old: Seq<char>, new: Seq<char>) -> Seq<(ChangeTag, Seq<char>)>;

/// Calls `TextDiff::from_lines` of `similar` and lists what `iter_all_changes`
/// goes through. The changes depend on the two texts alone: no deadline is set.
/// They go through the lines of the two texts, with their line endings, in
/// order: those that are not inserted are the lines of the old text, those that
/// are not deleted the lines of the new one. Between two equal texts nothing is
/// deleted or inserted.
#[verifier::external_body]
fn compare_lines(old: &str, new: &str) -> (r: Vec<LineChange>)
    ensures
        r.deep_view() == line_changes(old@, new@),
        old_lines(r.deep_view()) == whole_lines(old@),
        new_lines(r.deep_view()) == whole_lines(new@),
        old@ == new@ ==> unchanged(r.deep_view()),
{
    similar::TextDiff::from_lines(old, new)
        .iter_all_changes()
        .map(|change| LineChange {
            tag: match change.tag() {
                similar::ChangeTag::Delete => ChangeTag::Delete,
                similar::ChangeTag::Insert => ChangeTag::Insert,
                similar::ChangeTag::Equal => ChangeTag::Equal,
            },
            value: change.value().to_string(),
        })
        .collect()
}

/// The diff from `original` to `fixed`, two versions of the file `filename`.
/// Its marked lines are the lines of both texts. Between two equal texts no
/// line is marked as deleted or inserted.
pub fn make_diff(original: &str, fixed: &str, filename: &str) -> (r: String)
    ensures
        r@ == head(original@, fixed@, filename@) + marked_lines(
            line_changes(original@, fixed@),
        ),
        old_lines(line_changes(original@, fixed@)) == whole_lines(original@),
        new_lines(line_changes(original@, fixed@)) == whole_lines(fixed@),
        old_side(line_changes(original@, fixed@)) == original@,
        new_side(line_changes(original@, fixed@)) == fixed@,
        line_by_line(line_changes(original@, fixed@)),
        original@ == fixed@ <==> unchanged(line_changes(original@, fixed@)),
{
    let changes = compare_lines(original, fixed);
    proof {
        diff_laws::law_changes_hold_both_texts(changes.deep_view(), original@, fixed@);
        if unchanged(changes.deep_view()) {
            diff_laws::law_no_change_in_equal_texts(changes.deep_view());
        }
    }
    format_diff(changes.as_slice(), original, fixed, filename)
}

/// Appends the lines that a hunk spans.
fn push_span(out: &mut String, n: usize)
    ensures
        final(out)@ == old(out)@ + span(n as nat),
{
    proof {
        reveal_strlit("1");
        reveal_strlit("1,");
    }
    if n == 1 {
        out.append("1");
    } else {
        out.append("1,");
        text::push_decimal(out, n);
        assert(out@ == old(out)@ + span(n as nat));
    }
}

/// Writes out the given changes as the diff from `original` to `fixed`.
pub fn format_diff(changes: &[LineChange], original: &str, fixed: &str, filename: &str) -> (r:
    String)
    ensures
        r@ == head(original@, fixed@, filename@) + marked_lines(changes.deep_view()),
{
    let mut out: String = String::new();
    out.append("--- a/");
    out.append(filename);
    out.append("\n+++ b/");
    out.append(filename);
    out.append("\n@@ -");
    push_span(&mut out, text::count_lines(original));
    out.append(" +");
    push_span(&mut out, text::count_lines(fixed));
    out.append(" @@\n");
    let ghost started = out@;
    assert(started == head(original@, fixed@, filename@));
    let ghost all = changes.deep_view();
    let n: usize = changes.len();
    let mut i: usize = 0;
    proof {
        assert(all.take(0) == Seq::<(ChangeTag, Seq<char>)>::empty());
        reveal_strlit("-");
        reveal_strlit("+");
        reveal_strlit(" ");
        reveal_strlit("\n");
    }
    while i < n
        invariant
            0 <= i <= n,
            n == changes@.len(),
            all == changes.deep_view(),
            "-"@ == seq!['-'],
            "+"@ == seq!['+'],
            " "@ == seq![' '],
            "\n"@ == seq!['\n'],
            i < n ==> out@ == started + inner_lines(all.take(i as int)),
            i == n ==> out@ == started + marked_lines(all),
        decreases n - i,
    {
        let change = &changes[i];
        proof {
            assert(all[i as int] == change.deep_view());
            assert(all.take(i + 1).drop_last() == all.take(i as int));
            assert(all.take(i + 1).last() == all[i as int]);
        }
        let ghost before = out@;
        match change.tag {
            ChangeTag::Delete => out.append("-"),
            ChangeTag::Insert => out.append("+"),
            ChangeTag::Equal => out.append(" "),
        }
        out.append(change.value.as_str());
        if i + 1 < n {
            if !text::ends_with_newline(change.value.as_str()) {
                out.append("\n");
            }
            assert(out@ == before + marked(all[i as int]).push('\n'));
        } else {
            assert(all.drop_last() == all.take(i as int));
            assert(out@ == before + seq![sign(all[i as int].0)] + all[i as int].1);
        }
        i = i + 1;
    }
    out
}

/// A text that is not empty has a first line that is not empty.
pub proof fn lemma_first_line_len(s: Seq<char>)
    ensures
        first_line_len(s) <= s.len(),
        s.len() > 0 ==> first_line_len(s) > 0,
        s.len() > 0 ==> one_line(s.take(first_line_len(s) as int)),
    decreases s.len(),
{
    if s.len() > 0 {
        let rest = s.drop_first();
        lemma_first_line_len(rest);
        let l = s.take(first_line_len(s) as int);
        assert forall|i: int| 0 <= i < l.len() - 1 implies #[trigger] l[i] != '\n' by {
            if i > 0 {
                assert(l[i] == rest.take(first_line_len(rest) as int)[i - 1]);
            }
        }
    }
}

} // verus!
