use lisp_balance::diff::{format_diff, make_diff, ChangeTag, LineChange};

#[test]
fn diff_marks_changes() {
    let d = make_diff("(let ((x 1)\n", "(let ((x 1)))\n", "test.lisp");
    assert!(d.contains("-(let ((x 1)"));
    assert!(d.contains("+(let ((x 1)))"));
    assert!(d.contains("--- a/test.lisp"));
}

#[test]
fn diff_in_full() {
    assert_eq!(
        make_diff("a\nb\nc", "a\nB\nc", "x.lisp"),
        "--- a/x.lisp\n+++ b/x.lisp\n@@ -1,3 +1,3 @@\n a\n-b\n+B\n c"
    );
    assert_eq!(
        make_diff("", "a\n", "n"),
        "--- a/n\n+++ b/n\n@@ -1,0 +1 @@\n+a\n"
    );
    assert_eq!(make_diff("", "", "n"), "--- a/n\n+++ b/n\n@@ -1,0 +1,0 @@\n");
    assert_eq!(
        make_diff("(let ((x 1)", "(let ((x 1))", "broken.lisp"),
        "--- a/broken.lisp\n+++ b/broken.lisp\n@@ -1 +1 @@\n-(let ((x 1)\n+(let ((x 1))"
    );
}

#[test]
fn equal_texts_have_no_marked_lines() {
    let text = "(a\n\n  b)\r\n(c)";
    let d = make_diff(text, text, "f");
    let body: Vec<&str> = d.split('\n').skip(3).collect();
    assert_eq!(body, vec![" (a", " ", "   b)\r", " (c)"]);
    assert!(d.contains("@@ -1,4 +1,4 @@"));
}

#[test]
fn a_lone_carriage_return_ends_a_line_of_the_body_only() {
    assert_eq!(
        make_diff("a\r", "b\r", "f"),
        "--- a/f\n+++ b/f\n@@ -1 +1 @@\n-a\r\n+b\r"
    );
    assert_eq!(
        make_diff("a\rb", "a\rc\r\n", "f"),
        "--- a/f\n+++ b/f\n@@ -1 +1 @@\n a\r\n-b\n+c\r\n"
    );
}

#[test]
fn format_diff_writes_given_changes() {
    let change = |tag, value: &str| LineChange {
        tag,
        value: value.to_string(),
    };
    let changes = [
        change(ChangeTag::Equal, "a\n"),
        change(ChangeTag::Delete, "b"),
        change(ChangeTag::Insert, ""),
        change(ChangeTag::Insert, "c\r"),
    ];
    assert_eq!(
        format_diff(&changes, "1\n2\n", "1", "f"),
        "--- a/f\n+++ b/f\n@@ -1,2 +1 @@\n a\n-b\n+\n+c\r"
    );
}

#[test]
fn one_line_per_change() {
    let d = make_diff("a\rb\nc\n\n", "a\rb\nC\n\nd", "f");
    let body: Vec<&str> = d.split('\n').skip(3).collect();
    assert_eq!(body, vec![" a\r", " b", "-c", "+C", " ", "+d"]);
}

/// The text on one side of a diff whose lines all end in a newline.
fn side(diff: &str, dropped: char) -> String {
    let mut out = String::new();
    for line in diff.split_inclusive('\n').skip(3) {
        if !line.starts_with(dropped) {
            out.push_str(&line[1..]);
        }
    }
    out
}

#[test]
fn both_texts_are_found_in_their_diff() {
    let mut seed: u64 = 12345;
    let mut next = |n: u64| {
        seed = seed.wrapping_mul(6364136223846793005).wrapping_add(1442695040888963407);
        (seed >> 33) % n
    };
    for round in 0..300u64 {
        // Every tenth pair is long.
        let (len, kinds) = if round % 10 == 0 { (250, 40) } else { (12, 4) };
        let mut text = || {
            let mut out = String::new();
            for _ in 0..next(len) {
                out.push_str(&format!("line {}\n", next(kinds)));
            }
            out
        };
        let (old, new) = (text(), text());
        let diff = make_diff(&old, &new, "f");
        assert_eq!(side(&diff, '+'), old);
        assert_eq!(side(&diff, '-'), new);
        let same = make_diff(&old, &old, "f");
        assert!(same.split_inclusive('\n').skip(3).all(|l| l.starts_with(' ')));
    }
}
