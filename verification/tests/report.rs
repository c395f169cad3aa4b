use lisp_balance::balance::{Answer, Error};
use lisp_balance::language::LanguageFeatures;
use lisp_balance::report::{
    make_plan, report, report_empty, report_no_input, report_unreadable, report_unwritable, Action,
    JsonOutput, Plan, Settings,
};

const OLD: &str = "(a\n";
const NEW: &str = "(a)\n";
const DIFF: &str = "--- a/f.lisp\n+++ b/f.lisp\n@@ -1 +1 @@\n-(a\n+(a)\n";

fn settings(file: Option<&str>, flags: &str) -> Settings {
    Settings {
        file: file.map(|f| f.to_string()),
        in_place: flags.contains('i'),
        diff: flags.contains('d'),
        mode: "smart".to_string(),
        check: flags.contains('c'),
        quiet: flags.contains('q'),
        json: flags.contains('j'),
        lang: "lisp".to_string(),
    }
}

fn balanced(text: &str) -> Answer {
    Answer {
        success: true,
        error: None,
        text: text.to_string(),
    }
}

fn failed(error: Option<Error>) -> Answer {
    Answer {
        success: false,
        error,
        text: OLD.to_string(),
    }
}

fn quote_error() -> Error {
    Error {
        name: "unclosed-quote".to_string(),
        message: "String is missing a closing quote.".to_string(),
        line_no: 3,
        x: 14,
    }
}

/// The actions but for JSON, one line each.
fn shown(plan: &Plan) -> Vec<String> {
    plan.actions
        .iter()
        .map(|a| match a {
            Action::Json(_) => "json".to_string(),
            Action::Print(s) => format!("print {s}"),
            Action::Tell(s) => format!("tell {s}"),
            Action::Write(s) => format!("write {s}"),
        })
        .collect()
}

fn json(plan: &Plan) -> &JsonOutput {
    match &plan.actions[0] {
        Action::Json(j) => j,
        _ => panic!("no report"),
    }
}

#[test]
fn pipe_prints_the_balanced_text() {
    for flags in ["", "q"] {
        let plan = report(&settings(None, flags), OLD, &balanced(NEW));
        assert_eq!(shown(&plan), vec![format!("print {NEW}")]);
        assert_eq!(plan.exit_code, 0);
        let plan = report(&settings(Some("f.lisp"), flags), NEW, &balanced(NEW));
        assert_eq!(shown(&plan), vec![format!("print {NEW}")]);
        assert_eq!(plan.exit_code, 0);
    }
}

#[test]
fn pipe_shows_the_difference() {
    let plan = report(&settings(Some("f.lisp"), "d"), OLD, &balanced(NEW));
    assert_eq!(
        shown(&plan),
        vec![format!("tell {DIFF}"), format!("print {NEW}")]
    );
    assert_eq!(plan.exit_code, 0);
    let plan = report(&settings(None, "d"), OLD, &balanced(NEW));
    assert!(shown(&plan)[0].contains("--- a/<stdin>\n+++ b/<stdin>\n"));
    let plan = report(&settings(Some("f.lisp"), "dq"), OLD, &balanced(NEW));
    assert_eq!(shown(&plan), vec![format!("print {NEW}")]);
    let plan = report(&settings(Some("f.lisp"), "d"), NEW, &balanced(NEW));
    assert_eq!(shown(&plan), vec![format!("print {NEW}")]);
}

#[test]
fn pipe_reports_in_json() {
    let plan = report(&settings(Some("f.lisp"), "j"), OLD, &balanced(NEW));
    assert_eq!(plan.actions.len(), 1);
    assert_eq!(plan.exit_code, 0);
    let j = json(&plan);
    assert!(j.success && j.error.is_none());
    assert_eq!(j.changed, Some(true));
    assert_eq!(j.original.as_deref(), Some(OLD));
    assert_eq!(j.fixed.as_deref(), Some(NEW));
    assert_eq!(j.diff.as_deref(), Some(DIFF));
    assert_eq!(j.mode, "smart");
    assert_eq!(j.language, "lisp");

    let plan = report(&settings(None, "jq"), NEW, &balanced(NEW));
    assert_eq!(plan.actions.len(), 1);
    let j = json(&plan);
    assert!(j.success && j.diff.is_none());
    assert_eq!(j.changed, Some(false));
    assert_eq!(j.original.as_deref(), Some(NEW));
    assert_eq!(j.fixed.as_deref(), Some(NEW));
}

#[test]
fn check_tells_by_the_exit_code() {
    let plan = report(&settings(None, "c"), OLD, &balanced(NEW));
    assert_eq!(
        shown(&plan),
        vec!["tell lisp-balance: unbalanced parens detected"]
    );
    assert_eq!(plan.exit_code, 1);
    let plan = report(&settings(Some("f.lisp"), "cidq"), OLD, &balanced(NEW));
    assert!(plan.actions.is_empty());
    assert_eq!(plan.exit_code, 1);
    let plan = report(&settings(None, "ci"), NEW, &balanced(NEW));
    assert!(plan.actions.is_empty());
    assert_eq!(plan.exit_code, 0);
}

#[test]
fn check_overlooks_the_space_before_a_comment() {
    let plan = report(&settings(None, "c"), "(foo);c", &balanced("(foo) ;c"));
    assert!(plan.actions.is_empty());
    assert_eq!(plan.exit_code, 0);
    let plan = report(&settings(None, "c"), "(foo;c", &balanced("(foo) ;c"));
    assert_eq!(plan.exit_code, 1);
    let plan = report(&settings(None, "cj"), "(foo);c", &balanced("(foo) ;c"));
    assert_eq!(plan.exit_code, 0);
    assert_eq!(json(&plan).changed, Some(true));
    // The comments are those of the dialect.
    let mut janet = settings(None, "c");
    janet.lang = "Janet".to_string();
    assert_eq!(report(&janet, "(foo)#c", &balanced("(foo) #c")).exit_code, 0);
    assert_eq!(report(&janet, "(foo);c", &balanced("(foo) ;c")).exit_code, 1);
    let clojure = LanguageFeatures::clojure();
    let plan = make_plan(&janet, "(foo);c", &clojure, &balanced("(foo) ;c"), None);
    assert_eq!(plan.exit_code, 0);
}

#[test]
fn check_reports_in_json() {
    for (source, code) in [(OLD, 1), (NEW, 0)] {
        let plan = report(&settings(Some("f.lisp"), "cjd"), source, &balanced(NEW));
        assert_eq!(plan.actions.len(), 1);
        assert_eq!(plan.exit_code, code);
        let j = json(&plan);
        assert!(j.success && j.diff.is_none() && j.error.is_none());
        assert_eq!(j.changed, Some(code == 1));
        assert_eq!(j.original.as_deref(), Some(source));
        assert_eq!(j.fixed.as_deref(), Some(NEW));
    }
}

#[test]
fn in_place_writes_the_file() {
    let write = format!("write {NEW}");
    let plan = report(&settings(Some("f.lisp"), "i"), OLD, &balanced(NEW));
    assert_eq!(
        shown(&plan),
        vec!["tell lisp-balance: fixed 'f.lisp'", &write]
    );
    assert_eq!(plan.exit_code, 0);
    let plan = report(&settings(Some("f.lisp"), "iq"), OLD, &balanced(NEW));
    assert_eq!(shown(&plan), vec![write.clone()]);
    let plan = report(&settings(Some("f.lisp"), "id"), OLD, &balanced(NEW));
    assert_eq!(shown(&plan), vec![format!("print {DIFF}"), write.clone()]);
    let plan = report(&settings(Some("f.lisp"), "idq"), OLD, &balanced(NEW));
    assert_eq!(shown(&plan), vec![write.clone()]);
}

#[test]
fn in_place_reports_in_json() {
    for (flags, diff) in [("ij", None), ("ijd", Some(DIFF)), ("ijdq", Some(DIFF))] {
        let plan = report(&settings(Some("f.lisp"), flags), OLD, &balanced(NEW));
        assert_eq!(shown(&plan), vec!["json".to_string(), format!("write {NEW}")]);
        let j = json(&plan);
        assert!(j.success);
        assert_eq!(j.changed, Some(true));
        assert_eq!(j.original.as_deref(), Some(OLD));
        assert_eq!(j.fixed.as_deref(), Some(NEW));
        assert_eq!(j.diff.as_deref(), diff);
    }
    let plan = report(&settings(Some("f.lisp"), "ijd"), NEW, &balanced(NEW));
    assert_eq!(shown(&plan), vec!["json"]);
    let j = json(&plan);
    assert!(j.success && j.original.is_none() && j.diff.is_none());
    assert_eq!(j.changed, Some(false));
    assert_eq!(j.fixed.as_deref(), Some(NEW));
}

#[test]
fn in_place_leaves_a_balanced_file_alone() {
    let plan = report(&settings(Some("f.lisp"), "id"), NEW, &balanced(NEW));
    assert_eq!(
        shown(&plan),
        vec!["tell lisp-balance: 'f.lisp' is already balanced"]
    );
    assert_eq!(plan.exit_code, 0);
    let plan = report(&settings(Some("f.lisp"), "iq"), NEW, &balanced(NEW));
    assert!(plan.actions.is_empty());
}

#[test]
fn in_place_needs_a_file() {
    for flags in ["i", "iq", "ijd"] {
        let plan = report(&settings(None, flags), OLD, &balanced(NEW));
        assert_eq!(
            shown(&plan),
            vec!["tell lisp-balance: --in-place requires a file argument"]
        );
        assert_eq!(plan.exit_code, 1);
    }
}

#[test]
fn failures_are_told() {
    for flags in ["", "q", "i", "c", "d"] {
        let plan = report(&settings(None, flags), OLD, &failed(Some(quote_error())));
        assert_eq!(
            shown(&plan),
            vec!["tell lisp-balance: String is missing a closing quote. at line 3, column 14"]
        );
        assert_eq!(plan.exit_code, 1);
    }
    let plan = report(&settings(None, ""), OLD, &failed(None));
    assert_eq!(shown(&plan), vec!["tell lisp-balance: unknown error"]);
    assert_eq!(plan.exit_code, 1);
}

#[test]
fn failures_are_reported_in_json() {
    let plan = report(&settings(None, "jq"), OLD, &failed(Some(quote_error())));
    assert_eq!(shown(&plan), vec!["json"]);
    assert_eq!(plan.exit_code, 1);
    let j = json(&plan);
    assert!(!j.success && j.changed.is_none() && j.fixed.is_none() && j.diff.is_none());
    assert_eq!(j.original.as_deref(), Some(OLD));
    let e = j.error.as_ref().unwrap();
    assert_eq!(e.name, "unclosed-quote");
    assert_eq!(e.message, "String is missing a closing quote.");
    assert_eq!((e.line, e.column), (3, 14));
    let plan = report(&settings(None, "j"), OLD, &failed(None));
    assert!(json(&plan).error.is_none());
}

#[test]
fn make_plan_shows_the_given_difference() {
    let plan = make_plan(
        &settings(Some("f.lisp"), "i"),
        OLD,
        &LanguageFeatures::common_lisp(),
        &balanced(NEW),
        Some("D".to_string()),
    );
    assert_eq!(shown(&plan), vec!["print D".to_string(), format!("write {NEW}")]);
}

#[test]
fn trouble_with_files_is_told() {
    let plan = report_unreadable("f.lisp", "not found");
    assert_eq!(
        shown(&plan),
        vec!["tell lisp-balance: error reading 'f.lisp': not found"]
    );
    assert_eq!(plan.exit_code, 1);
    let plan = report_unwritable("f.lisp", "denied");
    assert_eq!(
        shown(&plan),
        vec!["tell lisp-balance: error writing 'f.lisp': denied"]
    );
    assert_eq!(plan.exit_code, 1);
    let plan = report_no_input();
    assert_eq!(
        shown(&plan),
        vec!["tell lisp-balance: no input (use --help for usage)"]
    );
    assert_eq!(plan.exit_code, 1);
}

#[test]
fn empty_input_is_not_balanced() {
    let plan = report_empty(&settings(None, ""), " \n\t").unwrap();
    assert_eq!(shown(&plan), vec!["tell lisp-balance: empty input"]);
    assert_eq!(plan.exit_code, 0);
    let plan = report_empty(&settings(None, "q"), "").unwrap();
    assert!(plan.actions.is_empty());
    assert_eq!(plan.exit_code, 0);
    assert!(report_empty(&settings(None, ""), " x").is_none());
}
