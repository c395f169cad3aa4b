//! What the program prints and writes, and the code it exits with.

use vstd::prelude::*;
use vstd::string::*;
use vstd::utf8::*;

use crate::balance::{Answer, Error};
use crate::comment_laws;
use crate::comments;
use crate::diff;
use crate::language;
use crate::language::LanguageFeatures;
use crate::text;

verus! {

/// What the user asked for.
#[derive(Debug)]
pub struct Settings {
    /// The name of the file to balance; none stands for the standard input.
    pub file: Option<String>,
    /// Write the balanced text back to the file.
    pub in_place: bool,
    /// Show the difference.
    pub diff: bool,
    /// The way of balancing.
    pub mode: String,
    /// Only tell whether the text is balanced.
    pub check: bool,
    /// Print errors only.
    pub quiet: bool,
    /// Report in JSON.
    pub json: bool,
    /// The dialect.
    pub lang: String,
}

/// An error in a JSON report.
#[derive(Debug)]
pub struct JsonError {
    /// The kind of error.
    pub name: String,
    /// The error in words.
    pub message: String,
    /// The line of the error.
    pub line: usize,
    /// The column of the error.
    pub column: usize,
}

/// A report in JSON. Fields that are `None` are left out.
#[derive(Debug)]
pub struct JsonOutput {
    /// Whether the text could be balanced.
    pub success: bool,
    /// Whether balancing changes the text.
    pub changed: Option<bool>,
    /// Why the text could not be balanced.
    pub error: Option<JsonError>,
    /// The text as it was.
    pub original: Option<String>,
    /// The balanced text.
    pub fixed: Option<String>,
    /// The difference between the two.
    pub diff: Option<String>,
    /// The way of balancing.
    pub mode: String,
    /// The dialect.
    pub language: String,
}

/// One thing to do.
#[derive(Debug)]
pub enum Action {
    /// Print a report to the standard output.
    Json(JsonOutput),
    /// Print a text to the standard output, as it is.
    Print(String),
    /// Print a line to the standard error.
    Tell(String),
    /// Write a text to the file.
    Write(String),
}

/// What to do, in order, and the code to exit with.
#[derive(Debug)]
pub struct Plan {
    /// What to do.
    pub actions: Vec<Action>,
    /// The code to exit with.
    pub exit_code: u8,
}

/// The contents of a [`JsonError`].
pub struct JsonErrorView {
    pub name: Seq<char>,
    pub message: Seq<char>,
    pub line: usize,
    pub column: usize,
}

/// The contents of a [`JsonOutput`].
pub struct JsonView {
    pub success: bool,
    pub changed: Option<bool>,
    pub error: Option<JsonErrorView>,
    pub original: Option<Seq<char>>,
    pub fixed: Option<Seq<char>>,
    pub diff: Option<Seq<char>>,
    pub mode: Seq<char>,
    pub language: Seq<char>,
}

/// The contents of an [`Action`].
pub enum ActionView {
    Json(JsonView),
    Print(Seq<char>),
    Tell(Seq<char>),
    Write(Seq<char>),
}

/// The contents of a [`Plan`].
pub struct PlanView {
    pub actions: Seq<ActionView>,
    pub exit_code: u8,
}

impl DeepView for JsonError {
    type V = JsonErrorView;

    open spec fn deep_view(&self) -> JsonErrorView {
        JsonErrorView {
            name: self.name@,
            message: self.message@,
            line: self.line,
            column: self.column,
        }
    }
}

impl DeepView for JsonOutput {
    type V = JsonView;

    open spec fn deep_view(&self) -> JsonView {
        JsonView {
            success: self.success,
            changed: self.changed,
            error: self.error.deep_view(),
            original: self.original.deep_view(),
            fixed: self.fixed.deep_view(),
            diff: self.diff.deep_view(),
            mode: self.mode@,
            language: self.language@,
        }
    }
}

impl DeepView for Action {
    type V = ActionView;

    open spec fn deep_view(&self) -> ActionView {
        match *self {
            Action::Json(report) => ActionView::Json(report.deep_view()),
            Action::Print(s) => ActionView::Print(s@),
            Action::Tell(s) => ActionView::Tell(s@),
            Action::Write(s) => ActionView::Write(s@),
        }
    }
}

impl DeepView for Plan {
    type V = PlanView;

    open spec fn deep_view(&self) -> PlanView {
        PlanView { actions: self.actions.deep_view(), exit_code: self.exit_code }
    }
}

/// The contents of an error, as a JSON report gives them.
pub open spec fn error_view(error: Option<Error>) -> Option<JsonErrorView> {
    match error {
        Some(e) => Some(
            JsonErrorView {
                name: e.name@,
                message: e.message@,
                line: e.line_no,
                column: e.x,
            },
        ),
        None => None,
    }
}

/// The name of the text in a diff.
pub open spec fn shown_name(settings: Settings) -> Seq<char> {
    match settings.file {
        Some(name) => name@,
        None => "<stdin>"@,
    }
}

/// Whether the difference is to be shown, if balancing changes the text.
pub open spec fn shows_diff(settings: Settings) -> bool {
    !settings.check && if settings.in_place {
        settings.file is Some && settings.diff
    } else {
        settings.diff || settings.json
    }
}

/// The error in words.
pub open spec fn error_line(error: Option<Error>) -> Seq<char> {
    match error {
        Some(e) => "lisp-balance: "@ + e.message@ + " at line "@ + text::decimal(e.line_no as nat)
            + ", column "@ + text::decimal(e.x as nat),
        None => "lisp-balance: unknown error"@,
    }
}

/// `actions`, or nothing if the user wants only errors printed.
pub open spec fn unless_quiet(settings: Settings, actions: Seq<ActionView>) -> Seq<ActionView> {
    if settings.quiet {
        Seq::empty()
    } else {
        actions
    }
}

/// What to do where the text could not be balanced.
pub open spec fn failure_plan(settings: Settings, source: Seq<char>, error: Option<Error>) -> PlanView {
    PlanView {
        actions: seq![
            if settings.json {
                ActionView::Json(
                    JsonView {
                        success: false,
                        changed: None,
                        error: error_view(error),
                        original: Some(source),
                        fixed: None,
                        diff: None,
                        mode: settings.mode@,
                        language: settings.lang@,
                    },
                )
            } else {
                ActionView::Tell(error_line(error))
            },
        ],
        exit_code: 1,
    }
}

/// The JSON report on a text that was balanced.
pub open spec fn success_report(
    settings: Settings,
    original: Option<Seq<char>>,
    fixed: Seq<char>,
    changed: bool,
    diff: Option<Seq<char>>,
) -> JsonView {
    JsonView {
        success: true,
        changed: Some(changed),
        error: None,
        original,
        fixed: Some(fixed),
        diff,
        mode: settings.mode@,
        language: settings.lang@,
    }
}

/// Whether the text `source` was balanced, if balancing gives `fixed`: nothing
/// has changed but for the space that goes before a comment directly behind
/// code.
pub open spec fn was_balanced(source: Seq<char>, n: LanguageFeatures, fixed: Seq<char>) -> bool {
    fixed == source || fixed == comment_laws::restored(source, n)
}

/// What to do where the user only wants to know whether the text is balanced.
pub open spec fn check_plan(
    settings: Settings,
    source: Seq<char>,
    n: LanguageFeatures,
    fixed: Seq<char>,
) -> PlanView {
    let balanced = was_balanced(source, n, fixed);
    PlanView {
        actions: if settings.json {
            seq![
                ActionView::Json(
                    success_report(settings, Some(source), fixed, fixed != source, None),
                ),
            ]
        } else if balanced {
            Seq::empty()
        } else {
            unless_quiet(settings, seq![ActionView::Tell("lisp-balance: unbalanced parens detected"@)])
        },
        exit_code: if balanced {
            0
        } else {
            1
        },
    }
}

/// What to do where the balanced text is to be written back to its file.
pub open spec fn in_place_plan(
    settings: Settings,
    source: Seq<char>,
    fixed: Seq<char>,
    diff: Option<Seq<char>>,
) -> PlanView {
    match settings.file {
        None => PlanView {
            actions: seq![ActionView::Tell("lisp-balance: --in-place requires a file argument"@)],
            exit_code: 1,
        },
        Some(name) => PlanView {
            actions: if fixed != source {
                (if settings.json {
                    seq![
                        ActionView::Json(
                            success_report(settings, Some(source), fixed, true, diff),
                        ),
                    ]
                } else if diff is Some {
                    unless_quiet(settings, seq![ActionView::Print(diff->0)])
                } else {
                    unless_quiet(
                        settings,
                        seq![ActionView::Tell("lisp-balance: fixed '"@ + name@ + "'"@)],
                    )
                }).push(ActionView::Write(fixed))
            } else if settings.json {
                seq![ActionView::Json(success_report(settings, None, fixed, false, None))]
            } else {
                unless_quiet(
                    settings,
                    seq![
                        ActionView::Tell(
                            "lisp-balance: '"@ + name@ + "' is already balanced"@,
                        ),
                    ],
                )
            },
            exit_code: 0,
        },
    }
}

/// What to do where the balanced text goes to the standard output.
pub open spec fn pipe_plan(
    settings: Settings,
    source: Seq<char>,
    fixed: Seq<char>,
    diff: Option<Seq<char>>,
) -> PlanView {
    let changed = fixed != source;
    PlanView {
        actions: if settings.json {
            seq![
                ActionView::Json(
                    success_report(
                        settings,
                        Some(source),
                        fixed,
                        changed,
                        if changed {
                            diff
                        } else {
                            None
                        },
                    ),
                ),
            ]
        } else if changed && diff is Some {
            unless_quiet(settings, seq![ActionView::Tell(diff->0)]).push(ActionView::Print(fixed))
        } else {
            seq![ActionView::Print(fixed)]
        },
        exit_code: 0,
    }
}

/// What to do about the text `source` in the notation `n`, given what became of
/// it and, where it is to be shown, the difference.
pub open spec fn plan(
    settings: Settings,
    source: Seq<char>,
    n: LanguageFeatures,
    outcome: Answer,
    diff: Option<Seq<char>>,
) -> PlanView {
    if !outcome.success {
        failure_plan(settings, source, outcome.error)
    } else if settings.check {
        check_plan(settings, source, n, outcome.text@)
    } else if settings.in_place {
        in_place_plan(settings, source, outcome.text@, diff)
    } else {
        pipe_plan(settings, source, outcome.text@, diff)
    }
}

/// The difference to show, if any.
pub open spec fn diff_to_show(settings: Settings, source: Seq<char>, outcome: Answer) -> Option<
    Seq<char>,
> {
    if outcome.success && outcome.text@ != source && shows_diff(settings) {
        Some(
            diff::head(source, outcome.text@, shown_name(settings)) + diff::marked_lines(
                diff::line_changes(source, outcome.text@),
            ),
        )
    } else {
        None
    }
}

/// A plan with one action.
fn single(action: Action, exit_code: u8) -> (r: Plan)
    ensures
        r.deep_view() == (PlanView { actions: seq![action.deep_view()], exit_code }),
{
    let mut actions: Vec<Action> = Vec::new();
    actions.push(action);
    let r = Plan { actions, exit_code };
    assert(r.deep_view().actions == seq![action.deep_view()]);
    r
}

/// A plan to do nothing.
fn nothing(exit_code: u8) -> (r: Plan)
    ensures
        r.deep_view() == (PlanView { actions: Seq::empty(), exit_code }),
{
    let actions: Vec<Action> = Vec::new();
    let r = Plan { actions, exit_code };
    assert(r.deep_view().actions == Seq::<ActionView>::empty());
    r
}

/// A plan to tell the user something, unless only errors are to be printed.
fn tell_unless_quiet(settings: &Settings, line: String, exit_code: u8) -> (r: Plan)
    ensures
        r.deep_view() == (PlanView {
            actions: unless_quiet(*settings, seq![ActionView::Tell(line@)]),
            exit_code,
        }),
{
    if settings.quiet {
        nothing(exit_code)
    } else {
        single(Action::Tell(line), exit_code)
    }
}

/// A plan with one more action at the end.
fn and_last(plan: Plan, action: Action) -> (r: Plan)
    ensures
        r.deep_view() == (PlanView {
            actions: plan.deep_view().actions.push(action.deep_view()),
            exit_code: plan.exit_code,
        }),
{
    let mut actions = plan.actions;
    actions.push(action);
    let r = Plan { actions, exit_code: plan.exit_code };
    assert(r.deep_view().actions == plan.deep_view().actions.push(action.deep_view()));
    r
}

/// The text made of three pieces.
fn concat3(a: &str, b: &str, c: &str) -> (r: String)
    ensures
        r@ == a@ + b@ + c@,
{
    let mut out: String = a.to_owned();
    out.append(b);
    out.append(c);
    out
}

/// The error in words, as [`error_line`] defines it.
fn describe_error(error: &Option<Error>) -> (r: String)
    ensures
        r@ == error_line(*error),
{
    match error {
        Some(e) => {
            let mut out: String = concat3("lisp-balance: ", e.message.as_str(), " at line ");
            text::push_decimal(&mut out, e.line_no);
            out.append(", column ");
            text::push_decimal(&mut out, e.x);
            out
        },
        None => "lisp-balance: unknown error".to_owned(),
    }
}

/// The error for a JSON report.
fn json_error(error: &Option<Error>) -> (r: Option<JsonError>)
    ensures
        r.deep_view() == error_view(*error),
{
    match error {
        Some(e) => Some(
            JsonError {
                name: e.name.clone(),
                message: e.message.clone(),
                line: e.line_no,
                column: e.x,
            },
        ),
        None => None,
    }
}

/// The JSON report on a text that was balanced.
fn report_success(
    settings: &Settings,
    original: Option<String>,
    fixed: &str,
    changed: bool,
    diff: Option<String>,
) -> (r: Action)
    ensures
        r.deep_view() == ActionView::Json(
            success_report(*settings, original.deep_view(), fixed@, changed, diff.deep_view()),
        ),
{
    Action::Json(
        JsonOutput {
            success: true,
            changed: Some(changed),
            error: None,
            original,
            fixed: Some(fixed.to_owned()),
            diff,
            mode: settings.mode.clone(),
            language: settings.lang.clone(),
        },
    )
}

/// Plans for a text that could not be balanced.
fn plan_failure(settings: &Settings, source: &str, error: &Option<Error>) -> (r: Plan)
    ensures
        r.deep_view() == failure_plan(*settings, source@, *error),
{
    if settings.json {
        let report = JsonOutput {
            success: false,
            changed: None,
            error: json_error(error),
            original: Some(source.to_owned()),
            fixed: None,
            diff: None,
            mode: settings.mode.clone(),
            language: settings.lang.clone(),
        };
        single(Action::Json(report), 1)
    } else {
        single(Action::Tell(describe_error(error)), 1)
    }
}

/// Tells whether a text was balanced, from the balanced text.
fn is_balanced(source: &str, n: &LanguageFeatures, fixed: &str) -> (r: bool)
    requires
        comments::strippable(source@, *n),
    ensures
        r == was_balanced(source@, *n, fixed@),
{
    if text::same_text(fixed, source) {
        true
    } else {
        let (code, notes) = comments::strip_for(source, n);
        let restored = comments::reattach_comments(code.as_str(), notes.as_slice());
        text::same_text(fixed, restored.as_str())
    }
}

/// Plans for a user who only wants to know whether the text is balanced.
fn plan_check(settings: &Settings, source: &str, n: &LanguageFeatures, fixed: &str) -> (r: Plan)
    requires
        comments::strippable(source@, *n),
    ensures
        r.deep_view() == check_plan(*settings, source@, *n, fixed@),
{
    let balanced = is_balanced(source, n, fixed);
    let exit_code: u8 = if balanced {
        0
    } else {
        1
    };
    if settings.json {
        let changed = !text::same_text(fixed, source);
        single(
            report_success(settings, Some(source.to_owned()), fixed, changed, None),
            exit_code,
        )
    } else if balanced {
        nothing(exit_code)
    } else {
        tell_unless_quiet(
            settings,
            "lisp-balance: unbalanced parens detected".to_owned(),
            exit_code,
        )
    }
}

/// Plans for a text that is to be written back to its file.
fn plan_in_place(settings: &Settings, source: &str, fixed: &str, diff: Option<String>) -> (r: Plan)
    ensures
        r.deep_view() == in_place_plan(*settings, source@, fixed@, diff.deep_view()),
{
    match &settings.file {
        None => single(
            Action::Tell("lisp-balance: --in-place requires a file argument".to_owned()),
            1,
        ),
        Some(name) => {
            if !text::same_text(fixed, source) {
                let shown = if settings.json {
                    single(
                        report_success(settings, Some(source.to_owned()), fixed, true, diff),
                        0,
                    )
                } else {
                    match diff {
                        Some(d) => if settings.quiet {
                            nothing(0)
                        } else {
                            single(Action::Print(d), 0)
                        },
                        None => tell_unless_quiet(
                            settings,
                            concat3("lisp-balance: fixed '", name.as_str(), "'"),
                            0,
                        ),
                    }
                };
                and_last(shown, Action::Write(fixed.to_owned()))
            } else if settings.json {
                single(report_success(settings, None, fixed, false, None), 0)
            } else {
                tell_unless_quiet(
                    settings,
                    concat3("lisp-balance: '", name.as_str(), "' is already balanced"),
                    0,
                )
            }
        },
    }
}

/// Plans for a text that goes to the standard output.
fn plan_pipe(settings: &Settings, source: &str, fixed: &str, diff: Option<String>) -> (r: Plan)
    ensures
        r.deep_view() == pipe_plan(*settings, source@, fixed@, diff.deep_view()),
{
    let changed = !text::same_text(fixed, source);
    if settings.json {
        let shown: Option<String> = if changed {
            diff
        } else {
            None
        };
        single(report_success(settings, Some(source.to_owned()), fixed, changed, shown), 0)
    } else {
        let output = Action::Print(fixed.to_owned());
        match diff {
            Some(d) => if changed {
                and_last(tell_unless_quiet(settings, d, 0), output)
            } else {
                single(output, 0)
            },
            None => single(output, 0),
        }
    }
}

/// Plans what to do about the text `source` in the notation `n`, given what
/// became of it and, where it is to be shown, the difference.
pub fn make_plan(
    settings: &Settings,
    source: &str,
    n: &LanguageFeatures,
    outcome: &Answer,
    diff: Option<String>,
) -> (r: Plan)
    requires
        comments::strippable(source@, *n),
    ensures
        r.deep_view() == plan(*settings, source@, *n, *outcome, diff.deep_view()),
{
    let fixed = outcome.text.as_str();
    if !outcome.success {
        plan_failure(settings, source, &outcome.error)
    } else if settings.check {
        plan_check(settings, source, n, fixed)
    } else if settings.in_place {
        plan_in_place(settings, source, fixed, diff)
    } else {
        plan_pipe(settings, source, fixed, diff)
    }
}

/// Decides what to do about the text `source`, given what became of it.
pub fn report(settings: &Settings, source: &str, outcome: &Answer) -> (r: Plan)
    ensures
        r.deep_view() == plan(
            *settings,
            source@,
            language::notation_of(language::lowercase(settings.lang@)),
            *outcome,
            diff_to_show(*settings, source@, *outcome),
        ),
        is_ascii_chars(settings.lang@) ==> r.deep_view() == plan(
            *settings,
            source@,
            language::notation_of(
                settings.lang@.map_values(|c: char| language::ascii_lower(c)),
            ),
            *outcome,
            diff_to_show(*settings, source@, *outcome),
        ),
{
    let shows = !settings.check && if settings.in_place {
        settings.file.is_some() && settings.diff
    } else {
        settings.diff || settings.json
    };
    let diff: Option<String> = if outcome.success && shows && !text::same_text(
        outcome.text.as_str(),
        source,
    ) {
        let name: &str = match &settings.file {
            Some(name) => name.as_str(),
            None => "<stdin>",
        };
        Some(diff::make_diff(source, outcome.text.as_str(), name))
    } else {
        None
    };
    let features = LanguageFeatures::for_language(settings.lang.as_str());
    proof {
        language::law_comment_char_is_ascii(language::lowercase(settings.lang@));
    }
    make_plan(settings, source, &features, outcome, diff)
}

/// What to do where a file could not be read or written, and why.
pub open spec fn file_error_plan(doing: Seq<char>, name: Seq<char>, reason: Seq<char>) -> PlanView {
    PlanView {
        actions: seq![
            ActionView::Tell(
                "lisp-balance: error "@ + doing + " '"@ + name + "': "@ + reason,
            ),
        ],
        exit_code: 1,
    }
}

/// Plans for a file that could not be read or written.
fn plan_file_error(doing: &str, name: &str, reason: &str) -> (r: Plan)
    ensures
        r.deep_view() == file_error_plan(doing@, name@, reason@),
{
    let mut line: String = concat3("lisp-balance: error ", doing, " '");
    line.append(name);
    line.append("': ");
    line.append(reason);
    single(Action::Tell(line), 1)
}

/// Plans for a file that could not be read.
pub fn report_unreadable(name: &str, reason: &str) -> (r: Plan)
    ensures
        r.deep_view() == file_error_plan("reading"@, name@, reason@),
{
    plan_file_error("reading", name, reason)
}

/// Plans for a file that could not be written.
pub fn report_unwritable(name: &str, reason: &str) -> (r: Plan)
    ensures
        r.deep_view() == file_error_plan("writing"@, name@, reason@),
{
    plan_file_error("writing", name, reason)
}

/// Plans for a standard input that could not be read.
pub fn report_no_input() -> (r: Plan)
    ensures
        r.deep_view() == (PlanView {
            actions: seq![ActionView::Tell("lisp-balance: no input (use --help for usage)"@)],
            exit_code: 1,
        }),
{
    single(Action::Tell("lisp-balance: no input (use --help for usage)".to_owned()), 1)
}

/// Plans for a text of nothing but white space, which is not balanced. Any
/// other text is, and gets no plan here.
pub fn report_empty(settings: &Settings, source: &str) -> (r: Option<Plan>)
    ensures
        r.deep_view() == if text::blank(source@) {
            Some(
                PlanView {
                    actions: unless_quiet(
                        *settings,
                        seq![ActionView::Tell("lisp-balance: empty input"@)],
                    ),
                    exit_code: 0,
                },
            )
        } else {
            None
        },
{
    if text::is_blank(source) {
        Some(tell_unless_quiet(settings, "lisp-balance: empty input".to_owned(), 0))
    } else {
        None
    }
}

} // verus!
