//! What holds of everything that the program does about a text.

use vstd::prelude::*;

use crate::balance::Answer;
use crate::comment_laws;
use crate::comments;
use crate::diff;
use crate::language::LanguageFeatures;
use crate::report;
use crate::report::Settings;
use crate::text;

verus! {

/// Whether the user asked for a text to be written back and named no file.
pub open spec fn lacks_file(settings: Settings) -> bool {
    settings.in_place && !settings.check && settings.file is None
}

/// The exit code is zero where the text could be balanced, unless it was only
/// checked and is not balanced, or was to be written back to no file. In every
/// other case it is one.
pub proof fn law_exit_code(
    settings: Settings,
    source: Seq<char>,
    n: LanguageFeatures,
    outcome: Answer,
    diff: Option<Seq<char>>,
)
    ensures
        report::plan(settings, source, n, outcome, diff).exit_code == if outcome.success
            && (settings.check ==> report::was_balanced(source, n, outcome.text@))
            && !lacks_file(settings) {
            0u8
        } else {
            1u8
        },
{
}

/// A check of a text that the balancer leaves alone exits with zero, and tells
/// the user nothing, even where a comment stands directly behind code.
pub proof fn law_balanced_text_passes_check(
    settings: Settings,
    source: Seq<char>,
    n: LanguageFeatures,
    outcome: Answer,
    diff: Option<Seq<char>>,
)
    requires
        settings.check,
        outcome.success,
        outcome.text@ == text::join(
            comments::attached_lines(
                comment_laws::stripped(source, n),
                comments::line_comments(source, n),
            ),
        ),
    ensures
        ({
            let p = report::plan(settings, source, n, outcome, diff);
            &&& p.exit_code == 0
            &&& forall|i: int| 0 <= i < p.actions.len() ==> !((#[trigger] p.actions[i]) is Tell)
        }),
{
}

/// A check neither writes to the file nor prints a text.
pub proof fn law_check_only_validates(
    settings: Settings,
    source: Seq<char>,
    n: LanguageFeatures,
    outcome: Answer,
    diff: Option<Seq<char>>,
)
    requires
        settings.check,
    ensures
        ({
            let actions = report::plan(settings, source, n, outcome, diff).actions;
            forall|i: int|
                0 <= i < actions.len() ==> !((#[trigger] actions[i]) is Write)
                    && !(actions[i] is Print)
        }),
{
}

/// The file is written where the text could be balanced, balancing changes it
/// and it is to be written back, and only there. It is written once, as the
/// last thing, with the balanced text.
pub proof fn law_file_written_only_when_changed(
    settings: Settings,
    source: Seq<char>,
    n: LanguageFeatures,
    outcome: Answer,
    diff: Option<Seq<char>>,
)
    ensures
        ({
            let actions = report::plan(settings, source, n, outcome, diff).actions;
            let writes = outcome.success && !settings.check && settings.in_place
                && settings.file is Some && outcome.text@ != source;
            &&& writes ==> actions.len() > 0 && actions.last() == report::ActionView::Write(
                outcome.text@,
            )
            &&& forall|i: int|
                0 <= i < actions.len() && (#[trigger] actions[i]) is Write ==> writes && i
                    == actions.len() - 1
        }),
{
}

/// A report in JSON is a single object on the standard output, with the mode
/// and the dialect. It is the only thing printed there. On success it holds
/// the balanced text and whether that differs from the text; on failure it
/// holds the error and the text.
pub proof fn law_json_report(
    settings: Settings,
    source: Seq<char>,
    n: LanguageFeatures,
    outcome: Answer,
    diff: Option<Seq<char>>,
)
    requires
        settings.json,
        outcome.success ==> !lacks_file(settings),
    ensures
        ({
            let actions = report::plan(settings, source, n, outcome, diff).actions;
            &&& actions.len() > 0
            &&& actions[0] matches report::ActionView::Json(json) && {
                &&& json.success == outcome.success
                &&& json.mode == settings.mode@
                &&& json.language == settings.lang@
                &&& outcome.success ==> json.fixed == Some(outcome.text@) && json.changed == Some(
                    outcome.text@ != source,
                ) && json.error is None
                &&& !outcome.success ==> json.error == report::error_view(outcome.error)
                    && json.original == Some(source) && json.fixed is None
            }
            &&& forall|i: int| 0 < i < actions.len() ==> (#[trigger] actions[i]) is Write
        }),
{
}

/// Without further wishes the balanced text, and nothing else, goes to the
/// standard output.
pub proof fn law_pipe_prints_balanced_text(
    settings: Settings,
    source: Seq<char>,
    n: LanguageFeatures,
    outcome: Answer,
    diff: Option<Seq<char>>,
)
    requires
        outcome.success,
        !settings.check,
        !settings.in_place,
        !settings.json,
    ensures
        ({
            let actions = report::plan(settings, source, n, outcome, diff).actions;
            &&& actions.len() > 0
            &&& actions.last() == report::ActionView::Print(outcome.text@)
            &&& forall|i: int|
                0 <= i < actions.len() - 1 ==> (#[trigger] actions[i]) is Tell
        }),
{
}

/// Where a text could not be balanced, the error is reported, and that is all.
pub proof fn law_failure_reports_error(
    settings: Settings,
    source: Seq<char>,
    n: LanguageFeatures,
    outcome: Answer,
    diff: Option<Seq<char>>,
)
    requires
        !outcome.success,
    ensures
        ({
            let p = report::plan(settings, source, n, outcome, diff);
            &&& p.exit_code == 1
            &&& p.actions.len() == 1
            &&& if settings.json {
                p.actions[0] is Json
            } else {
                p.actions[0] == report::ActionView::Tell(report::error_line(outcome.error))
            }
        }),
{
}

/// A user who wants only errors printed is told of errors only.
pub proof fn law_quiet_tells_errors_only(
    settings: Settings,
    source: Seq<char>,
    n: LanguageFeatures,
    outcome: Answer,
    diff: Option<Seq<char>>,
)
    requires
        settings.quiet,
        outcome.success,
        !lacks_file(settings),
    ensures
        ({
            let actions = report::plan(settings, source, n, outcome, diff).actions;
            forall|i: int| 0 <= i < actions.len() ==> !((#[trigger] actions[i]) is Tell)
        }),
{
}

/// A check passes if and only if balancing gives the text back, or the text with
/// its comments stripped and attached again. Any other check fails.
pub proof fn law_check_passes_balanced_text_only(
    settings: Settings,
    source: Seq<char>,
    n: LanguageFeatures,
    outcome: Answer,
    diff: Option<Seq<char>>,
)
    requires
        settings.check,
    ensures
        report::plan(settings, source, n, outcome, diff).exit_code == 0 <==> outcome.success && (
        outcome.text@ == source || outcome.text@ == text::join(
            comments::attached_lines(
                text::join(comments::code_lines(source, n)),
                comments::line_comments(source, n),
            ),
        )),
        report::plan(settings, source, n, outcome, diff).exit_code == 0 || report::plan(
            settings,
            source,
            n,
            outcome,
            diff,
        ).exit_code == 1,
{
}

/// Where a check passes, every line of the balanced text is the line of the text,
/// or differs from it by one space directly before its comment. No line is lost
/// or added.
pub proof fn law_passed_check_leaves_code_alone(
    settings: Settings,
    source: Seq<char>,
    n: LanguageFeatures,
    outcome: Answer,
    diff: Option<Seq<char>>,
    i: int,
)
    requires
        settings.check,
        comments::strippable(source, n),
        report::plan(settings, source, n, outcome, diff).exit_code == 0,
        0 <= i < text::lines(source).len(),
    ensures
        text::lines(outcome.text@).len() == text::lines(source).len(),
        text::lines(outcome.text@)[i] == text::lines(source)[i] || exists|
            code: Seq<char>,
            comment: Seq<char>,
        |
            {
                &&& text::lines(source)[i] == #[trigger] (code + comment)
                &&& text::lines(outcome.text@)[i] == code + seq![' '] + comment
                &&& comments::line_comments(source, n)[i] == Some(comment)
            },
{
    if outcome.text@ != source {
        comment_laws::law_restored_text_differs_by_spaces(source, n, i);
        let code = comments::code_lines(source, n)[i];
        if let Some(comment) = comments::line_comments(source, n)[i] {
            assert(text::lines(source)[i] == code + comment);
        }
    }
}

/// A check in words tells the user of unbalanced code, unless only errors are to
/// be told, and says nothing of balanced code.
pub proof fn law_check_tells_of_unbalanced_code(
    settings: Settings,
    source: Seq<char>,
    n: LanguageFeatures,
    outcome: Answer,
    diff: Option<Seq<char>>,
)
    requires
        settings.check,
        outcome.success,
        !settings.json,
    ensures
        ({
            let p = report::plan(settings, source, n, outcome, diff);
            p.actions == if p.exit_code == 0 || settings.quiet {
                Seq::empty()
            } else {
                seq![report::ActionView::Tell("lisp-balance: unbalanced parens detected"@)]
            }
        }),
{
}

/// A JSON report of success is complete. It holds the balanced text in full and
/// whether that differs from the text; the text in full, but for a file that is
/// left as it was; the difference where there is one to show and the text is not
/// merely checked; the mode and the dialect; and no error. Where the balanced text
/// is to be written back, it is, behind the report; nothing else is done.
pub proof fn law_json_report_of_success_is_complete(
    settings: Settings,
    source: Seq<char>,
    n: LanguageFeatures,
    outcome: Answer,
    diff: Option<Seq<char>>,
)
    requires
        settings.json,
        outcome.success,
        settings.in_place && !settings.check ==> settings.file is Some,
    ensures
        ({
            let changed = outcome.text@ != source;
            let writes = settings.in_place && !settings.check;
            let json = report::JsonView {
                success: true,
                changed: Some(changed),
                error: None,
                original: if writes && !changed {
                    None
                } else {
                    Some(source)
                },
                fixed: Some(outcome.text@),
                diff: if settings.check || !changed {
                    None
                } else {
                    diff
                },
                mode: settings.mode@,
                language: settings.lang@,
            };
            report::plan(settings, source, n, outcome, diff).actions == if writes && changed {
                seq![report::ActionView::Json(json), report::ActionView::Write(outcome.text@)]
            } else {
                seq![report::ActionView::Json(json)]
            }
        }),
{
    let p = report::plan(settings, source, n, outcome, diff).actions;
    if settings.in_place && !settings.check && outcome.text@ != source {
        assert(p == seq![p[0], p[1]]);
    }
}

/// A JSON report of failure is complete: it holds the error, with its name, its
/// message, its line and its column, the text in full, the mode and the dialect,
/// and nothing of a balanced text. It is all that is done, and the exit code is
/// one.
pub proof fn law_json_report_of_failure_is_complete(
    settings: Settings,
    source: Seq<char>,
    n: LanguageFeatures,
    outcome: Answer,
    diff: Option<Seq<char>>,
)
    requires
        settings.json,
        !outcome.success,
    ensures
        ({
            let p = report::plan(settings, source, n, outcome, diff);
            &&& p.exit_code == 1
            &&& p.actions == seq![
                report::ActionView::Json(
                    report::JsonView {
                        success: false,
                        changed: None,
                        error: match outcome.error {
                            Some(e) => Some(
                                report::JsonErrorView {
                                    name: e.name@,
                                    message: e.message@,
                                    line: e.line_no,
                                    column: e.x,
                                },
                            ),
                            None => None,
                        },
                        original: Some(source),
                        fixed: None,
                        diff: None,
                        mode: settings.mode@,
                        language: settings.lang@,
                    },
                ),
            ]
        }),
{
}

/// A failure in words gives the message of the error, its line and its column, or
/// says that the error is not known; also to a user who wants only errors told.
pub proof fn law_failure_is_told_in_words(
    settings: Settings,
    source: Seq<char>,
    n: LanguageFeatures,
    outcome: Answer,
    diff: Option<Seq<char>>,
)
    requires
        !settings.json,
        !outcome.success,
    ensures
        ({
            let p = report::plan(settings, source, n, outcome, diff);
            &&& p.exit_code == 1
            &&& p.actions == seq![
                report::ActionView::Tell(
                    match outcome.error {
                        Some(e) => "lisp-balance: "@ + e.message@ + " at line "@ + text::decimal(
                            e.line_no as nat,
                        ) + ", column "@ + text::decimal(e.x as nat),
                        None => "lisp-balance: unknown error"@,
                    },
                ),
            ]
        }),
{
}

/// A text that is to be written back and is not reported in JSON: where balancing
/// changes it, the difference is printed if there is one to show, or else the user
/// is told of the change, and the balanced text is written; where it does not, the
/// user is told that, and nothing is written. A user who wants only errors told
/// sees none of this.
pub proof fn law_in_place_shows_and_writes(
    settings: Settings,
    source: Seq<char>,
    n: LanguageFeatures,
    outcome: Answer,
    diff: Option<Seq<char>>,
)
    requires
        outcome.success,
        settings.in_place,
        !settings.check,
        !settings.json,
        settings.file is Some,
    ensures
        ({
            let p = report::plan(settings, source, n, outcome, diff);
            let name = settings.file->0@;
            let write = report::ActionView::Write(outcome.text@);
            &&& p.exit_code == 0
            &&& p.actions == if outcome.text@ == source {
                if settings.quiet {
                    Seq::empty()
                } else {
                    seq![
                        report::ActionView::Tell(
                            "lisp-balance: '"@ + name + "' is already balanced"@,
                        ),
                    ]
                }
            } else if settings.quiet {
                seq![write]
            } else if diff is Some {
                seq![report::ActionView::Print(diff->0), write]
            } else {
                seq![
                    report::ActionView::Tell("lisp-balance: fixed '"@ + name + "'"@),
                    write,
                ]
            }
        }),
{
    let p = report::plan(settings, source, n, outcome, diff).actions;
    if outcome.text@ != source {
        if settings.quiet {
            assert(p == seq![p[0]]);
        } else {
            assert(p == seq![p[0], p[1]]);
        }
    }
}

/// A text cannot be written back without a file: the user is told so in any case,
/// and the exit code is one.
pub proof fn law_in_place_needs_file(
    settings: Settings,
    source: Seq<char>,
    n: LanguageFeatures,
    outcome: Answer,
    diff: Option<Seq<char>>,
)
    requires
        outcome.success,
        settings.in_place,
        !settings.check,
        settings.file is None,
    ensures
        ({
            let p = report::plan(settings, source, n, outcome, diff);
            &&& p.exit_code == 1
            &&& p.actions == seq![
                report::ActionView::Tell("lisp-balance: --in-place requires a file argument"@),
            ]
        }),
{
}

/// Without further wishes the balanced text is printed. The difference is told
/// before it where there is one to show, unless only errors are to be told.
pub proof fn law_pipe_tells_difference_and_prints_text(
    settings: Settings,
    source: Seq<char>,
    n: LanguageFeatures,
    outcome: Answer,
    diff: Option<Seq<char>>,
)
    requires
        outcome.success,
        !settings.in_place,
        !settings.check,
        !settings.json,
    ensures
        ({
            let p = report::plan(settings, source, n, outcome, diff);
            let print = report::ActionView::Print(outcome.text@);
            &&& p.exit_code == 0
            &&& p.actions == if outcome.text@ != source && diff is Some && !settings.quiet {
                seq![report::ActionView::Tell(diff->0), print]
            } else {
                seq![print]
            }
        }),
{
    let p = report::plan(settings, source, n, outcome, diff).actions;
    if outcome.text@ != source && diff is Some && !settings.quiet {
        assert(p == seq![p[0], p[1]]);
    } else {
        assert(p == seq![p[0]]);
    }
}

/// The exit code of a text that is not merely checked is zero if and only if the
/// text could be balanced and there is a file to write it back to, if that is
/// asked for.
pub proof fn law_exit_code_without_check(
    settings: Settings,
    source: Seq<char>,
    n: LanguageFeatures,
    outcome: Answer,
    diff: Option<Seq<char>>,
)
    requires
        !settings.check,
    ensures
        report::plan(settings, source, n, outcome, diff).exit_code == if outcome.success && (
        settings.in_place ==> settings.file is Some) {
            0u8
        } else {
            1u8
        },
{
}

/// A difference is shown if and only if balancing changes the text and the user
/// asked for it, or for a report in JSON without writing back; never in a check.
/// It is the difference from the text to the balanced text, under the name of the
/// file, or of the standard input if there is no file.
pub proof fn law_difference_is_shown_on_demand(
    settings: Settings,
    source: Seq<char>,
    outcome: Answer,
)
    ensures
        report::diff_to_show(settings, source, outcome) is Some <==> {
            &&& outcome.success
            &&& outcome.text@ != source
            &&& !settings.check
            &&& settings.in_place ==> settings.file is Some && settings.diff
            &&& settings.diff || settings.json
        },
        report::diff_to_show(settings, source, outcome) matches Some(d) ==> d == diff::head(
            source,
            outcome.text@,
            match settings.file {
                Some(name) => name@,
                None => "<stdin>"@,
            },
        ) + diff::marked_lines(diff::line_changes(source, outcome.text@)),
{
}

/// A plan for a file that could not be read or written tells the user so, with the
/// name and the reason, and exits with one.
pub proof fn law_file_errors_are_told(doing: Seq<char>, name: Seq<char>, reason: Seq<char>)
    ensures
        report::file_error_plan(doing, name, reason).exit_code == 1,
        report::file_error_plan(doing, name, reason).actions == seq![
            report::ActionView::Tell("lisp-balance: error "@ + doing + " '"@ + name + "': "@ + reason),
        ],
{
}

/// A user who wants only errors told is told nothing that depends on it; any other
/// user is told all of it.
pub proof fn law_quiet_leaves_out_all_or_nothing(
    settings: Settings,
    actions: Seq<report::ActionView>,
)
    ensures
        settings.quiet ==> report::unless_quiet(settings, actions).len() == 0,
        !settings.quiet ==> report::unless_quiet(settings, actions) == actions,
{
}

/// The contents of an error in a JSON report are its four fields.
pub proof fn law_json_error_is_its_fields(e: report::JsonError)
    ensures
        e.deep_view().name == e.name@,
        e.deep_view().message == e.message@,
        e.deep_view().line == e.line,
        e.deep_view().column == e.column,
{
}

/// The contents of a JSON report are its fields, each under its own name.
pub proof fn law_json_output_is_its_fields(json: report::JsonOutput)
    ensures
        json.deep_view().success == json.success,
        json.deep_view().changed == json.changed,
        json.deep_view().error is Some <==> json.error is Some,
        json.error matches Some(e) ==> json.deep_view().error == Some(e.deep_view()),
        json.deep_view().original is Some <==> json.original is Some,
        json.original matches Some(t) ==> json.deep_view().original == Some(t@),
        json.deep_view().fixed is Some <==> json.fixed is Some,
        json.fixed matches Some(t) ==> json.deep_view().fixed == Some(t@),
        json.deep_view().diff is Some <==> json.diff is Some,
        json.diff matches Some(t) ==> json.deep_view().diff == Some(t@),
        json.deep_view().mode == json.mode@,
        json.deep_view().language == json.language@,
{
}

/// The contents of an action are the kind of the action and what it is about.
pub proof fn law_action_is_its_kind_and_text(action: report::Action)
    ensures
        action.deep_view() == match action {
            report::Action::Json(json) => report::ActionView::Json(json.deep_view()),
            report::Action::Print(t) => report::ActionView::Print(t@),
            report::Action::Tell(t) => report::ActionView::Tell(t@),
            report::Action::Write(t) => report::ActionView::Write(t@),
        },
{
}

/// The contents of a plan are its actions, in order, and its exit code.
pub proof fn law_plan_is_its_actions_and_code(plan: report::Plan)
    ensures
        plan.deep_view().exit_code == plan.exit_code,
        plan.deep_view().actions.len() == plan.actions@.len(),
        forall|i: int|
            0 <= i < plan.actions@.len() ==> #[trigger] plan.deep_view().actions[i]
                == plan.actions@[i].deep_view(),
{
}

} // verus!
