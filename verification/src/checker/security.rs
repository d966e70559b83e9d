//! Security detectors: dangerous `eval`, piping a downloader into a shell,
//! reckless `rm -rf`, and user input reaching command execution.

use vstd::prelude::*;

verus! {

use crate::parser::ScriptParser;
use crate::report::{IssueV, Report, Severity};
use crate::i18n::{
    Language, cat_security, cat_security_text, msg_eval_dangerous, msg_eval_dangerous_text,
    msg_curl_pipe_sh, msg_curl_pipe_sh_text, msg_dangerous_rm, msg_dangerous_rm_text,
    msg_user_input_in_cmd, msg_user_input_in_cmd_text,
};
use crate::text::{contains_chars, has_substring, str_to_chars, trim_spec};
use crate::checker::{is_comment_line, line_is_comment, per_line_upto};

/// A non-comment line that invokes `eval` draws an Error.
pub open spec fn eval_usage_line(lang: Language) -> spec_fn(int, Seq<char>) -> Seq<IssueV> {
    |n: int, l: Seq<char>|
        if !is_comment_line(l) && has_substring(l, "eval "@) {
            seq![
                IssueV {
                    line: n,
                    severity: Severity::Error,
                    category: cat_security_text(lang),
                    message: msg_eval_dangerous_text(lang),
                },
            ]
        } else {
            Seq::empty()
        }
}

/// A line that downloads with `curl` or `wget` and pipes into `sh` or
/// `bash` draws an Error; comment lines are not exempt here.
pub open spec fn curl_pipe_line(lang: Language) -> spec_fn(int, Seq<char>) -> Seq<IssueV> {
    |n: int, l: Seq<char>|
        if (has_substring(l, "curl"@) || has_substring(l, "wget"@)) && has_substring(l, "|"@) && (
        has_substring(l, "sh"@) || has_substring(l, "bash"@)) {
            seq![
                IssueV {
                    line: n,
                    severity: Severity::Error,
                    category: cat_security_text(lang),
                    message: msg_curl_pipe_sh_text(lang),
                },
            ]
        } else {
            Seq::empty()
        }
}

/// A non-comment line with `rm -rf` on the root or on a variable path draws
/// an Error.
pub open spec fn rm_rf_line(lang: Language) -> spec_fn(int, Seq<char>) -> Seq<IssueV> {
    |n: int, l: Seq<char>|
        if !is_comment_line(l) && (has_substring(l, "rm -rf /"@) || has_substring(l, "rm -rf $"@)) {
            seq![
                IssueV {
                    line: n,
                    severity: Severity::Error,
                    category: cat_security_text(lang),
                    message: msg_dangerous_rm_text(lang),
                },
            ]
        } else {
            Seq::empty()
        }
}

/// A non-comment line where user input (`read `, `$1`, `$@`) meets command
/// execution (`eval`, `$(`, a backtick) draws a Warning.
pub open spec fn user_input_line(lang: Language) -> spec_fn(int, Seq<char>) -> Seq<IssueV> {
    |n: int, l: Seq<char>|
        if !is_comment_line(l) && (has_substring(l, "read "@) || has_substring(l, "$1"@)
            || has_substring(l, "$@"@)) && (has_substring(l, "eval"@) || has_substring(l, "$("@)
            || has_substring(l, "`"@)) {
            seq![
                IssueV {
                    line: n,
                    severity: Severity::Warning,
                    category: cat_security_text(lang),
                    message: msg_user_input_in_cmd_text(lang),
                },
            ]
        } else {
            Seq::empty()
        }
}

/// Every issue of the security group, in report order.
pub open spec fn security_issues(lines: Seq<Seq<char>>, lang: Language) -> Seq<IssueV> {
    per_line_upto(lines, lines.len() as int, eval_usage_line(lang)) + per_line_upto(
        lines,
        lines.len() as int,
        curl_pipe_line(lang),
    ) + per_line_upto(lines, lines.len() as int, rm_rf_line(lang)) + per_line_upto(
        lines,
        lines.len() as int,
        user_input_line(lang),
    )
}

fn check_eval_usage(parser: &ScriptParser, report: &mut Report, language: &Language)
    requires
        parser.wf(),
    ensures
        final(report)@ == old(report)@ + per_line_upto(
            parser@,
            parser@.len() as int,
            eval_usage_line(*language),
        ),
{
    let lines = parser.lines();
    let needle = str_to_chars("eval ");
    let n = lines.len();
    let mut i: usize = 0;
    while i < n
        invariant
            n == lines@.len(),
            n == parser@.len(),
            i <= n,
            forall|j: int| 0 <= j < n ==> (#[trigger] lines@[j])@.content == parser@[j],
            forall|j: int|
                0 <= j < n ==> (#[trigger] lines@[j])@.number == j + 1 && lines@[j]@.trimmed
                    == trim_spec(parser@[j]),
            needle@ == "eval "@,
            report@ == old(report)@ + per_line_upto(parser@, i as int, eval_usage_line(*language)),
        decreases n - i,
    {
        let line = &lines[i];
        let ghost l = parser@[i as int];
        let ghost f = eval_usage_line(*language);
        if !line_is_comment(line) && contains_chars(&line.content, &needle) {
            report.add_issue(
                line.number,
                Severity::Error,
                cat_security().get(language),
                msg_eval_dangerous().get(language),
            );
            proof {
                assert(f(i + 1, l) =~= seq![
                    IssueV {
                        line: i + 1,
                        severity: Severity::Error,
                        category: cat_security_text(*language),
                        message: msg_eval_dangerous_text(*language),
                    },
                ]);
                assert(report@ =~= old(report)@ + per_line_upto(parser@, i + 1, f));
            }
        } else {
            proof {
                assert(f(i + 1, l) =~= Seq::<IssueV>::empty());
                assert(report@ =~= old(report)@ + per_line_upto(parser@, i + 1, f));
            }
        }
        i += 1;
    }
}

fn check_curl_pipe_sh(parser: &ScriptParser, report: &mut Report, language: &Language)
    requires
        parser.wf(),
    ensures
        final(report)@ == old(report)@ + per_line_upto(
            parser@,
            parser@.len() as int,
            curl_pipe_line(*language),
        ),
{
    let lines = parser.lines();
    let needle_curl = str_to_chars("curl");
    let needle_wget = str_to_chars("wget");
    let needle_pipe = str_to_chars("|");
    let needle_sh = str_to_chars("sh");
    let needle_bash = str_to_chars("bash");
    let n = lines.len();
    let mut i: usize = 0;
    while i < n
        invariant
            n == lines@.len(),
            n == parser@.len(),
            i <= n,
            forall|j: int| 0 <= j < n ==> (#[trigger] lines@[j])@.content == parser@[j],
            forall|j: int| 0 <= j < n ==> (#[trigger] lines@[j])@.number == j + 1,
            needle_curl@ == "curl"@,
            needle_wget@ == "wget"@,
            needle_pipe@ == "|"@,
            needle_sh@ == "sh"@,
            needle_bash@ == "bash"@,
            report@ == old(report)@ + per_line_upto(parser@, i as int, curl_pipe_line(*language)),
        decreases n - i,
    {
        let line = &lines[i];
        let ghost l = parser@[i as int];
        let ghost f = curl_pipe_line(*language);
        if (contains_chars(&line.content, &needle_curl) || contains_chars(
            &line.content,
            &needle_wget,
        )) && contains_chars(&line.content, &needle_pipe) && (contains_chars(
            &line.content,
            &needle_sh,
        ) || contains_chars(&line.content, &needle_bash)) {
            report.add_issue(
                line.number,
                Severity::Error,
                cat_security().get(language),
                msg_curl_pipe_sh().get(language),
            );
            proof {
                assert(f(i + 1, l) =~= seq![
                    IssueV {
                        line: i + 1,
                        severity: Severity::Error,
                        category: cat_security_text(*language),
                        message: msg_curl_pipe_sh_text(*language),
                    },
                ]);
                assert(report@ =~= old(report)@ + per_line_upto(parser@, i + 1, f));
            }
        } else {
            proof {
                assert(f(i + 1, l) =~= Seq::<IssueV>::empty());
                assert(report@ =~= old(report)@ + per_line_upto(parser@, i + 1, f));
            }
        }
        i += 1;
    }
}

fn check_rm_rf_usage(parser: &ScriptParser, report: &mut Report, language: &Language)
    requires
        parser.wf(),
    ensures
        final(report)@ == old(report)@ + per_line_upto(
            parser@,
            parser@.len() as int,
            rm_rf_line(*language),
        ),
{
    let lines = parser.lines();
    let needle_root = str_to_chars("rm -rf /");
    let needle_var = str_to_chars("rm -rf $");
    let n = lines.len();
    let mut i: usize = 0;
    while i < n
        invariant
            n == lines@.len(),
            n == parser@.len(),
            i <= n,
            forall|j: int| 0 <= j < n ==> (#[trigger] lines@[j])@.content == parser@[j],
            forall|j: int|
                0 <= j < n ==> (#[trigger] lines@[j])@.number == j + 1 && lines@[j]@.trimmed
                    == trim_spec(parser@[j]),
            needle_root@ == "rm -rf /"@,
            needle_var@ == "rm -rf $"@,
            report@ == old(report)@ + per_line_upto(parser@, i as int, rm_rf_line(*language)),
        decreases n - i,
    {
        let line = &lines[i];
        let ghost l = parser@[i as int];
        let ghost f = rm_rf_line(*language);
        if !line_is_comment(line) && (contains_chars(&line.content, &needle_root) || contains_chars(
            &line.content,
            &needle_var,
        )) {
            report.add_issue(
                line.number,
                Severity::Error,
                cat_security().get(language),
                msg_dangerous_rm().get(language),
            );
            proof {
                assert(f(i + 1, l) =~= seq![
                    IssueV {
                        line: i + 1,
                        severity: Severity::Error,
                        category: cat_security_text(*language),
                        message: msg_dangerous_rm_text(*language),
                    },
                ]);
                assert(report@ =~= old(report)@ + per_line_upto(parser@, i + 1, f));
            }
        } else {
            proof {
                assert(f(i + 1, l) =~= Seq::<IssueV>::empty());
                assert(report@ =~= old(report)@ + per_line_upto(parser@, i + 1, f));
            }
        }
        i += 1;
    }
}

fn check_user_input_in_commands(parser: &ScriptParser, report: &mut Report, language: &Language)
    requires
        parser.wf(),
    ensures
        final(report)@ == old(report)@ + per_line_upto(
            parser@,
            parser@.len() as int,
            user_input_line(*language),
        ),
{
    let lines = parser.lines();
    let needle_read = str_to_chars("read ");
    let needle_arg1 = str_to_chars("$1");
    let needle_args = str_to_chars("$@");
    let needle_eval = str_to_chars("eval");
    let needle_subst = str_to_chars("$(");
    let needle_tick = str_to_chars("`");
    let n = lines.len();
    let mut i: usize = 0;
    while i < n
        invariant
            n == lines@.len(),
            n == parser@.len(),
            i <= n,
            forall|j: int| 0 <= j < n ==> (#[trigger] lines@[j])@.content == parser@[j],
            forall|j: int|
                0 <= j < n ==> (#[trigger] lines@[j])@.number == j + 1 && lines@[j]@.trimmed
                    == trim_spec(parser@[j]),
            needle_read@ == "read "@,
            needle_arg1@ == "$1"@,
            needle_args@ == "$@"@,
            needle_eval@ == "eval"@,
            needle_subst@ == "$("@,
            needle_tick@ == "`"@,
            report@ == old(report)@ + per_line_upto(parser@, i as int, user_input_line(*language)),
        decreases n - i,
    {
        let line = &lines[i];
        let ghost l = parser@[i as int];
        let ghost f = user_input_line(*language);
        if !line_is_comment(line) && (contains_chars(&line.content, &needle_read) || contains_chars(
            &line.content,
            &needle_arg1,
        ) || contains_chars(&line.content, &needle_args)) && (contains_chars(
            &line.content,
            &needle_eval,
        ) || contains_chars(&line.content, &needle_subst) || contains_chars(
            &line.content,
            &needle_tick,
        )) {
            report.add_issue(
                line.number,
                Severity::Warning,
                cat_security().get(language),
                msg_user_input_in_cmd().get(language),
            );
            proof {
                assert(f(i + 1, l) =~= seq![
                    IssueV {
                        line: i + 1,
                        severity: Severity::Warning,
                        category: cat_security_text(*language),
                        message: msg_user_input_in_cmd_text(*language),
                    },
                ]);
                assert(report@ =~= old(report)@ + per_line_upto(parser@, i + 1, f));
            }
        } else {
            proof {
                assert(f(i + 1, l) =~= Seq::<IssueV>::empty());
                assert(report@ =~= old(report)@ + per_line_upto(parser@, i + 1, f));
            }
        }
        i += 1;
    }
}

/// Runs every security detector, in declaration order.
pub fn check(parser: &ScriptParser, report: &mut Report, language: &Language)
    requires
        parser.wf(),
    ensures
        final(report)@ == old(report)@ + security_issues(parser@, *language),
{
    check_eval_usage(parser, report, language);
    check_curl_pipe_sh(parser, report, language);
    check_rm_rf_usage(parser, report, language);
    check_user_input_in_commands(parser, report, language);
    proof {
        assert(report@ =~= old(report)@ + security_issues(parser@, *language));
    }
}

} // verus!
