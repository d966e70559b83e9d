//! Best-practice detectors: missing `set` safety options, unquoted variable
//! references, `cd` without error checking, and backtick command
//! substitution.

use vstd::prelude::*;

verus! {

use crate::parser::ScriptParser;
use crate::report::{IssueV, Report, Severity};
use crate::i18n::{
    Language, cat_best_practice, cat_best_practice_text, msg_use_set_e, msg_use_set_e_text,
    msg_use_set_u, msg_use_set_u_text, msg_use_set_pipefail, msg_use_set_pipefail_text,
    msg_unquoted_variable, msg_unquoted_variable_text, msg_cd_without_check,
    msg_cd_without_check_text, msg_use_dollar_paren, msg_use_dollar_paren_text,
};
use crate::text::{
    begins_with, contains_chars, has_substring, ident_pred, is_ident_start, is_ident_start_char,
    seek_idents, seek_past, starts_with_chars, str_to_chars, trim_spec,
};
use crate::checker::{is_comment_line, line_is_comment, per_line_upto};

// --- Set options ---

pub open spec fn set_e_pred() -> spec_fn(Seq<char>) -> bool {
    |l: Seq<char>| has_substring(l, "set -e"@) || has_substring(l, "set -o errexit"@)
}

pub open spec fn set_u_pred() -> spec_fn(Seq<char>) -> bool {
    |l: Seq<char>| has_substring(l, "set -u"@) || has_substring(l, "set -o nounset"@)
}

pub open spec fn pipefail_pred() -> spec_fn(Seq<char>) -> bool {
    |l: Seq<char>| has_substring(l, "set -o pipefail"@)
}

/// Some non-comment line among the first `n` mentions the option.
pub open spec fn has_set_option(
    lines: Seq<Seq<char>>,
    n: int,
    opt: spec_fn(Seq<char>) -> bool,
) -> bool {
    exists|j: int| 0 <= j < n && !is_comment_line(lines[j]) && opt(lines[j])
}

proof fn lemma_has_set_option_step(lines: Seq<Seq<char>>, i: int, opt: spec_fn(Seq<char>) -> bool)
    requires
        0 <= i < lines.len(),
    ensures
        has_set_option(lines, i + 1, opt) == (has_set_option(lines, i, opt) || (!is_comment_line(
            lines[i],
        ) && opt(lines[i]))),
{
    if has_set_option(lines, i + 1, opt) {
        let j = choose|j: int| 0 <= j < i + 1 && !is_comment_line(lines[j]) && opt(lines[j]);
        if j < i {
            assert(has_set_option(lines, i, opt));
        }
    }
    if has_set_option(lines, i, opt) {
        let j = choose|j: int| 0 <= j < i && !is_comment_line(lines[j]) && opt(lines[j]);
        assert(0 <= j < i + 1 && !is_comment_line(lines[j]) && opt(lines[j]));
        assert(has_set_option(lines, i + 1, opt));
    }
    if !is_comment_line(lines[i]) && opt(lines[i]) {
        assert(0 <= i < i + 1 && !is_comment_line(lines[i]) && opt(lines[i]));
        assert(has_set_option(lines, i + 1, opt));
    }
}

/// One Warning at line 1 for each safety option the script never sets.
pub open spec fn set_options_issues(lines: Seq<Seq<char>>, lang: Language) -> Seq<IssueV> {
    (if !has_set_option(lines, lines.len() as int, set_e_pred()) {
        seq![
            IssueV {
                line: 1,
                severity: Severity::Warning,
                category: cat_best_practice_text(lang),
                message: msg_use_set_e_text(lang),
            },
        ]
    } else {
        Seq::empty()
    }) + (if !has_set_option(lines, lines.len() as int, set_u_pred()) {
        seq![
            IssueV {
                line: 1,
                severity: Severity::Warning,
                category: cat_best_practice_text(lang),
                message: msg_use_set_u_text(lang),
            },
        ]
    } else {
        Seq::<IssueV>::empty()
    }) + (if !has_set_option(lines, lines.len() as int, pipefail_pred()) {
        seq![
            IssueV {
                line: 1,
                severity: Severity::Warning,
                category: cat_best_practice_text(lang),
                message: msg_use_set_pipefail_text(lang),
            },
        ]
    } else {
        Seq::<IssueV>::empty()
    })
}

fn check_set_options(parser: &ScriptParser, report: &mut Report, language: &Language)
    requires
        parser.wf(),
    ensures
        final(report)@ == old(report)@ + set_options_issues(parser@, *language),
{
    let lines = parser.lines();
    let needle_e1 = str_to_chars("set -e");
    let needle_e2 = str_to_chars("set -o errexit");
    let needle_u1 = str_to_chars("set -u");
    let needle_u2 = str_to_chars("set -o nounset");
    let needle_p = str_to_chars("set -o pipefail");
    let n = lines.len();
    let mut has_set_e = false;
    let mut has_set_u = false;
    let mut has_set_pipefail = false;
    let mut i: usize = 0;
    while i < n
        invariant
            n == lines@.len(),
            n == parser@.len(),
            i <= n,
            forall|j: int| 0 <= j < n ==> (#[trigger] lines@[j])@.content == parser@[j],
            forall|j: int|
                0 <= j < n ==> (#[trigger] lines@[j])@.trimmed == trim_spec(parser@[j]),
            needle_e1@ == "set -e"@,
            needle_e2@ == "set -o errexit"@,
            needle_u1@ == "set -u"@,
            needle_u2@ == "set -o nounset"@,
            needle_p@ == "set -o pipefail"@,
            has_set_e == has_set_option(parser@, i as int, set_e_pred()),
            has_set_u == has_set_option(parser@, i as int, set_u_pred()),
            has_set_pipefail == has_set_option(parser@, i as int, pipefail_pred()),
        decreases n - i,
    {
        let line = &lines[i];
        proof {
            lemma_has_set_option_step(parser@, i as int, set_e_pred());
            lemma_has_set_option_step(parser@, i as int, set_u_pred());
            lemma_has_set_option_step(parser@, i as int, pipefail_pred());
        }
        if !line_is_comment(line) {
            if contains_chars(&line.content, &needle_e1) || contains_chars(
                &line.content,
                &needle_e2,
            ) {
                has_set_e = true;
            }
            if contains_chars(&line.content, &needle_u1) || contains_chars(
                &line.content,
                &needle_u2,
            ) {
                has_set_u = true;
            }
            if contains_chars(&line.content, &needle_p) {
                has_set_pipefail = true;
            }
        }
        i += 1;
    }
    if !has_set_e {
        report.add_issue(
            1,
            Severity::Warning,
            cat_best_practice().get(language),
            msg_use_set_e().get(language),
        );
    }
    if !has_set_u {
        report.add_issue(
            1,
            Severity::Warning,
            cat_best_practice().get(language),
            msg_use_set_u().get(language),
        );
    }
    if !has_set_pipefail {
        report.add_issue(
            1,
            Severity::Warning,
            cat_best_practice().get(language),
            msg_use_set_pipefail().get(language),
        );
    }
    proof {
        assert(report@ =~= old(report)@ + set_options_issues(parser@, *language));
    }
}

// --- Unquoted variables ---

/// A `$name` reference starts at `i` and is neither beside a double quote
/// nor closed by a brace: it is not preceded by `"`, and the character
/// right after the name (if any) is neither `"` nor `}`.
pub open spec fn unquoted_var_at(l: Seq<char>, i: int) -> bool {
    &&& 0 <= i
    &&& i + 1 < l.len()
    &&& l[i] == '$'
    &&& is_ident_start_char(l[i + 1])
    &&& !(i > 0 && l[i - 1] == '"')
    &&& {
        let e = seek_past(l, i + 2, ident_pred());
        !(e < l.len() && (l[e] == '"' || l[e] == '}'))
    }
}

/// Whether the line holds an unquoted `$name` reference.
fn line_has_unquoted_var(content: &Vec<char>) -> (r: bool)
    ensures
        r == exists|i: int| unquoted_var_at(content@, i),
{
    let len = content.len();
    let mut p: usize = 0;
    while len > 0 && p < len - 1
        invariant
            len == content@.len(),
            p <= len,
            forall|j: int| 0 <= j < p ==> !unquoted_var_at(content@, j),
        decreases len - p,
    {
        if content[p] == '$' && is_ident_start(content[p + 1]) {
            let e = seek_idents(content, p + 2);
            let quoted_before = p > 0 && content[p - 1] == '"';
            let closed_after = e < len && (content[e] == '"' || content[e] == '}');
            if !quoted_before && !closed_after {
                proof {
                    assert(unquoted_var_at(content@, p as int));
                }
                return true;
            }
        }
        proof {
            assert(!unquoted_var_at(content@, p as int));
        }
        p += 1;
    }
    proof {
        assert forall|i: int| !unquoted_var_at(content@, i) by {
            if 0 <= i && i + 1 < content@.len() {
                assert(i < p);
            }
        }
    }
    false
}

/// On a non-comment line without `[[` or `$(`, an unquoted variable
/// reference draws one Warning (at most one per line).
pub open spec fn unquoted_var_line(lang: Language) -> spec_fn(int, Seq<char>) -> Seq<IssueV> {
    |n: int, l: Seq<char>|
        if !is_comment_line(l) && !has_substring(l, "[["@) && !has_substring(l, "$("@) && (
        exists|i: int| unquoted_var_at(l, i)) {
            seq![
                IssueV {
                    line: n,
                    severity: Severity::Warning,
                    category: cat_best_practice_text(lang),
                    message: msg_unquoted_variable_text(lang),
                },
            ]
        } else {
            Seq::empty()
        }
}

fn check_variable_quoting(parser: &ScriptParser, report: &mut Report, language: &Language)
    requires
        parser.wf(),
    ensures
        final(report)@ == old(report)@ + per_line_upto(
            parser@,
            parser@.len() as int,
            unquoted_var_line(*language),
        ),
{
    let lines = parser.lines();
    let needle_cond = str_to_chars("[[");
    let needle_subst = str_to_chars("$(");
    let n = lines.len();
    let mut i: usize = 0;
    while i < n
        invariant
            n == lines@.len(),
            n == parser@.len(),
            i <= n,
            forall|j: int| 0 <= j < n ==> (#[trigger] lines@[j])@.content == parser@[j],
            forall|j: int|
                0 <= j < n ==> (#[trigger] lines@[j])@.number == j + 1 && lines@[j]@.trimmed
                    == trim_spec(parser@[j]),
            needle_cond@ == "[["@,
            needle_subst@ == "$("@,
            report@ == old(report)@ + per_line_upto(parser@, i as int, unquoted_var_line(*language)),
        decreases n - i,
    {
        let line = &lines[i];
        let ghost l = parser@[i as int];
        let ghost f = unquoted_var_line(*language);
        if !line_is_comment(line) && !contains_chars(&line.content, &needle_cond)
            && !contains_chars(&line.content, &needle_subst) && line_has_unquoted_var(
            &line.content,
        ) {
            report.add_issue(
                line.number,
                Severity::Warning,
                cat_best_practice().get(language),
                msg_unquoted_variable().get(language),
            );
            proof {
                assert(f(i + 1, l) =~= seq![
                    IssueV {
                        line: i + 1,
                        severity: Severity::Warning,
                        category: cat_best_practice_text(*language),
                        message: msg_unquoted_variable_text(*language),
                    },
                ]);
                assert(report@ =~= old(report)@ + per_line_upto(parser@, i + 1, f));
            }
        } else {
            proof {
                assert(f(i + 1, l) =~= Seq::<IssueV>::empty());
                assert(report@ =~= old(report)@ + per_line_upto(parser@, i + 1, f));
            }
        }
        i += 1;
    }
}

// --- cd without error checking ---

/// A line whose trimmed form starts `cd ` draws a Warning unless the line
/// itself chains `||` or `&&`, or the following line (if any) starts with
/// `||` or `if`.
pub open spec fn cd_line(lines: Seq<Seq<char>>, lang: Language) -> spec_fn(
    int,
    Seq<char>,
) -> Seq<IssueV> {
    |n: int, l: Seq<char>|
        if begins_with(trim_spec(l), "cd "@) && !has_substring(l, "||"@) && !has_substring(
            l,
            "&&"@,
        ) && !(n < lines.len() && (begins_with(trim_spec(lines[n]), "||"@) || begins_with(
            trim_spec(lines[n]),
            "if"@,
        ))) {
            seq![
                IssueV {
                    line: n,
                    severity: Severity::Warning,
                    category: cat_best_practice_text(lang),
                    message: msg_cd_without_check_text(lang),
                },
            ]
        } else {
            Seq::empty()
        }
}

fn check_cd_without_check(parser: &ScriptParser, report: &mut Report, language: &Language)
    requires
        parser.wf(),
    ensures
        final(report)@ == old(report)@ + per_line_upto(
            parser@,
            parser@.len() as int,
            cd_line(parser@, *language),
        ),
{
    let lines = parser.lines();
    let needle_cd = str_to_chars("cd ");
    let needle_or = str_to_chars("||");
    let needle_if = str_to_chars("if");
    let needle_and = str_to_chars("&&");
    let n = lines.len();
    let mut i: usize = 0;
    while i < n
        invariant
            n == lines@.len(),
            n == parser@.len(),
            i <= n,
            forall|j: int| 0 <= j < n ==> (#[trigger] lines@[j])@.content == parser@[j],
            forall|j: int|
                0 <= j < n ==> (#[trigger] lines@[j])@.number == j + 1 && lines@[j]@.trimmed
                    == trim_spec(parser@[j]),
            needle_cd@ == "cd "@,
            needle_or@ == "||"@,
            needle_if@ == "if"@,
            needle_and@ == "&&"@,
            report@ == old(report)@ + per_line_upto(parser@, i as int, cd_line(parser@, *language)),
        decreases n - i,
    {
        let line = &lines[i];
        let ghost l = parser@[i as int];
        let ghost f = cd_line(parser@, *language);
        if starts_with_chars(&line.trimmed, &needle_cd) {
            let same_line_check = contains_chars(&line.content, &needle_or) || contains_chars(
                &line.content,
                &needle_and,
            );
            let next_line_check = if i + 1 < n {
                let next = &lines[i + 1];
                starts_with_chars(&next.trimmed, &needle_or) || starts_with_chars(
                    &next.trimmed,
                    &needle_if,
                )
            } else {
                false
            };
            if !same_line_check && !next_line_check {
                report.add_issue(
                    line.number,
                    Severity::Warning,
                    cat_best_practice().get(language),
                    msg_cd_without_check().get(language),
                );
                proof {
                    assert(f(i + 1, l) =~= seq![
                        IssueV {
                            line: i + 1,
                            severity: Severity::Warning,
                            category: cat_best_practice_text(*language),
                            message: msg_cd_without_check_text(*language),
                        },
                    ]);
                    assert(report@ =~= old(report)@ + per_line_upto(parser@, i + 1, f));
                }
            } else {
                proof {
                    assert(f(i + 1, l) =~= Seq::<IssueV>::empty());
                    assert(report@ =~= old(report)@ + per_line_upto(parser@, i + 1, f));
                }
            }
        } else {
            proof {
                assert(f(i + 1, l) =~= Seq::<IssueV>::empty());
                assert(report@ =~= old(report)@ + per_line_upto(parser@, i + 1, f));
            }
        }
        i += 1;
    }
}

// --- Backtick command substitution ---

/// A backtick stands at `i` and is not immediately preceded by a
/// backslash.
pub open spec fn unescaped_backtick_at(l: Seq<char>, i: int) -> bool {
    &&& 0 <= i < l.len()
    &&& l[i] == '`'
    &&& !(i > 0 && l[i - 1] == '\\')
}

/// The line holds at least one unescaped backtick.
pub open spec fn has_unescaped_backtick(l: Seq<char>) -> bool {
    exists|i: int| unescaped_backtick_at(l, i)
}

/// Whether the line holds a backtick not immediately preceded by a
/// backslash.
fn line_has_unescaped_backtick(content: &Vec<char>) -> (r: bool)
    ensures
        r == has_unescaped_backtick(content@),
{
    let mut i: usize = 0;
    while i < content.len()
        invariant
            i <= content@.len(),
            forall|j: int| 0 <= j < i ==> !unescaped_backtick_at(content@, j),
        decreases content@.len() - i,
    {
        if content[i] == '`' && (i == 0 || content[i - 1] != '\\') {
            proof {
                assert(unescaped_backtick_at(content@, i as int));
            }
            return true;
        }
        proof {
            assert(!unescaped_backtick_at(content@, i as int));
        }
        i += 1;
    }
    proof {
        assert forall|j: int| !unescaped_backtick_at(content@, j) by {
            if 0 <= j < content@.len() {
                assert(j < i);
            }
        }
    }
    false
}

/// A non-comment line holding an unescaped backtick draws an Info
/// suggesting `$(...)`.
pub open spec fn backtick_line(lang: Language) -> spec_fn(int, Seq<char>) -> Seq<IssueV> {
    |n: int, l: Seq<char>|
        if !is_comment_line(l) && has_unescaped_backtick(l) {
            seq![
                IssueV {
                    line: n,
                    severity: Severity::Info,
                    category: cat_best_practice_text(lang),
                    message: msg_use_dollar_paren_text(lang),
                },
            ]
        } else {
            Seq::empty()
        }
}

fn check_command_substitution_style(parser: &ScriptParser, report: &mut Report, language: &Language)
    requires
        parser.wf(),
    ensures
        final(report)@ == old(report)@ + per_line_upto(
            parser@,
            parser@.len() as int,
            backtick_line(*language),
        ),
{
    let lines = parser.lines();
    let n = lines.len();
    let mut i: usize = 0;
    while i < n
        invariant
            n == lines@.len(),
            n == parser@.len(),
            i <= n,
            forall|j: int| 0 <= j < n ==> (#[trigger] lines@[j])@.content == parser@[j],
            forall|j: int|
                0 <= j < n ==> (#[trigger] lines@[j])@.number == j + 1 && lines@[j]@.trimmed
                    == trim_spec(parser@[j]),
            report@ == old(report)@ + per_line_upto(parser@, i as int, backtick_line(*language)),
        decreases n - i,
    {
        let line = &lines[i];
        let ghost l = parser@[i as int];
        let ghost f = backtick_line(*language);
        if !line_is_comment(line) && line_has_unescaped_backtick(&line.content) {
            report.add_issue(
                line.number,
                Severity::Info,
                cat_best_practice().get(language),
                msg_use_dollar_paren().get(language),
            );
            proof {
                assert(f(i + 1, l) =~= seq![
                    IssueV {
                        line: i + 1,
                        severity: Severity::Info,
                        category: cat_best_practice_text(*language),
                        message: msg_use_dollar_paren_text(*language),
                    },
                ]);
                assert(report@ =~= old(report)@ + per_line_upto(parser@, i + 1, f));
            }
        } else {
            proof {
                assert(f(i + 1, l) =~= Seq::<IssueV>::empty());
                assert(report@ =~= old(report)@ + per_line_upto(parser@, i + 1, f));
            }
        }
        i += 1;
    }
}

/// Every issue of the best-practice group, in report order.
pub open spec fn best_practice_issues(lines: Seq<Seq<char>>, lang: Language) -> Seq<IssueV> {
    set_options_issues(lines, lang) + per_line_upto(
        lines,
        lines.len() as int,
        unquoted_var_line(lang),
    ) + per_line_upto(lines, lines.len() as int, cd_line(lines, lang)) + per_line_upto(
        lines,
        lines.len() as int,
        backtick_line(lang),
    )
}

/// Runs every best-practice detector, in declaration order.
pub fn check(parser: &ScriptParser, report: &mut Report, language: &Language)
    requires
        parser.wf(),
    ensures
        final(report)@ == old(report)@ + best_practice_issues(parser@, *language),
{
    check_set_options(parser, report, language);
    check_variable_quoting(parser, report, language);
    check_cd_without_check(parser, report, language);
    check_command_substitution_style(parser, report, language);
    proof {
        crate::checker::lemma_concat4(
            old(report)@,
            set_options_issues(parser@, *language),
            per_line_upto(parser@, parser@.len() as int, unquoted_var_line(*language)),
            per_line_upto(parser@, parser@.len() as int, cd_line(parser@, *language)),
            per_line_upto(parser@, parser@.len() as int, backtick_line(*language)),
        );
    }
}

} // verus!
