//! Style detectors: tab or odd-width indentation, over-long lines, function
//! names that are not snake_case, and ill-formed uppercase variable names.

use vstd::prelude::*;

verus! {

use crate::parser::ScriptParser;
use crate::report::{IssueV, Report, Severity};
use crate::i18n::{
    Language, cat_style, cat_style_text, msg_use_spaces, msg_use_spaces_text,
    msg_inconsistent_indent, msg_inconsistent_indent_text, msg_line_too_long,
    msg_line_too_long_text, msg_function_naming, msg_function_naming_text, msg_variable_naming,
    msg_variable_naming_text,
};
use crate::text::{
    chars_to_string, contains_upper, copy_range, has_upper, ident_pred, is_ident_start,
    is_ident_start_char, is_upper, is_upper_char, seek_idents, seek_past, seek_spaces,
    seek_upper_names, space_pred, starts_with_chars, str_to_chars, trim_spec, upper_name_pred,
    begins_with,
};
use crate::checker::{is_comment_line, line_is_comment, per_line_upto};

// --- Indentation ---

/// On a non-empty, non-comment line: a leading tab draws an Info, and a
/// positive odd count of leading whitespace draws another.
pub open spec fn indentation_line(lang: Language) -> spec_fn(int, Seq<char>) -> Seq<IssueV> {
    |n: int, l: Seq<char>|
        if trim_spec(l).len() == 0 || is_comment_line(l) {
            Seq::empty()
        } else {
            (if l.len() > 0 && l[0] == '\t' {
                seq![
                    IssueV {
                        line: n,
                        severity: Severity::Info,
                        category: cat_style_text(lang),
                        message: msg_use_spaces_text(lang),
                    },
                ]
            } else {
                Seq::<IssueV>::empty()
            }) + (if seek_past(l, 0, space_pred()) > 0 && seek_past(l, 0, space_pred()) % 2 != 0 {
                seq![
                    IssueV {
                        line: n,
                        severity: Severity::Info,
                        category: cat_style_text(lang),
                        message: msg_inconsistent_indent_text(lang),
                    },
                ]
            } else {
                Seq::<IssueV>::empty()
            })
        }
}

fn check_indentation(parser: &ScriptParser, report: &mut Report, language: &Language)
    requires
        parser.wf(),
    ensures
        final(report)@ == old(report)@ + per_line_upto(
            parser@,
            parser@.len() as int,
            indentation_line(*language),
        ),
{
    let lines = parser.lines();
    let n = lines.len();
    let mut i: usize = 0;
    while i < n
        invariant
            n == lines@.len(),
            n == parser@.len(),
            i <= n,
            forall|j: int| 0 <= j < n ==> (#[trigger] lines@[j])@.content == parser@[j],
            forall|j: int|
                0 <= j < n ==> (#[trigger] lines@[j])@.number == j + 1 && lines@[j]@.trimmed
                    == trim_spec(parser@[j]),
            report@ == old(report)@ + per_line_upto(parser@, i as int, indentation_line(*language)),
        decreases n - i,
    {
        let line = &lines[i];
        let ghost l = parser@[i as int];
        let ghost f = indentation_line(*language);
        if !(line.trimmed.len() == 0 || line_is_comment(line)) {
            let has_tab = line.content.len() > 0 && line.content[0] == '\t';
            let leading_spaces = seek_spaces(&line.content, 0);
            if has_tab {
                report.add_issue(
                    line.number,
                    Severity::Info,
                    cat_style().get(language),
                    msg_use_spaces().get(language),
                );
            }
            if leading_spaces > 0 && leading_spaces % 2 != 0 {
                report.add_issue(
                    line.number,
                    Severity::Info,
                    cat_style().get(language),
                    msg_inconsistent_indent().get(language),
                );
            }
            proof {
                assert(report@ =~= old(report)@ + per_line_upto(parser@, i + 1, f));
            }
        } else {
            proof {
                assert(f(i + 1, l) =~= Seq::<IssueV>::empty());
                assert(report@ =~= old(report)@ + per_line_upto(parser@, i + 1, f));
            }
        }
        i += 1;
    }
}

// --- Line length ---

/// A line over 120 characters draws an Info carrying the actual length and
/// the limit.
pub open spec fn line_length_line(lang: Language) -> spec_fn(int, Seq<char>) -> Seq<IssueV> {
    |n: int, l: Seq<char>|
        if l.len() > 120 {
            seq![
                IssueV {
                    line: n,
                    severity: Severity::Info,
                    category: cat_style_text(lang),
                    message: msg_line_too_long_text(l.len() as int, 120, lang),
                },
            ]
        } else {
            Seq::empty()
        }
}

fn check_line_length(parser: &ScriptParser, report: &mut Report, language: &Language)
    requires
        parser.wf(),
    ensures
        final(report)@ == old(report)@ + per_line_upto(
            parser@,
            parser@.len() as int,
            line_length_line(*language),
        ),
{
    let lines = parser.lines();
    let n = lines.len();
    let mut i: usize = 0;
    while i < n
        invariant
            n == lines@.len(),
            n == parser@.len(),
            i <= n,
            forall|j: int| 0 <= j < n ==> (#[trigger] lines@[j])@.content == parser@[j],
            forall|j: int| 0 <= j < n ==> (#[trigger] lines@[j])@.number == j + 1,
            report@ == old(report)@ + per_line_upto(parser@, i as int, line_length_line(*language)),
        decreases n - i,
    {
        let line = &lines[i];
        let ghost l = parser@[i as int];
        let ghost f = line_length_line(*language);
        if line.content.len() > 120 {
            let msg = msg_line_too_long(line.content.len(), 120, language);
            report.add_issue(line.number, Severity::Info, cat_style().get(language), msg.as_str());
            proof {
                assert(f(i + 1, l) =~= seq![
                    IssueV {
                        line: i + 1,
                        severity: Severity::Info,
                        category: cat_style_text(*language),
                        message: msg_line_too_long_text(l.len() as int, 120, *language),
                    },
                ]);
                assert(report@ =~= old(report)@ + per_line_upto(parser@, i + 1, f));
            }
        } else {
            proof {
                assert(f(i + 1, l) =~= Seq::<IssueV>::empty());
                assert(report@ =~= old(report)@ + per_line_upto(parser@, i + 1, f));
            }
        }
        i += 1;
    }
}

// --- Function naming ---

/// A definition written `function name (`: the name starts after the
/// keyword and at least one space, and a `(` follows the name and optional
/// spaces.
pub open spec fn function_def_name(l: Seq<char>) -> Option<Seq<char>> {
    let fl = "function"@.len() as int;
    if begins_with(l, "function"@) {
        let p1 = seek_past(l, fl, space_pred());
        if p1 > fl && p1 < l.len() && is_ident_start_char(l[p1]) {
            let p2 = seek_past(l, p1 + 1, ident_pred());
            let p3 = seek_past(l, p2, space_pred());
            if p3 < l.len() && l[p3] == '(' {
                Some(l.subrange(p1, p2))
            } else {
                None
            }
        } else {
            None
        }
    } else {
        None
    }
}

/// A definition written `name ( )` at the start of the line: an identifier,
/// then `(` and `)` with optional spaces between.
pub open spec fn simple_def_name(l: Seq<char>) -> Option<Seq<char>> {
    if l.len() > 0 && is_ident_start_char(l[0]) {
        let p1 = seek_past(l, 1, ident_pred());
        let p2 = seek_past(l, p1, space_pred());
        if p2 < l.len() && l[p2] == '(' {
            let p3 = seek_past(l, p2 + 1, space_pred());
            if p3 < l.len() && l[p3] == ')' {
                Some(l.subrange(0, p1))
            } else {
                None
            }
        } else {
            None
        }
    } else {
        None
    }
}

fn find_function_def(content: &Vec<char>) -> (r: Option<(usize, usize)>)
    ensures
        match r {
            Some(ab) => {
                &&& ab.0 <= ab.1 <= content@.len()
                &&& function_def_name(content@) == Some(
                    content@.subrange(ab.0 as int, ab.1 as int),
                )
            },
            None => function_def_name(content@) is None,
        },
{
    let keyword = str_to_chars("function");
    if !starts_with_chars(content, &keyword) {
        return None;
    }
    let p1 = seek_spaces(content, keyword.len());
    if !(p1 > keyword.len() && p1 < content.len() && is_ident_start(content[p1])) {
        return None;
    }
    let p2 = seek_idents(content, p1 + 1);
    let p3 = seek_spaces(content, p2);
    if p3 < content.len() && content[p3] == '(' {
        Some((p1, p2))
    } else {
        None
    }
}

fn find_simple_def(content: &Vec<char>) -> (r: Option<(usize, usize)>)
    ensures
        match r {
            Some(ab) => {
                &&& ab.0 <= ab.1 <= content@.len()
                &&& simple_def_name(content@) == Some(content@.subrange(ab.0 as int, ab.1 as int))
            },
            None => simple_def_name(content@) is None,
        },
{
    if !(content.len() > 0 && is_ident_start(content[0])) {
        return None;
    }
    let p1 = seek_idents(content, 1);
    let p2 = seek_spaces(content, p1);
    if !(p2 < content.len() && content[p2] == '(') {
        return None;
    }
    let p3 = seek_spaces(content, p2 + 1);
    if p3 < content.len() && content[p3] == ')' {
        Some((0, p1))
    } else {
        None
    }
}

/// The name a function-definition line is flagged for: the defined name,
/// when it holds an uppercase letter.
pub open spec fn flagged_fn_name(l: Seq<char>) -> Option<Seq<char>> {
    match function_def_name(l) {
        Some(name) => if has_upper(name) {
            Some(name)
        } else {
            None
        },
        None => match simple_def_name(l) {
            Some(name) => if has_upper(name) {
                Some(name)
            } else {
                None
            },
            None => None,
        },
    }
}

/// A function definition whose name holds an uppercase letter draws an
/// Info naming it.
pub open spec fn function_naming_line(lang: Language) -> spec_fn(int, Seq<char>) -> Seq<IssueV> {
    |n: int, l: Seq<char>|
        match flagged_fn_name(l) {
            Some(name) => seq![
                IssueV {
                    line: n,
                    severity: Severity::Info,
                    category: cat_style_text(lang),
                    message: msg_function_naming_text(name, lang),
                },
            ],
            None => Seq::empty(),
        }
}

fn check_function_naming(parser: &ScriptParser, report: &mut Report, language: &Language)
    requires
        parser.wf(),
    ensures
        final(report)@ == old(report)@ + per_line_upto(
            parser@,
            parser@.len() as int,
            function_naming_line(*language),
        ),
{
    let lines = parser.lines();
    let n = lines.len();
    let mut i: usize = 0;
    while i < n
        invariant
            n == lines@.len(),
            n == parser@.len(),
            i <= n,
            forall|j: int| 0 <= j < n ==> (#[trigger] lines@[j])@.content == parser@[j],
            forall|j: int| 0 <= j < n ==> (#[trigger] lines@[j])@.number == j + 1,
            report@ == old(report)@ + per_line_upto(
                parser@,
                i as int,
                function_naming_line(*language),
            ),
        decreases n - i,
    {
        let line = &lines[i];
        let ghost l = parser@[i as int];
        let ghost f = function_naming_line(*language);
        let found = match find_function_def(&line.content) {
            Some(ab) => Some(ab),
            None => find_simple_def(&line.content),
        };
        match found {
            Some(ab) => {
                let name = copy_range(&line.content, ab.0, ab.1);
                if contains_upper(&name) {
                    let name_str = chars_to_string(&name);
                    let msg = msg_function_naming(name_str.as_str(), language);
                    report.add_issue(
                        line.number,
                        Severity::Info,
                        cat_style().get(language),
                        msg.as_str(),
                    );
                    proof {
                        assert(flagged_fn_name(l) == Some(name@));
                        assert(f(i + 1, l) =~= seq![
                            IssueV {
                                line: i + 1,
                                severity: Severity::Info,
                                category: cat_style_text(*language),
                                message: msg_function_naming_text(name@, *language),
                            },
                        ]);
                        assert(report@ =~= old(report)@ + per_line_upto(parser@, i + 1, f));
                    }
                } else {
                    proof {
                        assert(flagged_fn_name(l) is None);
                        assert(f(i + 1, l) =~= Seq::<IssueV>::empty());
                        assert(report@ =~= old(report)@ + per_line_upto(parser@, i + 1, f));
                    }
                }
            },
            None => {
                proof {
                    assert(flagged_fn_name(l) is None);
                    assert(f(i + 1, l) =~= Seq::<IssueV>::empty());
                    assert(report@ =~= old(report)@ + per_line_upto(parser@, i + 1, f));
                }
            },
        }
        i += 1;
    }
}

// --- Variable naming ---

/// An assignment whose target starts with an uppercase letter: optional
/// leading spaces, a name from the uppercase class, optional spaces, `=`.
pub open spec fn var_assign_name(l: Seq<char>) -> Option<Seq<char>> {
    let p0 = seek_past(l, 0, space_pred());
    if p0 < l.len() && is_upper_char(l[p0]) {
        let p1 = seek_past(l, p0 + 1, upper_name_pred());
        let p2 = seek_past(l, p1, space_pred());
        if p2 < l.len() && l[p2] == '=' {
            Some(l.subrange(p0, p1))
        } else {
            None
        }
    } else {
        None
    }
}

/// A name in environment style that is nevertheless ill formed: shorter
/// than three characters, or holding anything besides uppercase letters and
/// underscores.
pub open spec fn bad_var_name(name: Seq<char>) -> bool {
    name.len() < 3 || exists|i: int|
        0 <= i < name.len() && !(is_upper_char(name[i]) || name[i] == '_')
}

fn find_var_assign(content: &Vec<char>) -> (r: Option<(usize, usize)>)
    ensures
        match r {
            Some(ab) => {
                &&& ab.0 <= ab.1 <= content@.len()
                &&& var_assign_name(content@) == Some(content@.subrange(ab.0 as int, ab.1 as int))
            },
            None => var_assign_name(content@) is None,
        },
{
    let p0 = seek_spaces(content, 0);
    if !(p0 < content.len() && is_upper(content[p0])) {
        return None;
    }
    let p1 = seek_upper_names(content, p0 + 1);
    let p2 = seek_spaces(content, p1);
    if p2 < content.len() && content[p2] == '=' {
        Some((p0, p1))
    } else {
        None
    }
}

fn name_is_bad(name: &Vec<char>) -> (r: bool)
    ensures
        r == bad_var_name(name@),
{
    if name.len() < 3 {
        return true;
    }
    let mut i: usize = 0;
    while i < name.len()
        invariant
            i <= name@.len(),
            forall|j: int| 0 <= j < i ==> is_upper_char(name@[j]) || name@[j] == '_',
        decreases name@.len() - i,
    {
        if !(is_upper(name[i]) || name[i] == '_') {
            return true;
        }
        i += 1;
    }
    false
}

/// A non-comment assignment to an ill-formed uppercase-style name draws an
/// Info naming it.
pub open spec fn variable_naming_line(lang: Language) -> spec_fn(int, Seq<char>) -> Seq<IssueV> {
    |n: int, l: Seq<char>|
        if !is_comment_line(l) {
            match var_assign_name(l) {
                Some(name) => if bad_var_name(name) {
                    seq![
                        IssueV {
                            line: n,
                            severity: Severity::Info,
                            category: cat_style_text(lang),
                            message: msg_variable_naming_text(name, lang),
                        },
                    ]
                } else {
                    Seq::empty()
                },
                None => Seq::empty(),
            }
        } else {
            Seq::empty()
        }
}

fn check_variable_naming(parser: &ScriptParser, report: &mut Report, language: &Language)
    requires
        parser.wf(),
    ensures
        final(report)@ == old(report)@ + per_line_upto(
            parser@,
            parser@.len() as int,
            variable_naming_line(*language),
        ),
{
    let lines = parser.lines();
    let n = lines.len();
    let mut i: usize = 0;
    while i < n
        invariant
            n == lines@.len(),
            n == parser@.len(),
            i <= n,
            forall|j: int| 0 <= j < n ==> (#[trigger] lines@[j])@.content == parser@[j],
            forall|j: int|
                0 <= j < n ==> (#[trigger] lines@[j])@.number == j + 1 && lines@[j]@.trimmed
                    == trim_spec(parser@[j]),
            report@ == old(report)@ + per_line_upto(
                parser@,
                i as int,
                variable_naming_line(*language),
            ),
        decreases n - i,
    {
        let line = &lines[i];
        let ghost l = parser@[i as int];
        let ghost f = variable_naming_line(*language);
        let mut flagged = false;
        if !line_is_comment(line) {
            match find_var_assign(&line.content) {
                Some(ab) => {
                    let name = copy_range(&line.content, ab.0, ab.1);
                    if name_is_bad(&name) {
                        let name_str = chars_to_string(&name);
                        let msg = msg_variable_naming(name_str.as_str(), language);
                        report.add_issue(
                            line.number,
                            Severity::Info,
                            cat_style().get(language),
                            msg.as_str(),
                        );
                        flagged = true;
                        proof {
                            assert(f(i + 1, l) =~= seq![
                                IssueV {
                                    line: i + 1,
                                    severity: Severity::Info,
                                    category: cat_style_text(*language),
                                    message: msg_variable_naming_text(name@, *language),
                                },
                            ]);
                            assert(report@ =~= old(report)@ + per_line_upto(parser@, i + 1, f));
                        }
                    }
                },
                None => {},
            }
        }
        if !flagged {
            proof {
                assert(f(i + 1, l) =~= Seq::<IssueV>::empty());
                assert(report@ =~= old(report)@ + per_line_upto(parser@, i + 1, f));
            }
        }
        i += 1;
    }
}

/// Every issue of the style group, in report order.
pub open spec fn style_issues(lines: Seq<Seq<char>>, lang: Language) -> Seq<IssueV> {
    per_line_upto(lines, lines.len() as int, indentation_line(lang)) + per_line_upto(
        lines,
        lines.len() as int,
        line_length_line(lang),
    ) + per_line_upto(lines, lines.len() as int, function_naming_line(lang)) + per_line_upto(
        lines,
        lines.len() as int,
        variable_naming_line(lang),
    )
}

/// Runs every style detector, in declaration order.
pub fn check(parser: &ScriptParser, report: &mut Report, language: &Language)
    requires
        parser.wf(),
    ensures
        final(report)@ == old(report)@ + style_issues(parser@, *language),
{
    check_indentation(parser, report, language);
    check_line_length(parser, report, language);
    check_function_naming(parser, report, language);
    check_variable_naming(parser, report, language);
    proof {
        crate::checker::lemma_concat4(
            old(report)@,
            per_line_upto(parser@, parser@.len() as int, indentation_line(*language)),
            per_line_upto(parser@, parser@.len() as int, line_length_line(*language)),
            per_line_upto(parser@, parser@.len() as int, function_naming_line(*language)),
            per_line_upto(parser@, parser@.len() as int, variable_naming_line(*language)),
        );
    }
}

} // verus!
