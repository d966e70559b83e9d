//! Issues and the report that collects them: severity classification, the
//! ordered issue list, severity counting, and rendering of the report as the
//! text the caller prints.

use vstd::prelude::*;

verus! {

use vstd::string::StringExecFns;
use crate::i18n::{
    Language, severity_error, severity_warning, severity_info, severity_error_text,
    severity_warning_text, severity_info_text, no_issues, no_issues_text, summary, summary_text,
    errors_word, errors_word_text, warnings_word, warnings_word_text,
};
use crate::text::{dec_str, dec_string};

#[derive(Debug, Clone, Copy, PartialEq, Eq, Structural)]
pub enum Severity {
    Error,
    Warning,
    Info,
}

/// The label of a severity in the given locale.
pub open spec fn severity_text(sev: Severity, lang: Language) -> Seq<char> {
    match sev {
        Severity::Error => severity_error_text(lang),
        Severity::Warning => severity_warning_text(lang),
        Severity::Info => severity_info_text(lang),
    }
}

impl Severity {
    pub fn as_str(&self, lang: &Language) -> (r: &'static str)
        ensures
            r@ == severity_text(*self, *lang),
    {
        match self {
            Severity::Error => severity_error().get(lang),
            Severity::Warning => severity_warning().get(lang),
            Severity::Info => severity_info().get(lang),
        }
    }
}

/// One diagnostic finding: its line, severity, category and rendered message.
#[derive(Debug, Clone)]
pub struct Issue {
    pub line: usize,
    pub severity: Severity,
    pub category: String,
    pub message: String,
}

/// The mathematical image of an issue.
#[verifier::ext_equal]
pub ghost struct IssueV {
    pub line: int,
    pub severity: Severity,
    pub category: Seq<char>,
    pub message: Seq<char>,
}

impl View for Issue {
    type V = IssueV;

    open spec fn view(&self) -> IssueV {
        IssueV {
            line: self.line as int,
            severity: self.severity,
            category: self.category@,
            message: self.message@,
        }
    }
}

/// The views of a sequence of issues, in order.
pub open spec fn issues_view(issues: Seq<Issue>) -> Seq<IssueV> {
    issues.map_values(|i: Issue| i@)
}

/// Whether any of the issues has Error severity.
pub open spec fn some_error(issues: Seq<IssueV>) -> bool {
    exists|i: int| 0 <= i < issues.len() && issues[i].severity == Severity::Error
}

/// How many of the first `n` issues have the given severity.
pub open spec fn count_with_severity(issues: Seq<IssueV>, n: int, sev: Severity) -> int
    decreases n,
{
    if n <= 0 {
        0
    } else {
        count_with_severity(issues, n - 1, sev) + if issues[n - 1].severity == sev {
            1int
        } else {
            0int
        }
    }
}

pub proof fn lemma_count_with_severity_bounds(issues: Seq<IssueV>, n: int, sev: Severity)
    requires
        0 <= n,
    ensures
        0 <= count_with_severity(issues, n, sev) <= n,
    decreases n,
{
    if n > 0 {
        lemma_count_with_severity_bounds(issues, n - 1, sev);
    }
}

/// The rendered form of one issue, as one output line.
pub open spec fn issue_line_text(iss: IssueV, lang: Language) -> Seq<char> {
    "L"@ + dec_str(iss.line) + ": ["@ + severity_text(iss.severity, lang) + "] "@ + iss.category
        + " - "@ + iss.message + "\n"@
}

/// The rendered lines of the first `n` issues, Error-only if `errors_only`.
pub open spec fn issue_lines_text(
    issues: Seq<IssueV>,
    n: int,
    errors_only: bool,
    lang: Language,
) -> Seq<char>
    decreases n,
{
    if n <= 0 {
        Seq::empty()
    } else {
        issue_lines_text(issues, n - 1, errors_only, lang) + if !errors_only || issues[n
            - 1].severity == Severity::Error {
            issue_line_text(issues[n - 1], lang)
        } else {
            Seq::<char>::empty()
        }
    }
}

/// The summary line: total error and warning counts.
pub open spec fn summary_line_text(issues: Seq<IssueV>, lang: Language) -> Seq<char> {
    summary_text(lang) + ": "@ + dec_str(count_with_severity(issues, issues.len() as int,
        Severity::Error)) + " "@ + errors_word_text(lang) + ", "@ + dec_str(count_with_severity(
        issues,
        issues.len() as int,
        Severity::Warning,
    )) + " "@ + warnings_word_text(lang) + "\n"@
}

/// The full rendered report: a no-issue notice when empty, else each issue
/// line (optionally filtered to errors), a blank line, and the summary.
pub open spec fn render_text(issues: Seq<IssueV>, errors_only: bool, lang: Language) -> Seq<char> {
    if issues.len() == 0 {
        no_issues_text(lang) + "\n"@
    } else {
        issue_lines_text(issues, issues.len() as int, errors_only, lang) + "\n"@
            + summary_line_text(issues, lang)
    }
}

/// The ordered collection of issues found in one analysis run.
pub struct Report {
    issues: Vec<Issue>,
}

impl View for Report {
    type V = Seq<IssueV>;

    closed spec fn view(&self) -> Seq<IssueV> {
        issues_view(self.issues@)
    }
}

impl Report {
    pub fn new() -> (r: Report)
        ensures
            r@ == Seq::<IssueV>::empty(),
    {
        let r = Report { issues: Vec::new() };
        proof {
            assert(r@ =~= Seq::<IssueV>::empty());
        }
        r
    }

    /// Appends one issue; issues are never removed, merged or reordered.
    pub fn add_issue(&mut self, line: usize, severity: Severity, category: &str, message: &str)
        ensures
            final(self)@ == old(self)@.push(
                IssueV { line: line as int, severity, category: category@, message: message@ },
            ),
    {
        self.issues.push(
            Issue { line, severity, category: category.to_owned(), message: message.to_owned() },
        );
        proof {
            assert(self@ =~= old(self)@.push(
                IssueV { line: line as int, severity, category: category@, message: message@ },
            ));
        }
    }

    /// The issues collected so far, in the order they were added.
    pub fn issues(&self) -> (r: &Vec<Issue>)
        ensures
            issues_view(r@) == self@,
    {
        &self.issues
    }

    /// True exactly when some collected issue has Error severity.
    pub fn has_errors(&self) -> (r: bool)
        ensures
            r == some_error(self@),
    {
        let n = self.issues.len();
        let mut i: usize = 0;
        while i < n
            invariant
                n == self.issues@.len(),
                i <= n,
                forall|j: int| 0 <= j < i ==> self@[j].severity != Severity::Error,
            decreases n - i,
        {
            if matches!(self.issues[i].severity, Severity::Error) {
                proof {
                    assert(self@[i as int].severity == Severity::Error);
                    assert(some_error(self@));
                }
                return true;
            }
            i += 1;
        }
        false
    }

    /// The rendered report text, in the given locale.
    pub fn render(&self, errors_only: bool, language: &Language) -> (r: String)
        ensures
            r@ == render_text(self@, errors_only, *language),
    {
        let n = self.issues.len();
        if n == 0 {
            let mut s = String::from_str(no_issues().get(language));
            s.append("\n");
            return s;
        }
        let mut s = String::new();
        let mut i: usize = 0;
        proof {
            assert(s@ =~= issue_lines_text(self@, 0, errors_only, *language));
        }
        while i < n
            invariant
                n == self.issues@.len(),
                i <= n,
                s@ == issue_lines_text(self@, i as int, errors_only, *language),
            decreases n - i,
        {
            let iss = &self.issues[i];
            if !errors_only || matches!(iss.severity, Severity::Error) {
                s.append("L");
                s.append(dec_string(iss.line as u64).as_str());
                s.append(": [");
                s.append(iss.severity.as_str(language));
                s.append("] ");
                s.append(iss.category.as_str());
                s.append(" - ");
                s.append(iss.message.as_str());
                s.append("\n");
            }
            i += 1;
        }
        s.append("\n");
        let mut errors: u64 = 0;
        let mut warnings: u64 = 0;
        let mut i: usize = 0;
        while i < n
            invariant
                n == self.issues@.len(),
                i <= n,
                errors == count_with_severity(self@, i as int, Severity::Error),
                warnings == count_with_severity(self@, i as int, Severity::Warning),
            decreases n - i,
        {
            proof {
                lemma_count_with_severity_bounds(self@, i as int, Severity::Error);
                lemma_count_with_severity_bounds(self@, i as int, Severity::Warning);
            }
            match self.issues[i].severity {
                Severity::Error => {
                    errors += 1;
                },
                Severity::Warning => {
                    warnings += 1;
                },
                Severity::Info => {},
            }
            i += 1;
        }
        s.append(summary().get(language));
        s.append(": ");
        s.append(dec_string(errors).as_str());
        s.append(" ");
        s.append(errors_word().get(language));
        s.append(", ");
        s.append(dec_string(warnings).as_str());
        s.append(" ");
        s.append(warnings_word().get(language));
        s.append("\n");
        s
    }
}

} // verus!
