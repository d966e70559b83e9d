//! The rule engine: four groups of independent detectors run in a fixed
//! order over the line model, each appending its issues to the report. The
//! resulting issue sequence is a pure function of the script text and the
//! locale, stated by [`analysis_issues`].

use vstd::prelude::*;

pub mod best_practice;
pub mod security;
pub mod style;
pub mod syntax;

verus! {

use crate::parser::{ScriptLine, ScriptParser, line_split};
use crate::report::{IssueV, Report};
use crate::i18n::Language;
use crate::text::trim_spec;

/// The line's trimmed form starts with the comment marker.
pub open spec fn is_comment_line(content: Seq<char>) -> bool {
    trim_spec(content).len() > 0 && trim_spec(content)[0] == '#'
}

/// Whether this line's trimmed form starts with the comment marker.
pub fn line_is_comment(line: &ScriptLine) -> (r: bool)
    ensures
        r == (line@.trimmed.len() > 0 && line@.trimmed[0] == '#'),
{
    line.trimmed.len() > 0 && line.trimmed[0] == '#'
}

/// The issues a per-line detector emits over the first `n` lines, in line
/// order: `f` maps a 1-based line number and the line's content to the
/// issues emitted for that line.
pub open spec fn per_line_upto(
    lines: Seq<Seq<char>>,
    n: int,
    f: spec_fn(int, Seq<char>) -> Seq<IssueV>,
) -> Seq<IssueV>
    decreases n,
{
    if n <= 0 {
        Seq::empty()
    } else {
        per_line_upto(lines, n - 1, f) + f(n, lines[n - 1])
    }
}

/// Appending four detector outputs one after another to a report equals
/// appending their concatenation at once.
pub proof fn lemma_concat4(x: Seq<IssueV>, a: Seq<IssueV>, b: Seq<IssueV>, c: Seq<IssueV>, d: Seq<IssueV>)
    ensures
        (((x + a) + b) + c) + d == x + (((a + b) + c) + d),
{
    assert((((x + a) + b) + c) + d =~= x + (((a + b) + c) + d));
}

/// Every issue of the full analysis of one script, in report order: the
/// syntax group, then best practice, then security, then style.
pub open spec fn analysis_issues(lines: Seq<Seq<char>>, lang: Language) -> Seq<IssueV> {
    syntax::syntax_issues(lines, lang) + best_practice::best_practice_issues(lines, lang)
        + security::security_issues(lines, lang) + style::style_issues(lines, lang)
}

/// The issues for raw script text: the analysis over its split lines.
pub open spec fn analysis_of_text(text: Seq<char>, lang: Language) -> Seq<IssueV> {
    analysis_issues(line_split(text), lang)
}

/// One analysis run: the parsed script and the locale its report uses.
pub struct Checker {
    parser: ScriptParser,
    language: Language,
}

impl Checker {
    /// The contents of the parsed lines.
    pub closed spec fn lines_view(&self) -> Seq<Seq<char>> {
        self.parser@
    }

    /// The locale this checker reports in.
    pub closed spec fn lang(&self) -> Language {
        self.language
    }

    pub closed spec fn wf(&self) -> bool {
        self.parser.wf()
    }

    pub fn new(content: &str, language: Language) -> (c: Checker)
        ensures
            c.wf(),
            c.lines_view() == line_split(content@),
            c.lang() == language,
    {
        Checker { parser: ScriptParser::new(content), language }
    }

    /// Runs every detector group in order and returns the full report. The
    /// issues are exactly [`analysis_issues`] of the script's lines: a pure
    /// function of the text and the locale.
    pub fn check(&self) -> (report: Report)
        requires
            self.wf(),
        ensures
            report@ == analysis_issues(self.lines_view(), self.lang()),
    {
        let mut report = Report::new();

        syntax::check(&self.parser, &mut report, &self.language);
        best_practice::check(&self.parser, &mut report, &self.language);
        security::check(&self.parser, &mut report, &self.language);
        style::check(&self.parser, &mut report, &self.language);

        proof {
            lemma_concat4(
                Seq::<IssueV>::empty(),
                syntax::syntax_issues(self.parser@, self.language),
                best_practice::best_practice_issues(self.parser@, self.language),
                security::security_issues(self.parser@, self.language),
                style::style_issues(self.parser@, self.language),
            );
            assert(Seq::<IssueV>::empty() + analysis_issues(self.parser@, self.language)
                =~= analysis_issues(self.parser@, self.language));
        }
        report
    }
}

/// The analysis is deterministic and order-stable: two runs over the same
/// text and locale yield the same issues, in the same order.
pub proof fn lemma_analysis_deterministic(
    first: Seq<IssueV>,
    second: Seq<IssueV>,
    text: Seq<char>,
    lang: Language,
)
    requires
        first == analysis_of_text(text, lang),
        second == analysis_of_text(text, lang),
    ensures
        first == second,
{
}

} // verus!
