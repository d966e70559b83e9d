//! Syntax detectors: the shebang line, the cross-line balance scan for
//! brackets, braces and parentheses, per-line quote tracking with escapes,
//! and unterminated `${...}` / `$(...)` openers.

use vstd::prelude::*;

verus! {

use crate::parser::ScriptParser;
use crate::report::{IssueV, Report, Severity};
use crate::i18n::{
    Language, cat_syntax, cat_syntax_text, msg_missing_shebang, msg_missing_shebang_text,
    msg_invalid_shebang, msg_invalid_shebang_text, msg_unmatched_bracket,
    msg_unmatched_bracket_text, msg_unclosed_bracket, msg_unclosed_bracket_text,
    msg_unclosed_brace, msg_unclosed_brace_text, msg_unclosed_paren, msg_unclosed_paren_text,
    msg_unclosed_single_quote, msg_unclosed_single_quote_text, msg_unclosed_double_quote,
    msg_unclosed_double_quote_text, msg_unclosed_var_expansion, msg_unclosed_var_expansion_text,
    msg_unclosed_cmd_subst, msg_unclosed_cmd_subst_text,
};
use crate::text::{begins_with, contains_chars, has_substring, starts_with_chars, str_to_chars,
    trim_spec};
use crate::checker::{is_comment_line, line_is_comment, per_line_upto};

// --- Shebang ---

/// A non-empty script whose first line does not start `#!` draws an Error;
/// one whose shebang mentions neither `bash` nor `sh` draws a Warning.
pub open spec fn shebang_issues(lines: Seq<Seq<char>>, lang: Language) -> Seq<IssueV> {
    if lines.len() == 0 {
        Seq::empty()
    } else if !begins_with(lines[0], "#!"@) {
        seq![
            IssueV {
                line: 1,
                severity: Severity::Error,
                category: cat_syntax_text(lang),
                message: msg_missing_shebang_text(lang),
            },
        ]
    } else if !has_substring(lines[0], "bash"@) && !has_substring(lines[0], "sh"@) {
        seq![
            IssueV {
                line: 1,
                severity: Severity::Warning,
                category: cat_syntax_text(lang),
                message: msg_invalid_shebang_text(lang),
            },
        ]
    } else {
        Seq::empty()
    }
}

fn check_shebang(parser: &ScriptParser, report: &mut Report, language: &Language)
    requires
        parser.wf(),
    ensures
        final(report)@ == old(report)@ + shebang_issues(parser@, *language),
{
    let lines = parser.lines();
    if lines.len() > 0 {
        let first = &lines[0];
        let needle_mark = str_to_chars("#!");
        let needle_bash = str_to_chars("bash");
        let needle_sh = str_to_chars("sh");
        if !starts_with_chars(&first.content, &needle_mark) {
            report.add_issue(
                1,
                Severity::Error,
                cat_syntax().get(language),
                msg_missing_shebang().get(language),
            );
        } else if !contains_chars(&first.content, &needle_bash) && !contains_chars(
            &first.content,
            &needle_sh,
        ) {
            report.add_issue(
                1,
                Severity::Warning,
                cat_syntax().get(language),
                msg_invalid_shebang().get(language),
            );
        }
    }
    proof {
        assert(report@ =~= old(report)@ + shebang_issues(parser@, *language));
    }
}

// --- Balance scan for brackets, braces and parentheses ---

/// A pending open delimiter: the line and column where it was opened.
pub struct DelimiterFrame {
    pub line: usize,
    pub col: usize,
}

impl View for DelimiterFrame {
    type V = (int, int);

    open spec fn view(&self) -> (int, int) {
        (self.line as int, self.col as int)
    }
}

/// The views of a stack of frames, bottom first.
pub open spec fn frame_views(frames: Seq<DelimiterFrame>) -> Seq<(int, int)> {
    frames.map_values(|fr: DelimiterFrame| fr@)
}

/// The balance scanner's state: one pending-frame stack per delimiter kind,
/// and the lines of the unmatched `]` reports emitted so far, in order.
#[verifier::ext_equal]
pub ghost struct ScanState {
    pub brackets: Seq<(int, int)>,
    pub braces: Seq<(int, int)>,
    pub parens: Seq<(int, int)>,
    pub unmatched: Seq<int>,
}

/// The scanner's step for one character: `[` always pushes; `]` pops or,
/// on an empty stack, reports; `{` and `(` push only when not preceded by
/// `$`; `}` and `)` pop silently when their stack is non-empty.
pub open spec fn scan_char(st: ScanState, line_no: int, l: Seq<char>, idx: int) -> ScanState {
    let c = l[idx];
    if c == '[' {
        ScanState {
            brackets: st.brackets.push((line_no, idx)),
            braces: st.braces,
            parens: st.parens,
            unmatched: st.unmatched,
        }
    } else if c == ']' {
        if st.brackets.len() == 0 {
            ScanState {
                brackets: st.brackets,
                braces: st.braces,
                parens: st.parens,
                unmatched: st.unmatched.push(line_no),
            }
        } else {
            ScanState {
                brackets: st.brackets.drop_last(),
                braces: st.braces,
                parens: st.parens,
                unmatched: st.unmatched,
            }
        }
    } else if c == '{' && (idx == 0 || l[idx - 1] != '$') {
        ScanState {
            brackets: st.brackets,
            braces: st.braces.push((line_no, idx)),
            parens: st.parens,
            unmatched: st.unmatched,
        }
    } else if c == '}' {
        if st.braces.len() > 0 {
            ScanState {
                brackets: st.brackets,
                braces: st.braces.drop_last(),
                parens: st.parens,
                unmatched: st.unmatched,
            }
        } else {
            st
        }
    } else if c == '(' && (idx == 0 || l[idx - 1] != '$') {
        ScanState {
            brackets: st.brackets,
            braces: st.braces,
            parens: st.parens.push((line_no, idx)),
            unmatched: st.unmatched,
        }
    } else if c == ')' {
        if st.parens.len() > 0 {
            ScanState {
                brackets: st.brackets,
                braces: st.braces,
                parens: st.parens.drop_last(),
                unmatched: st.unmatched,
            }
        } else {
            st
        }
    } else {
        st
    }
}

/// The scanner's state after the first `n` characters of one line.
pub open spec fn scan_line_upto(st: ScanState, line_no: int, l: Seq<char>, n: int) -> ScanState
    decreases n,
{
    if n <= 0 {
        st
    } else {
        scan_char(scan_line_upto(st, line_no, l, n - 1), line_no, l, n - 1)
    }
}

/// The scanner's state after the first `n` lines: comment lines contribute
/// nothing, and the stacks persist across lines.
pub open spec fn scan_lines_upto(lines: Seq<Seq<char>>, n: int) -> ScanState
    decreases n,
{
    if n <= 0 {
        ScanState {
            brackets: Seq::empty(),
            braces: Seq::empty(),
            parens: Seq::empty(),
            unmatched: Seq::empty(),
        }
    } else {
        let st = scan_lines_upto(lines, n - 1);
        if is_comment_line(lines[n - 1]) {
            st
        } else {
            scan_line_upto(st, n, lines[n - 1], lines[n - 1].len() as int)
        }
    }
}

/// The Error reported at scan time for an unmatched `]`.
pub open spec fn unmatched_issue(lang: Language) -> spec_fn(int) -> IssueV {
    |ln: int|
        IssueV {
            line: ln,
            severity: Severity::Error,
            category: cat_syntax_text(lang),
            message: msg_unmatched_bracket_text(lang),
        }
}

/// The Error reported at end of scan for a frame still pending, carrying
/// the line where it was opened.
pub open spec fn unclosed_issue(lang: Language, msg: Seq<char>) -> spec_fn((int, int)) -> IssueV {
    |fr: (int, int)|
        IssueV { line: fr.0, severity: Severity::Error, category: cat_syntax_text(lang), message: msg }
}

/// Every issue of the balance scan, in report order: unmatched closers in
/// scan order, then each stack's remaining frames in the order opened.
pub open spec fn bracket_issues(lines: Seq<Seq<char>>, lang: Language) -> Seq<IssueV> {
    let st = scan_lines_upto(lines, lines.len() as int);
    st.unmatched.map_values(unmatched_issue(lang)) + st.brackets.map_values(
        unclosed_issue(lang, msg_unclosed_bracket_text(lang)),
    ) + st.braces.map_values(unclosed_issue(lang, msg_unclosed_brace_text(lang)))
        + st.parens.map_values(unclosed_issue(lang, msg_unclosed_paren_text(lang)))
}

fn check_brackets(parser: &ScriptParser, report: &mut Report, language: &Language)
    requires
        parser.wf(),
    ensures
        final(report)@ == old(report)@ + bracket_issues(parser@, *language),
{
    let lines = parser.lines();
    let n = lines.len();
    let mut bracket_stack: Vec<DelimiterFrame> = Vec::new();
    let mut brace_stack: Vec<DelimiterFrame> = Vec::new();
    let mut paren_stack: Vec<DelimiterFrame> = Vec::new();
    let mut i: usize = 0;
    proof {
        assert(frame_views(bracket_stack@) =~= Seq::<(int, int)>::empty());
        assert(frame_views(brace_stack@) =~= Seq::<(int, int)>::empty());
        assert(frame_views(paren_stack@) =~= Seq::<(int, int)>::empty());
        assert(Seq::<int>::empty().map_values(unmatched_issue(*language)) =~= Seq::<
            IssueV,
        >::empty());
        assert(report@ =~= old(report)@ + Seq::<IssueV>::empty());
    }
    while i < n
        invariant
            n == lines@.len(),
            n == parser@.len(),
            i <= n,
            forall|j: int| 0 <= j < n ==> (#[trigger] lines@[j])@.content == parser@[j],
            forall|j: int|
                0 <= j < n ==> (#[trigger] lines@[j])@.number == j + 1 && lines@[j]@.trimmed
                    == trim_spec(parser@[j]),
            frame_views(bracket_stack@) == scan_lines_upto(parser@, i as int).brackets,
            frame_views(brace_stack@) == scan_lines_upto(parser@, i as int).braces,
            frame_views(paren_stack@) == scan_lines_upto(parser@, i as int).parens,
            report@ == old(report)@ + scan_lines_upto(parser@, i as int).unmatched.map_values(
                unmatched_issue(*language),
            ),
        decreases n - i,
    {
        let line = &lines[i];
        let ghost l = parser@[i as int];
        let ghost st0 = scan_lines_upto(parser@, i as int);
        if !line_is_comment(line) {
            let len = line.content.len();
            let mut idx: usize = 0;
            while idx < len
                invariant
                    n == lines@.len(),
                    n == parser@.len(),
                    i < n,
                    len == l.len(),
                    idx <= len,
                    l == parser@[i as int],
                    lines@[i as int]@.content == l,
                    lines@[i as int]@.number == i + 1,
                    line.content@ == l,
                    line.number == i + 1,
                    st0 == scan_lines_upto(parser@, i as int),
                    frame_views(bracket_stack@) == scan_line_upto(
                        st0,
                        i + 1,
                        l,
                        idx as int,
                    ).brackets,
                    frame_views(brace_stack@) == scan_line_upto(st0, i + 1, l, idx as int).braces,
                    frame_views(paren_stack@) == scan_line_upto(st0, i + 1, l, idx as int).parens,
                    report@ == old(report)@ + scan_line_upto(
                        st0,
                        i + 1,
                        l,
                        idx as int,
                    ).unmatched.map_values(unmatched_issue(*language)),
                decreases len - idx,
            {
                let ghost st_cur = scan_line_upto(st0, i + 1, l, idx as int);
                let ghost st_next = scan_char(st_cur, i + 1, l, idx as int);
                proof {
                    assert(scan_line_upto(st0, i + 1, l, idx + 1) == st_next);
                }
                let c = line.content[idx];
                if c == '[' {
                    bracket_stack.push(DelimiterFrame { line: line.number, col: idx });
                    proof {
                        assert(frame_views(bracket_stack@) =~= st_cur.brackets.push(
                            ((i + 1) as int, idx as int),
                        ));
                    }
                } else if c == ']' {
                    if bracket_stack.len() == 0 {
                        report.add_issue(
                            line.number,
                            Severity::Error,
                            cat_syntax().get(language),
                            msg_unmatched_bracket().get(language),
                        );
                        proof {
                            assert(st_cur.brackets.len() == 0);
                            assert(st_cur.unmatched.push((i + 1) as int).map_values(
                                unmatched_issue(*language),
                            ) =~= st_cur.unmatched.map_values(unmatched_issue(*language)).push(
                                unmatched_issue(*language)((i + 1) as int),
                            ));
                            assert(report@ =~= old(report)@ + st_next.unmatched.map_values(
                                unmatched_issue(*language),
                            ));
                        }
                    } else {
                        let _ = bracket_stack.pop();
                        proof {
                            assert(st_cur.brackets.len() > 0);
                            assert(frame_views(bracket_stack@) =~= st_cur.brackets.drop_last());
                        }
                    }
                } else if c == '{' {
                    if idx == 0 || line.content[idx - 1] != '$' {
                        brace_stack.push(DelimiterFrame { line: line.number, col: idx });
                        proof {
                            assert(frame_views(brace_stack@) =~= st_cur.braces.push(
                                ((i + 1) as int, idx as int),
                            ));
                        }
                    }
                } else if c == '}' {
                    if brace_stack.len() > 0 {
                        let _ = brace_stack.pop();
                        proof {
                            assert(st_cur.braces.len() > 0);
                            assert(frame_views(brace_stack@) =~= st_cur.braces.drop_last());
                        }
                    }
                } else if c == '(' {
                    if idx == 0 || line.content[idx - 1] != '$' {
                        paren_stack.push(DelimiterFrame { line: line.number, col: idx });
                        proof {
                            assert(frame_views(paren_stack@) =~= st_cur.parens.push(
                                ((i + 1) as int, idx as int),
                            ));
                        }
                    }
                } else if c == ')' {
                    if paren_stack.len() > 0 {
                        let _ = paren_stack.pop();
                        proof {
                            assert(st_cur.parens.len() > 0);
                            assert(frame_views(paren_stack@) =~= st_cur.parens.drop_last());
                        }
                    }
                }
                proof {
                    assert(frame_views(bracket_stack@) == st_next.brackets);
                    assert(frame_views(brace_stack@) == st_next.braces);
                    assert(frame_views(paren_stack@) == st_next.parens);
                    assert(report@ == old(report)@ + st_next.unmatched.map_values(
                        unmatched_issue(*language),
                    ));
                }
                idx += 1;
            }
            proof {
                assert(scan_lines_upto(parser@, i + 1) == scan_line_upto(
                    st0,
                    i + 1,
                    l,
                    l.len() as int,
                ));
            }
        } else {
            proof {
                assert(scan_lines_upto(parser@, i + 1) == st0);
            }
        }
        i += 1;
    }
    let ghost st = scan_lines_upto(parser@, n as int);
    let ghost base = old(report)@ + st.unmatched.map_values(unmatched_issue(*language));
    let mut k: usize = 0;
    while k < bracket_stack.len()
        invariant
            frame_views(bracket_stack@) == st.brackets,
            k <= bracket_stack@.len(),
            report@ == base + st.brackets.subrange(0, k as int).map_values(
                unclosed_issue(*language, msg_unclosed_bracket_text(*language)),
            ),
        decreases bracket_stack@.len() - k,
    {
        let frame_line = bracket_stack[k].line;
        report.add_issue(
            frame_line,
            Severity::Error,
            cat_syntax().get(language),
            msg_unclosed_bracket().get(language),
        );
        proof {
            let g = unclosed_issue(*language, msg_unclosed_bracket_text(*language));
            assert(frame_views(bracket_stack@)[k as int] == bracket_stack@[k as int]@);
            assert(st.brackets.subrange(0, k + 1) =~= st.brackets.subrange(0, k as int).push(
                st.brackets[k as int],
            ));
            assert(st.brackets.subrange(0, k + 1).map_values(g) =~= st.brackets.subrange(
                0,
                k as int,
            ).map_values(g).push(g(st.brackets[k as int])));
            assert(report@ =~= base + st.brackets.subrange(0, k + 1).map_values(g));
        }
        k += 1;
    }
    proof {
        assert(st.brackets.subrange(0, st.brackets.len() as int) =~= st.brackets);
    }
    let ghost base2 = base + st.brackets.map_values(
        unclosed_issue(*language, msg_unclosed_bracket_text(*language)),
    );
    let mut k: usize = 0;
    while k < brace_stack.len()
        invariant
            frame_views(brace_stack@) == st.braces,
            k <= brace_stack@.len(),
            report@ == base2 + st.braces.subrange(0, k as int).map_values(
                unclosed_issue(*language, msg_unclosed_brace_text(*language)),
            ),
        decreases brace_stack@.len() - k,
    {
        let frame_line = brace_stack[k].line;
        report.add_issue(
            frame_line,
            Severity::Error,
            cat_syntax().get(language),
            msg_unclosed_brace().get(language),
        );
        proof {
            let g = unclosed_issue(*language, msg_unclosed_brace_text(*language));
            assert(frame_views(brace_stack@)[k as int] == brace_stack@[k as int]@);
            assert(st.braces.subrange(0, k + 1) =~= st.braces.subrange(0, k as int).push(
                st.braces[k as int],
            ));
            assert(st.braces.subrange(0, k + 1).map_values(g) =~= st.braces.subrange(
                0,
                k as int,
            ).map_values(g).push(g(st.braces[k as int])));
            assert(report@ =~= base2 + st.braces.subrange(0, k + 1).map_values(g));
        }
        k += 1;
    }
    proof {
        assert(st.braces.subrange(0, st.braces.len() as int) =~= st.braces);
    }
    let ghost base3 = base2 + st.braces.map_values(
        unclosed_issue(*language, msg_unclosed_brace_text(*language)),
    );
    let mut k: usize = 0;
    while k < paren_stack.len()
        invariant
            frame_views(paren_stack@) == st.parens,
            k <= paren_stack@.len(),
            report@ == base3 + st.parens.subrange(0, k as int).map_values(
                unclosed_issue(*language, msg_unclosed_paren_text(*language)),
            ),
        decreases paren_stack@.len() - k,
    {
        let frame_line = paren_stack[k].line;
        report.add_issue(
            frame_line,
            Severity::Error,
            cat_syntax().get(language),
            msg_unclosed_paren().get(language),
        );
        proof {
            let g = unclosed_issue(*language, msg_unclosed_paren_text(*language));
            assert(frame_views(paren_stack@)[k as int] == paren_stack@[k as int]@);
            assert(st.parens.subrange(0, k + 1) =~= st.parens.subrange(0, k as int).push(
                st.parens[k as int],
            ));
            assert(st.parens.subrange(0, k + 1).map_values(g) =~= st.parens.subrange(
                0,
                k as int,
            ).map_values(g).push(g(st.parens[k as int])));
            assert(report@ =~= base3 + st.parens.subrange(0, k + 1).map_values(g));
        }
        k += 1;
    }
    proof {
        assert(st.parens.subrange(0, st.parens.len() as int) =~= st.parens);
        crate::checker::lemma_concat4(
            old(report)@,
            st.unmatched.map_values(unmatched_issue(*language)),
            st.brackets.map_values(unclosed_issue(*language, msg_unclosed_bracket_text(*language))),
            st.braces.map_values(unclosed_issue(*language, msg_unclosed_brace_text(*language))),
            st.parens.map_values(unclosed_issue(*language, msg_unclosed_paren_text(*language))),
        );
    }
}

// --- Quotes ---

/// The quote tracker's step for one character: a pending escape swallows
/// the character; a backslash arms the escape; quotes toggle only outside
/// the other kind of quote. The state is (in single, in double, escape).
pub open spec fn quote_step(st: (bool, bool, bool), c: char) -> (bool, bool, bool) {
    if st.2 {
        (st.0, st.1, false)
    } else if c == '\\' {
        (st.0, st.1, true)
    } else if c == '\'' && !st.1 {
        (!st.0, st.1, false)
    } else if c == '"' && !st.0 {
        (st.0, !st.1, false)
    } else {
        st
    }
}

/// The quote tracker's state after the first `n` characters of a line;
/// quote state does not span lines.
pub open spec fn quote_state_upto(l: Seq<char>, n: int) -> (bool, bool, bool)
    decreases n,
{
    if n <= 0 {
        (false, false, false)
    } else {
        quote_step(quote_state_upto(l, n - 1), l[n - 1])
    }
}

/// A non-comment line still inside a quote at its end draws an Error for
/// each quote kind left open, single before double.
pub open spec fn quotes_line(lang: Language) -> spec_fn(int, Seq<char>) -> Seq<IssueV> {
    |n: int, l: Seq<char>|
        if is_comment_line(l) {
            Seq::empty()
        } else {
            (if quote_state_upto(l, l.len() as int).0 {
                seq![
                    IssueV {
                        line: n,
                        severity: Severity::Error,
                        category: cat_syntax_text(lang),
                        message: msg_unclosed_single_quote_text(lang),
                    },
                ]
            } else {
                Seq::<IssueV>::empty()
            }) + (if quote_state_upto(l, l.len() as int).1 {
                seq![
                    IssueV {
                        line: n,
                        severity: Severity::Error,
                        category: cat_syntax_text(lang),
                        message: msg_unclosed_double_quote_text(lang),
                    },
                ]
            } else {
                Seq::<IssueV>::empty()
            })
        }
}

fn check_quotes(parser: &ScriptParser, report: &mut Report, language: &Language)
    requires
        parser.wf(),
    ensures
        final(report)@ == old(report)@ + per_line_upto(
            parser@,
            parser@.len() as int,
            quotes_line(*language),
        ),
{
    let lines = parser.lines();
    let n = lines.len();
    let mut i: usize = 0;
    while i < n
        invariant
            n == lines@.len(),
            n == parser@.len(),
            i <= n,
            forall|j: int| 0 <= j < n ==> (#[trigger] lines@[j])@.content == parser@[j],
            forall|j: int|
                0 <= j < n ==> (#[trigger] lines@[j])@.number == j + 1 && lines@[j]@.trimmed
                    == trim_spec(parser@[j]),
            report@ == old(report)@ + per_line_upto(parser@, i as int, quotes_line(*language)),
        decreases n - i,
    {
        let line = &lines[i];
        let ghost l = parser@[i as int];
        let ghost f = quotes_line(*language);
        if !line_is_comment(line) {
            let len = line.content.len();
            let mut in_single_quote = false;
            let mut in_double_quote = false;
            let mut escape_next = false;
            let mut idx: usize = 0;
            while idx < len
                invariant
                    len == l.len(),
                    idx <= len,
                    lines@[i as int]@.content == l,
                    line.content@ == l,
                    i < n == lines@.len(),
                    (in_single_quote, in_double_quote, escape_next) == quote_state_upto(
                        l,
                        idx as int,
                    ),
                decreases len - idx,
            {
                let ghost st_before = quote_state_upto(l, idx as int);
                let c = line.content[idx];
                if escape_next {
                    escape_next = false;
                } else if c == '\\' {
                    escape_next = true;
                } else if c == '\'' {
                    if !in_double_quote {
                        in_single_quote = !in_single_quote;
                    }
                } else if c == '"' {
                    if !in_single_quote {
                        in_double_quote = !in_double_quote;
                    }
                }
                proof {
                    assert(quote_state_upto(l, idx + 1) == quote_step(st_before, l[idx as int]));
                }
                idx += 1;
            }
            if in_single_quote {
                report.add_issue(
                    line.number,
                    Severity::Error,
                    cat_syntax().get(language),
                    msg_unclosed_single_quote().get(language),
                );
            }
            if in_double_quote {
                report.add_issue(
                    line.number,
                    Severity::Error,
                    cat_syntax().get(language),
                    msg_unclosed_double_quote().get(language),
                );
            }
            proof {
                assert(report@ =~= old(report)@ + per_line_upto(parser@, i + 1, f));
            }
        } else {
            proof {
                assert(f(i + 1, l) =~= Seq::<IssueV>::empty());
                assert(report@ =~= old(report)@ + per_line_upto(parser@, i + 1, f));
            }
        }
        i += 1;
    }
}

// --- Unterminated expansion openers ---

/// A `$` followed by `open_c` stands at `i`, and no `close_c` follows it
/// through the end of the line.
pub open spec fn unclosed_expansion_at(l: Seq<char>, i: int, open_c: char, close_c: char) -> bool {
    &&& 0 <= i
    &&& i + 1 < l.len()
    &&& l[i] == '$'
    &&& l[i + 1] == open_c
    &&& forall|j: int| i + 2 <= j < l.len() ==> l[j] != close_c
}

pub open spec fn has_unclosed_expansion(l: Seq<char>, open_c: char, close_c: char) -> bool {
    exists|i: int| unclosed_expansion_at(l, i, open_c, close_c)
}

/// Some `$open_c` among the first `k` characters has seen no `close_c`
/// since.
pub open spec fn pending_open_upto(l: Seq<char>, k: int, open_c: char, close_c: char) -> bool {
    exists|i: int|
        {
            &&& 0 <= i < k
            &&& i + 1 < l.len()
            &&& #[trigger] l[i] == '$'
            &&& l[i + 1] == open_c
            &&& forall|j: int| i + 2 <= j < k ==> l[j] != close_c
        }
}

/// Whether the line ends with an unterminated `$open_c` opener.
fn line_has_unclosed(content: &Vec<char>, open_c: char, close_c: char) -> (r: bool)
    requires
        open_c != close_c,
        close_c != '$',
    ensures
        r == has_unclosed_expansion(content@, open_c, close_c),
{
    let len = content.len();
    let mut pending = false;
    let mut k: usize = 0;
    while k < len
        invariant
            len == content@.len(),
            k <= len,
            open_c != close_c,
            close_c != '$',
            pending == pending_open_upto(content@, k as int, open_c, close_c),
        decreases len - k,
    {
        let ghost l = content@;
        let ghost old_pending = pending;
        let c = content[k];
        pending = (pending && c != close_c) || (c == '$' && k + 1 < len && content[k + 1]
            == open_c);
        proof {
            let ki = k as int;
            if c == '$' && ki + 1 < l.len() && l[ki + 1] == open_c {
                assert({
                    &&& 0 <= ki < ki + 1
                    &&& ki + 1 < l.len()
                    &&& l[ki] == '$'
                    &&& l[ki + 1] == open_c
                    &&& forall|j: int| ki + 2 <= j < ki + 1 ==> l[j] != close_c
                });
                assert(pending_open_upto(l, ki + 1, open_c, close_c));
            }
            if old_pending && c != close_c {
                let w = choose|i: int|
                    {
                        &&& 0 <= i < ki
                        &&& i + 1 < l.len()
                        &&& #[trigger] l[i] == '$'
                        &&& l[i + 1] == open_c
                        &&& forall|j: int| i + 2 <= j < ki ==> l[j] != close_c
                    };
                assert(forall|j: int| w + 2 <= j < ki + 1 ==> l[j] != close_c);
                assert(pending_open_upto(l, ki + 1, open_c, close_c));
            }
            if pending_open_upto(l, ki + 1, open_c, close_c) {
                let w = choose|i: int|
                    {
                        &&& 0 <= i < ki + 1
                        &&& i + 1 < l.len()
                        &&& #[trigger] l[i] == '$'
                        &&& l[i + 1] == open_c
                        &&& forall|j: int| i + 2 <= j < ki + 1 ==> l[j] != close_c
                    };
                if w == ki {
                    assert(c == '$' && ki + 1 < l.len() && l[ki + 1] == open_c);
                } else {
                    assert(0 <= w < ki);
                    assert(pending_open_upto(l, ki, open_c, close_c));
                    if w == ki - 1 {
                        assert(l[ki] == open_c);
                        assert(c == l[ki]);
                        assert(c != close_c);
                    } else {
                        assert(w + 2 <= ki < ki + 1);
                        assert(l[ki] != close_c);
                        assert(c == l[ki]);
                        assert(c != close_c);
                    }
                }
            }
        }
        k += 1;
    }
    proof {
        if pending {
            let w = choose|i: int|
                {
                    &&& 0 <= i < len as int
                    &&& i + 1 < content@.len()
                    &&& #[trigger] content@[i] == '$'
                    &&& content@[i + 1] == open_c
                    &&& forall|j: int| i + 2 <= j < len as int ==> content@[j] != close_c
                };
            assert(unclosed_expansion_at(content@, w, open_c, close_c));
        }
        if has_unclosed_expansion(content@, open_c, close_c) {
            let w = choose|i: int| unclosed_expansion_at(content@, i, open_c, close_c);
            assert({
                &&& 0 <= w < len as int
                &&& w + 1 < content@.len()
                &&& content@[w] == '$'
                &&& content@[w + 1] == open_c
                &&& forall|j: int| w + 2 <= j < len as int ==> content@[j] != close_c
            });
            assert(pending_open_upto(content@, len as int, open_c, close_c));
        }
    }
    pending
}

/// A non-comment line ending inside `${...}` draws an Error, and one
/// ending inside `$(...)` another; both can fire on one line.
pub open spec fn expansion_line(lang: Language) -> spec_fn(int, Seq<char>) -> Seq<IssueV> {
    |n: int, l: Seq<char>|
        if is_comment_line(l) {
            Seq::empty()
        } else {
            (if has_unclosed_expansion(l, '{', '}') {
                seq![
                    IssueV {
                        line: n,
                        severity: Severity::Error,
                        category: cat_syntax_text(lang),
                        message: msg_unclosed_var_expansion_text(lang),
                    },
                ]
            } else {
                Seq::<IssueV>::empty()
            }) + (if has_unclosed_expansion(l, '(', ')') {
                seq![
                    IssueV {
                        line: n,
                        severity: Severity::Error,
                        category: cat_syntax_text(lang),
                        message: msg_unclosed_cmd_subst_text(lang),
                    },
                ]
            } else {
                Seq::<IssueV>::empty()
            })
        }
}

fn check_variable_expansion(parser: &ScriptParser, report: &mut Report, language: &Language)
    requires
        parser.wf(),
    ensures
        final(report)@ == old(report)@ + per_line_upto(
            parser@,
            parser@.len() as int,
            expansion_line(*language),
        ),
{
    let lines = parser.lines();
    let n = lines.len();
    let mut i: usize = 0;
    while i < n
        invariant
            n == lines@.len(),
            n == parser@.len(),
            i <= n,
            forall|j: int| 0 <= j < n ==> (#[trigger] lines@[j])@.content == parser@[j],
            forall|j: int|
                0 <= j < n ==> (#[trigger] lines@[j])@.number == j + 1 && lines@[j]@.trimmed
                    == trim_spec(parser@[j]),
            report@ == old(report)@ + per_line_upto(parser@, i as int, expansion_line(*language)),
        decreases n - i,
    {
        let line = &lines[i];
        let ghost l = parser@[i as int];
        let ghost f = expansion_line(*language);
        if !line_is_comment(line) {
            if line_has_unclosed(&line.content, '{', '}') {
                report.add_issue(
                    line.number,
                    Severity::Error,
                    cat_syntax().get(language),
                    msg_unclosed_var_expansion().get(language),
                );
            }
            if line_has_unclosed(&line.content, '(', ')') {
                report.add_issue(
                    line.number,
                    Severity::Error,
                    cat_syntax().get(language),
                    msg_unclosed_cmd_subst().get(language),
                );
            }
            proof {
                assert(report@ =~= old(report)@ + per_line_upto(parser@, i + 1, f));
            }
        } else {
            proof {
                assert(f(i + 1, l) =~= Seq::<IssueV>::empty());
                assert(report@ =~= old(report)@ + per_line_upto(parser@, i + 1, f));
            }
        }
        i += 1;
    }
}

/// Every issue of the syntax group, in report order.
pub open spec fn syntax_issues(lines: Seq<Seq<char>>, lang: Language) -> Seq<IssueV> {
    shebang_issues(lines, lang) + bracket_issues(lines, lang) + per_line_upto(
        lines,
        lines.len() as int,
        quotes_line(lang),
    ) + per_line_upto(lines, lines.len() as int, expansion_line(lang))
}

/// Runs every syntax detector, in declaration order.
pub fn check(parser: &ScriptParser, report: &mut Report, language: &Language)
    requires
        parser.wf(),
    ensures
        final(report)@ == old(report)@ + syntax_issues(parser@, *language),
{
    check_shebang(parser, report, language);
    check_brackets(parser, report, language);
    check_quotes(parser, report, language);
    check_variable_expansion(parser, report, language);
    proof {
        crate::checker::lemma_concat4(
            old(report)@,
            shebang_issues(parser@, *language),
            bracket_issues(parser@, *language),
            per_line_upto(parser@, parser@.len() as int, quotes_line(*language)),
            per_line_upto(parser@, parser@.len() as int, expansion_line(*language)),
        );
    }
}

} // verus!
