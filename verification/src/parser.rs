//! The line model: raw script text split into an ordered sequence of
//! addressable lines, each carrying its 1-based number, its verbatim content
//! and its whitespace-trimmed form.

use vstd::prelude::*;

verus! {

use crate::text::{
    begins_with, is_space, lemma_seek_past, lemma_seek_past_at, seek_past, starts_with_chars,
    str_to_chars, trim_chars, trim_spec,
};

/// Holds at every character that is not a line terminator.
pub open spec fn non_newline_pred() -> spec_fn(char) -> bool {
    |c: char| c != '\n'
}

/// `s` without a trailing carriage return, if it has one.
pub open spec fn strip_cr(s: Seq<char>) -> Seq<char> {
    if s.len() > 0 && s[s.len() - 1] == '\r' {
        s.drop_last()
    } else {
        s
    }
}

/// The text split at newline boundaries: each segment before a `'\n'` with a
/// trailing `'\r'` removed, and a final segment only if it is non-empty.
pub open spec fn line_split(text: Seq<char>) -> Seq<Seq<char>>
    decreases text.len()
    via line_split_decreases
{
    if text.len() == 0 {
        Seq::empty()
    } else {
        let k = seek_past(text, 0, non_newline_pred());
        if k == text.len() {
            seq![text]
        } else {
            seq![strip_cr(text.subrange(0, k))] + line_split(
                text.subrange(k + 1, text.len() as int),
            )
        }
    }
}

#[via_fn]
proof fn line_split_decreases(text: Seq<char>) {
    if text.len() > 0 {
        lemma_seek_past(text, 0, non_newline_pred());
    }
}

/// One line of the script: its 1-based position, its verbatim text without
/// the terminator, and that text with surrounding whitespace removed.
/// Trimming recognizes ASCII whitespace only (see
/// [`crate::text::is_space_char`]), not Unicode-only whitespace.
#[derive(Debug, Clone)]
pub struct ScriptLine {
    pub number: usize,
    pub content: Vec<char>,
    pub trimmed: Vec<char>,
}

/// The mathematical image of a script line.
#[verifier::ext_equal]
pub ghost struct ScriptLineV {
    pub number: int,
    pub content: Seq<char>,
    pub trimmed: Seq<char>,
}

impl View for ScriptLine {
    type V = ScriptLineV;

    open spec fn view(&self) -> ScriptLineV {
        ScriptLineV {
            number: self.number as int,
            content: self.content@,
            trimmed: self.trimmed@,
        }
    }
}

/// The line sequence is well formed for the given contents: numbers count up
/// from 1 in order, and each trimmed form is the content without surrounding
/// whitespace.
pub open spec fn lines_wf(lines: Seq<ScriptLineV>, contents: Seq<Seq<char>>) -> bool {
    &&& lines.len() == contents.len()
    &&& forall|i: int|
        0 <= i < lines.len() ==> {
            &&& (#[trigger] lines[i]).number == i + 1
            &&& lines[i].content == contents[i]
            &&& lines[i].trimmed == trim_spec(contents[i])
        }
}

/// The ordered, index-stable sequence of script lines for one analysis run.
pub struct ScriptParser {
    lines: Vec<ScriptLine>,
}

impl View for ScriptParser {
    type V = Seq<Seq<char>>;

    closed spec fn view(&self) -> Seq<Seq<char>> {
        self.lines@.map_values(|l: ScriptLine| l@.content)
    }
}

impl ScriptParser {
    /// The stored lines are well formed for the view's contents.
    pub closed spec fn wf(&self) -> bool {
        lines_wf(self.lines@.map_values(|l: ScriptLine| l@), self@)
    }

    /// Splits the raw text into numbered lines with precomputed trimmed
    /// forms. Never fails: empty input yields an empty sequence.
    pub fn new(content: &str) -> (p: ScriptParser)
        ensures
            p.wf(),
            p@ == line_split(content@),
    {
        let chars = str_to_chars(content);
        let n = chars.len();
        let mut lines: Vec<ScriptLine> = Vec::new();
        let mut pos: usize = 0;
        proof {
            assert(chars@.subrange(0, n as int) =~= chars@);
            assert(lines@.map_values(|l: ScriptLine| l@.content) + line_split(chars@)
                =~= line_split(chars@));
        }
        while pos < n
            invariant
                n == chars@.len(),
                pos <= n,
                lines@.len() <= pos,
                lines_wf(
                    lines@.map_values(|l: ScriptLine| l@),
                    lines@.map_values(|l: ScriptLine| l@.content),
                ),
                lines@.map_values(|l: ScriptLine| l@.content) + line_split(
                    chars@.subrange(pos as int, n as int),
                ) == line_split(chars@),
            decreases n - pos,
        {
            let ghost rest = chars@.subrange(pos as int, n as int);
            let mut k: usize = pos;
            while k < n && chars[k] != '\n'
                invariant
                    n == chars@.len(),
                    pos <= k <= n,
                    forall|j: int| pos <= j < k ==> chars@[j] != '\n',
                decreases n - k,
            {
                k += 1;
            }
            proof {
                assert forall|j: int| 0 <= j < k - pos implies (non_newline_pred())(rest[j]) by {
                    assert(rest[j] == chars@[pos + j]);
                }
                if k < n {
                    assert(rest[k - pos] == chars@[k as int]);
                }
                lemma_seek_past_at(rest, 0, non_newline_pred(), k - pos);
            }
            let mut seg: Vec<char> = Vec::new();
            let mut j: usize = pos;
            while j < k
                invariant
                    n == chars@.len(),
                    pos <= j <= k <= n,
                    seg@ == chars@.subrange(pos as int, j as int),
                decreases k - j,
            {
                seg.push(chars[j]);
                proof {
                    assert(chars@.subrange(pos as int, j as int).push(chars@[j as int])
                        =~= chars@.subrange(pos as int, j + 1));
                }
                j += 1;
            }
            let ghost raw_seg = seg@;
            proof {
                assert(raw_seg =~= rest.subrange(0, k - pos));
            }
            if k < n {
                if seg.len() > 0 && seg[seg.len() - 1] == '\r' {
                    seg.pop();
                    proof {
                        assert(seg@ =~= strip_cr(raw_seg));
                    }
                } else {
                    proof {
                        assert(seg@ =~= strip_cr(raw_seg));
                    }
                }
            }
            let ghost segv = seg@;
            let trimmed = trim_chars(&seg);
            let number = lines.len() + 1;
            let ghost old_lines = lines@;
            lines.push(ScriptLine { number, content: seg, trimmed });
            let new_pos: usize = if k < n {
                k + 1
            } else {
                n
            };
            proof {
                let f = |l: ScriptLine| l@;
                let g = |l: ScriptLine| l@.content;
                let tail = line_split(chars@.subrange(new_pos as int, n as int));
                assert(lines@.map_values(f) =~= old_lines.map_values(f).push(
                    lines@[old_lines.len() as int]@,
                ));
                assert(lines@.map_values(g) =~= old_lines.map_values(g).push(segv));
                assert(rest.len() > 0);
                if k < n {
                    assert(rest.subrange(k - pos + 1, rest.len() as int) =~= chars@.subrange(
                        new_pos as int,
                        n as int,
                    ));
                    assert(line_split(rest) == seq![segv] + tail);
                } else {
                    assert(raw_seg =~= rest);
                    assert(chars@.subrange(new_pos as int, n as int) =~= Seq::<char>::empty());
                    assert(line_split(chars@.subrange(new_pos as int, n as int))
                        =~= Seq::<Seq<char>>::empty());
                    assert(line_split(rest) == seq![segv]);
                    assert(seq![segv] + tail =~= seq![segv]);
                }
                assert(old_lines.map_values(g).push(segv) + tail =~= old_lines.map_values(g) + (
                seq![segv] + tail));
            }
            pos = new_pos;
        }
        proof {
            assert(chars@.subrange(pos as int, n as int) =~= Seq::<char>::empty());
            assert(line_split(chars@.subrange(pos as int, n as int)) =~= Seq::<Seq<char>>::empty());
            assert(lines@.map_values(|l: ScriptLine| l@.content) + Seq::<Seq<char>>::empty()
                =~= lines@.map_values(|l: ScriptLine| l@.content));
        }
        ScriptParser { lines }
    }

    /// The lines, in source order.
    pub fn lines(&self) -> (r: &Vec<ScriptLine>)
        ensures
            r@.len() == self@.len(),
            forall|i: int| 0 <= i < r@.len() ==> (#[trigger] r@[i])@.content == self@[i],
            self.wf() ==> forall|i: int|
                0 <= i < r@.len() ==> (#[trigger] r@[i])@.number == i + 1 && r@[i]@.trimmed
                    == trim_spec(self@[i]),
    {
        proof {
            let f = |l: ScriptLine| l@;
            let g = |l: ScriptLine| l@.content;
            assert forall|i: int| 0 <= i < self.lines@.len() implies (#[trigger] self.lines@[i])@.content
                == self@[i] by {
                assert(self.lines@.map_values(g)[i] == g(self.lines@[i]));
            }
            if self.wf() {
                assert forall|i: int|
                    0 <= i < self.lines@.len() implies (#[trigger] self.lines@[i])@.number == i + 1
                    && self.lines@[i]@.trimmed == trim_spec(self@[i]) by {
                    assert(self.lines@.map_values(f)[i] == f(self.lines@[i]));
                }
            }
        }
        &self.lines
    }
}

/// Whether a script's first line is a shell shebang: it names `/bin/bash`,
/// `/bin/sh`, or either via `/usr/bin/env`.
pub fn is_shell_shebang(first_line: &str) -> (r: bool)
    ensures
        r == (begins_with(first_line@, "#!/bin/bash"@) || begins_with(first_line@, "#!/bin/sh"@)
            || begins_with(first_line@, "#!/usr/bin/env bash"@) || begins_with(
            first_line@,
            "#!/usr/bin/env sh"@,
        )),
{
    let chars = str_to_chars(first_line);
    starts_with_chars(&chars, &str_to_chars("#!/bin/bash")) || starts_with_chars(
        &chars,
        &str_to_chars("#!/bin/sh"),
    ) || starts_with_chars(&chars, &str_to_chars("#!/usr/bin/env bash")) || starts_with_chars(
        &chars,
        &str_to_chars("#!/usr/bin/env sh"),
    )
}

} // verus!
