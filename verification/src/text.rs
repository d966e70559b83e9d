//! Character-level text utilities shared by the parser, the detectors and the
//! report renderer: character classes, prefix and substring predicates, runs
//! of characters drawn from a class, whitespace trimming, and rendering of
//! decimal numbers.

use vstd::prelude::*;

verus! {

use vstd::std_specs::iter::IteratorSpec;

// --- Character classes ---

/// The whitespace characters the checker recognizes: the ASCII whitespace
/// class (space, tab, carriage return, newline, vertical tab, form feed).
/// Unicode-only whitespace such as a no-break space is not included, so
/// trimming and comment detection treat it as ordinary text.
pub open spec fn is_space_char(c: char) -> bool {
    c == ' ' || c == '\t' || c == '\r' || c == '\n' || c == '\u{b}' || c == '\u{c}'
}

pub open spec fn is_lower_char(c: char) -> bool {
    'a' as u32 <= c as u32 && c as u32 <= 'z' as u32
}

pub open spec fn is_upper_char(c: char) -> bool {
    'A' as u32 <= c as u32 && c as u32 <= 'Z' as u32
}

pub open spec fn is_digit_char(c: char) -> bool {
    '0' as u32 <= c as u32 && c as u32 <= '9' as u32
}

/// First character of an identifier: a letter or an underscore.
pub open spec fn is_ident_start_char(c: char) -> bool {
    is_lower_char(c) || is_upper_char(c) || c == '_'
}

/// Later character of an identifier: a letter, a digit or an underscore.
pub open spec fn is_ident_char(c: char) -> bool {
    is_ident_start_char(c) || is_digit_char(c)
}

/// Character admitted in an environment-style variable name: an uppercase
/// letter, a digit or an underscore.
pub open spec fn is_upper_name_char(c: char) -> bool {
    is_upper_char(c) || is_digit_char(c) || c == '_'
}

pub fn is_space(c: char) -> (r: bool)
    ensures
        r == is_space_char(c),
{
    c == ' ' || c == '\t' || c == '\r' || c == '\n' || c == '\u{b}' || c == '\u{c}'
}

pub fn is_upper(c: char) -> (r: bool)
    ensures
        r == is_upper_char(c),
{
    let u = c as u32;
    'A' as u32 <= u && u <= 'Z' as u32
}

pub fn is_ident_start(c: char) -> (r: bool)
    ensures
        r == is_ident_start_char(c),
{
    let u = c as u32;
    ('a' as u32 <= u && u <= 'z' as u32) || ('A' as u32 <= u && u <= 'Z' as u32) || c == '_'
}

pub fn is_ident(c: char) -> (r: bool)
    ensures
        r == is_ident_char(c),
{
    is_ident_start(c) || { let u = c as u32; '0' as u32 <= u && u <= '9' as u32 }
}

pub fn is_upper_name(c: char) -> (r: bool)
    ensures
        r == is_upper_name_char(c),
{
    let u = c as u32;
    ('A' as u32 <= u && u <= 'Z' as u32) || ('0' as u32 <= u && u <= '9' as u32) || c == '_'
}

// --- Prefix and substring predicates ---

/// `s` begins with the prefix `p`.
pub open spec fn begins_with(s: Seq<char>, p: Seq<char>) -> bool {
    p.len() <= s.len() && s.subrange(0, p.len() as int) == p
}

/// The needle `n` occurs in `s` at position `i`.
pub open spec fn match_at(s: Seq<char>, n: Seq<char>, i: int) -> bool {
    0 <= i && i + n.len() <= s.len() && s.subrange(i, i + n.len() as int) == n
}

/// The needle `n` occurs somewhere in `s`.
pub open spec fn has_substring(s: Seq<char>, n: Seq<char>) -> bool {
    exists|i: int| match_at(s, n, i)
}

/// Whether `n` occurs in `s` at position `i`.
pub fn matches_at(s: &Vec<char>, n: &Vec<char>, i: usize) -> (r: bool)
    requires
        i + n@.len() <= s@.len(),
    ensures
        r == match_at(s@, n@, i as int),
{
    let sl = s.len();
    let mut j: usize = 0;
    while j < n.len()
        invariant
            sl == s@.len(),
            i + n@.len() <= s@.len(),
            j <= n@.len(),
            forall|k: int| 0 <= k < j ==> s@[i + k] == n@[k],
        decreases n@.len() - j,
    {
        if s[i + j] != n[j] {
            proof {
                if match_at(s@, n@, i as int) {
                    assert(s@.subrange(i as int, i + n@.len() as int)[j as int] == n@[j as int]);
                }
            }
            return false;
        }
        j += 1;
    }
    proof {
        assert(s@.subrange(i as int, i + n@.len() as int) =~= n@);
    }
    true
}

/// Whether the needle `n` occurs anywhere in `s`.
pub fn contains_chars(s: &Vec<char>, n: &Vec<char>) -> (r: bool)
    ensures
        r == has_substring(s@, n@),
{
    if n.len() > s.len() {
        proof {
            assert forall|i: int| !match_at(s@, n@, i) by {}
        }
        return false;
    }
    let last: usize = s.len() - n.len();
    let mut i: usize = 0;
    while i < last
        invariant
            n@.len() <= s@.len(),
            last == s@.len() - n@.len(),
            i <= last,
            forall|k: int| 0 <= k < i ==> !match_at(s@, n@, k),
        decreases last - i,
    {
        if matches_at(s, n, i) {
            return true;
        }
        i += 1;
    }
    if matches_at(s, n, last) {
        return true;
    }
    proof {
        assert forall|k: int| !match_at(s@, n@, k) by {
            if 0 <= k && k + n@.len() <= s@.len() {
                assert(k <= last);
            }
        }
    }
    false
}

/// Whether `s` begins with the prefix `p`.
pub fn starts_with_chars(s: &Vec<char>, p: &Vec<char>) -> (r: bool)
    ensures
        r == begins_with(s@, p@),
{
    if p.len() > s.len() {
        return false;
    }
    matches_at(s, p, 0)
}

// --- Runs of characters from a class ---

pub open spec fn space_pred() -> spec_fn(char) -> bool {
    |c: char| is_space_char(c)
}

pub open spec fn ident_pred() -> spec_fn(char) -> bool {
    |c: char| is_ident_char(c)
}

pub open spec fn upper_name_pred() -> spec_fn(char) -> bool {
    |c: char| is_upper_name_char(c)
}

/// The first index at or after `i` whose character does not satisfy `p`
/// (the length of `s` if every remaining character satisfies `p`).
pub open spec fn seek_past(s: Seq<char>, i: int, p: spec_fn(char) -> bool) -> int
    decreases s.len() - i
    when 0 <= i <= s.len()
{
    if i >= s.len() {
        i
    } else if p(s[i]) {
        seek_past(s, i + 1, p)
    } else {
        i
    }
}

pub proof fn lemma_seek_past(s: Seq<char>, i: int, p: spec_fn(char) -> bool)
    requires
        0 <= i <= s.len(),
    ensures
        i <= seek_past(s, i, p) <= s.len(),
        forall|j: int| i <= j < seek_past(s, i, p) ==> p(s[j]),
        seek_past(s, i, p) == s.len() || !p(s[seek_past(s, i, p)]),
    decreases s.len() - i,
{
    if i < s.len() && p(s[i]) {
        lemma_seek_past(s, i + 1, p);
    }
}

pub proof fn lemma_seek_past_at(s: Seq<char>, i: int, p: spec_fn(char) -> bool, r: int)
    requires
        0 <= i <= r <= s.len(),
        forall|j: int| i <= j < r ==> p(s[j]),
        r == s.len() || !p(s[r]),
    ensures
        seek_past(s, i, p) == r,
    decreases r - i,
{
    if i < r {
        lemma_seek_past_at(s, i + 1, p, r);
    }
}

/// The largest index at or below `i` whose character does not satisfy `p`
/// (`-1` if every character at or below `i` satisfies `p`).
pub open spec fn seek_back_past(s: Seq<char>, i: int, p: spec_fn(char) -> bool) -> int
    decreases i + 1
    when i < s.len()
{
    if i < 0 {
        -1
    } else if p(s[i]) {
        seek_back_past(s, i - 1, p)
    } else {
        i
    }
}

pub proof fn lemma_seek_back_past_at(s: Seq<char>, i: int, p: spec_fn(char) -> bool, r: int)
    requires
        -1 <= r <= i < s.len(),
        forall|j: int| r < j <= i ==> p(s[j]),
        r == -1 || !p(s[r]),
    ensures
        seek_back_past(s, i, p) == r,
    decreases i - r,
{
    if r < i {
        lemma_seek_back_past_at(s, i - 1, p, r);
    }
}

/// `s` holds at least one uppercase letter.
pub open spec fn has_upper(s: Seq<char>) -> bool {
    exists|i: int| 0 <= i < s.len() && is_upper_char(s[i])
}

/// Whether `s` holds at least one uppercase letter.
pub fn contains_upper(s: &Vec<char>) -> (r: bool)
    ensures
        r == has_upper(s@),
{
    let mut i: usize = 0;
    while i < s.len()
        invariant
            i <= s@.len(),
            forall|j: int| 0 <= j < i ==> !is_upper_char(s@[j]),
        decreases s@.len() - i,
    {
        if is_upper(s[i]) {
            return true;
        }
        i += 1;
    }
    false
}

/// The first index at or after `from` holding a non-whitespace character.
pub fn seek_spaces(s: &Vec<char>, from: usize) -> (r: usize)
    requires
        from <= s@.len(),
    ensures
        from <= r <= s@.len(),
        r as int == seek_past(s@, from as int, space_pred()),
{
    let mut i = from;
    while i < s.len() && is_space(s[i])
        invariant
            from <= i <= s@.len(),
            forall|j: int| from <= j < i ==> is_space_char(s@[j]),
        decreases s@.len() - i,
    {
        i += 1;
    }
    proof {
        lemma_seek_past_at(s@, from as int, space_pred(), i as int);
    }
    i
}

/// The first index at or after `from` holding a non-identifier character.
pub fn seek_idents(s: &Vec<char>, from: usize) -> (r: usize)
    requires
        from <= s@.len(),
    ensures
        from <= r <= s@.len(),
        r as int == seek_past(s@, from as int, ident_pred()),
{
    let mut i = from;
    while i < s.len() && is_ident(s[i])
        invariant
            from <= i <= s@.len(),
            forall|j: int| from <= j < i ==> is_ident_char(s@[j]),
        decreases s@.len() - i,
    {
        i += 1;
    }
    proof {
        lemma_seek_past_at(s@, from as int, ident_pred(), i as int);
    }
    i
}

/// The first index at or after `from` holding a character outside the
/// uppercase-name class.
pub fn seek_upper_names(s: &Vec<char>, from: usize) -> (r: usize)
    requires
        from <= s@.len(),
    ensures
        from <= r <= s@.len(),
        r as int == seek_past(s@, from as int, upper_name_pred()),
{
    let mut i = from;
    while i < s.len() && is_upper_name(s[i])
        invariant
            from <= i <= s@.len(),
            forall|j: int| from <= j < i ==> is_upper_name_char(s@[j]),
        decreases s@.len() - i,
    {
        i += 1;
    }
    proof {
        lemma_seek_past_at(s@, from as int, upper_name_pred(), i as int);
    }
    i
}

/// The characters of `s` from `a` (inclusive) to `b` (exclusive).
pub fn copy_range(s: &Vec<char>, a: usize, b: usize) -> (r: Vec<char>)
    requires
        a <= b <= s@.len(),
    ensures
        r@ == s@.subrange(a as int, b as int),
{
    let mut r: Vec<char> = Vec::new();
    let mut i = a;
    while i < b
        invariant
            a <= i <= b <= s@.len(),
            r@ == s@.subrange(a as int, i as int),
        decreases b - i,
    {
        r.push(s[i]);
        proof {
            assert(s@.subrange(a as int, i as int).push(s@[i as int]) =~= s@.subrange(
                a as int,
                i + 1,
            ));
        }
        i += 1;
    }
    r
}

// --- Trimming ---

/// `s` with leading and trailing whitespace removed. Whitespace is the
/// ASCII class of [`is_space_char`]: a line led by Unicode-only whitespace
/// is not trimmed.
pub open spec fn trim_spec(s: Seq<char>) -> Seq<char> {
    let a = seek_past(s, 0, space_pred());
    let b = seek_back_past(s, s.len() - 1, space_pred());
    if b < a {
        Seq::empty()
    } else {
        s.subrange(a, b + 1)
    }
}

pub fn trim_chars(s: &Vec<char>) -> (t: Vec<char>)
    ensures
        t@ == trim_spec(s@),
{
    let mut a: usize = 0;
    while a < s.len() && is_space(s[a])
        invariant
            a <= s@.len(),
            forall|j: int| 0 <= j < a ==> is_space_char(s@[j]),
        decreases s@.len() - a,
    {
        a += 1;
    }
    proof {
        lemma_seek_past_at(s@, 0, space_pred(), a as int);
    }
    if a == s.len() {
        proof {
            assert(seek_back_past(s@, s@.len() - 1, space_pred()) < a as int) by {
                if s@.len() > 0 {
                    lemma_seek_back_past_at(s@, s@.len() - 1, space_pred(), -1);
                }
            }
        }
        return Vec::new();
    }
    let mut b: usize = s.len() - 1;
    while is_space(s[b])
        invariant
            a < s@.len(),
            a <= b < s@.len(),
            !is_space_char(s@[a as int]),
            forall|j: int| b < j < s@.len() ==> is_space_char(s@[j]),
        decreases b,
    {
        b -= 1;
    }
    proof {
        lemma_seek_back_past_at(s@, s@.len() - 1, space_pred(), b as int);
    }
    let sl = s.len();
    let mut t: Vec<char> = Vec::new();
    let mut k: usize = a;
    while k <= b
        invariant
            sl == s@.len(),
            a <= k <= b + 1,
            b < s@.len(),
            t@ == s@.subrange(a as int, k as int),
        decreases b + 1 - k,
    {
        t.push(s[k]);
        proof {
            assert(s@.subrange(a as int, k as int).push(s@[k as int]) =~= s@.subrange(
                a as int,
                k + 1,
            ));
        }
        k += 1;
    }
    t
}

// --- Conversions between strings and character vectors ---

/// The characters of `s`, in order, as a vector.
pub fn str_to_chars(s: &str) -> (v: Vec<char>)
    ensures
        v@ == s@,
{
    broadcast use vstd::string::next_postcondition, vstd::string::axiom_spec_iter;

    let mut it = s.chars();
    let mut v: Vec<char> = Vec::new();
    proof {
        assert(v@ + it.remaining() =~= s@);
    }
    loop
        invariant
            it.obeys_prophetic_iter_laws(),
            v@ + it.remaining() == s@,
        ensures
            v@ == s@,
        decreases s@.len() - v@.len(),
    {
        let ghost prev = it.remaining();
        match it.next() {
            Some(c) => {
                v.push(c);
                proof {
                    assert(v@ + it.remaining() =~= s@);
                }
            },
            None => {
                proof {
                    assert(prev.len() == 0);
                    assert(v@ + prev == s@);
                    assert(v@ =~= s@);
                }
                break;
            },
        }
    }
    v
}

/// Relies on `String::push`: it appends the given character to the end of
/// the string.
#[verifier::external_body]
fn push_char(s: &mut String, c: char)
    ensures
        final(s)@ == old(s)@.push(c),
{
    s.push(c);
}

/// A string holding exactly the characters of `v`, in order.
pub fn chars_to_string(v: &Vec<char>) -> (s: String)
    ensures
        s@ == v@,
{
    let mut s = String::new();
    let mut i: usize = 0;
    while i < v.len()
        invariant
            i <= v@.len(),
            s@ == v@.subrange(0, i as int),
        decreases v@.len() - i,
    {
        push_char(&mut s, v[i]);
        proof {
            assert(v@.subrange(0, i as int).push(v@[i as int]) =~= v@.subrange(0, i + 1));
        }
        i += 1;
    }
    proof {
        assert(v@.subrange(0, v@.len() as int) =~= v@);
    }
    s
}

// --- Decimal rendering ---

pub open spec fn dec_digit(d: int) -> char {
    if d == 0 {
        '0'
    } else if d == 1 {
        '1'
    } else if d == 2 {
        '2'
    } else if d == 3 {
        '3'
    } else if d == 4 {
        '4'
    } else if d == 5 {
        '5'
    } else if d == 6 {
        '6'
    } else if d == 7 {
        '7'
    } else if d == 8 {
        '8'
    } else {
        '9'
    }
}

/// The usual decimal rendering of `n`, without leading zeros.
pub open spec fn dec_str(n: int) -> Seq<char>
    decreases n
    when n >= 0
{
    if n < 10 {
        seq![dec_digit(n)]
    } else {
        dec_str(n / 10).push(dec_digit(n % 10))
    }
}

fn dec_digit_exec(d: u64) -> (c: char)
    requires
        d < 10,
    ensures
        c == dec_digit(d as int),
{
    if d == 0 {
        '0'
    } else if d == 1 {
        '1'
    } else if d == 2 {
        '2'
    } else if d == 3 {
        '3'
    } else if d == 4 {
        '4'
    } else if d == 5 {
        '5'
    } else if d == 6 {
        '6'
    } else if d == 7 {
        '7'
    } else if d == 8 {
        '8'
    } else {
        '9'
    }
}

/// The decimal rendering of `n` as a string.
pub fn dec_string(n: u64) -> (s: String)
    ensures
        s@ == dec_str(n as int),
    decreases n,
{
    if n < 10 {
        let mut s = String::new();
        push_char(&mut s, dec_digit_exec(n));
        proof {
            assert(s@ =~= seq![dec_digit(n as int)]);
        }
        s
    } else {
        let mut s = dec_string(n / 10);
        push_char(&mut s, dec_digit_exec(n % 10));
        s
    }
}

} // verus!
