//! Reflection scoring by fixed rules: which of the three questions a
//! reflection answers, how specific it is, and how long.  The weights and
//! the threshold are applied by the caller.

use vstd::prelude::*;

use crate::text::{contains, has_char, is_digit, lowercase, str_contains, to_lowercase};

verus! {

/// Whether a scored reflection is kept as a strategy.
#[derive(Debug, Clone, Copy, PartialEq, Eq, Structural)]
pub enum Verdict {
    /// At or above the threshold: kept as a verified strategy.
    Solidify,
    /// Below it: watched, not kept.
    Observe,
}

/// The anchor words of the three questions: what was done, what came of
/// it, what to improve.
pub open spec fn question_anchors() -> Seq<Seq<Seq<char>>> {
    seq![
        seq!["did"@, "done"@, "completed"@, "执行"@],
        seq!["result"@, "output"@, "passed"@, "结果"@],
        seq!["improve"@, "lesson"@, "next"@, "改进"@],
    ]
}

/// Whether `lower` holds one of the anchors of question `q`.
pub open spec fn answers(lower: Seq<char>, q: int) -> bool {
    exists|a: int| 0 <= a < 4 && contains(lower, #[trigger] question_anchors()[q][a])
}

/// How many of the three questions the lower-cased text answers.
pub open spec fn questions_answered(lower: Seq<char>) -> nat {
    (if answers(lower, 0) { 1nat } else { 0nat }) + (if answers(lower, 1) { 1nat } else { 0nat })
        + (if answers(lower, 2) { 1nat } else { 0nat })
}

/// Whether the lower-cased text answers question `q` (0, 1 or 2).
fn answers_exec(lower: &str, q: usize) -> (b: bool)
    requires
        q < 3,
    ensures
        b == answers(lower@, q as int),
{
    let anchors: [&str; 4] = if q == 0 {
        ["did", "done", "completed", "执行"]
    } else if q == 1 {
        ["result", "output", "passed", "结果"]
    } else {
        ["improve", "lesson", "next", "改进"]
    };
    let mut a: usize = 0;
    while a < 4
        invariant
            a <= 4,
            q < 3,
            forall|k: int| 0 <= k < 4 ==> anchors@[k]@ == question_anchors()[q as int][k],
            forall|k: int| 0 <= k < a ==> !contains(lower@, question_anchors()[q as int][k]),
        decreases 4 - a,
    {
        if str_contains(lower, anchors[a]) {
            assert(contains(lower@, question_anchors()[q as int][a as int]));
            return true;
        }
        a += 1;
    }
    false
}

/// How many of the three questions a text already lower-cased answers.
pub fn questions_answered_in(lower: &str) -> (n: usize)
    ensures
        n == questions_answered(lower@),
{
    let mut n: usize = 0;
    if answers_exec(lower, 0) {
        n += 1;
    }
    if answers_exec(lower, 1) {
        n += 1;
    }
    if answers_exec(lower, 2) {
        n += 1;
    }
    n
}

/// How many of the three questions a reflection answers (its Unicode
/// lower case holds an anchor word of the question).
pub fn structure_hits(text: &str) -> (n: usize)
    ensures
        n == questions_answered(lowercase(text@)),
{
    let lower = to_lowercase(text);
    questions_answered_in(lower.as_str())
}

/// Whether `s` has an ASCII digit.
pub open spec fn has_digit(s: Seq<char>) -> bool {
    exists|i: int| 0 <= i < s.len() && is_digit(#[trigger] s[i])
}

/// How many signs of specificity a reflection shows: a digit, a path
/// (`/`, `.rs` or `.md`), a marker (`#` or `commit`).
pub open spec fn specificity_signals(s: Seq<char>) -> nat {
    (if has_digit(s) { 1nat } else { 0nat }) + (if has_char(s, '/') || contains(s, ".rs"@)
        || contains(s, ".md"@) { 1nat } else { 0nat }) + (if has_char(s, '#') || contains(
        s,
        "commit"@,
    ) { 1nat } else { 0nat })
}

/// How many signs of specificity a reflection shows.
pub fn specificity_hits(text: &str) -> (n: usize)
    ensures
        n == specificity_signals(text@),
{
    let v = crate::text::chars_of(text);
    let mut digit = false;
    let mut i: usize = 0;
    while i < v.len()
        invariant
            i <= v.len(),
            digit == exists|j: int| 0 <= j < i && is_digit(#[trigger] v@[j]),
        decreases v.len() - i,
    {
        if '0' <= v[i] && v[i] <= '9' {
            digit = true;
        }
        i += 1;
    }
    let path = crate::text::has_char_exec(&v, '/') || str_contains(text, ".rs") || str_contains(
        text,
        ".md",
    );
    let marker = crate::text::has_char_exec(&v, '#') || str_contains(text, "commit");
    let mut n: usize = 0;
    if digit {
        n += 1;
    }
    if path {
        n += 1;
    }
    if marker {
        n += 1;
    }
    n
}

/// The length class of a reflection of `len` characters: 0 below 50,
/// 1 below 100, 2 up to 5000, 3 beyond (a dump).
pub open spec fn length_class(len: nat) -> nat {
    if len < 50 {
        0
    } else if len < 100 {
        1
    } else if len <= 5000 {
        2
    } else {
        3
    }
}

/// The length class of a reflection (by its number of characters).
pub fn length_tier(text: &str) -> (c: usize)
    ensures
        c == length_class(text@.len()),
{
    let n = crate::text::chars_of(text).len();
    if n < 50 {
        0
    } else if n < 100 {
        1
    } else if n <= 5000 {
        2
    } else {
        3
    }
}

} // verus!
