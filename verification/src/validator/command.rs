//! Static pre-check of `rm -rf` commands.
//!
//! `rm -rf $VAR/sub` degenerates to `rm -rf /sub` when `$VAR` is unset or
//! empty.  The scan rejects such commands before expansion, as well as
//! `rm -rf` whose target is the root or home directory itself, and
//! suggests the `${VAR:?}` escape hatch.

use vstd::prelude::*;

use crate::text::{
    chars_eq, chars_of, concat_chars, has_prefix, is_ws, occurs_at_exec, owned, slice_chars,
    str_eq, string_from_chars, sviews, trim, trim_range, vviews, ws_tokens, split_ws,
};

verus! {

/// Error reported by the static pre-check.
#[derive(Debug, Clone, PartialEq, Eq)]
pub enum SafetyError {
    /// `rm -rf` expands a variable that is unset or empty.
    UnresolvedVariable { var_name: String, command: String, suggestion: String },
    /// The target of `rm -rf` is the root or home directory itself.
    DangerousTarget { path: String, command: String },
}

impl SafetyError {
    /// The message that describes the error.
    pub open spec fn text(&self) -> Seq<char> {
        match self {
            SafetyError::UnresolvedVariable { var_name, command, suggestion } => "rm -rf 命令中变量 `$"@
                + var_name@ + "` 未定义或为空，拒绝执行。\n命令: "@ + command@ + "\n建议: 使用 `${"@
                + var_name@ + ":?}` 语法让 shell 在变量未定义时立即失败。例如: "@ + suggestion@,
            SafetyError::DangerousTarget { path, command } => "rm -rf 目标 `"@ + path@
                + "` 是危险路径（根目录或家目录本身），拒绝执行。\n命令: "@ + command@,
        }
    }

    /// The message that describes the error.
    pub fn to_string(&self) -> (s: String)
        ensures
            s@ == self.text(),
    {
        let mut s = String::new();
        match self {
            SafetyError::UnresolvedVariable { var_name, command, suggestion } => {
                crate::text::push_str(&mut s, "rm -rf 命令中变量 `$");
                crate::text::push_str(&mut s, var_name.as_str());
                crate::text::push_str(&mut s, "` 未定义或为空，拒绝执行。\n命令: ");
                crate::text::push_str(&mut s, command.as_str());
                crate::text::push_str(&mut s, "\n建议: 使用 `${");
                crate::text::push_str(&mut s, var_name.as_str());
                crate::text::push_str(&mut s, ":?}` 语法让 shell 在变量未定义时立即失败。例如: ");
                crate::text::push_str(&mut s, suggestion.as_str());
            },
            SafetyError::DangerousTarget { path, command } => {
                crate::text::push_str(&mut s, "rm -rf 目标 `");
                crate::text::push_str(&mut s, path.as_str());
                crate::text::push_str(&mut s, "` 是危险路径（根目录或家目录本身），拒绝执行。\n命令: ");
                crate::text::push_str(&mut s, command.as_str());
            },
        }
        proof {
            assert(s@ =~= self.text());
        }
        s
    }
}

// ------------------------------------------------------------------
// rm -rf detection
// ------------------------------------------------------------------

/// A token that is an option (`starts_with('-')`).
pub open spec fn is_flag(t: Seq<char>) -> bool {
    t.len() > 0 && t[0] == '-'
}

/// End of the run of option tokens that starts at `j`.
pub open spec fn flag_end(toks: Seq<Seq<char>>, j: int) -> int
    decreases toks.len() - j,
{
    if 0 <= j < toks.len() && is_flag(toks[j]) {
        flag_end(toks, j + 1)
    } else {
        j
    }
}

/// The option tokens directly following `rm` at index `i`.
pub open spec fn flags_after(toks: Seq<Seq<char>>, i: int) -> Seq<Seq<char>> {
    toks.subrange(i + 1, flag_end(toks, i + 1))
}

/// `rm` at token index `i` carries both the recursive and the force flag.
pub open spec fn rm_rf_at(toks: Seq<Seq<char>>, i: int) -> bool {
    let flags = flags_after(toks, i);
    &&& toks[i] == "rm"@
    &&& {
        ||| flags.contains("-rf"@)
        ||| flags.contains("-fr"@)
        ||| (flags.contains("-r"@) || flags.contains("--recursive"@)) && (flags.contains("-f"@)
            || flags.contains("--force"@))
    }
}

/// The command holds `rm -rf`, `rm -fr`, `rm -r -f` or an equivalent.
pub open spec fn is_rm_rf(cmd: Seq<char>) -> bool {
    let toks = ws_tokens(cmd);
    exists|i: int| 0 <= i < toks.len() && rm_rf_at(toks, i)
}

proof fn lemma_flag_end_bounds(toks: Seq<Seq<char>>, j: int)
    requires
        0 <= j <= toks.len(),
    ensures
        j <= flag_end(toks, j) <= toks.len(),
        forall|k: int| j <= k < flag_end(toks, j) ==> is_flag(toks[k]),
    decreases toks.len() - j,
{
    if j < toks.len() && is_flag(toks[j]) {
        lemma_flag_end_bounds(toks, j + 1);
    }
}

/// Whether the command holds an `rm` with both the recursive and the
/// force flag (`rm -rf`, `rm -fr`, `rm -r -f`, `rm --recursive --force`, ...).
pub fn has_rm_rf(cmd: &str) -> (r: bool)
    ensures
        r == is_rm_rf(cmd@),
{
    let cv = chars_of(cmd);
    let tokens = split_ws(&cv);
    let ghost toks = vviews(tokens@);
    let rm = chars_of("rm");
    let rf = chars_of("-rf");
    let fr = chars_of("-fr");
    let r_short = chars_of("-r");
    let r_long = chars_of("--recursive");
    let f_short = chars_of("-f");
    let f_long = chars_of("--force");
    let mut i: usize = 0;
    while i < tokens.len()
        invariant
            i <= tokens.len(),
            toks == vviews(tokens@),
            toks == ws_tokens(cmd@),
            rm@ == "rm"@,
            rf@ == "-rf"@,
            fr@ == "-fr"@,
            r_short@ == "-r"@,
            r_long@ == "--recursive"@,
            f_short@ == "-f"@,
            f_long@ == "--force"@,
            forall|k: int| 0 <= k < i ==> !rm_rf_at(toks, k),
        decreases tokens.len() - i,
    {
        assert(toks[i as int] == tokens@[i as int]@);
        if chars_eq(&tokens[i], &rm) {
            let mut j = i + 1;
            let mut has_r = false;
            let mut has_f = false;
            proof {
                lemma_flag_end_bounds(toks, i + 1);
            }
            while j < tokens.len() && tokens[j].len() > 0 && tokens[j][0] == '-'
                invariant
                    i < j <= tokens.len(),
                    toks == vviews(tokens@),
                    toks == ws_tokens(cmd@),
                    toks[i as int] == "rm"@,
                    rf@ == "-rf"@,
                    fr@ == "-fr"@,
                    r_short@ == "-r"@,
                    r_long@ == "--recursive"@,
                    f_short@ == "-f"@,
                    f_long@ == "--force"@,
                    flag_end(toks, i + 1) == flag_end(toks, j as int),
                    forall|k: int| i + 1 <= k < j ==> is_flag(toks[k]),
                    forall|k: int| i + 1 <= k < j ==> toks[k] != "-rf"@ && toks[k] != "-fr"@,
                    has_r == exists|k: int|
                        i + 1 <= k < j && (toks[k] == "-r"@ || toks[k] == "--recursive"@),
                    has_f == exists|k: int|
                        i + 1 <= k < j && (toks[k] == "-f"@ || toks[k] == "--force"@),
                decreases tokens.len() - j,
            {
                assert(toks[j as int] == tokens@[j as int]@);
                assert(is_flag(toks[j as int]));
                let flag = &tokens[j];
                if chars_eq(flag, &rf) || chars_eq(flag, &fr) {
                    proof {
                        lemma_flag_end_bounds(toks, j + 1);
                        let flags = flags_after(toks, i as int);
                        assert(flags[j - i - 1] == toks[j as int]);
                        assert(rm_rf_at(toks, i as int));
                    }
                    return true;
                }
                if chars_eq(flag, &r_short) || chars_eq(flag, &r_long) {
                    has_r = true;
                }
                if chars_eq(flag, &f_short) || chars_eq(flag, &f_long) {
                    has_f = true;
                }
                j += 1;
            }
            proof {
                if j < tokens.len() {
                    assert(toks[j as int] == tokens@[j as int]@);
                }
                assert(flag_end(toks, j as int) == j);
                let flags = flags_after(toks, i as int);
                assert(flags == toks.subrange(i + 1, j as int));
                assert(flags.contains("-r"@) || flags.contains("--recursive"@) <==> has_r) by {
                    if has_r {
                        let k = choose|k: int|
                            i + 1 <= k < j && (toks[k] == "-r"@ || toks[k] == "--recursive"@);
                        assert(flags[k - i - 1] == toks[k]);
                    }
                }
                assert(flags.contains("-f"@) || flags.contains("--force"@) <==> has_f) by {
                    if has_f {
                        let k = choose|k: int|
                            i + 1 <= k < j && (toks[k] == "-f"@ || toks[k] == "--force"@);
                        assert(flags[k - i - 1] == toks[k]);
                    }
                }
                assert(!flags.contains("-rf"@) && !flags.contains("-fr"@)) by {
                    assert forall|k: int| 0 <= k < flags.len() implies flags[k] != "-rf"@
                        && flags[k] != "-fr"@ by {
                        assert(flags[k] == toks[i + 1 + k]);
                    }
                }
            }
            if has_r && has_f {
                assert(rm_rf_at(toks, i as int));
                return true;
            }
        }
        i += 1;
    }
    false
}

// ------------------------------------------------------------------
// Variable extraction
// ------------------------------------------------------------------

/// `u8::is_ascii_alphabetic` on characters.
pub open spec fn is_ascii_alpha(c: char) -> bool {
    ('a' <= c && c <= 'z') || ('A' <= c && c <= 'Z')
}

/// `u8::is_ascii_alphanumeric` on characters.
pub open spec fn is_ascii_alnum(c: char) -> bool {
    is_ascii_alpha(c) || ('0' <= c && c <= '9')
}

/// A character allowed inside a shell variable name.
pub open spec fn is_name_char(c: char) -> bool {
    is_ascii_alnum(c) || c == '_'
}

/// A valid shell variable name: a letter or `_` followed by letters,
/// digits and `_`.
pub open spec fn is_valid_var_name(s: Seq<char>) -> bool {
    &&& s.len() > 0
    &&& (is_ascii_alpha(s[0]) || s[0] == '_')
    &&& forall|i: int| 0 <= i < s.len() ==> is_name_char(s[i])
}

/// First index `>= k` holding `c`, or `s.len()`.
pub open spec fn find_char_from(s: Seq<char>, c: char, k: int) -> int
    decreases s.len() - k,
{
    if k >= s.len() {
        s.len() as int
    } else if s[k] == c {
        k
    } else {
        find_char_from(s, c, k + 1)
    }
}

/// End of the run of variable-name characters starting at `k`.
pub open spec fn name_end(s: Seq<char>, k: int) -> int
    decreases s.len() - k,
{
    if 0 <= k < s.len() && is_name_char(s[k]) {
        name_end(s, k + 1)
    } else {
        k
    }
}

/// A modifier separator inside `${...}` (`:`, `-`, `+`, `?`).
pub open spec fn is_modifier_sep(c: char) -> bool {
    c == ':' || c == '-' || c == '+' || c == '?'
}

/// Length of the part of `s` before the first modifier separator.
pub open spec fn head_len(s: Seq<char>) -> nat
    decreases s.len(),
{
    if s.len() > 0 && !is_modifier_sep(s[0]) {
        1 + head_len(s.drop_first())
    } else {
        0
    }
}

/// The variable named by the inside of `${...}`: the part before the first
/// modifier, trimmed.
pub open spec fn braced_name(inner: Seq<char>) -> Seq<char> {
    trim(inner.take(head_len(inner) as int))
}

/// The variables referenced from index `i` on, in order of appearance.
pub open spec fn vars_from(s: Seq<char>, i: int) -> Seq<Seq<char>>
    decreases s.len() - i, 1int,
{
    if i < 0 || i >= s.len() {
        seq![]
    } else if s[i] == '$' && i + 1 < s.len() && s[i + 1] == '{' && find_char_from(s, '}', i + 2)
        < s.len() {
        let e = find_char_from(s, '}', i + 2);
        let name = braced_name(s.subrange(i + 2, e));
        proof {
            lemma_find_char_from_bounds(s, '}', i + 2);
        }
        if is_valid_var_name(name) {
            seq![name] + vars_from(s, e + 1)
        } else {
            vars_from(s, e + 1)
        }
    } else if s[i] == '$' && i + 1 < s.len() && s[i + 1] != '{' && (is_ascii_alpha(s[i + 1])
        || s[i + 1] == '_') {
        let e = name_end(s, i + 1);
        proof {
            lemma_name_end_bounds(s, i + 1);
        }
        seq![s.subrange(i + 1, e)] + vars_from(s, e)
    } else {
        vars_from(s, i + 1)
    }
}

pub proof fn lemma_find_char_from_bounds(s: Seq<char>, c: char, k: int)
    ensures
        k <= s.len() ==> k <= find_char_from(s, c, k) <= s.len(),
        k > s.len() ==> find_char_from(s, c, k) == s.len(),
        forall|j: int| k <= j < find_char_from(s, c, k) ==> s[j] != c,
        find_char_from(s, c, k) < s.len() ==> s[find_char_from(s, c, k)] == c,
    decreases s.len() - k,
{
    if k < s.len() && s[k] != c {
        lemma_find_char_from_bounds(s, c, k + 1);
    }
}

pub proof fn lemma_name_end_bounds(s: Seq<char>, k: int)
    requires
        0 <= k <= s.len(),
    ensures
        k <= name_end(s, k) <= s.len(),
        forall|j: int| k <= j < name_end(s, k) ==> is_name_char(s[j]),
        name_end(s, k) < s.len() ==> !is_name_char(s[name_end(s, k)]),
    decreases s.len() - k,
{
    if k < s.len() && is_name_char(s[k]) {
        lemma_name_end_bounds(s, k + 1);
    }
}

proof fn lemma_head_len(s: Seq<char>, n: int)
    requires
        0 <= n <= s.len(),
        forall|j: int| 0 <= j < n ==> !is_modifier_sep(s[j]),
        n == s.len() || is_modifier_sep(s[n]),
    ensures
        head_len(s) == n,
    decreases n,
{
    if n > 0 {
        lemma_head_len(s.drop_first(), n - 1);
    }
}

fn is_name_char_exec(c: char) -> (r: bool)
    ensures
        r == is_name_char(c),
{
    ('a' <= c && c <= 'z') || ('A' <= c && c <= 'Z') || ('0' <= c && c <= '9') || c == '_'
}

fn is_valid_var_name_exec(s: &Vec<char>) -> (r: bool)
    ensures
        r == is_valid_var_name(s@),
{
    if s.len() == 0 {
        return false;
    }
    let c0 = s[0];
    if !(('a' <= c0 && c0 <= 'z') || ('A' <= c0 && c0 <= 'Z') || c0 == '_') {
        return false;
    }
    let mut i: usize = 0;
    while i < s.len()
        invariant
            i <= s.len(),
            forall|j: int| 0 <= j < i ==> is_name_char(s@[j]),
        decreases s.len() - i,
    {
        if !is_name_char_exec(s[i]) {
            return false;
        }
        i += 1;
    }
    true
}

/// Every shell variable referenced by the command (`$VAR` and `${VAR}`
/// forms, modifiers such as `${VAR:?}` stripped), in order of appearance.
pub fn extract_variables(cmd: &str) -> (vars: Vec<String>)
    ensures
        sviews(vars@) == vars_from(cmd@, 0),
{
    let s = chars_of(cmd);
    let mut vars: Vec<String> = Vec::new();
    let mut i: usize = 0;
    while i < s.len()
        invariant
            i <= s.len(),
            s@ == cmd@,
            sviews(vars@) + vars_from(s@, i as int) == vars_from(s@, 0),
        decreases s.len() - i,
    {
        if s[i] == '$' && i + 1 < s.len() {
            if s[i + 1] == '{' {
                let mut e = i + 2;
                while e < s.len() && s[e] != '}'
                    invariant
                        i + 2 <= e <= s.len(),
                        find_char_from(s@, '}', i + 2) == find_char_from(s@, '}', e as int),
                    decreases s.len() - e,
                {
                    e += 1;
                }
                if e < s.len() {
                    // the inside of ${...}
                    let mut h = i + 2;
                    while h < e && !(s[h] == ':' || s[h] == '-' || s[h] == '+' || s[h] == '?')
                        invariant
                            i + 2 <= h <= e < s.len(),
                            forall|j: int| i + 2 <= j < h ==> !is_modifier_sep(s@[j]),
                        decreases e - h,
                    {
                        h += 1;
                    }
                    let (a, b) = trim_range(&s, i + 2, h);
                    let name = slice_chars(&s, a, b);
                    proof {
                        let inner = s@.subrange(i + 2, e as int);
                        lemma_head_len(inner, h - (i + 2));
                        assert(inner.take(h - (i + 2)) == s@.subrange(i + 2, h as int));
                        assert(name@ == braced_name(inner));
                    }
                    let ghost before = sviews(vars@);
                    if is_valid_var_name_exec(&name) {
                        let ns = string_from_chars(&name);
                        vars.push(ns);
                        assert(sviews(vars@) == before.push(name@));
                    }
                    i = e + 1;
                    continue;
                }
            } else if ('a' <= s[i + 1] && s[i + 1] <= 'z') || ('A' <= s[i + 1] && s[i + 1] <= 'Z')
                || s[i + 1] == '_' {
                let start = i + 1;
                let mut end = start;
                while end < s.len() && is_name_char_exec(s[end])
                    invariant
                        start <= end <= s.len(),
                        name_end(s@, start as int) == name_end(s@, end as int),
                    decreases s.len() - end,
                {
                    end += 1;
                }
                let name = slice_chars(&s, start, end);
                let ns = string_from_chars(&name);
                let ghost before = sviews(vars@);
                vars.push(ns);
                assert(sviews(vars@) == before.push(name@));
                i = end;
                continue;
            }
        }
        i += 1;
    }
    assert(sviews(vars@) + Seq::<Seq<char>>::empty() == sviews(vars@));
    vars
}

// ------------------------------------------------------------------
// Dangerous targets
// ------------------------------------------------------------------

/// Number of trailing `c` characters of `s`.
pub open spec fn trail_char(s: Seq<char>, c: char) -> nat
    decreases s.len(),
{
    if s.len() > 0 && s.last() == c {
        1 + trail_char(s.drop_last(), c)
    } else {
        0
    }
}

/// `str::trim_end_matches('/')`.
pub open spec fn trim_slashes(s: Seq<char>) -> Seq<char> {
    s.take(s.len() - trail_char(s, '/'))
}

/// A path token that names the root or the home directory itself.
pub open spec fn is_root_like(tok: Seq<char>) -> bool {
    let c = trim_slashes(tok);
    c.len() == 0 || c == "/"@ || c == "~"@
}

/// Token `k` is a non-option path operand after an `rm` and names the root
/// or the home directory.
pub open spec fn danger_at(toks: Seq<Seq<char>>, k: int) -> bool {
    &&& exists|j: int| 0 <= j < k && toks[j] == "rm"@
    &&& toks[k] != "rm"@
    &&& !is_flag(toks[k])
    &&& is_root_like(toks[k])
}

/// The first dangerous target of the command, if any.
pub open spec fn first_danger(cmd: Seq<char>) -> Option<Seq<char>> {
    let toks = ws_tokens(cmd);
    if exists|k: int| 0 <= k < toks.len() && danger_at(toks, k) {
        let k = choose|k: int|
            0 <= k < toks.len() && danger_at(toks, k) && forall|m: int|
                0 <= m < k ==> !danger_at(toks, m);
        Some(toks[k])
    } else {
        None
    }
}

proof fn lemma_trail_char(s: Seq<char>, c: char, n: int)
    requires
        0 <= n <= s.len(),
        forall|j: int| s.len() - n <= j < s.len() ==> s[j] == c,
        n == s.len() || s[s.len() - n - 1] != c,
    ensures
        trail_char(s, c) == n,
    decreases n,
{
    if n > 0 {
        lemma_trail_char(s.drop_last(), c, n - 1);
    }
}

fn is_root_like_exec(tok: &Vec<char>) -> (r: bool)
    ensures
        r == is_root_like(tok@),
{
    let mut e = tok.len();
    while e > 0 && tok[e - 1] == '/'
        invariant
            e <= tok.len(),
            forall|j: int| e <= j < tok.len() ==> tok@[j] == '/',
        decreases e,
    {
        e -= 1;
    }
    proof {
        lemma_trail_char(tok@, '/', tok.len() - e);
    }
    let cleaned = slice_chars(tok, 0, e);
    let slash = chars_of("/");
    let tilde = chars_of("~");
    cleaned.len() == 0 || chars_eq(&cleaned, &slash) || chars_eq(&cleaned, &tilde)
}

/// The first path operand of `rm` that is the root or home directory itself.
fn check_dangerous_target(cmd: &str) -> (r: Option<String>)
    ensures
        match r {
            Some(p) => first_danger(cmd@) == Some(p@),
            None => first_danger(cmd@) is None,
        },
{
    let cv = chars_of(cmd);
    let tokens = split_ws(&cv);
    let ghost toks = vviews(tokens@);
    let rm = chars_of("rm");
    let mut seen_rm = false;
    let mut k: usize = 0;
    while k < tokens.len()
        invariant
            k <= tokens.len(),
            toks == vviews(tokens@),
            toks == ws_tokens(cmd@),
            rm@ == "rm"@,
            seen_rm == exists|j: int| 0 <= j < k && toks[j] == "rm"@,
            forall|m: int| 0 <= m < k ==> !danger_at(toks, m),
        decreases tokens.len() - k,
    {
        assert(toks[k as int] == tokens@[k as int]@);
        let tok = &tokens[k];
        if chars_eq(tok, &rm) {
            seen_rm = true;
            k += 1;
            continue;
        }
        if !seen_rm || (tok.len() > 0 && tok[0] == '-') {
            k += 1;
            continue;
        }
        if is_root_like_exec(tok) {
            proof {
                assert(danger_at(toks, k as int));
                let kk = choose|kk: int|
                    0 <= kk < toks.len() && danger_at(toks, kk) && forall|m: int|
                        0 <= m < kk ==> !danger_at(toks, m);
                if kk < k {
                } else if kk > k {
                }
                assert(kk == k);
            }
            return Some(string_from_chars(tok));
        }
        k += 1;
    }
    None
}

// ------------------------------------------------------------------
// Suggestion and scan
// ------------------------------------------------------------------

/// `str::replace`: every non-overlapping occurrence of `pat`, scanning left
/// to right, replaced by `rep`.
pub open spec fn replace_all(s: Seq<char>, pat: Seq<char>, rep: Seq<char>) -> Seq<char>
    recommends
        pat.len() > 0,
    decreases s.len(),
{
    if s.len() == 0 || pat.len() == 0 {
        s
    } else if has_prefix(s, pat) {
        rep + replace_all(s.skip(pat.len() as int), pat, rep)
    } else {
        seq![s[0]] + replace_all(s.drop_first(), pat, rep)
    }
}

/// `str::replace` with a non-empty pattern.
pub fn replace_chars(s: &Vec<char>, pat: &Vec<char>, rep: &Vec<char>) -> (r: Vec<char>)
    requires
        pat.len() > 0,
    ensures
        r@ == replace_all(s@, pat@, rep@),
{
    let mut r: Vec<char> = Vec::new();
    let mut i: usize = 0;
    assert(s@.skip(0) == s@);
    while i < s.len()
        invariant
            i <= s.len(),
            pat.len() > 0,
            r@ + replace_all(s@.skip(i as int), pat@, rep@) == replace_all(s@, pat@, rep@),
        decreases s.len() - i,
    {
        let ghost rest = s@.skip(i as int);
        if occurs_at_exec(s, pat, i) {
            assert(rest.take(pat@.len() as int) == s@.subrange(i as int, i + pat.len()));
            assert(rest.skip(pat@.len() as int) == s@.skip(i + pat.len()));
            let ghost before = r@;
            let mut k: usize = 0;
            while k < rep.len()
                invariant
                    k <= rep.len(),
                    r@ == before + rep@.take(k as int),
                decreases rep.len() - k,
            {
                r.push(rep[k]);
                assert(rep@.take(k + 1) == rep@.take(k as int).push(rep@[k as int]));
                k += 1;
            }
            assert(rep@.take(rep.len() as int) == rep@);
            assert(r@ + replace_all(s@.skip(i + pat.len()), pat@, rep@) == before + (rep@
                + replace_all(rest.skip(pat@.len() as int), pat@, rep@)));
            i = i + pat.len();
        } else {
            assert(!has_prefix(rest, pat@)) by {
                if has_prefix(rest, pat@) {
                    assert(rest.subrange(0, pat@.len() as int) == s@.subrange(
                        i as int,
                        i + pat.len(),
                    ));
                }
            }
            assert(rest.drop_first() == s@.skip(i + 1));
            let ghost before = r@;
            r.push(s[i]);
            assert(r@ + replace_all(s@.skip(i + 1), pat@, rep@) == before + (seq![rest[0]]
                + replace_all(rest.drop_first(), pat@, rep@)));
            i += 1;
        }
    }
    assert(s@.skip(s.len() as int) == Seq::<char>::empty());
    assert(r@ + Seq::<char>::empty() == r@);
    r
}

/// The command with every `$VAR` and `${VAR}` rewritten to `${VAR:?}`.
pub open spec fn suggestion_for(cmd: Seq<char>, var: Seq<char>) -> Seq<char> {
    let guarded = "${"@ + var + ":?}"@;
    replace_all(replace_all(cmd, "$"@ + var, guarded), "${"@ + var + "}"@, guarded)
}

fn safe_suggestion(cmd: &str, var: &str) -> (r: String)
    ensures
        r@ == suggestion_for(cmd@, var@),
{
    let c = chars_of(cmd);
    let v = chars_of(var);
    let dollar = chars_of("$");
    let open = chars_of("${");
    let close = chars_of("}");
    let guard_tail = chars_of(":?}");
    proof {
        reveal_strlit("$");
        reveal_strlit("${");
    }
    let plain = concat_chars(&dollar, &v);
    let braced0 = concat_chars(&open, &v);
    let braced = concat_chars(&braced0, &close);
    let guarded = concat_chars(&braced0, &guard_tail);
    let once = replace_chars(&c, &plain, &guarded);
    let twice = replace_chars(&once, &braced, &guarded);
    string_from_chars(&twice)
}

/// The verdict of the static pre-check, given the names of the variables
/// that are defined and non-empty.
pub open spec fn scan_outcome(cmd: Seq<char>, defined: Seq<Seq<char>>) -> Result<
    (),
    (bool, Seq<char>, Seq<char>),
> {
    let vars = vars_from(cmd, 0);
    if !is_rm_rf(cmd) {
        Ok(())
    } else if first_danger(cmd) is Some {
        Err((true, first_danger(cmd)->0, seq![]))
    } else if exists|i: int| 0 <= i < vars.len() && !defined.contains(vars[i]) {
        let i = choose|i: int|
            0 <= i < vars.len() && !defined.contains(vars[i]) && forall|j: int|
                0 <= j < i ==> defined.contains(vars[j]);
        Err((false, vars[i], suggestion_for(cmd, vars[i])))
    } else {
        Ok(())
    }
}

/// Static pre-check of a command.
///
/// `defined` names the shell variables that are set and non-empty in the
/// environment the command would run in.
///
/// - not an `rm -rf` command: `Ok(())`;
/// - an `rm -rf` whose target is the root or home directory: `DangerousTarget`;
/// - an `rm -rf` that expands an unset or empty variable: `UnresolvedVariable`
///   for the first such variable, with a `${VAR:?}` suggestion.
pub fn scan_rm_command(cmd: &str, defined: &Vec<String>) -> (r: Result<(), SafetyError>)
    ensures
        match scan_outcome(cmd@, sviews(defined@)) {
            Ok(()) => r is Ok,
            Err((true, path, _)) => r matches Err(SafetyError::DangerousTarget { path: p, command: c })
                && p@ == path && c@ == cmd@,
            Err((false, var, sugg)) => r matches Err(
                SafetyError::UnresolvedVariable { var_name: v, command: c, suggestion: s },
            ) && v@ == var && c@ == cmd@ && s@ == sugg,
        },
{
    if !has_rm_rf(cmd) {
        return Ok(());
    }
    match check_dangerous_target(cmd) {
        Some(path) => {
            return Err(SafetyError::DangerousTarget { path, command: owned(cmd) });
        },
        None => {},
    }
    let vars = extract_variables(cmd);
    let ghost vs = sviews(vars@);
    let ghost ds = sviews(defined@);
    let mut i: usize = 0;
    while i < vars.len()
        invariant
            i <= vars.len(),
            vs == sviews(vars@),
            vs == vars_from(cmd@, 0),
            ds == sviews(defined@),
            is_rm_rf(cmd@),
            first_danger(cmd@) is None,
            forall|j: int| 0 <= j < i ==> ds.contains(vs[j]),
        decreases vars.len() - i,
    {
        let name = &vars[i];
        let mut found = false;
        let mut k: usize = 0;
        while k < defined.len()
            invariant
                k <= defined.len(),
                ds == sviews(defined@),
                found == exists|m: int| 0 <= m < k && ds[m] == name@,
            decreases defined.len() - k,
        {
            assert(ds[k as int] == defined@[k as int]@);
            if str_eq(defined[k].as_str(), name.as_str()) {
                found = true;
            }
            k += 1;
        }
        assert(vs[i as int] == name@);
        if !found {
            proof {
                assert(!ds.contains(vs[i as int]));
                let ii = choose|ii: int|
                    0 <= ii < vs.len() && !ds.contains(vs[ii]) && forall|j: int|
                        0 <= j < ii ==> ds.contains(vs[j]);
                if ii < i {
                } else if ii > i {
                }
                assert(ii == i);
                assert(is_rm_rf(cmd@));
                assert(first_danger(cmd@) is None);
                assert(scan_outcome(cmd@, ds) == Err::<(), (bool, Seq<char>, Seq<char>)>(
                    (false, vs[i as int], suggestion_for(cmd@, vs[i as int])),
                ));
            }
            let suggestion = safe_suggestion(cmd, name.as_str());
            return Err(
                SafetyError::UnresolvedVariable {
                    var_name: owned(name.as_str()),
                    command: owned(cmd),
                    suggestion,
                },
            );
        }
        assert(ds.contains(name@));
        i += 1;
    }
    Ok(())
}

/// A path operand names the root or the home directory exactly when it is
/// slashes only (the empty operand included), or `~` followed by slashes
/// only: trailing slashes never change whether `rm -rf` on it is refused.
pub proof fn law_root_like_ignores_trailing_slashes(tok: Seq<char>)
    ensures
        is_root_like(tok) <==> ((forall|i: int| 0 <= i < tok.len() ==> tok[i] == '/') || (tok.len()
            > 0 && tok[0] == '~' && forall|i: int| 1 <= i < tok.len() ==> tok[i] == '/')),
        is_root_like(tok.push('/')) == is_root_like(tok),
{
    reveal_strlit("/");
    reveal_strlit("~");
    lemma_trim_slashes(tok);
    let t = tok.push('/');
    lemma_trim_slashes(t);
    assert(t.drop_last() =~= tok);
    assert(t.len() > 0 && t.last() == '/');
    assert(trail_char(t, '/') == 1 + trail_char(tok, '/'));
    assert(trim_slashes(t) =~= trim_slashes(tok));
    let c = trim_slashes(tok);
    let all_slashes = forall|i: int| 0 <= i < tok.len() ==> tok[i] == '/';
    let tilde_slashes = tok.len() > 0 && tok[0] == '~' && forall|i: int|
        1 <= i < tok.len() ==> tok[i] == '/';
    // `c` is a prefix of `tok`, not ending in a slash, followed only by slashes.
    assert forall|i: int| 0 <= i < c.len() implies c[i] == tok[i] by {}
    if c.len() == 0 {
        assert(all_slashes);
    } else if c =~= "~"@ {
        assert(tilde_slashes);
    } else {
        assert(c != "/"@) by {
            assert(c.last() != '/');
        }
        if all_slashes {
            assert(c.last() == tok[c.len() - 1]);
        }
        if tilde_slashes {
            if c.len() == 1 {
                assert(c[0] == '~');
                assert(c =~= "~"@);
            } else {
                assert(c.last() == tok[c.len() - 1]);
            }
        }
    }
}

/// `trim_slashes` drops exactly the trailing slashes: what is left does not
/// end in a slash, and everything after it is a slash.
proof fn lemma_trim_slashes(s: Seq<char>)
    ensures
        trail_char(s, '/') <= s.len(),
        trim_slashes(s).len() == 0 || trim_slashes(s).last() != '/',
        forall|i: int| trim_slashes(s).len() <= i < s.len() ==> s[i] == '/',
        trim_slashes(s) =~= s.take(trim_slashes(s).len() as int),
    decreases s.len(),
{
    if s.len() > 0 && s.last() == '/' {
        let d = s.drop_last();
        lemma_trim_slashes(d);
        assert(trail_char(s, '/') == 1 + trail_char(d, '/'));
        assert(trim_slashes(s) =~= trim_slashes(d));
        assert forall|i: int| trim_slashes(s).len() <= i < s.len() implies s[i] == '/' by {
            if i < d.len() {
                assert(s[i] == d[i]);
            }
        }
    } else {
        assert(trail_char(s, '/') == 0);
        assert(trim_slashes(s) =~= s);
    }
}

} // verus!
