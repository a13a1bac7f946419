//! Per-line clamping of content before it is assembled into a prompt.
//!
//! An over-long line (such as minified JSON) is cut at a character
//! boundary and marked; other lines are kept as they are, so the line
//! structure survives.

use vstd::prelude::*;

use crate::text::{
    char_width, char_width_exec, chars_of, index_of_from, join, lemma_utf8_len_ascii, lemma_utf8_len_concat,
    lemma_utf8_len_push, lines_of, owned, push_joined, push_str, slice_chars, split_lines,
    string_from_chars, sviews, utf8_len,
};

verus! {

/// Default per-line byte limit: 8 KiB.
pub const DEFAULT_MAX_LINE_BYTES: usize = 8 * 1024;

/// Marker appended to a truncated line.
pub const TRUNCATED_MARK: &'static str = "[truncated]";

/// Number of leading characters of `s` whose UTF-8 encoding fits in `b`
/// bytes.
pub open spec fn fit_count(s: Seq<char>, b: int) -> nat
    decreases s.len(),
{
    if s.len() == 0 || char_width(s[0]) > b {
        0
    } else {
        1 + fit_count(s.drop_first(), b - char_width(s[0]))
    }
}

/// The longest prefix of `s` whose UTF-8 encoding fits in `b` bytes.
pub open spec fn fit_prefix(s: Seq<char>, b: int) -> Seq<char> {
    s.take(fit_count(s, b) as int)
}

/// The clamped form of a line.
pub open spec fn clamped(line: Seq<char>, max: int) -> Seq<char> {
    let mark = "[truncated]"@;
    if utf8_len(line) <= max {
        line
    } else if max <= utf8_len(mark) {
        fit_prefix(line, max)
    } else {
        fit_prefix(line, max - utf8_len(mark)) + mark
    }
}

/// The fitting prefix is a prefix that fits.
pub proof fn lemma_fit_prefix(s: Seq<char>, b: int)
    requires
        b >= 0,
    ensures
        fit_count(s, b) <= s.len(),
        utf8_len(fit_prefix(s, b)) <= b,
    decreases s.len(),
{
    if s.len() == 0 || char_width(s[0]) > b {
        assert(fit_prefix(s, b) =~= Seq::<char>::empty());
        assert(vstd::utf8::encode_utf8(Seq::<char>::empty()) =~= Seq::<u8>::empty());
    } else {
        let r = s.drop_first();
        lemma_fit_prefix(r, b - char_width(s[0]));
        assert(fit_prefix(s, b) =~= seq![s[0]] + fit_prefix(r, b - char_width(s[0])));
        lemma_utf8_len_concat(seq![s[0]], fit_prefix(r, b - char_width(s[0])));
        lemma_utf8_len_push(Seq::<char>::empty(), s[0]);
        assert(Seq::<char>::empty().push(s[0]) =~= seq![s[0]]);
        assert(vstd::utf8::encode_utf8(Seq::<char>::empty()) =~= Seq::<u8>::empty());
    }
}

/// On ASCII text, as many characters fit as there are bytes.
pub proof fn lemma_fit_count_ascii(s: Seq<char>, b: int)
    requires
        b >= 0,
        forall|i: int| 0 <= i < s.len() ==> (s[i] as u32) <= 0x7f,
    ensures
        fit_count(s, b) == if s.len() < b {
            s.len() as int
        } else {
            b
        },
    decreases s.len(),
{
    if s.len() > 0 && b > 0 {
        assert(char_width(s[0]) == 1);
        let r = s.drop_first();
        assert forall|i: int| 0 <= i < r.len() implies (r[i] as u32) <= 0x7f by {
            assert(r[i] == s[i + 1]);
        }
        lemma_fit_count_ascii(r, b - 1);
    } else if s.len() > 0 {
        assert(char_width(s[0]) == 1);
    }
}

/// On ASCII text of at least `n` characters, the prefix fitting in `n`
/// bytes is the first `n` characters, of `n` bytes.
pub proof fn lemma_fit_prefix_ascii(s: Seq<char>, n: nat)
    requires
        s.len() >= n,
        forall|i: int| 0 <= i < s.len() ==> (s[i] as u32) <= 0x7f,
    ensures
        fit_prefix(s, n as int) == s.take(n as int),
        utf8_len(fit_prefix(s, n as int)) == n,
{
    lemma_fit_count_ascii(s, n as int);
    let p = s.take(n as int);
    assert forall|i: int| 0 <= i < p.len() implies (p[i] as u32) <= 0x7f by {
        assert(p[i] == s[i]);
    }
    lemma_utf8_len_ascii(p);
}

/// The marker is eleven bytes long.
pub proof fn lemma_mark_len()
    ensures
        utf8_len("[truncated]"@) == 11,
{
    reveal_strlit("[truncated]");
    lemma_utf8_len_ascii("[truncated]"@);
}

/// Number of leading characters of `v` that fit in `budget` bytes.
pub(crate) fn fit_count_exec(v: &Vec<char>, budget: usize) -> (n: usize)
    ensures
        n == fit_count(v@, budget as int),
{
    let mut i: usize = 0;
    let mut acc: usize = 0;
    assert(v@.skip(0) =~= v@);
    while i < v.len() && char_width_exec(v[i]) <= budget - acc
        invariant
            i <= v.len(),
            acc <= budget,
            fit_count(v@, budget as int) == i + fit_count(v@.skip(i as int), budget - acc),
        decreases v.len() - i,
    {
        proof {
            assert(v@.skip(i as int).drop_first() =~= v@.skip(i + 1));
            assert(v@.skip(i as int)[0] == v@[i as int]);
        }
        acc = acc + char_width_exec(v[i]);
        i += 1;
    }
    proof {
        if i < v.len() {
            assert(v@.skip(i as int)[0] == v@[i as int]);
        }
    }
    i
}

/// Whether the UTF-8 encoding of `v` fits in `max` bytes.
pub(crate) fn fits_in(v: &Vec<char>, max: usize) -> (b: bool)
    ensures
        b == (utf8_len(v@) <= max),
{
    let mut i: usize = 0;
    let mut acc: usize = 0;
    assert(v@.take(0) =~= Seq::<char>::empty());
    assert(vstd::utf8::encode_utf8(Seq::<char>::empty()) =~= Seq::<u8>::empty());
    while i < v.len()
        invariant
            i <= v.len(),
            acc <= max,
            acc == utf8_len(v@.take(i as int)),
        decreases v.len() - i,
    {
        let w = char_width_exec(v[i]);
        proof {
            lemma_utf8_len_push(v@.take(i as int), v@[i as int]);
            assert(v@.take(i as int).push(v@[i as int]) =~= v@.take(i + 1));
        }
        if w > max - acc {
            proof {
                lemma_utf8_len_concat(v@.take(i + 1), v@.skip(i + 1));
                assert(v@.take(i + 1) + v@.skip(i + 1) =~= v@);
            }
            return false;
        }
        acc = acc + w;
        i += 1;
    }
    assert(v@.take(i as int) =~= v@);
    true
}

/// The longest prefix of `line` that fits in `budget` bytes.
fn truncate_to(line: &str, budget: usize) -> (r: String)
    ensures
        r@ == fit_prefix(line@, budget as int),
{
    let v = chars_of(line);
    let n = fit_count_exec(&v, budget);
    proof {
        lemma_fit_prefix(v@, budget as int);
    }
    let p = slice_chars(&v, 0, n);
    string_from_chars(&p)
}

/// Clamps one line.
///
/// A line of at most `max_bytes` bytes is returned unchanged.  A longer
/// line is cut at a character boundary and `[truncated]` is appended, the
/// whole staying within `max_bytes`; when the limit cannot even hold the
/// marker, the line is only cut.
pub fn clamp_line(line: &str, max_bytes: usize) -> (r: String)
    ensures
        r@ == clamped(line@, max_bytes as int),
        utf8_len(r@) <= max_bytes,
{
    let ghost mark = TRUNCATED_MARK@;
    proof {
        lemma_mark_len();
    }
    let v = chars_of(line);
    if fits_in(&v, max_bytes) {
        return owned(line);
    }
    let mark_len = TRUNCATED_MARK.len();
    if max_bytes <= mark_len {
        proof {
            lemma_fit_prefix(line@, max_bytes as int);
        }
        return truncate_to(line, max_bytes);
    }
    let mut out = truncate_to(line, max_bytes - mark_len);
    push_str(&mut out, TRUNCATED_MARK);
    proof {
        lemma_fit_prefix(line@, max_bytes - mark_len);
        lemma_utf8_len_concat(fit_prefix(line@, max_bytes - mark_len), mark);
    }
    out
}

/// Lines written back as text: joined with line feeds, and ended by one
/// more line feed when the last line is empty (so that it is read back).
pub open spec fn joined_lines(items: Seq<Seq<char>>) -> Seq<char> {
    if items.len() > 0 && items.last().len() == 0 {
        join(items, "\n"@) + "\n"@
    } else {
        join(items, "\n"@)
    }
}

/// Clamps each line of `content` (`str::lines`) and writes the results back
/// as lines, keeping the lines' number and order.
pub fn clamp_content(content: &str, max_bytes: usize) -> (r: String)
    ensures
        r@ == joined_lines(
            lines_of(content@).map_values(|l: Seq<char>| clamped(l, max_bytes as int)),
        ),
{
    let lines = split_lines(content);
    let mut out: Vec<String> = Vec::new();
    let mut i: usize = 0;
    while i < lines.len()
        invariant
            i <= lines.len(),
            sviews(lines@) == lines_of(content@),
            sviews(out@) == sviews(lines@).take(i as int).map_values(
                |l: Seq<char>| clamped(l, max_bytes as int),
            ),
        decreases lines.len() - i,
    {
        let c = clamp_line(lines[i].as_str(), max_bytes);
        let ghost prev = sviews(out@);
        out.push(c);
        proof {
            assert(sviews(lines@)[i as int] == lines@[i as int]@);
            assert(sviews(out@) =~= prev.push(c@));
            assert(sviews(out@) =~= sviews(lines@).take(i + 1).map_values(
                |l: Seq<char>| clamped(l, max_bytes as int),
            ));
        }
        i += 1;
    }
    proof {
        assert(sviews(lines@).take(lines@.len() as int) =~= sviews(lines@));
    }
    let mut r = String::new();
    push_joined(&mut r, &out, "\n");
    proof {
        assert(Seq::<char>::empty() + join(sviews(out@), "\n"@) =~= join(sviews(out@), "\n"@));
    }
    let n = out.len();
    if n > 0 && out[n - 1].as_str().unicode_len() == 0 {
        proof {
            assert(sviews(out@).last() == out@[n - 1]@);
        }
        push_str(&mut r, "\n");
    } else {
        proof {
            if n > 0 {
                assert(sviews(out@).last() == out@[n - 1]@);
            }
        }
    }
    r
}

// ------------------------------------------------------------------
// Laws
// ------------------------------------------------------------------

/// Whether `s` holds no line feed.
pub open spec fn no_newline(s: Seq<char>) -> bool {
    forall|i: int| 0 <= i < s.len() ==> s[i] != '\n'
}

/// A text without line feeds is a single line (when not empty).
proof fn lemma_lines_single(x: Seq<char>)
    requires
        no_newline(x),
        x.len() > 0,
    ensures
        lines_of(x) == seq![x],
{
    lemma_index_of_from_none(x, 0);
}

/// With no line feed from `i` on, the search for one ends at the end.
proof fn lemma_index_of_from_none(x: Seq<char>, i: int)
    requires
        no_newline(x),
        0 <= i <= x.len(),
    ensures
        index_of_from(x, '\n', i) == x.len(),
    decreases x.len() - i,
{
    if i < x.len() {
        lemma_index_of_from_none(x, i + 1);
    }
}

/// The first line feed after a line without one ends that line.
proof fn lemma_index_of_from_cons(x: Seq<char>, rest: Seq<char>, i: int)
    requires
        no_newline(x),
        0 <= i <= x.len(),
    ensures
        index_of_from(x + seq!['\n'] + rest, '\n', i) == x.len(),
    decreases x.len() - i,
{
    let t = x + seq!['\n'] + rest;
    if i < x.len() {
        assert(t[i] == x[i]);
        lemma_index_of_from_cons(x, rest, i + 1);
    } else {
        assert(t[i] == '\n');
    }
}

/// A line, a line feed and the rest: the line, then the rest's lines.
proof fn lemma_lines_cons(x: Seq<char>, rest: Seq<char>)
    requires
        no_newline(x),
    ensures
        lines_of(x + seq!['\n'] + rest) == seq![crate::text::strip_cr(x)] + lines_of(rest),
{
    let t = x + seq!['\n'] + rest;
    lemma_index_of_from_cons(x, rest, 0);
    assert(t.take(x.len() as int) =~= x);
    assert(t.skip(x.len() as int + 1) =~= rest);
}

/// Joining from the front: the first item, the separator, the rest joined.
proof fn lemma_join_front(items: Seq<Seq<char>>, sep: Seq<char>)
    requires
        items.len() >= 2,
    ensures
        join(items, sep) == items[0] + sep + join(items.drop_first(), sep),
    decreases items.len(),
{
    if items.len() == 2 {
        assert(items.drop_last() =~= seq![items[0]]);
        assert(items.drop_first() =~= seq![items[1]]);
        assert(join(items.drop_last(), sep) == items[0]);
        assert(join(items.drop_first(), sep) == items[1]);
    } else {
        let dl = items.drop_last();
        let df = items.drop_first();
        lemma_join_front(dl, sep);
        assert(dl.drop_first() =~= df.drop_last());
        assert(df.last() == items.last());
        assert(dl[0] == items[0]);
        assert(join(df, sep) == join(df.drop_last(), sep) + sep + df.last());
        assert(join(items, sep) == join(dl, sep) + sep + items.last());
        assert(join(items, sep) =~= items[0] + sep + (join(dl.drop_first(), sep) + sep
            + items.last()));
    }
}

/// Lines without line feeds, written back as text, read back as the same
/// number of lines: each as it was, except that a line followed by another
/// loses one trailing carriage return.
pub proof fn law_lines_of_joined(items: Seq<Seq<char>>)
    requires
        forall|i: int| 0 <= i < items.len() ==> no_newline(#[trigger] items[i]),
    ensures
        lines_of(joined_lines(items)).len() == items.len(),
        forall|i: int|
            0 <= i < items.len() ==> #[trigger] lines_of(joined_lines(items))[i] == if i
                < items.len() - 1 {
                crate::text::strip_cr(items[i])
            } else {
                items[i]
            },
    decreases items.len(),
{
    reveal_strlit("\n");
    assert("\n"@ =~= seq!['\n']);
    if items.len() == 0 {
    } else if items.len() == 1 {
        assert(join(items, "\n"@) == items[0]);
        if items[0].len() == 0 {
            assert(joined_lines(items) =~= items[0] + seq!['\n'] + Seq::<char>::empty());
            lemma_lines_cons(items[0], Seq::<char>::empty());
        } else {
            lemma_lines_single(items[0]);
        }
    } else {
        lemma_join_front(items, "\n"@);
        let rest = items.drop_first();
        assert(rest.last() == items.last());
        assert forall|i: int| 0 <= i < rest.len() implies no_newline(#[trigger] rest[i]) by {
            assert(rest[i] == items[i + 1]);
        }
        law_lines_of_joined(rest);
        assert(joined_lines(items) =~= items[0] + seq!['\n'] + joined_lines(rest));
        lemma_lines_cons(items[0], joined_lines(rest));
        assert forall|i: int| 0 <= i < items.len() implies #[trigger] lines_of(
            joined_lines(items),
        )[i] == if i < items.len() - 1 {
            crate::text::strip_cr(items[i])
        } else {
            items[i]
        } by {
            if i > 0 {
                assert(lines_of(joined_lines(items))[i] == lines_of(joined_lines(rest))[i - 1]);
                assert(rest[i - 1] == items[i]);
            }
        }
    }
}

/// The lines of a text hold no line feed.
pub proof fn lemma_lines_no_newline(s: Seq<char>)
    ensures
        forall|i: int| 0 <= i < lines_of(s).len() ==> no_newline(#[trigger] lines_of(s)[i]),
    decreases s.len(),
{
    if s.len() > 0 {
        let i = index_of_from(s, '\n', 0);
        crate::text::lemma_index_of_from_bounds(s, '\n', 0);
        if i < s.len() {
            lemma_lines_no_newline(s.skip(i + 1));
            let first = crate::text::strip_cr(s.take(i));
            assert(no_newline(first)) by {
                assert forall|k: int| 0 <= k < first.len() implies first[k] != '\n' by {
                    assert(first[k] == s[k]);
                }
            }
            assert forall|k: int| 0 <= k < lines_of(s).len() implies no_newline(
                #[trigger] lines_of(s)[k],
            ) by {
                if k > 0 {
                    assert(lines_of(s)[k] == lines_of(s.skip(i + 1))[k - 1]);
                }
            }
        } else {
            assert forall|k: int| 0 <= k < s.len() implies s[k] != '\n' by {}
        }
    }
}

/// A clamped line holds no line feed (nor carriage return) when the line
/// holds none.
pub proof fn lemma_clamped_line(line: Seq<char>, max: int)
    requires
        no_newline(line),
        max >= 0,
    ensures
        no_newline(clamped(line, max)),
        no_char(line, '\r') ==> no_char(clamped(line, max), '\r'),
{
    reveal_strlit("[truncated]");
    lemma_mark_len();
    let b = if max <= 11 {
        max
    } else {
        max - 11
    };
    lemma_fit_prefix(line, b);
    let p = fit_prefix(line, b);
    assert forall|k: int| 0 <= k < p.len() implies p[k] != '\n' by {
        assert(p[k] == line[k]);
    }
    assert(no_char(line, '\r') ==> no_char(p, '\r')) by {
        if no_char(line, '\r') {
            assert forall|k: int| 0 <= k < p.len() implies p[k] != '\r' by {
                assert(p[k] == line[k]);
            }
        }
    }
    let c = clamped(line, max);
    if utf8_len(line) > max && max > 11 {
        let m = "[truncated]"@;
        assert forall|k: int| 0 <= k < c.len() implies c[k] != '\n' by {
            if k < p.len() {
                assert(c[k] == p[k]);
            } else {
                assert(c[k] == m[k - p.len()]);
            }
        }
        if no_char(line, '\r') {
            assert forall|k: int| 0 <= k < c.len() implies c[k] != '\r' by {
                if k < p.len() {
                    assert(c[k] == p[k]);
                } else {
                    assert(c[k] == m[k - p.len()]);
                }
            }
        }
    }
}

/// Clamping content keeps its number of lines.
pub proof fn law_clamp_content_keeps_line_count(content: Seq<char>, max: int)
    requires
        max >= 0,
    ensures
        lines_of(joined_lines(lines_of(content).map_values(|l: Seq<char>| clamped(l, max)))).len()
            == lines_of(content).len(),
{
    let ls = lines_of(content);
    let cs = ls.map_values(|l: Seq<char>| clamped(l, max));
    lemma_lines_no_newline(content);
    assert forall|i: int| 0 <= i < cs.len() implies no_newline(#[trigger] cs[i]) by {
        lemma_clamped_line(ls[i], max);
    }
    law_lines_of_joined(cs);
}

/// Clamping content without carriage returns reads back, line by line, as
/// the clamped lines, in order.
pub proof fn law_clamp_content_keeps_lines(content: Seq<char>, max: int)
    requires
        max >= 0,
        no_char(content, '\r'),
    ensures
        lines_of(joined_lines(lines_of(content).map_values(|l: Seq<char>| clamped(l, max))))
            == lines_of(content).map_values(|l: Seq<char>| clamped(l, max)),
{
    let ls = lines_of(content);
    let cs = ls.map_values(|l: Seq<char>| clamped(l, max));
    lemma_lines_no_newline(content);
    lemma_lines_no_cr(content);
    assert forall|i: int| 0 <= i < cs.len() implies no_newline(#[trigger] cs[i]) && no_char(
        cs[i],
        '\r',
    ) by {
        lemma_clamped_line(ls[i], max);
    }
    law_lines_of_joined(cs);
    let back = lines_of(joined_lines(cs));
    assert forall|i: int| 0 <= i < cs.len() implies back[i] == cs[i] by {
        assert(back[i] == if i < cs.len() - 1 {
            crate::text::strip_cr(cs[i])
        } else {
            cs[i]
        });
        if cs[i].len() > 0 {
            assert(cs[i].last() != '\r');
        }
    }
    assert(back =~= cs);
}

/// Whether `s` holds no `c`.
pub open spec fn no_char(s: Seq<char>, c: char) -> bool {
    forall|i: int| 0 <= i < s.len() ==> s[i] != c
}

/// The lines of a text without carriage returns hold none.
proof fn lemma_lines_no_cr(s: Seq<char>)
    requires
        no_char(s, '\r'),
    ensures
        forall|i: int| 0 <= i < lines_of(s).len() ==> no_char(#[trigger] lines_of(s)[i], '\r'),
    decreases s.len(),
{
    if s.len() > 0 {
        let i = index_of_from(s, '\n', 0);
        crate::text::lemma_index_of_from_bounds(s, '\n', 0);
        if i < s.len() {
            let t = s.skip(i + 1);
            assert forall|k: int| 0 <= k < t.len() implies t[k] != '\r' by {
                assert(t[k] == s[k + i + 1]);
            }
            lemma_lines_no_cr(t);
            let first = crate::text::strip_cr(s.take(i));
            assert(no_char(first, '\r')) by {
                assert forall|k: int| 0 <= k < first.len() implies first[k] != '\r' by {
                    assert(first[k] == s[k]);
                }
            }
            assert forall|k: int| 0 <= k < lines_of(s).len() implies no_char(
                #[trigger] lines_of(s)[k],
                '\r',
            ) by {
                if k > 0 {
                    assert(lines_of(s)[k] == lines_of(t)[k - 1]);
                }
            }
        }
    }
}

/// Clamping a clamped line changes nothing.
pub proof fn law_clamp_idempotent(line: Seq<char>, max: int)
    requires
        max >= 0,
    ensures
        clamped(clamped(line, max), max) == clamped(line, max),
{
    lemma_mark_len();
    let b = if max <= 11 {
        max
    } else {
        max - 11
    };
    if utf8_len(line) > max {
        lemma_fit_prefix(line, b);
        if max > 11 {
            lemma_utf8_len_concat(fit_prefix(line, b), "[truncated]"@);
        }
    }
}

} // verus!
