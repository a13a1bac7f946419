//! Trust gating of high-impact inputs (system-prompt files, skill
//! instructions).
//!
//! Before an input is injected, its content is fingerprinted (FNV-1a 64
//! and its line count).  When the fingerprint differs from the last one
//! injected, an audit event is produced, to be journaled before the input
//! is used; an input over the line budget is marked, not blocked.

use vstd::prelude::*;

use crate::text::{lines_of, owned, split_lines};

verus! {

/// Hard line budget of the constitution file.
pub const TAO_MAX_LINES: usize = 3000;

/// Journal event type name.
pub const TRUST_INPUT_EVENT: &'static str = "trust_input";

/// FNV-1a 64-bit offset basis.
pub open spec fn fnv_offset() -> u64 {
    0xcbf2_9ce4_8422_2325
}

/// FNV-1a 64-bit prime.
pub open spec fn fnv_prime() -> u64 {
    0x0000_0100_0000_01b3
}

/// One FNV-1a step.
pub open spec fn fnv_step(h: u64, b: u8) -> u64 {
    (((h ^ (b as u64)) as nat * fnv_prime() as nat) % 0x1_0000_0000_0000_0000nat) as u64
}

/// FNV-1a 64 of a byte sequence.
pub open spec fn fnv_hash(bytes: Seq<u8>) -> u64
    decreases bytes.len(),
{
    if bytes.len() == 0 {
        fnv_offset()
    } else {
        fnv_step(fnv_hash(bytes.drop_last()), bytes.last())
    }
}

/// The lower-case hexadecimal digit of `d < 16`.
pub open spec fn hex_digit(d: nat) -> char {
    if d < 10 {
        ((d + 48) as u8) as char
    } else {
        ((d + 87) as u8) as char
    }
}

/// The last `k` lower-case hexadecimal digits of `n`, zero-padded.
pub open spec fn hex_digits(n: nat, k: nat) -> Seq<char>
    decreases k,
{
    if k == 0 {
        Seq::empty()
    } else {
        hex_digits(n / 16, (k - 1) as nat).push(hex_digit(n % 16))
    }
}

/// The fingerprint text of a string: FNV-1a 64 of its UTF-8 bytes, as 16
/// lower-case hexadecimal digits.
pub open spec fn fnv_text(s: Seq<char>) -> Seq<char> {
    hex_digits(fnv_hash(vstd::utf8::encode_utf8(s)) as nat, 16)
}

/// The lower-case hexadecimal digit of `d`.
fn hex_digit_exec(d: u64) -> (c: char)
    requires
        d < 16,
    ensures
        c == hex_digit(d as nat),
{
    if d < 10 {
        ((d + 48) as u8) as char
    } else {
        ((d + 87) as u8) as char
    }
}

/// `hex_digits(n, k)`.
fn hex_digits_exec(n: u64, k: usize) -> (r: Vec<char>)
    ensures
        r@ == hex_digits(n as nat, k as nat),
    decreases k,
{
    if k == 0 {
        return Vec::new();
    }
    let mut r = hex_digits_exec(n / 16, k - 1);
    r.push(hex_digit_exec(n % 16));
    r
}

/// FNV-1a 64-bit fingerprint (deterministic; for change detection only),
/// as 16 lower-case hexadecimal digits.
pub fn fnv1a64(data: &str) -> (h: String)
    ensures
        h@ == fnv_text(data@),
{
    let bytes = data.as_bytes();
    let mut hash: u64 = 0xcbf2_9ce4_8422_2325;
    let mut i: usize = 0;
    while i < bytes.len()
        invariant
            i <= bytes@.len(),
            bytes@ == vstd::utf8::encode_utf8(data@),
            hash == fnv_hash(bytes@.take(i as int)),
        decreases bytes.len() - i,
    {
        proof {
            assert(bytes@.take(i + 1).drop_last() =~= bytes@.take(i as int));
        }
        hash = hash ^ (bytes[i] as u64);
        hash = hash.wrapping_mul(0x0000_0100_0000_01b3);
        i += 1;
    }
    proof {
        assert(bytes@.take(bytes@.len() as int) =~= bytes@);
    }
    let digits = hex_digits_exec(hash, 16);
    crate::text::string_from_chars(&digits)
}

/// Fingerprint of injected content: its hash and its number of lines.
pub fn fingerprint(content: &str) -> (r: (String, usize))
    ensures
        r.0@ == fnv_text(content@),
        r.1 == lines_of(content@).len(),
{
    let lines = split_lines(content);
    (fnv1a64(content), lines.len())
}

/// Whether a line count is within the budget.
pub fn within_budget(lines: usize, max_lines: usize) -> (b: bool)
    ensures
        b == (lines <= max_lines),
{
    lines <= max_lines
}

/// Journal event: a high-impact input changed.
#[derive(Debug, Clone, PartialEq, Eq)]
pub struct TrustInputEvent {
    /// Time of the event (RFC 3339, UTC).
    pub at: String,
    /// Name of the input.
    pub name: String,
    /// Fingerprint of the previous injection (empty on the first).
    pub prev_hash: String,
    /// Fingerprint of this injection.
    pub new_hash: String,
    /// Number of lines of this content.
    pub lines: usize,
    /// Whether the content is within the line budget.
    pub budget_ok: bool,
}

/// Gate decision: `None` when the fingerprint is unchanged; otherwise
/// (first injection, or changed content) the event to journal before the
/// content is injected.
pub fn audit_injection(name: &str, prev_hash: &str, content: &str, now_rfc3339: &str) -> (r:
    Option<TrustInputEvent>)
    ensures
        r is None <==> fnv_text(content@) == prev_hash@,
        r matches Some(ev) ==> {
            &&& ev.at@ == now_rfc3339@
            &&& ev.name@ == name@
            &&& ev.prev_hash@ == prev_hash@
            &&& ev.new_hash@ == fnv_text(content@)
            &&& ev.lines == lines_of(content@).len()
            &&& ev.budget_ok == (lines_of(content@).len() <= TAO_MAX_LINES)
        },
{
    let (new_hash, lines) = fingerprint(content);
    if crate::text::str_eq(new_hash.as_str(), prev_hash) {
        return None;
    }
    Some(
        TrustInputEvent {
            at: owned(now_rfc3339),
            name: owned(name),
            prev_hash: owned(prev_hash),
            new_hash,
            lines,
            budget_ok: within_budget(lines, TAO_MAX_LINES),
        },
    )
}

} // verus!
