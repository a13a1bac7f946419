//! Validation ledger with four outcomes in place of pass / fail.
//!
//! Each check point reports exactly one of `Missing` (the resource does
//! not exist), `Empty` (it exists with no content), `Corrupt` (its content
//! is malformed) or `Valid`, so that a damaged or absent resource can never
//! pass as a success.  The file system is probed by the caller; the checks
//! here decide on what the probe found.

use vstd::prelude::*;

use crate::json::{is_json_text, parses_as_json};
use crate::text::{
    decimal, lines_of, owned, push_decimal, push_signed_decimal, push_str, signed_decimal,
    split_lines, trim, trim_chars, chars_of,
};

verus! {

/// The outcome of a check.
#[derive(Debug, Clone, Copy, PartialEq, Eq, Structural)]
pub enum ValidationState {
    Missing,
    Empty,
    Corrupt,
    Valid,
}

impl ValidationState {
    /// Severity rank: Missing (0) < Corrupt (1) < Empty (2) < Valid (3).
    pub open spec fn rank(self) -> u8 {
        match self {
            ValidationState::Missing => 0,
            ValidationState::Corrupt => 1,
            ValidationState::Empty => 2,
            ValidationState::Valid => 3,
        }
    }

    /// The state's label.
    pub open spec fn label(self) -> Seq<char> {
        match self {
            ValidationState::Missing => "MISSING"@,
            ValidationState::Empty => "EMPTY"@,
            ValidationState::Corrupt => "CORRUPT"@,
            ValidationState::Valid => "VALID"@,
        }
    }

    /// Whether the check passed (only `Valid` passes).
    pub fn is_valid(&self) -> (b: bool)
        ensures
            b == (*self == ValidationState::Valid),
    {
        matches!(self, ValidationState::Valid)
    }

    /// Whether a person must look at it (`Missing` or `Corrupt`).
    pub fn needs_attention(&self) -> (b: bool)
        ensures
            b == (*self == ValidationState::Missing || *self == ValidationState::Corrupt),
    {
        matches!(self, ValidationState::Missing | ValidationState::Corrupt)
    }

    /// Severity rank: Missing < Corrupt < Empty < Valid.
    pub fn severity(&self) -> (r: u8)
        ensures
            r == self.rank(),
    {
        match self {
            ValidationState::Missing => 0,
            ValidationState::Corrupt => 1,
            ValidationState::Empty => 2,
            ValidationState::Valid => 3,
        }
    }

    /// The state's label.
    pub fn as_str(&self) -> (s: &'static str)
        ensures
            s@ == self.label(),
    {
        match self {
            ValidationState::Missing => "MISSING",
            ValidationState::Empty => "EMPTY",
            ValidationState::Corrupt => "CORRUPT",
            ValidationState::Valid => "VALID",
        }
    }

    /// The state's label, as text.
    pub fn to_string(&self) -> (s: String)
        ensures
            s@ == self.label(),
    {
        owned(self.as_str())
    }
}

/// One ledger record.
#[derive(Debug, Clone, PartialEq, Eq)]
pub struct LedgerEntry {
    /// Check point identifier.
    key: String,
    /// Checked path.
    path: String,
    /// Outcome.
    state: ValidationState,
    /// Extra information.
    detail: Option<String>,
}

/// The view of an optional string.
pub open spec fn opt_view(o: Option<String>) -> Option<Seq<char>> {
    match o {
        Some(s) => Some(s@),
        None => None,
    }
}

impl LedgerEntry {
    /// The check point identifier.
    pub closed spec fn key_view(&self) -> Seq<char> {
        self.key@
    }

    /// The checked path.
    pub closed spec fn path_view(&self) -> Seq<char> {
        self.path@
    }

    /// The outcome.
    pub closed spec fn state_view(&self) -> ValidationState {
        self.state
    }

    /// The extra information.
    pub closed spec fn detail_view(&self) -> Option<Seq<char>> {
        opt_view(self.detail)
    }

    /// A record.
    pub fn new(key: &str, path: &str, state: ValidationState, detail: Option<&str>) -> (e: Self)
        ensures
            e.key_view() == key@,
            e.path_view() == path@,
            e.state_view() == state,
            e.detail_view() == match detail {
                Some(d) => Some(d@),
                None => None::<Seq<char>>,
            },
    {
        LedgerEntry {
            key: owned(key),
            path: owned(path),
            state,
            detail: match detail {
                Some(d) => Some(owned(d)),
                None => None,
            },
        }
    }

    /// The check point identifier.
    pub fn key(&self) -> (s: &str)
        ensures
            s@ == self.key_view(),
    {
        self.key.as_str()
    }

    /// The checked path.
    pub fn path(&self) -> (s: &str)
        ensures
            s@ == self.path_view(),
    {
        self.path.as_str()
    }

    /// The outcome.
    pub fn state(&self) -> (s: &ValidationState)
        ensures
            *s == self.state_view(),
    {
        &self.state
    }

    /// The extra information.
    pub fn detail(&self) -> (d: Option<&str>)
        ensures
            match d {
                Some(s) => self.detail_view() == Some(s@),
                None => self.detail_view() is None,
            },
    {
        match &self.detail {
            Some(s) => Some(s.as_str()),
            None => None,
        }
    }

    /// The record as one line: `[STATE] key @ path: detail`.
    pub open spec fn text(&self) -> Seq<char> {
        "["@ + self.state_view().label() + "] "@ + self.key_view() + " @ "@ + self.path_view()
            + ": "@ + match self.detail_view() {
            Some(d) => d,
            None => "no detail"@,
        }
    }

    /// The record as one line: `[STATE] key @ path: detail`.
    pub fn to_string(&self) -> (s: String)
        ensures
            s@ == self.text(),
    {
        let mut s = owned("[");
        push_str(&mut s, self.state.as_str());
        push_str(&mut s, "] ");
        push_str(&mut s, self.key.as_str());
        push_str(&mut s, " @ ");
        push_str(&mut s, self.path.as_str());
        push_str(&mut s, ": ");
        match &self.detail {
            Some(d) => push_str(&mut s, d.as_str()),
            None => push_str(&mut s, "no detail"),
        }
        proof {
            assert(s@ =~= self.text());
        }
        s
    }
}

/// What the file system reported about a path.
#[derive(Debug, Clone, PartialEq, Eq)]
pub enum FileProbe {
    /// No metadata could be read; the message is the I/O error's text.
    Missing(String),
    /// The path exists; its size in bytes.
    Found(u64),
}

/// What reading a log file gave.
#[derive(Debug, Clone, PartialEq, Eq)]
pub enum LogProbe {
    /// The path does not exist.
    Missing,
    /// The path exists but could not be read as text.
    Unreadable,
    /// The file's text.
    Content(String),
}

/// Outcome of a presence check: missing, empty or valid.
pub open spec fn presence_state(p: FileProbe) -> ValidationState {
    match p {
        FileProbe::Missing(_) => ValidationState::Missing,
        FileProbe::Found(n) => if n == 0 {
            ValidationState::Empty
        } else {
            ValidationState::Valid
        },
    }
}

/// Detail of a presence check: the size, or -1 when unknown.
pub open spec fn presence_detail(p: FileProbe) -> Seq<char> {
    match p {
        FileProbe::Missing(_) => "size=-1"@,
        FileProbe::Found(n) => "size="@ + signed_decimal((n as i64) as int),
    }
}

/// Outcome of a size check against `min` bytes.
pub open spec fn integrity_state(p: FileProbe, min: u64) -> ValidationState {
    match p {
        FileProbe::Missing(_) => ValidationState::Missing,
        FileProbe::Found(n) => if n >= min {
            ValidationState::Valid
        } else {
            ValidationState::Corrupt
        },
    }
}

/// Detail of a size check.
pub open spec fn integrity_detail(p: FileProbe, min: u64) -> Seq<char> {
    match p {
        FileProbe::Missing(e) => "failed to read metadata: "@ + e@,
        FileProbe::Found(n) => "expected>=min="@ + decimal(min as nat) + ", actual="@ + decimal(
            n as nat,
        ),
    }
}

/// Outcome of a binary check: a zero-byte binary is corrupt.
pub open spec fn binary_state(p: FileProbe) -> ValidationState {
    match p {
        FileProbe::Missing(_) => ValidationState::Missing,
        FileProbe::Found(n) => if n > 0 {
            ValidationState::Valid
        } else {
            ValidationState::Corrupt
        },
    }
}

/// Detail of a binary check.
pub open spec fn binary_detail(p: FileProbe) -> Seq<char> {
    match p {
        FileProbe::Missing(e) => "failed to read metadata: "@ + e@,
        FileProbe::Found(n) => "size="@ + decimal(n as nat),
    }
}

/// Outcome of an evolution-log check: empty when only whitespace, valid
/// when some line is one JSON value, corrupt otherwise.
pub open spec fn log_state(p: LogProbe) -> ValidationState {
    match p {
        LogProbe::Missing => ValidationState::Missing,
        LogProbe::Unreadable => ValidationState::Corrupt,
        LogProbe::Content(c) => if trim(c@).len() == 0 {
            ValidationState::Empty
        } else if exists|i: int|
            0 <= i < lines_of(c@).len() && is_json_text(trim(#[trigger] lines_of(c@)[i])) {
            ValidationState::Valid
        } else {
            ValidationState::Corrupt
        },
    }
}

/// The severity-least state of a sequence of entries (`Valid` when none).
pub open spec fn worst_of(es: Seq<LedgerEntry>) -> ValidationState
    decreases es.len(),
{
    if es.len() == 0 {
        ValidationState::Valid
    } else {
        let w = worst_of(es.drop_last());
        if es.last().state_view().rank() < w.rank() {
            es.last().state_view()
        } else {
            w
        }
    }
}

/// The validation ledger: the records of all check points.
#[derive(Debug, Clone)]
pub struct Ledger {
    entries: Vec<LedgerEntry>,
}

impl View for Ledger {
    type V = Seq<LedgerEntry>;

    /// The records, in the order they were added.
    closed spec fn view(&self) -> Seq<LedgerEntry> {
        self.entries@
    }
}

impl Ledger {
    /// An empty ledger.
    pub fn new() -> (l: Self)
        ensures
            l@ == Seq::<LedgerEntry>::empty(),
    {
        Ledger { entries: Vec::new() }
    }

    /// Adds a record.
    pub fn add(&mut self, entry: LedgerEntry)
        ensures
            final(self)@ == old(self)@.push(entry),
    {
        self.entries.push(entry);
    }

    /// All records.
    pub fn entries(&self) -> (es: &[LedgerEntry])
        ensures
            es@ == self@,
    {
        self.entries.as_slice()
    }

    /// The first record with key `key`.
    pub fn get(&self, key: &str) -> (r: Option<&LedgerEntry>)
        ensures
            match r {
                Some(e) => exists|i: int|
                    0 <= i < self@.len() && self@[i] == *e && e.key_view() == key@ && forall|j: int|
                        0 <= j < i ==> self@[j].key_view() != key@,
                None => forall|j: int| 0 <= j < self@.len() ==> self@[j].key_view() != key@,
            },
    {
        let mut i: usize = 0;
        while i < self.entries.len()
            invariant
                i <= self.entries.len(),
                forall|j: int| 0 <= j < i ==> self@[j].key_view() != key@,
            decreases self.entries.len() - i,
        {
            if crate::text::str_eq(self.entries[i].key(), key) {
                return Some(&self.entries[i]);
            }
            i += 1;
        }
        None
    }

    /// Whether every record is `Valid`.
    pub fn all_valid(&self) -> (b: bool)
        ensures
            b == forall|j: int| 0 <= j < self@.len() ==> #[trigger] self@[j].state_view()
                == ValidationState::Valid,
    {
        let mut i: usize = 0;
        while i < self.entries.len()
            invariant
                i <= self.entries.len(),
                forall|j: int| 0 <= j < i ==> #[trigger] self@[j].state_view()
                    == ValidationState::Valid,
            decreases self.entries.len() - i,
        {
            if !self.entries[i].state().is_valid() {
                return false;
            }
            i += 1;
        }
        true
    }

    /// The records that need attention, in order.
    pub fn attention_items(&self) -> (v: Vec<&LedgerEntry>)
        ensures
            v@.map_values(|e: &LedgerEntry| *e) == self@.filter(
                |e: LedgerEntry|
                    e.state_view() == ValidationState::Missing || e.state_view()
                        == ValidationState::Corrupt,
            ),
    {
        let ghost f = |e: LedgerEntry|
            e.state_view() == ValidationState::Missing || e.state_view()
                == ValidationState::Corrupt;
        let mut v: Vec<&LedgerEntry> = Vec::new();
        let mut i: usize = 0;
        while i < self.entries.len()
            invariant
                i <= self.entries.len(),
                f == (|e: LedgerEntry|
                    e.state_view() == ValidationState::Missing || e.state_view()
                        == ValidationState::Corrupt),
                v@.map_values(|e: &LedgerEntry| *e) == self@.take(i as int).filter(f),
            decreases self.entries.len() - i,
        {
            proof {
                assert(self@.take(i + 1).drop_last() =~= self@.take(i as int));
                reveal(Seq::filter);
                assert(self@.take(i + 1).last() == self@[i as int]);
            }
            let e = &self.entries[i];
            if e.state().needs_attention() {
                v.push(e);
                assert(v@.map_values(|e: &LedgerEntry| *e) =~= self@.take(i as int).filter(
                    f,
                ).push(*e));
            }
            i += 1;
        }
        assert(self@.take(self@.len() as int) =~= self@);
        v
    }

    /// The most severe state (Missing > Corrupt > Empty > Valid); `Valid`
    /// for an empty ledger.
    pub fn worst_state(&self) -> (s: ValidationState)
        ensures
            s == worst_of(self@),
            forall|i: int| 0 <= i < self@.len() ==> s.rank() <= (#[trigger] self@[i]).state_view().rank(),
    {
        proof {
            law_worst_is_most_severe(self@);
        }
        let mut w = ValidationState::Valid;
        let mut i: usize = 0;
        while i < self.entries.len()
            invariant
                i <= self.entries.len(),
                w == worst_of(self@.take(i as int)),
            decreases self.entries.len() - i,
        {
            proof {
                assert(self@.take(i + 1).drop_last() =~= self@.take(i as int));
            }
            let s = *self.entries[i].state();
            if s.severity() < w.severity() {
                w = s;
            }
            i += 1;
        }
        assert(self@.take(self@.len() as int) =~= self@);
        w
    }

    /// Presence check: missing, empty (zero bytes) or valid; the record's
    /// detail gives the size.
    pub fn check_state(&mut self, key: &str, path: &str, probe: &FileProbe) -> (s: ValidationState)
        ensures
            s == presence_state(*probe),
            final(self)@.len() == old(self)@.len() + 1,
            final(self)@.drop_last() == old(self)@,
            final(self)@.last().key_view() == key@,
            final(self)@.last().path_view() == path@,
            final(self)@.last().state_view() == s,
            final(self)@.last().detail_view() == Some(presence_detail(*probe)),
    {
        let (state, size): (ValidationState, i64) = match probe {
            FileProbe::Missing(_) => (ValidationState::Missing, -1),
            FileProbe::Found(n) => (
                if *n == 0 {
                    ValidationState::Empty
                } else {
                    ValidationState::Valid
                },
                *n as i64,
            ),
        };
        let mut detail = owned("size=");
        push_signed_decimal(&mut detail, size);
        proof {
            reveal_strlit("size=-1");
            reveal_strlit("size=");
            reveal_strlit("-");
            assert(decimal(1) == seq!['1']);
            assert(detail@ =~= presence_detail(*probe));
        }
        self.add(LedgerEntry::new(key, path, state, Some(detail.as_str())));
        proof {
            assert(self@.drop_last() =~= old(self)@);
        }
        state
    }

    /// Size check: missing, corrupt (fewer than `min_bytes` bytes) or valid.
    pub fn integrity_check(&mut self, key: &str, path: &str, min_bytes: u64, probe: &FileProbe) -> (s:
        ValidationState)
        ensures
            s == integrity_state(*probe, min_bytes),
            final(self)@.len() == old(self)@.len() + 1,
            final(self)@.drop_last() == old(self)@,
            final(self)@.last().key_view() == key@,
            final(self)@.last().path_view() == path@,
            final(self)@.last().state_view() == s,
            final(self)@.last().detail_view() == Some(integrity_detail(*probe, min_bytes)),
    {
        let state = match probe {
            FileProbe::Missing(_) => ValidationState::Missing,
            FileProbe::Found(n) => if *n >= min_bytes {
                ValidationState::Valid
            } else {
                ValidationState::Corrupt
            },
        };
        let detail = match probe {
            FileProbe::Missing(e) => {
                let mut d = owned("failed to read metadata: ");
                push_str(&mut d, e.as_str());
                d
            },
            FileProbe::Found(n) => {
                let mut d = owned("expected>=min=");
                push_decimal(&mut d, min_bytes);
                push_str(&mut d, ", actual=");
                push_decimal(&mut d, *n);
                d
            },
        };
        assert(detail@ =~= integrity_detail(*probe, min_bytes));
        self.add(LedgerEntry::new(key, path, state, Some(detail.as_str())));
        proof {
            assert(self@.drop_last() =~= old(self)@);
        }
        state
    }

    /// Evolution-log check: missing, empty (only whitespace), valid (some
    /// line is one JSON value) or corrupt; the record has no detail.
    pub fn evolution_log_check(&mut self, key: &str, path: &str, probe: &LogProbe) -> (s:
        ValidationState)
        ensures
            s == log_state(*probe),
            final(self)@.len() == old(self)@.len() + 1,
            final(self)@.drop_last() == old(self)@,
            final(self)@.last().key_view() == key@,
            final(self)@.last().path_view() == path@,
            final(self)@.last().state_view() == s,
            final(self)@.last().detail_view() is None,
    {
        let state = match probe {
            LogProbe::Missing => ValidationState::Missing,
            LogProbe::Unreadable => ValidationState::Corrupt,
            LogProbe::Content(c) => {
                let t = trim_chars(&chars_of(c.as_str()));
                if t.len() == 0 {
                    ValidationState::Empty
                } else if any_json_line(c.as_str()) {
                    ValidationState::Valid
                } else {
                    ValidationState::Corrupt
                }
            },
        };
        self.add(LedgerEntry::new(key, path, state, None));
        proof {
            assert(self@.drop_last() =~= old(self)@);
        }
        state
    }

    /// Binary check: missing, corrupt (zero bytes) or valid; the record's
    /// detail gives the size.
    pub fn binary_check(&mut self, key: &str, path: &str, probe: &FileProbe) -> (s: ValidationState)
        ensures
            s == binary_state(*probe),
            final(self)@.len() == old(self)@.len() + 1,
            final(self)@.drop_last() == old(self)@,
            final(self)@.last().key_view() == key@,
            final(self)@.last().path_view() == path@,
            final(self)@.last().state_view() == s,
            final(self)@.last().detail_view() == Some(binary_detail(*probe)),
    {
        let state = match probe {
            FileProbe::Missing(_) => ValidationState::Missing,
            FileProbe::Found(n) => if *n > 0 {
                ValidationState::Valid
            } else {
                ValidationState::Corrupt
            },
        };
        let detail = match probe {
            FileProbe::Missing(e) => {
                let mut d = owned("failed to read metadata: ");
                push_str(&mut d, e.as_str());
                d
            },
            FileProbe::Found(n) => {
                let mut d = owned("size=");
                push_decimal(&mut d, *n);
                d
            },
        };
        assert(detail@ =~= binary_detail(*probe));
        self.add(LedgerEntry::new(key, path, state, Some(detail.as_str())));
        proof {
            assert(self@.drop_last() =~= old(self)@);
        }
        state
    }
}

/// Whether some line of `content` is, once trimmed, one JSON value.
fn any_json_line(content: &str) -> (b: bool)
    ensures
        b == exists|i: int|
            0 <= i < lines_of(content@).len() && is_json_text(
                trim(#[trigger] lines_of(content@)[i]),
            ),
{
    let lines = split_lines(content);
    let mut i: usize = 0;
    while i < lines.len()
        invariant
            i <= lines.len(),
            crate::text::sviews(lines@) == lines_of(content@),
            forall|j: int| 0 <= j < i ==> !is_json_text(trim(#[trigger] lines_of(content@)[j])),
        decreases lines.len() - i,
    {
        let t = trim_chars(&chars_of(lines[i].as_str()));
        let ts = crate::text::string_from_chars(&t);
        assert(lines_of(content@)[i as int] == lines@[i as int]@);
        if parses_as_json(ts.as_str()) {
            return true;
        }
        i += 1;
    }
    false
}

impl Default for Ledger {
    fn default() -> (l: Self)
        ensures
            l@ == Seq::<LedgerEntry>::empty(),
    {
        Self::new()
    }
}


/// The ledger is all valid exactly when its worst state is `Valid`:
/// `all_valid` and `worst_state` agree.
pub proof fn law_all_valid_iff_worst_valid(es: Seq<LedgerEntry>)
    ensures
        (forall|j: int| 0 <= j < es.len() ==> #[trigger] es[j].state_view() == ValidationState::Valid)
            <==> worst_of(es) == ValidationState::Valid,
    decreases es.len(),
{
    if es.len() > 0 {
        let d = es.drop_last();
        law_all_valid_iff_worst_valid(d);
        assert forall|j: int| 0 <= j < d.len() implies #[trigger] d[j] == es[j] by {}
        if worst_of(es) == ValidationState::Valid {
            assert(worst_of(d).rank() >= 3 || es.last().state_view().rank() >= 3);
            assert forall|j: int| 0 <= j < es.len() implies #[trigger] es[j].state_view()
                == ValidationState::Valid by {
                if j < d.len() {
                    assert(d[j] == es[j]);
                }
            }
        }
        if forall|j: int| 0 <= j < es.len() ==> #[trigger] es[j].state_view() == ValidationState::Valid {
            assert(es.last().state_view() == es[es.len() - 1].state_view());
            assert forall|j: int| 0 <= j < d.len() implies #[trigger] d[j].state_view()
                == ValidationState::Valid by {
                assert(d[j] == es[j]);
            }
        }
    }
}

/// The worst state is the most severe one (Missing, then Corrupt, then
/// Empty, then Valid): no entry is more severe than it, and it is the state
/// of some entry (`Valid` for an empty ledger).  `worst_state` returns
/// `worst_of` of the ledger.
pub proof fn law_worst_is_most_severe(es: Seq<LedgerEntry>)
    ensures
        ValidationState::Missing.rank() < ValidationState::Corrupt.rank(),
        ValidationState::Corrupt.rank() < ValidationState::Empty.rank(),
        ValidationState::Empty.rank() < ValidationState::Valid.rank(),
        forall|i: int| 0 <= i < es.len() ==> worst_of(es).rank() <= (#[trigger] es[i]).state_view().rank(),
        es.len() == 0 ==> worst_of(es) == ValidationState::Valid,
        es.len() > 0 ==> exists|i: int| 0 <= i < es.len() && worst_of(es) == (#[trigger] es[i]).state_view(),
    decreases es.len(),
{
    if es.len() > 0 {
        let d = es.drop_last();
        law_worst_is_most_severe(d);
        assert forall|i: int| 0 <= i < es.len() - 1 implies #[trigger] d[i] == es[i] by {}
        assert forall|i: int| 0 <= i < es.len() implies worst_of(es).rank() <= (
        #[trigger] es[i]).state_view().rank() by {
            if i < es.len() - 1 {
                assert(worst_of(d).rank() <= d[i].state_view().rank());
            }
        }
        if es.last().state_view().rank() < worst_of(d).rank() {
            assert(worst_of(es) == es[es.len() - 1].state_view());
        } else if d.len() > 0 {
            let i = choose|i: int| 0 <= i < d.len() && worst_of(d) == (#[trigger] d[i]).state_view();
            assert(worst_of(es) == es[i].state_view());
        } else {
            assert(worst_of(d) == ValidationState::Valid);
            assert(es.last().state_view().rank() >= 3);
            assert(worst_of(es) == es[0].state_view());
        }
    }
}

} // verus!
