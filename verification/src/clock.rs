//! The wall clock.

use vstd::prelude::*;

verus! {

/// Calls `SystemTime::now()` and `duration_since(UNIX_EPOCH)`: the whole
/// seconds and the nanoseconds past them since the Unix epoch, `None` when
/// the clock is set before the epoch.  Nothing else is promised of the
/// value: it is the time.  `Duration::subsec_nanos` is always below one
/// second.
#[verifier::external_body]
fn system_clock() -> (r: Option<(u64, u32)>)
    ensures
        r matches Some((_, n)) ==> n < 1_000_000_000,
{
    std::time::SystemTime::now()
        .duration_since(std::time::UNIX_EPOCH)
        .ok()
        .map(|d| (d.as_secs(), d.subsec_nanos()))
}

/// The whole seconds since the Unix epoch (zero for a clock set before
/// the epoch).
pub(crate) fn unix_now_secs() -> u64 {
    match system_clock() {
        Some((s, _)) => s,
        None => 0,
    }
}

/// A UTC instant: seconds since the Unix epoch and the nanoseconds past
/// that second.
#[derive(Debug, Clone, Copy, PartialEq, Eq, Structural)]
pub struct Timestamp {
    pub secs: i64,
    pub nanos: u32,
}

impl Timestamp {
    /// Whether this instant comes strictly before `other`.
    pub open spec fn before(self, other: Timestamp) -> bool {
        self.secs < other.secs || (self.secs == other.secs && self.nanos < other.nanos)
    }

    /// Whether `chrono` can represent the instant as a `DateTime<Utc>`
    /// (years -262143 to 262142): the nanoseconds are below one second, or
    /// below two seconds in the last second of a minute (a leap second).
    pub open spec fn representable(self) -> bool {
        &&& -8_334_601_315_200 <= self.secs <= 8_210_266_876_799
        &&& (self.nanos < 1_000_000_000 || (self.nanos < 2_000_000_000 && self.secs % 60 == 59))
    }

    /// Whether `chrono` can represent the instant as a `DateTime<Utc>`.
    pub fn is_representable(&self) -> (b: bool)
        ensures
            b == self.representable(),
    {
        let last_second = if self.secs >= 0 {
            (self.secs as u64) % 60 == 59
        } else {
            let m: u64 = (-(self.secs + 1)) as u64;
            proof {
                let x: int = self.secs as int;
                assert((m % 60 == 0) == (x % 60 == 59)) by (nonlinear_arith)
                    requires
                        m == -(x + 1),
                        x < 0,
                ;
            }
            m % 60 == 0
        };
        -8_334_601_315_200 <= self.secs && self.secs <= 8_210_266_876_799 && (self.nanos
            < 1_000_000_000 || (self.nanos < 2_000_000_000 && last_second))
    }

    /// Whether this instant comes strictly before `other`.
    pub fn is_before(&self, other: &Timestamp) -> (r: bool)
        ensures
            r == self.before(*other),
    {
        self.secs < other.secs || (self.secs == other.secs && self.nanos < other.nanos)
    }
}

/// What `chrono` writes for a UTC instant under the pattern
/// `%Y-%m-%d %H:%M:%S UTC`.
pub uninterp spec fn utc_clock_text(secs: i64, nanos: u32) -> Seq<char>;

/// Calls `chrono::DateTime::from_timestamp` and formats the instant with
/// `%Y-%m-%d %H:%M:%S UTC`; the text depends on the instant alone.  The
/// instant is representable, so the conversion succeeds.
#[verifier::external_body]
pub(crate) fn utc_clock(t: Timestamp) -> (r: String)
    requires
        t.representable(),
    ensures
        r@ == utc_clock_text(t.secs, t.nanos),
{
    chrono::DateTime::from_timestamp(t.secs, t.nanos)
        .map(|d| d.format("%Y-%m-%d %H:%M:%S UTC").to_string())
        .unwrap_or_default()
}

/// What `chrono` writes for a UTC instant in RFC 3339 form
/// (`DateTime::to_rfc3339`).
pub uninterp spec fn rfc3339_text(secs: i64, nanos: u32) -> Seq<char>;

/// Calls `chrono::DateTime::from_timestamp` and writes the instant with
/// `to_rfc3339`; the text depends on the instant alone.  The instant is
/// representable, so the conversion succeeds.
#[verifier::external_body]
pub(crate) fn rfc3339(t: Timestamp) -> (r: String)
    requires
        t.representable(),
    ensures
        r@ == rfc3339_text(t.secs, t.nanos),
{
    chrono::DateTime::from_timestamp(t.secs, t.nanos).map(|d| d.to_rfc3339()).unwrap_or_default()
}

/// The current instant, as `chrono::Utc::now()` builds it from the system
/// clock (whole seconds and nanoseconds since the epoch).  Where that
/// function panics (a clock before 1970, or past the years `chrono` can
/// represent), this gives the epoch itself.
pub(crate) fn utc_now() -> (t: Timestamp)
    ensures
        t.representable(),
        t.secs >= 0,
{
    match system_clock() {
        Some((s, n)) => {
            if s <= 8_210_266_876_799 {
                Timestamp { secs: s as i64, nanos: n }
            } else {
                Timestamp { secs: 0, nanos: 0 }
            }
        },
        None => Timestamp { secs: 0, nanos: 0 },
    }
}

} // verus!
