//! Backlog drain: dated entries, expiry, and the oldest-first slot rule.
//!
//! A backlog entry carries a date; a pending entry older than the
//! threshold is archived, and the consumer spends its slot on the oldest
//! pending entry still kept.

use vstd::prelude::*;

use crate::text::{
    ascii_upper_exec, chars_eq, chars_of, contains, contains_exec, has_prefix, occurs_at,
    occurs_at_exec, owned, padded_decimal, push_char, push_padded, push_str, slice_chars,
    starts_with, strip_all_prefix, strip_all_prefix_exec, string_from_chars, trim, trim_chars,
    trim_end, trim_end_chars, trim_end_in, trim_end_set, trim_start, trim_start_chars,
    trim_start_in, trim_start_set, upper_seq, lines_of, split_lines, sviews,
};

verus! {

/// Default threshold: a pending entry expires after 7 days.
pub const DEFAULT_MAX_AGE_DAYS: i64 = 7;

// ------------------------------------------------------------------
// Calendar dates
// ------------------------------------------------------------------

/// A date of the proleptic Gregorian calendar.
#[derive(Debug, Clone, Copy, PartialEq, Eq, Structural)]
pub struct Date {
    pub year: i32,
    pub month: u32,
    pub day: u32,
}

/// Whether `y` is a leap year.
pub open spec fn is_leap(y: int) -> bool {
    (y % 4 == 0 && y % 100 != 0) || y % 400 == 0
}

/// Number of days of month `m` of year `y`.
pub open spec fn month_days(y: int, m: int) -> int {
    if m == 2 {
        if is_leap(y) {
            29
        } else {
            28
        }
    } else if m == 4 || m == 6 || m == 9 || m == 11 {
        30
    } else {
        31
    }
}

/// Whether a date exists, within the years a date can hold
/// (-262143 to 262142).
pub open spec fn valid_ymd(y: int, m: int, d: int) -> bool {
    &&& -262143 <= y <= 262142
    &&& 1 <= m <= 12
    &&& 1 <= d <= month_days(y, m)
}

/// A day count such that consecutive dates differ by one (days from a
/// fixed epoch; the years are shifted by a multiple of 400 so that every
/// intermediate value is non-negative).
pub open spec fn day_number(y: int, m: int, d: int) -> int {
    let yy = y - (if m <= 2 {
        1int
    } else {
        0int
    }) + 2147484000;
    let era = yy / 400;
    let yoe = yy % 400;
    let mp = if m > 2 {
        m - 3
    } else {
        m + 9
    };
    let doy = (153 * mp + 2) / 5 + d - 1;
    let doe = yoe * 365 + yoe / 4 - yoe / 100 + doy;
    era * 146097 + doe
}

impl Date {
    /// The day count of the date.
    pub open spec fn days(self) -> int {
        day_number(self.year as int, self.month as int, self.day as int)
    }

    /// `self` is before `other`.
    pub open spec fn before(self, other: Date) -> bool {
        self.year < other.year || (self.year == other.year && (self.month < other.month || (
        self.month == other.month && self.day < other.day)))
    }

    /// The date, if it exists.
    pub fn from_ymd_opt(year: i32, month: u32, day: u32) -> (r: Option<Date>)
        ensures
            r is Some <==> valid_ymd(year as int, month as int, day as int),
            r matches Some(d) ==> d.year == year && d.month == month && d.day == day,
    {
        if year < -262143 || year > 262142 || month < 1 || month > 12 || day < 1 {
            return None;
        }
        let leap = (year % 4 == 0 && year % 100 != 0) || year % 400 == 0;
        let md: u32 = if month == 2 {
            if leap {
                29
            } else {
                28
            }
        } else if month == 4 || month == 6 || month == 9 || month == 11 {
            30
        } else {
            31
        };
        proof {
            assert(leap == is_leap(year as int));
        }
        if day > md {
            return None;
        }
        Some(Date { year, month, day })
    }

    /// The day count of the date.
    pub fn day_count(&self) -> (n: i64)
        ensures
            n == self.days(),
    {
        let y: i64 = self.year as i64;
        let m: i64 = self.month as i64;
        let d: i64 = self.day as i64;
        let yy: i64 = y - (if m <= 2 {
            1
        } else {
            0
        }) + 2147484000;
        let era = yy / 400;
        let yoe = yy % 400;
        let mp: i64 = if m > 2 {
            m - 3
        } else {
            m + 9
        };
        proof {
            assert(0 <= mp <= 4294967295 + 9);
            assert(153 * mp + 2 <= 700000000000) by (nonlinear_arith)
                requires
                    0 <= mp <= 4294967304,
            ;
            assert(0 <= yoe < 400);
            assert(yoe * 365 <= 146000) by (nonlinear_arith)
                requires
                    0 <= yoe < 400,
            ;
            assert(0 <= era <= 11000000);
            assert(era * 146097 <= 11000000 * 146097) by (nonlinear_arith)
                requires
                    0 <= era <= 11000000,
            ;
        }
        let doy = (153 * mp + 2) / 5 + d - 1;
        let doe = yoe * 365 + yoe / 4 - yoe / 100 + doy;
        era * 146097 + doe
    }

    /// Whether `self` is before `other`.
    pub fn is_before(&self, other: &Date) -> (b: bool)
        ensures
            b == self.before(*other),
    {
        self.year < other.year || (self.year == other.year && (self.month < other.month || (
        self.month == other.month && self.day < other.day)))
    }
}

// ------------------------------------------------------------------
// The day count against the calendar
// ------------------------------------------------------------------

/// The date after `(y, m, d)` in the calendar.
pub open spec fn next_ymd(y: int, m: int, d: int) -> (int, int, int) {
    if d < month_days(y, m) {
        (y, m, d + 1)
    } else if m < 12 {
        (y, m + 1, 1)
    } else {
        (y + 1, 1, 1)
    }
}

/// Days before March 1 of the shifted year `yy`, counted from the epoch.
spec fn years_days(yy: int) -> int {
    (yy / 400) * 146097 + (yy % 400) * 365 + (yy % 400) / 4 - (yy % 400) / 100
}

proof fn lemma_years_days_step(yy: int)
    requires
        yy >= 1,
    ensures
        years_days(yy) - years_days(yy - 1) == 365 + (if is_leap(yy) {
            1int
        } else {
            0int
        }),
{
    let e = yy / 400;
    let r = yy % 400;
    assert(yy == 400 * e + r);
    assert(yy % 4 == r % 4) by (nonlinear_arith)
        requires
            yy == 400 * e + r,
            0 <= r < 400,
    ;
    assert(yy % 100 == r % 100) by (nonlinear_arith)
        requires
            yy == 400 * e + r,
            0 <= r < 400,
    ;
    if r == 0 {
        assert((yy - 1) / 400 == e - 1);
        assert((yy - 1) % 400 == 399);
    } else {
        assert((yy - 1) / 400 == e);
        assert((yy - 1) % 400 == r - 1);
    }
}

proof fn lemma_shift_keeps_leap(y: int)
    ensures
        is_leap(y + 2147484000) == is_leap(y),
{
    let k: int = 5368710;
    assert(2147484000 == 400 * k);
    assert((y + 400 * k) % 4 == y % 4) by (nonlinear_arith);
    assert((y + 400 * k) % 100 == y % 100) by (nonlinear_arith);
    assert((y + 400 * k) % 400 == y % 400) by (nonlinear_arith);
}

proof fn lemma_month_step(y: int, m: int)
    requires
        1 <= m <= 11,
        y + 2147484000 >= 1,
    ensures
        day_number(y, m + 1, 1) == day_number(y, m, month_days(y, m)) + 1,
{
    if m == 2 {
        let yy = y + 2147484000;
        lemma_years_days_step(yy);
        lemma_shift_keeps_leap(y);
        assert(day_number(y, 3, 1) == years_days(yy));
        assert(day_number(y, 2, month_days(y, 2)) == years_days(yy - 1) + 337 + month_days(y, 2)
            - 1);
    }
}

proof fn lemma_year_step(y: int)
    ensures
        day_number(y + 1, 1, 1) == day_number(y, 12, 31) + 1,
{
}

/// Consecutive dates of the calendar have consecutive day counts.
pub proof fn law_next_day_is_one_more(y: int, m: int, d: int)
    requires
        valid_ymd(y, m, d),
    ensures
        day_number(next_ymd(y, m, d).0, next_ymd(y, m, d).1, next_ymd(y, m, d).2) == day_number(
            y,
            m,
            d,
        ) + 1,
{
    if d < month_days(y, m) {
    } else if m < 12 {
        lemma_month_step(y, m);
    } else {
        lemma_year_step(y);
    }
}

proof fn lemma_within_year(y: int, m1: int, d1: int, m2: int, d2: int)
    requires
        valid_ymd(y, m1, d1),
        valid_ymd(y, m2, d2),
        m1 < m2 || (m1 == m2 && d1 < d2),
    ensures
        day_number(y, m1, d1) < day_number(y, m2, d2),
    decreases m2 - m1,
{
    if m1 < m2 {
        lemma_month_step(y, m1);
        assert(day_number(y, m1, d1) <= day_number(y, m1, month_days(y, m1)));
        if m1 + 1 < m2 || d2 > 1 {
            lemma_within_year(y, m1 + 1, 1, m2, d2);
        }
    }
}

proof fn lemma_across_years(y1: int, m1: int, d1: int, y2: int, m2: int, d2: int)
    requires
        valid_ymd(y1, m1, d1),
        valid_ymd(y2, m2, d2),
        y1 < y2,
    ensures
        day_number(y1, m1, d1) < day_number(y2, m2, d2),
    decreases y2 - y1,
{
    if m1 < 12 || d1 < 31 {
        lemma_within_year(y1, m1, d1, 12, 31);
    }
    lemma_year_step(y1);
    if y1 + 1 < y2 {
        lemma_across_years(y1 + 1, 1, 1, y2, m2, d2);
    } else if m2 > 1 || d2 > 1 {
        lemma_within_year(y2, 1, 1, m2, d2);
    }
}

/// Of two existing dates, one is before the other exactly when its day
/// count is smaller.
pub proof fn law_day_count_follows_calendar(a: Date, b: Date)
    requires
        valid_ymd(a.year as int, a.month as int, a.day as int),
        valid_ymd(b.year as int, b.month as int, b.day as int),
    ensures
        a.before(b) <==> a.days() < b.days(),
{
    let (ya, ma, da) = (a.year as int, a.month as int, a.day as int);
    let (yb, mb, db) = (b.year as int, b.month as int, b.day as int);
    if ya < yb {
        lemma_across_years(ya, ma, da, yb, mb, db);
    } else if yb < ya {
        lemma_across_years(yb, mb, db, ya, ma, da);
    } else if ma < mb || (ma == mb && da < db) {
        lemma_within_year(ya, ma, da, mb, db);
    } else if mb < ma || (ma == mb && db < da) {
        lemma_within_year(ya, mb, db, ma, da);
    }
}

/// The year as `Display` writes it: four digits for years 0 to 9999,
/// otherwise a sign and at least four digits.
pub open spec fn year_text(y: int) -> Seq<char> {
    if 0 <= y <= 9999 {
        padded_decimal(y as nat, 4)
    } else if y < 0 {
        seq!['-'] + padded_decimal((-y) as nat, 4)
    } else {
        seq!['+'] + padded_decimal(y as nat, 4)
    }
}

/// The date as `Display` writes it: `YYYY-MM-DD`.
pub open spec fn date_text(d: Date) -> Seq<char> {
    year_text(d.year as int) + seq!['-'] + padded_decimal(d.month as nat, 2) + seq!['-']
        + padded_decimal(d.day as nat, 2)
}

/// Appends the date as `Display` writes it.
pub fn push_date(s: &mut String, d: &Date)
    ensures
        final(s)@ == old(s)@ + date_text(*d),
{
    let ghost start = s@;
    if 0 <= d.year && d.year <= 9999 {
        push_padded(s, d.year as u64, 4);
    } else if d.year < 0 {
        push_char(s, '-');
        push_padded(s, (-(d.year as i64)) as u64, 4);
    } else {
        push_char(s, '+');
        push_padded(s, d.year as u64, 4);
    }
    let ghost mid = s@;
    push_char(s, '-');
    push_padded(s, d.month as u64, 2);
    push_char(s, '-');
    push_padded(s, d.day as u64, 2);
    proof {
        assert(mid =~= start + year_text(d.year as int));
        assert(s@ =~= start + date_text(*d));
    }
}

/// Whether an entry dated `entry_date` is expired on `today`: more than
/// `max_age_days` days old (exactly that many is not expired).
pub fn is_expired(entry_date: Date, today: Date, max_age_days: i64) -> (b: bool)
    ensures
        b == (today.days() - entry_date.days() > max_age_days),
{
    let a = today.day_count();
    let b = entry_date.day_count();
    (a as i128) - (b as i128) > max_age_days as i128
}

// ------------------------------------------------------------------
// Entries
// ------------------------------------------------------------------

/// Consumption status of an entry.
#[derive(Debug, Clone, Copy, PartialEq, Eq, Structural)]
pub enum EntryStatus {
    /// PENDING.
    Pending,
    /// DONE-D (digested by Cron D).
    DoneD,
    /// DONE-B (batched by Cron B).
    DoneB,
    /// DEFERRED-*.
    Deferred,
    /// Anything else.
    Other,
}

impl EntryStatus {
    /// Whether the status is `Pending`.
    pub fn is_pending(self) -> (b: bool)
        ensures
            b == (self == EntryStatus::Pending),
    {
        matches!(self, EntryStatus::Pending)
    }
}

/// A backlog entry: date, title, status.
#[derive(Debug, Clone, PartialEq, Eq)]
pub struct BacklogEntry {
    pub date: Date,
    pub title: String,
    pub status: EntryStatus,
}

impl BacklogEntry {
    /// A copy of the entry.
    pub fn copy(&self) -> (r: Self)
        ensures
            r == *self,
    {
        BacklogEntry { date: self.date, title: self.title.clone(), status: self.status }
    }
}

/// A drain plan: expired pending entries to archive, the other pending
/// entries to keep, and the entry to consume.
#[derive(Debug, PartialEq, Eq)]
pub struct DrainPlan {
    pub archive: Vec<BacklogEntry>,
    pub keep: Vec<BacklogEntry>,
    pub consume: Option<BacklogEntry>,
}

impl Default for DrainPlan {
    /// Nothing to archive, keep or consume.
    fn default() -> (p: Self)
        ensures
            p.archive@.len() == 0,
            p.keep@.len() == 0,
            p.consume is None,
    {
        DrainPlan { archive: Vec::new(), keep: Vec::new(), consume: None }
    }
}

/// The pending entries of `es` expired (or not) on `today`, in order.
pub open spec fn pending_split(es: Seq<BacklogEntry>, today: Date, max_age: i64, expired: bool) -> Seq<
    BacklogEntry,
>
    decreases es.len(),
{
    if es.len() == 0 {
        Seq::empty()
    } else {
        let rest = pending_split(es.drop_last(), today, max_age, expired);
        let e = es.last();
        if e.status == EntryStatus::Pending && (today.days() - e.date.days() > max_age) == expired {
            rest.push(e)
        } else {
            rest
        }
    }
}

/// The position of the earliest-dated entry of `s` (the first among
/// equals), for a non-empty `s`.
pub open spec fn oldest_index(s: Seq<BacklogEntry>) -> int
    decreases s.len(),
{
    if s.len() <= 1 {
        0
    } else {
        let j = oldest_index(s.drop_last());
        if s.last().date.before(s[j].date) {
            s.len() - 1
        } else {
            j
        }
    }
}

/// The slot rule: split the pending entries into expired (archived) and
/// kept ones, in input order, and consume the oldest kept entry (the
/// first of equally old ones), if any.
pub fn plan_drain(entries: &[BacklogEntry], today: Date, max_age_days: i64) -> (plan: DrainPlan)
    ensures
        plan.archive@ == pending_split(entries@, today, max_age_days, true),
        plan.keep@ == pending_split(entries@, today, max_age_days, false),
        plan.keep@.len() == 0 ==> plan.consume is None,
        plan.keep@.len() > 0 ==> plan.consume == Some(plan.keep@[oldest_index(plan.keep@)]),
        plan.consume matches Some(c) ==> forall|k: int|
            0 <= k < plan.keep@.len() ==> !(#[trigger] plan.keep@[k]).date.before(c.date),
{
    let mut archive: Vec<BacklogEntry> = Vec::new();
    let mut keep: Vec<BacklogEntry> = Vec::new();
    let mut i: usize = 0;
    while i < entries.len()
        invariant
            i <= entries@.len(),
            archive@ == pending_split(entries@.take(i as int), today, max_age_days, true),
            keep@ == pending_split(entries@.take(i as int), today, max_age_days, false),
        decreases entries.len() - i,
    {
        proof {
            assert(entries@.take(i + 1).drop_last() =~= entries@.take(i as int));
        }
        let e = &entries[i];
        if e.status == EntryStatus::Pending {
            if is_expired(e.date, today, max_age_days) {
                archive.push(e.copy());
            } else {
                keep.push(e.copy());
            }
        }
        i += 1;
    }
    assert(entries@.take(entries@.len() as int) =~= entries@);
    if keep.len() == 0 {
        return DrainPlan { archive, keep, consume: None };
    }
    let mut best: usize = 0;
    let mut k: usize = 1;
    while k < keep.len()
        invariant
            1 <= k <= keep.len(),
            best < k,
            best == oldest_index(keep@.take(k as int)),
        decreases keep.len() - k,
    {
        proof {
            assert(keep@.take(k + 1).drop_last() =~= keep@.take(k as int));
            assert(keep@.take(k as int)[best as int] == keep@[best as int]);
        }
        if keep[k].date.is_before(&keep[best].date) {
            best = k;
        }
        k += 1;
    }
    assert(keep@.take(keep@.len() as int) =~= keep@);
    proof {
        law_consume_is_oldest(keep@);
    }
    let c = keep[best].copy();
    DrainPlan { archive, keep, consume: Some(c) }
}

/// The archive section appended to the archive file for entries
/// archived on `today`.
pub open spec fn archive_text(es: Seq<BacklogEntry>, today: Date) -> Seq<char>
    decreases es.len(),
{
    if es.len() == 0 {
        "\n## Archived @ "@ + date_text(today) + " — 超期未消费（drain）\n\n"@
    } else {
        archive_text(es.drop_last(), today) + "- ["@ + date_text(es.last().date) + "，archived @ "@
            + date_text(today) + "] "@ + es.last().title@ + "\n"@
    }
}

/// Renders the archive section for entries archived on `today`.
pub fn archive_markdown(entries: &[BacklogEntry], today: Date) -> (s: String)
    ensures
        s@ == archive_text(entries@, today),
{
    let mut out = owned("\n## Archived @ ");
    push_date(&mut out, &today);
    push_str(&mut out, " — 超期未消费（drain）\n\n");
    let mut i: usize = 0;
    assert(entries@.take(0) =~= Seq::<BacklogEntry>::empty());
    while i < entries.len()
        invariant
            i <= entries@.len(),
            out@ == archive_text(entries@.take(i as int), today),
        decreases entries.len() - i,
    {
        push_str(&mut out, "- [");
        push_date(&mut out, &entries[i].date);
        push_str(&mut out, "，archived @ ");
        push_date(&mut out, &today);
        push_str(&mut out, "] ");
        push_str(&mut out, entries[i].title.as_str());
        push_str(&mut out, "\n");
        proof {
            assert(entries@.take(i + 1).drop_last() =~= entries@.take(i as int));
            assert(out@ =~= archive_text(entries@.take(i + 1), today));
        }
        i += 1;
    }
    assert(entries@.take(entries@.len() as int) =~= entries@);
    out
}

// ------------------------------------------------------------------
// Dates in text
// ------------------------------------------------------------------

/// What `chrono::NaiveDate::parse_from_str(w, "%Y-%m-%d")` gives for a
/// text: the parsed date's year, month and day, or `None` when it fails.
pub uninterp spec fn ymd_parsed(w: Seq<char>) -> Option<(i32, u32, u32)>;

/// Calls `chrono::NaiveDate::parse_from_str(w, "%Y-%m-%d")` and gives the
/// parsed date's year, month and day; the outcome depends on `w` alone.
#[verifier::external_body]
fn parse_ymd(w: &str) -> (r: Option<(i32, u32, u32)>)
    ensures
        r == ymd_parsed(w@),
{
    chrono::NaiveDate::parse_from_str(w, "%Y-%m-%d").ok().map(
        |d| (chrono::Datelike::year(&d), chrono::Datelike::month(&d), chrono::Datelike::day(&d)),
    )
}

/// Whether `c` is an ASCII digit.
pub open spec fn is_ascii_digit(c: char) -> bool {
    '0' <= c && c <= '9'
}

/// The date read from the ten characters at `i`, when they are not part
/// of a longer run of digits.
pub open spec fn date_at(cs: Seq<char>, i: int) -> Option<(i32, u32, u32)> {
    if (i > 0 && is_ascii_digit(cs[i - 1])) || (i + 10 < cs.len() && is_ascii_digit(cs[i + 10])) {
        None
    } else {
        ymd_parsed(cs.subrange(i, i + 10))
    }
}

/// The first date read from position `i` on.
pub open spec fn first_date_from(cs: Seq<char>, i: int) -> Option<(i32, u32, u32)>
    decreases cs.len() - i,
{
    if i < 0 || i + 10 > cs.len() {
        None
    } else if date_at(cs, i) is Some {
        date_at(cs, i)
    } else {
        first_date_from(cs, i + 1)
    }
}

/// The first `YYYY-MM-DD` date in a text, not cut from a longer run of
/// digits.
pub open spec fn date_in(cs: Seq<char>) -> Option<Date> {
    match first_date_from(cs, 0) {
        Some((y, m, d)) => Some(Date { year: y, month: m, day: d }),
        None => None,
    }
}

/// The first `YYYY-MM-DD` date of `v`.
fn extract_date_chars(v: &Vec<char>) -> (r: Option<Date>)
    ensures
        r == date_in(v@),
{
    if v.len() < 10 {
        return None;
    }
    let mut i: usize = 0;
    while i <= v.len() - 10
        invariant
            v.len() >= 10,
            i <= v.len() - 9,
            first_date_from(v@, 0) == first_date_from(v@, i as int),
        decreases v.len() + 1 - i,
    {
        let guard_before = i > 0 && '0' <= v[i - 1] && v[i - 1] <= '9';
        let guard_after = i + 10 < v.len() && '0' <= v[i + 10] && v[i + 10] <= '9';
        if !guard_before && !guard_after {
            let w = string_from_chars(&slice_chars(v, i, i + 10));
            match parse_ymd(w.as_str()) {
                Some((y, m, d)) => {
                    return Some(Date { year: y, month: m, day: d });
                },
                None => {},
            }
        }
        i += 1;
    }
    None
}

/// The first `YYYY-MM-DD` date in a text, not cut from a longer run of
/// digits.
pub fn extract_date(text: &str) -> (r: Option<Date>)
    ensures
        r == date_in(text@),
{
    extract_date_chars(&chars_of(text))
}

// ------------------------------------------------------------------
// Statuses and titles
// ------------------------------------------------------------------

/// The status named by an upper-cased status text.
pub open spec fn status_named(u: Seq<char>) -> EntryStatus {
    if has_prefix(u, "PENDING"@) {
        EntryStatus::Pending
    } else if has_prefix(u, "DONE-D"@) || u == "DONE"@ || has_prefix(u, "DONE "@) {
        EntryStatus::DoneD
    } else if has_prefix(u, "DONE-B"@) {
        EntryStatus::DoneB
    } else if has_prefix(u, "DEFERRED"@) {
        EntryStatus::Deferred
    } else {
        EntryStatus::Other
    }
}

/// The status text once trimmed, stripped of `*` at both ends, trimmed
/// again and upper-cased.
pub open spec fn status_key(raw: Seq<char>) -> Seq<char> {
    let t = trim(raw);
    upper_seq(trim(trim_end_in(trim_start_in(t, seq!['*']), seq!['*'])))
}

impl EntryStatus {
    /// The status written after `**状态**：`, case-insensitively; a bare
    /// `DONE` counts as digested by Cron D.
    pub fn parse(raw: &str) -> (s: Self)
        ensures
            s == status_named(status_key(raw@)),
    {
        let star = vec!['*'];
        assert(star@ =~= seq!['*']);
        let t = trim_chars(&chars_of(raw));
        let t = trim_chars(&trim_end_set(&trim_start_set(&t, &star), &star));
        let mut u: Vec<char> = Vec::new();
        let mut i: usize = 0;
        while i < t.len()
            invariant
                i <= t.len(),
                u@ == upper_seq(t@.take(i as int)),
            decreases t.len() - i,
        {
            u.push(ascii_upper_exec(t[i]));
            assert(u@ =~= upper_seq(t@.take(i + 1)));
            i += 1;
        }
        assert(t@.take(t@.len() as int) =~= t@);
        if starts_with(&u, &chars_of("PENDING")) {
            EntryStatus::Pending
        } else if starts_with(&u, &chars_of("DONE-D")) || chars_eq(&u, &chars_of("DONE"))
            || starts_with(&u, &chars_of("DONE ")) {
            EntryStatus::DoneD
        } else if starts_with(&u, &chars_of("DONE-B")) {
            EntryStatus::DoneB
        } else if starts_with(&u, &chars_of("DEFERRED")) {
            EntryStatus::Deferred
        } else {
            EntryStatus::Other
        }
    }
}

/// A struck-through, digested item: `~~...~~ [DONE-*]`.
pub open spec fn resolved_item(item: Seq<char>) -> bool {
    let s = trim_start(item);
    has_prefix(s, "~~"@) || contains(s, "[DONE-D @"@) || contains(s, "[DONE-B @"@)
}

/// Whether an item is struck through and digested.
fn is_resolved_item(item: &Vec<char>) -> (b: bool)
    ensures
        b == resolved_item(item@),
{
    let s = trim_start_chars(item);
    starts_with(&s, &chars_of("~~")) || contains_exec(&s, &chars_of("[DONE-D @"))
        || contains_exec(&s, &chars_of("[DONE-B @"))
}

/// A character after `借鉴` that marks a source attribution.
pub open spec fn is_source_sep(c: char) -> bool {
    c == '：' || c == ':' || c == ' '
}

/// The first position, from `i` on, of a `借鉴` that introduces a source
/// attribution (`s.len()` when none does).
pub open spec fn source_cut(s: Seq<char>, i: int) -> int
    decreases s.len() - i,
{
    if i < 0 || i + 2 > s.len() {
        s.len() as int
    } else if occurs_at(s, "借鉴"@, i) && (i + 2 >= s.len() || is_source_sep(s[i + 2])) {
        i
    } else {
        source_cut(s, i + 1)
    }
}

/// The characters stripped from the end of a title.
pub open spec fn title_tail() -> Seq<char> {
    seq!['—', '-', '>', '~', ' ', '，']
}

/// The title of an item: decorations stripped from the front, the source
/// attribution cut off, and trailing dashes, arrows and spaces removed.
pub open spec fn title_of(item: Seq<char>) -> Seq<char> {
    let s = trim_start(
        strip_all_prefix(strip_all_prefix(strip_all_prefix(trim(item), "~~"@), "- "@), "**"@),
    );
    let head = trim_end(s.take(source_cut(s, 0)));
    trim_end(trim_end_in(head, title_tail()))
}

/// The position where a source attribution starts (the length when there
/// is none).
fn find_source_cut(s: &Vec<char>) -> (c: usize)
    ensures
        c == source_cut(s@, 0),
        c <= s@.len(),
{
    let pat = chars_of("借鉴");
    proof {
        reveal_strlit("借鉴");
    }
    let mut i: usize = 0;
    while i < s.len() && s.len() - i >= 2
        invariant
            i <= s.len(),
            pat@ == "借鉴"@,
            pat@.len() == 2,
            source_cut(s@, 0) == source_cut(s@, i as int),
        decreases s.len() - i,
    {
        if occurs_at_exec(s, &pat, i) && (i + 2 >= s.len() || s[i + 2] == '：' || s[i + 2] == ':'
            || s[i + 2] == ' ') {
            return i;
        }
        i += 1;
    }
    s.len()
}

/// The title of an item, as characters.
fn title_chars(item: &Vec<char>) -> (t: Vec<char>)
    ensures
        t@ == title_of(item@),
{
    let s = trim_chars(item);
    let s = strip_all_prefix_exec(&s, &chars_of("~~"));
    let s = strip_all_prefix_exec(&s, &chars_of("- "));
    let s = strip_all_prefix_exec(&s, &chars_of("**"));
    let s = trim_start_chars(&s);
    let cut = find_source_cut(&s);
    let head = trim_end_chars(&slice_chars(&s, 0, cut));
    let tail = vec!['—', '-', '>', '~', ' ', '，'];
    assert(tail@ =~= title_tail());
    trim_end_chars(&trim_end_set(&head, &tail))
}

/// The title of an inline item: `~~`, `- ` and `**` decorations stripped
/// from the front, the `借鉴` source attribution cut off, and trailing
/// dashes, arrows, tildes, commas and spaces removed.
pub fn inline_title(item: &str) -> (t: String)
    ensures
        t@ == title_of(item@),
{
    string_from_chars(&title_chars(&chars_of(item)))
}

// ------------------------------------------------------------------
// Parsing the backlog
// ------------------------------------------------------------------

/// The model of an entry: date, title, status.
pub open spec fn entry_model(e: BacklogEntry) -> (Date, Seq<char>, EntryStatus) {
    (e.date, e.title@, e.status)
}

/// The scanner's state: entries so far, the section's date, status and
/// title, and how many inline pending items the section produced.
pub type ScanState = (Seq<(Date, Seq<char>, EntryStatus)>, Option<Date>, EntryStatus, Option<Seq<char>>, nat);

/// The state at the start of a scan.
pub open spec fn scan_start() -> ScanState {
    (Seq::empty(), None, EntryStatus::Other, None, 0)
}

/// The entries once the current section is closed: a pending section
/// with a date and no inline pending item yields one section-level entry.
pub open spec fn flushed(st: ScanState) -> Seq<(Date, Seq<char>, EntryStatus)> {
    if st.2 == EntryStatus::Pending && st.4 == 0 && st.1 is Some {
        let title = match st.3 {
            Some(t) => t,
            None => "(section 级 PENDING)"@,
        };
        if title.len() > 0 {
            st.0.push((st.1->0, title, EntryStatus::Pending))
        } else {
            st.0
        }
    } else {
        st.0
    }
}

/// The text after a status label, stripped of colons and trimmed.
pub open spec fn status_rest(rest: Seq<char>) -> Seq<char> {
    trim(trim_start_in(rest, seq![':', '：']))
}

/// The content of a line: trimmed, leading `|` removed, trimmed again.
pub open spec fn line_content(raw: Seq<char>) -> Seq<char> {
    trim(trim_start_in(trim(trim_end(raw)), seq!['|']))
}

/// The state after one line.
pub open spec fn scan_step(st: ScanState, raw: Seq<char>) -> ScanState {
    let line = trim_end(raw);
    let t = line_content(raw);
    if has_prefix(line, "### "@) {
        (flushed(st), date_in(line), EntryStatus::Other, None, 0)
    } else if has_prefix(t, "---"@) {
        (flushed(st), st.1, EntryStatus::Other, None, 0)
    } else if has_prefix(t, "**状态**"@) {
        (st.0, st.1, status_named(status_key(status_rest(t.skip(6)))), st.3, st.4)
    } else if has_prefix(t, "**Status**"@) {
        (st.0, st.1, status_named(status_key(status_rest(t.skip(10)))), st.3, st.4)
    } else if has_prefix(t, "- "@) {
        let rest = t.skip(2);
        if resolved_item(rest) || st.2 != EntryStatus::Pending {
            st
        } else {
            let date = match date_in(rest) {
                Some(d) => Some(d),
                None => st.1,
            };
            let title = title_of(rest);
            if date is Some && title.len() > 0 {
                (st.0.push((date->0, title, EntryStatus::Pending)), st.1, st.2, st.3, st.4 + 1)
            } else {
                st
            }
        }
    } else if t.len() > 0 && !has_prefix(t, "#"@) && !has_prefix(t, "**"@) && st.3 is None {
        let title = title_of(t);
        if title.len() > 0 {
            (st.0, st.1, st.2, Some(title), st.4)
        } else {
            st
        }
    } else {
        st
    }
}

/// The state after a sequence of lines.
pub open spec fn scan_lines(ls: Seq<Seq<char>>) -> ScanState
    decreases ls.len(),
{
    if ls.len() == 0 {
        scan_start()
    } else {
        scan_step(scan_lines(ls.drop_last()), ls.last())
    }
}

/// The pending entries of a backlog document.
pub open spec fn backlog_entries(md: Seq<char>) -> Seq<(Date, Seq<char>, EntryStatus)> {
    flushed(scan_lines(lines_of(md)))
}

/// The models of a list of entries.
pub open spec fn entry_models(v: Seq<BacklogEntry>) -> Seq<(Date, Seq<char>, EntryStatus)> {
    v.map_values(|e: BacklogEntry| entry_model(e))
}

/// Closes the current section into `out`.
fn flush_section(
    out: &mut Vec<BacklogEntry>,
    status: EntryStatus,
    date: Option<Date>,
    title: &Option<Vec<char>>,
    inline: usize,
)
    ensures
        entry_models(final(out)@) == flushed(
            (
                entry_models(old(out)@),
                date,
                status,
                match title {
                    Some(t) => Some(t@),
                    None => None,
                },
                inline as nat,
            ),
        ),
{
    if status.is_pending() && inline == 0 {
        if let Some(d) = date {
            let t: String = match title {
                Some(t) => string_from_chars(t),
                None => owned("(section 级 PENDING)"),
            };
            if !t.as_str().is_empty() {
                let ghost before = entry_models(out@);
                out.push(BacklogEntry { date: d, title: t, status: EntryStatus::Pending });
                assert(entry_models(out@) =~= before.push((d, t@, EntryStatus::Pending)));
            }
        }
    }
}

/// The text after `p` when `v` starts with `p`.
fn strip_prefix_chars(v: &Vec<char>, p: &str) -> (r: Option<Vec<char>>)
    ensures
        r is Some <==> has_prefix(v@, p@),
        r matches Some(rest) ==> rest@ == v@.skip(p@.len() as int),
{
    let pv = chars_of(p);
    if starts_with(v, &pv) {
        Some(slice_chars(v, pv.len(), v.len()))
    } else {
        None
    }
}

/// Parses a backlog document and returns its pending entries, in order.
///
/// Inline items `- P0: ... — 借鉴：...` of a pending section are entries
/// (dated by the item's own date, else the section's); a pending section
/// without such items yields one entry titled by its first paragraph.
/// Struck-through digested items and non-pending sections are skipped.
pub fn parse_backlog(md: &str) -> (v: Vec<BacklogEntry>)
    ensures
        entry_models(v@) == backlog_entries(md@),
{
    let lines = split_lines(md);
    let ghost ls = lines_of(md@);
    let mut out: Vec<BacklogEntry> = Vec::new();
    let mut section_date: Option<Date> = None;
    let mut section_status = EntryStatus::Other;
    let mut section_title: Option<Vec<char>> = None;
    let mut section_inline_pending: usize = 0;
    let pipe = vec!['|'];
    let colons = vec![':', '：'];
    assert(pipe@ =~= seq!['|']);
    assert(colons@ =~= seq![':', '：']);
    proof {
        reveal_strlit("**状态**");
        reveal_strlit("**Status**");
        reveal_strlit("- ");
        assert(entry_models(out@) =~= Seq::<(Date, Seq<char>, EntryStatus)>::empty());
    }
    let mut i: usize = 0;
    while i < lines.len()
        invariant
            i <= lines.len(),
            sviews(lines@) == ls,
            pipe@ == seq!['|'],
            colons@ == seq![':', '：'],
            "**状态**"@.len() == 6,
            "**Status**"@.len() == 10,
            "- "@.len() == 2,
            section_inline_pending <= i,
            scan_lines(ls.take(i as int)) == (
                entry_models(out@),
                section_date,
                section_status,
                match section_title {
                    Some(t) => Some(t@),
                    None => None,
                },
                section_inline_pending as nat,
            ),
        decreases lines.len() - i,
    {
        proof {
            assert(ls.take(i + 1).drop_last() =~= ls.take(i as int));
            assert(ls.take(i + 1).last() == lines@[i as int]@);
        }
        let raw = chars_of(lines[i].as_str());
        let line = trim_end_chars(&raw);
        let t = trim_chars(&trim_start_set(&trim_chars(&line), &pipe));
        if starts_with(&line, &chars_of("### ")) {
            flush_section(
                &mut out,
                section_status,
                section_date,
                &section_title,
                section_inline_pending,
            );
            section_date = extract_date_chars(&line);
            section_status = EntryStatus::Other;
            section_title = None;
            section_inline_pending = 0;
        } else if starts_with(&t, &chars_of("---")) {
            flush_section(
                &mut out,
                section_status,
                section_date,
                &section_title,
                section_inline_pending,
            );
            section_status = EntryStatus::Other;
            section_title = None;
            section_inline_pending = 0;
        } else {
            let label = match strip_prefix_chars(&t, "**状态**") {
                Some(r) => Some(r),
                None => strip_prefix_chars(&t, "**Status**"),
            };
            match label {
                Some(rest) => {
                    let r = trim_chars(&trim_start_set(&rest, &colons));
                    let rs = string_from_chars(&r);
                    section_status = EntryStatus::parse(rs.as_str());
                },
                None => {
                    match strip_prefix_chars(&t, "- ") {
                        Some(rest) => {
                            if !is_resolved_item(&rest) && section_status.is_pending() {
                                let date = match extract_date_chars(&rest) {
                                    Some(d) => Some(d),
                                    None => section_date,
                                };
                                let title = title_chars(&rest);
                                if date.is_some() && title.len() > 0 {
                                    let ghost before = entry_models(out@);
                                    let d = date.unwrap();
                                    let ts = string_from_chars(&title);
                                    out.push(
                                        BacklogEntry {
                                            date: d,
                                            title: ts,
                                            status: EntryStatus::Pending,
                                        },
                                    );
                                    assert(entry_models(out@) =~= before.push(
                                        (d, title@, EntryStatus::Pending),
                                    ));
                                    section_inline_pending = section_inline_pending + 1;
                                }
                            }
                        },
                        None => {
                            if t.len() > 0 && !starts_with(&t, &chars_of("#")) && !starts_with(
                                &t,
                                &chars_of("**"),
                            ) && section_title.is_none() {
                                let title = title_chars(&t);
                                if title.len() > 0 {
                                    section_title = Some(title);
                                }
                            }
                        },
                    }
                },
            }
        }
        i += 1;
    }
    flush_section(&mut out, section_status, section_date, &section_title, section_inline_pending);
    proof {
        assert(ls.take(ls.len() as int) =~= ls);
    }
    out
}


/// An entry expired on one day stays expired on every later day.
pub proof fn law_expiry_is_permanent(entry_date: Date, day1: Date, day2: Date, max_age_days: i64)
    requires
        valid_ymd(day1.year as int, day1.month as int, day1.day as int),
        valid_ymd(day2.year as int, day2.month as int, day2.day as int),
        day1.days() - entry_date.days() > max_age_days,
        !day2.before(day1),
    ensures
        day2.days() - entry_date.days() > max_age_days,
{
    law_day_count_follows_calendar(day2, day1);
}

/// The entry the drain consumes is the oldest kept one: no entry of the
/// list is dated strictly before it, and every entry ahead of it in the
/// list is dated strictly after it (so among equally old entries it is
/// the first).  `plan_drain` consumes `keep[oldest_index(keep)]`.
pub proof fn law_consume_is_oldest(s: Seq<BacklogEntry>)
    requires
        s.len() > 0,
    ensures
        0 <= oldest_index(s) < s.len(),
        forall|k: int| 0 <= k < s.len() ==> !(#[trigger] s[k]).date.before(s[oldest_index(s)].date),
        forall|k: int| 0 <= k < oldest_index(s) ==> s[oldest_index(s)].date.before((#[trigger] s[k]).date),
    decreases s.len(),
{
    if s.len() > 1 {
        let d = s.drop_last();
        law_consume_is_oldest(d);
        let j = oldest_index(d);
        assert(d[j] == s[j]);
        assert forall|k: int| 0 <= k < s.len() - 1 implies #[trigger] d[k] == s[k] by {}
        if s.last().date.before(s[j].date) {
            assert forall|k: int| 0 <= k < s.len() implies !(#[trigger] s[k]).date.before(
                s[oldest_index(s)].date,
            ) by {
                if k < s.len() - 1 {
                    assert(!d[k].date.before(d[j].date));
                }
            }
            assert forall|k: int| 0 <= k < oldest_index(s) implies s[oldest_index(
                s,
            )].date.before((#[trigger] s[k]).date) by {
                assert(!d[k].date.before(d[j].date));
            }
        } else {
            assert forall|k: int| 0 <= k < s.len() implies !(#[trigger] s[k]).date.before(
                s[oldest_index(s)].date,
            ) by {
                if k < s.len() - 1 {
                    assert(!d[k].date.before(d[j].date));
                }
            }
            assert forall|k: int| 0 <= k < oldest_index(s) implies s[oldest_index(
                s,
            )].date.before((#[trigger] s[k]).date) by {
                assert(d[j].date.before(d[k].date));
            }
        }
    }
}

} // verus!
