//! The query a recency check runs: a fixed count of recent events while
//! events come often, a date-range scan of the last week once they come
//! rarely (else the "recent" count would be the whole archive).

use vstd::prelude::*;

use crate::clock::Timestamp;

verus! {

/// How the recent events are queried.
#[derive(Debug, Clone, Copy, PartialEq, Eq, Structural)]
pub enum RecencyQuery {
    /// The most recent `limit` events.
    FixedLimit { limit: usize },
    /// Every event since the instant.
    DateRange { since: Timestamp },
}

/// The query when the event rate calls for the date-range scan
/// (`fallback`) or not, at the instant `now`.
pub open spec fn query_for(fallback: bool, now: Timestamp) -> RecencyQuery {
    if fallback {
        RecencyQuery::DateRange {
            since: Timestamp { secs: (now.secs - 7 * 86_400) as i64, nanos: now.nanos },
        }
    } else {
        RecencyQuery::FixedLimit { limit: 100 }
    }
}

/// The query to run: a scan of the seven days before `now` when the rate
/// has fallen below the threshold (`fallback`), else the last hundred
/// events.
pub fn select_query(fallback: bool, now: Timestamp) -> (q: RecencyQuery)
    requires
        now.secs >= i64::MIN + 7 * 86_400,
    ensures
        q == query_for(fallback, now),
{
    if fallback {
        RecencyQuery::DateRange { since: Timestamp { secs: now.secs - 7 * 86_400, nanos: now.nanos } }
    } else {
        RecencyQuery::FixedLimit { limit: 100 }
    }
}

} // verus!
