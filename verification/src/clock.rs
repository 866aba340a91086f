//! Wall-clock time, as milliseconds since the Unix epoch.

use vstd::prelude::*;
use chrono::{TimeZone, Utc};

verus! {

/// `chrono::Utc::now().timestamp_millis()`: the wall-clock time in
/// milliseconds since the Unix epoch. It depends on the clock, so nothing is
/// stated of it.
#[verifier::external_body]
pub(crate) fn unix_now_millis() -> (r: i64) {
    Utc::now().timestamp_millis()
}

/// The UTC calendar date (`%Y-%m-%d`) of an instant given in milliseconds
/// since the Unix epoch, as chrono formats it; `None` outside chrono's range.
pub uninterp spec fn utc_date(ms: i64) -> Option<Seq<char>>;

/// The UTC time (`%Y-%m-%dT%H:%M:%SZ`) of an instant given in milliseconds
/// since the Unix epoch, as chrono formats it; `None` outside chrono's range.
pub uninterp spec fn utc_second(ms: i64) -> Option<Seq<char>>;

/// `Utc.timestamp_millis_opt(ms)` formatted with `%Y-%m-%d`: the calendar
/// date of the instant, or `None` when chrono cannot represent it.
#[verifier::external_body]
pub(crate) fn format_utc_date(ms: i64) -> (r: Option<String>)
    ensures
        match r {
            Some(s) => utc_date(ms) == Some(s@),
            None => utc_date(ms).is_none(),
        },
{
    match Utc.timestamp_millis_opt(ms).single() {
        Some(t) => Some(t.format("%Y-%m-%d").to_string()),
        None => None,
    }
}

/// `Utc.timestamp_millis_opt(ms)` formatted with `%Y-%m-%dT%H:%M:%SZ`, or
/// `None` when chrono cannot represent the instant.
#[verifier::external_body]
pub(crate) fn format_utc_second(ms: i64) -> (r: Option<String>)
    ensures
        match r {
            Some(s) => utc_second(ms) == Some(s@),
            None => utc_second(ms).is_none(),
        },
{
    match Utc.timestamp_millis_opt(ms).single() {
        Some(t) => Some(t.format("%Y-%m-%dT%H:%M:%SZ").to_string()),
        None => None,
    }
}

} // verus!
