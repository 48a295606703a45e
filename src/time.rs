use vstd::prelude::*;
use chrono::TimeZone;

verus! {

/// An instant, as milliseconds since 1970-01-01T00:00:00 UTC.
#[derive(Debug, Clone, Copy, PartialEq, Eq, Structural)]
pub struct Timestamp {
    pub millis: i64,
}

/// The first second of the year -262143, the earliest instant chrono represents.
pub const MIN_SECONDS: i64 = -8334601228800;

/// The last second of the year 262142, the latest instant chrono represents.
pub const MAX_SECONDS: i64 = 8210266876799;

/// The instant `secs` seconds after the epoch, where chrono can represent it.
pub open spec fn instant_of_seconds(secs: int) -> Option<int> {
    if MIN_SECONDS <= secs <= MAX_SECONDS {
        Some(secs * 1000)
    } else {
        None
    }
}

/// The instant `millis` milliseconds after the epoch, where chrono can represent it.
pub open spec fn instant_of_millis(millis: int) -> Option<int> {
    if MIN_SECONDS * 1000 <= millis <= MAX_SECONDS * 1000 + 999 {
        Some(millis)
    } else {
        None
    }
}

/// The milliseconds of an optional instant.
pub open spec fn millis_of(t: Option<Timestamp>) -> Option<int> {
    match t {
        Some(t) => Some(t.millis as int),
        None => None,
    }
}

/// The instant, in milliseconds since the epoch, that chrono's
/// `NaiveDateTime::parse_from_str(s, fmt)` reads, taken as UTC.
pub uninterp spec fn naive_utc_millis(s: Seq<char>, fmt: Seq<char>) -> Option<int>;

/// Relies on chrono's `Utc.timestamp_opt(secs, 0)`: a single instant exactly
/// where `secs` lies in chrono's range of dates, else none.
#[verifier::external_body]
pub(crate) fn utc_from_seconds(secs: i64) -> (r: Option<Timestamp>)
    ensures
        millis_of(r) == instant_of_seconds(secs as int),
{
    match chrono::Utc.timestamp_opt(secs, 0) {
        chrono::LocalResult::Single(dt) => Some(Timestamp { millis: dt.timestamp_millis() }),
        _ => None,
    }
}

/// Relies on chrono's `Utc.timestamp_millis_opt(millis)`: a single instant
/// exactly where `millis` lies in chrono's range of dates, else none.
#[verifier::external_body]
pub(crate) fn utc_from_millis(millis: i64) -> (r: Option<Timestamp>)
    ensures
        millis_of(r) == instant_of_millis(millis as int),
{
    match chrono::Utc.timestamp_millis_opt(millis) {
        chrono::LocalResult::Single(dt) => Some(Timestamp { millis: dt.timestamp_millis() }),
        _ => None,
    }
}

/// Relies on chrono's `NaiveDateTime::parse_from_str`, the date and time read
/// as UTC: the result depends on the text and the pattern alone.
#[verifier::external_body]
pub(crate) fn parse_naive_utc(s: &str, fmt: &str) -> (r: Option<Timestamp>)
    ensures
        millis_of(r) == naive_utc_millis(s@, fmt@),
{
    match chrono::NaiveDateTime::parse_from_str(s, fmt) {
        Ok(ndt) => Some(Timestamp { millis: ndt.and_utc().timestamp_millis() }),
        Err(_) => None,
    }
}

} // verus!
