//! The calendar, as far as the crate needs it.

use chrono::TimeZone;
use vstd::prelude::*;

verus! {

/// The moment at which the given day begins on clocks that run `west`
/// seconds behind UTC, in seconds since the Unix epoch; nothing where the
/// calendar has no such day or no clock runs so far from UTC.
pub uninterp spec fn start_of_day(west: i32, year: i32, month: u32, day: u32) -> Option<i64>;

/// Calls `chrono::FixedOffset::west_opt`, `TimeZone::with_ymd_and_hms` for
/// midnight of the day, and `DateTime::timestamp`.
///
/// Believed: the result is a function of the four arguments alone.
#[verifier::external_body]
pub(crate) fn day_start(west: i32, year: i32, month: u32, day: u32) -> (start: Option<i64>)
    ensures
        start == start_of_day(west, year, month, day),
{
    let zone = chrono::FixedOffset::west_opt(west)?;
    zone.with_ymd_and_hms(year, month, day, 0, 0, 0).single().map(|t| t.timestamp())
}

} // verus!
