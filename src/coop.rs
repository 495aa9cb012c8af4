use vstd::prelude::*;

use chrono::Datelike;

use crate::date::CalendarDate;

verus! {

/// The UTC calendar day, as (year, month, day), that begins or contains the
/// given number of non-leap seconds after 1970-01-01 00:00:00 UTC, where
/// chrono can represent it.
pub uninterp spec fn utc_day_of(secs: int) -> Option<(int, int, int)>;

/// Relies on `SystemTime::now` and `SystemTime::duration_since(UNIX_EPOCH)`:
/// whole seconds since the Unix epoch, or `None` on a clock set before it
/// (or too far past it for an `i64`).
#[verifier::external_body]
fn unix_seconds_now() -> (r: Option<i64>)
    ensures
        r matches Some(s) ==> s >= 0,
{
    std::time::SystemTime::now().duration_since(std::time::UNIX_EPOCH).ok().and_then(
        |d| i64::try_from(d.as_secs()).ok(),
    )
}

/// Relies on chrono's `DateTime::<Utc>::from_timestamp` (`None` out of
/// chrono's range) and `Datelike::{year, month, day}`: the UTC day of a Unix
/// timestamp. Months run from 1 to 12, days from 1 to 31, and a timestamp at
/// or after the epoch falls in 1970 or later.
#[verifier::external_body]
fn utc_day_of_timestamp(secs: i64) -> (r: Option<CalendarDate>)
    ensures
        r is None <==> utc_day_of(secs as int) is None,
        r matches Some(d) ==> utc_day_of(secs as int) == Some(
            (d.year as int, d.month as int, d.day as int),
        ),
        r matches Some(d) ==> 1 <= d.month <= 12 && 1 <= d.day <= 31,
        r matches Some(d) ==> (secs >= 0 ==> 1970 <= d.year),
{
    chrono::DateTime::from_timestamp(secs, 0).map(
        |t| CalendarDate { year: t.year(), month: t.month(), day: t.day() },
    )
}

/// Today's date in UTC, where the clock reads one that can be represented.
fn today_utc() -> (r: Option<CalendarDate>)
    ensures
        r matches Some(d) ==> 1970 <= d.year && 1 <= d.month <= 12 && 1 <= d.day <= 31,
{
    match unix_seconds_now() {
        Some(s) => utc_day_of_timestamp(s),
        None => None,
    }
}

/// The co-op forms of the current operating year are those of years after
/// this one: the operating year turns over after May.
pub fn coop_year_floor(today: CalendarDate) -> (r: i32)
    requires
        today.year > i32::MIN,
    ensures
        r == (if today.month > 5 {
            today.year as int
        } else {
            today.year - 1
        }),
{
    if today.month > 5 {
        today.year
    } else {
        today.year - 1
    }
}

/// [`coop_year_floor`] of today's date in UTC, or `None` where the clock
/// cannot be read as a date.
pub fn current_coop_year_floor() -> (r: Option<i32>)
    ensures
        r matches Some(y) ==> exists|today: CalendarDate|
            1970 <= today.year && 1 <= today.month <= 12 && y == (if today.month > 5 {
                today.year as int
            } else {
                today.year - 1
            }),
{
    match today_utc() {
        Some(today) => Some(coop_year_floor(today)),
        None => None,
    }
}

/// The year a co-op form submitted today is recorded under, or `None` where
/// the clock cannot be read as a date.
pub fn current_coop_year() -> (r: Option<i32>)
    ensures
        r matches Some(y) ==> y >= 1970,
{
    match today_utc() {
        Some(today) => Some(today.year),
        None => None,
    }
}

} // verus!
