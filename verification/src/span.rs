//! The span of Unix time that a range of days covers.

use crate::civil::{lemma_day_number_counts_days, CalendarDate};
use chrono::{Datelike, Duration, NaiveDate};
use vstd::prelude::*;

verus! {

/// Seconds from 1970-01-01T00:00:00Z to the start of `date` in UTC. Unix
/// time knows no leap seconds: every day has 86400 of them.
pub open spec fn unix_midnight(date: CalendarDate) -> int {
    86400 * date.day_number()
}

/// Whether the days from `from` to `to` have a span of Unix time: both are
/// representable, and `to` has a representable day after it.
pub open spec fn span_is_representable(from: CalendarDate, to: CalendarDate) -> bool {
    from.is_representable() && to.is_representable() && !to.is_last()
}

/// Trusted: `chrono::NaiveDate::from_ymd_opt`, then `and_hms_opt(0, 0, 0)`,
/// `and_utc` and `DateTime::timestamp`. chrono makes a date of exactly the
/// representable triples, and its timestamp of a day's first second is 86400
/// times the days counted from 1970-01-01.
#[verifier::external_body]
fn utc_midnight(date: CalendarDate) -> (seconds: Option<i64>)
    ensures
        seconds is Some <==> date.is_representable(),
        seconds is Some ==> seconds->0 == 86400 * date.counted_day_number(),
{
    let day = NaiveDate::from_ymd_opt(date.year, date.month, date.day)?;
    Some(day.and_hms_opt(0, 0, 0)?.and_utc().timestamp())
}

/// Trusted: `chrono::NaiveDate::from_ymd_opt`, then
/// `NaiveDate::checked_add_signed` with `Duration::days(1)`, read back with
/// `Datelike::year`, `month` and `day`. chrono gives the next day of the
/// calendar, and none where the triple is not representable or the next
/// day would lie after `LAST_YEAR`.
#[verifier::external_body]
fn day_after(date: CalendarDate) -> (following: Option<CalendarDate>)
    ensures
        following is Some <==> (date.is_representable() && !date.is_last()),
        following is Some ==> following->0.is_representable(),
        following is Some ==> following->0.counted_day_number() == date.counted_day_number() + 1,
{
    let day = NaiveDate::from_ymd_opt(date.year, date.month, date.day)?;
    let later = day.checked_add_signed(Duration::days(1))?;
    Some(CalendarDate { year: later.year(), month: later.month(), day: later.day() })
}

/// The Unix times at which `from` starts and at which the day after `to`
/// starts, in UTC: the span that holds the days `from` to `to`, both
/// included. There is none where a date is not representable or nothing
/// representable follows `to`.
pub fn request_span(from: CalendarDate, to: CalendarDate) -> (span: Option<(i64, i64)>)
    ensures
        span is Some <==> span_is_representable(from, to),
        span matches Some((unix_from, unix_to)) ==> unix_from == unix_midnight(from) && unix_to
            == unix_midnight(to) + 86400,
{
    let unix_from: i64 = match utc_midnight(from) {
        Some(seconds) => seconds,
        None => {
            return None;
        },
    };
    let next = match day_after(to) {
        Some(next) => next,
        None => {
            return None;
        },
    };
    let unix_to: i64 = match utc_midnight(next) {
        Some(seconds) => seconds,
        None => {
            return None;
        },
    };
    proof {
        lemma_day_number_counts_days(from.year as int, from.month as int, from.day as int);
        lemma_day_number_counts_days(to.year as int, to.month as int, to.day as int);
    }
    Some((unix_from, unix_to))
}

} // verus!
