//! Dates of the proleptic Gregorian calendar as signed day counts from
//! 1970-01-01.

use vstd::prelude::*;

verus! {

/// A year, a month and a day of the month. Any triple can be held; the
/// triples that name a day of the calendar are those with `is_valid()`.
#[derive(Clone, Copy, Debug, PartialEq, Eq, Structural)]
pub struct CalendarDate {
    pub year: i32,
    pub month: u32,
    pub day: u32,
}

/// The Gregorian leap rule: every fourth year, but of the centuries only
/// every fourth.
pub open spec fn is_leap_year(y: int) -> bool {
    y % 4 == 0 && (y % 100 != 0 || y % 400 == 0)
}

/// The length of month `m` of year `y`.
pub open spec fn days_in_month(y: int, m: int) -> int {
    if m == 2 {
        if is_leap_year(y) {
            29
        } else {
            28
        }
    } else if m == 4 || m == 6 || m == 9 || m == 11 {
        30
    } else {
        31
    }
}

/// Whether `(y, m, d)` names a day of the calendar.
pub open spec fn is_calendar_date(y: int, m: int, d: int) -> bool {
    1 <= m <= 12 && 1 <= d <= days_in_month(y, m)
}

/// Whether `(y1, m1, d1)` comes before `(y2, m2, d2)` in the calendar.
pub open spec fn precedes(y1: int, m1: int, d1: int, y2: int, m2: int, d2: int) -> bool {
    y1 < y2 || (y1 == y2 && (m1 < m2 || (m1 == m2 && d1 < d2)))
}

/// Days from the first of March of year 0 to the first of March of year `y`.
pub open spec fn march_first(y: int) -> int {
    (y / 400) * 146097 + (y % 400) * 365 + (y % 400) / 4 - (y % 400) / 100
}

/// Days from the first of March to day `d` of month `m`, in a year that
/// runs from March to February.
pub open spec fn day_of_march_year(m: int, d: int) -> int {
    (153 * (if m > 2 { m - 3 } else { m + 9 }) + 2) / 5 + d - 1
}

/// Days from the first of March that opens a span of 400 years to day `d`
/// of month `m` of year `y`, where the years of the span are counted from
/// March and the spans from year 0.
pub open spec fn day_of_era(y: int, m: int, d: int) -> int {
    let year_of_era = (if m < 3 { y - 1 } else { y }) % 400;
    year_of_era * 365 + year_of_era / 4 - year_of_era / 100 + day_of_march_year(m, d)
}

/// The number of days from 1970-01-01 to day `d` of month `m` of year `y`:
/// negative before that day, zero on it. Division rounds down. The formula
/// is total: on a triple that names no day it extends the count linearly.
pub open spec fn civil_day_number(y: int, m: int, d: int) -> int {
    march_first(if m < 3 { y - 1 } else { y }) + day_of_march_year(m, d) - 719468
}

/// The first year of which `chrono::NaiveDate` holds the days.
pub const FIRST_YEAR: i32 = -262143;

/// The last year of which `chrono::NaiveDate` holds the days.
pub const LAST_YEAR: i32 = 262142;

impl CalendarDate {
    /// Whether this triple names a day of the calendar.
    pub open spec fn is_valid(&self) -> bool {
        is_calendar_date(self.year as int, self.month as int, self.day as int)
    }

    /// Whether this is a day of the calendar in the years from
    /// `FIRST_YEAR` to `LAST_YEAR`: the days that chrono can hold.
    pub open spec fn is_representable(&self) -> bool {
        self.is_valid() && FIRST_YEAR <= self.year <= LAST_YEAR
    }

    /// Whether this is the last day of `LAST_YEAR`.
    pub open spec fn is_last(&self) -> bool {
        self.year == LAST_YEAR && self.month == 12 && self.day == 31
    }

    /// The day count of this date from 1970-01-01 as the calendar gives
    /// it, year by year and month by month.
    pub open spec fn counted_day_number(&self) -> int {
        counted_day_number(self.year as int, self.month as int, self.day as int)
    }

    /// The day count of this date from 1970-01-01.
    pub open spec fn day_number(&self) -> int {
        civil_day_number(self.year as int, self.month as int, self.day as int)
    }
}

/// The number of days from 1970-01-01 to `date`, computed in constant time.
/// No triple is refused.
pub fn days_from_civil(date: CalendarDate) -> (days: i64)
    ensures
        days == date.day_number(),
{
    let mut y: i64 = date.year as i64;
    let m: i64 = date.month as i64;
    let d: i64 = date.day as i64;

    if m < 3 {
        y = y - 1;
    }
    let era: i64 = (if y >= 0 { y } else { y - 399 }) / 400;
    assert(era == y / 400);
    let yoe: i64 = y - era * 400;
    assert(yoe == y % 400);
    assert(0 <= m + (if m > 2 { -3 } else { 9int }) <= 0xffff_ffff + 9);
    let doy: i64 = (153 * (m + (if m > 2 { -3 } else { 9 })) + 2) / 5 + d - 1;
    assert(doy == day_of_march_year(m as int, d as int));
    let doe: i64 = yoe * 365 + yoe / 4 - yoe / 100 + doy;

    era * 146097 + doe - 719468
}

/// The length of year `y` in days.
pub open spec fn year_length(y: int) -> int {
    if is_leap_year(y) {
        366
    } else {
        365
    }
}

/// Days from 1970-01-01 to the first of January of year `y`, counted year
/// by year.
pub open spec fn days_to_year(y: int) -> int
    decreases (if y >= 1970 { y - 1970 } else { 1970 - y }),
{
    if y > 1970 {
        days_to_year(y - 1) + year_length(y - 1)
    } else if y < 1970 {
        days_to_year(y + 1) - year_length(y)
    } else {
        0
    }
}

/// Days from the first of January of year `y` to the first of its month
/// `m`, counted month by month.
pub open spec fn days_to_month(y: int, m: int) -> int
    decreases m,
{
    if m <= 1 {
        0
    } else {
        days_to_month(y, m - 1) + days_in_month(y, m - 1)
    }
}

/// The day count from 1970-01-01 as the calendar gives it: whole years,
/// then whole months, then days.
pub open spec fn counted_day_number(y: int, m: int, d: int) -> int {
    days_to_year(y) + days_to_month(y, m) + d - 1
}

/// The first of March moves by 365 days a year, and by one more for each
/// leap day passed.
proof fn lemma_march_first_closed_form(y: int)
    ensures
        march_first(y) == 365 * y + y / 4 - y / 100 + y / 400,
{
    let e = y / 400;
    let r = y % 400;
    assert(y == 400 * e + r);
    assert(y / 4 == 100 * e + r / 4);
    assert(y / 100 == 4 * e + r / 100);
}

/// Rounding down a quotient by 4 moves up by one exactly at the multiples.
proof fn lemma_quotient_step_4(y: int)
    ensures
        y / 4 - (y - 1) / 4 == (if y % 4 == 0 { 1int } else { 0 }),
{
}

/// Rounding down a quotient by 100 moves up by one exactly at the
/// multiples, which are multiples of 4.
proof fn lemma_quotient_step_100(y: int)
    ensures
        y / 100 - (y - 1) / 100 == (if y % 100 == 0 { 1int } else { 0 }),
        y % 100 == 0 ==> y % 4 == 0,
{
}

/// Rounding down a quotient by 400 moves up by one exactly at the
/// multiples, which are multiples of 100.
proof fn lemma_quotient_step_400(y: int)
    ensures
        y / 400 - (y - 1) / 400 == (if y % 400 == 0 { 1int } else { 0 }),
        y % 400 == 0 ==> y % 100 == 0,
{
}

/// From one first of March to the next there are as many days as the year
/// that holds the February between them has.
proof fn lemma_march_first_step(y: int)
    ensures
        march_first(y) - march_first(y - 1) == year_length(y),
{
    lemma_march_first_closed_form(y);
    lemma_march_first_closed_form(y - 1);
    lemma_quotient_step_4(y);
    lemma_quotient_step_100(y);
    lemma_quotient_step_400(y);
}

/// The first of March never moves back as the years go up.
proof fn lemma_march_first_increasing(y1: int, y2: int)
    requires
        y1 <= y2,
    ensures
        march_first(y2) - march_first(y1) >= 365 * (y2 - y1),
{
    lemma_march_first_closed_form(y1);
    lemma_march_first_closed_form(y2);
}

/// The first of January of the next year is one year's length away.
proof fn lemma_january_first_step(y: int)
    ensures
        civil_day_number(y + 1, 1, 1) - civil_day_number(y, 1, 1) == year_length(y),
{
    lemma_march_first_step(y);
}

/// The formula puts the first of each month where counting the months
/// before it does.
proof fn lemma_month_start(y: int, m: int)
    requires
        1 <= m <= 12,
    ensures
        civil_day_number(y, m, 1) - civil_day_number(y, 1, 1) == days_to_month(y, m),
{
    reveal_with_fuel(days_to_month, 13);
    lemma_march_first_step(y);
}

/// The formula puts the first of January where counting the years from
/// 1970 does.
proof fn lemma_year_start(y: int)
    ensures
        civil_day_number(y, 1, 1) == days_to_year(y),
    decreases (if y >= 1970 { y - 1970 } else { 1970 - y }),
{
    if y > 1970 {
        lemma_year_start(y - 1);
        lemma_january_first_step(y - 1);
    } else if y < 1970 {
        lemma_year_start(y + 1);
        lemma_january_first_step(y);
    } else {
        lemma_march_first_closed_form(1969);
    }
}

/// The closed formula agrees with the calendar: in every year, before and
/// after 1970, it gives each month's days the numbers that counting whole
/// years and whole months gives them.
pub proof fn lemma_day_number_counts_days(y: int, m: int, d: int)
    requires
        1 <= m <= 12,
    ensures
        civil_day_number(y, m, d) == counted_day_number(y, m, d),
{
    lemma_year_start(y);
    lemma_month_start(y, m);
}

/// On the days of the calendar the parts of the formula keep to their
/// ranges: the day of the March year to one year's days, the day of the
/// era to the 146097 days of 400 years, of which the day number is made.
pub proof fn lemma_parts_in_range(y: int, m: int, d: int)
    requires
        is_calendar_date(y, m, d),
    ensures
        0 <= day_of_march_year(m, d) <= 365,
        0 <= day_of_era(y, m, d) <= 146096,
        civil_day_number(y, m, d) == ((if m < 3 { y - 1 } else { y }) / 400) * 146097
            + day_of_era(y, m, d) - 719468,
{
    let s = if m < 3 { y - 1 } else { y };
    lemma_quotient_step_4(s + 1);
    lemma_quotient_step_100(s + 1);
    lemma_quotient_step_400(s + 1);
}

/// Within a month, the day after has the next number.
pub proof fn lemma_next_day_next_number(y: int, m: int, d: int)
    ensures
        civil_day_number(y, m, d + 1) - civil_day_number(y, m, d) == 1,
{
}

/// Every day of year `y` lies from its first of January up to, and not
/// on, the next one.
proof fn lemma_within_year(y: int, m: int, d: int)
    requires
        is_calendar_date(y, m, d),
    ensures
        civil_day_number(y, 1, 1) <= civil_day_number(y, m, d) < civil_day_number(y + 1, 1, 1),
{
    lemma_march_first_step(y);
    lemma_march_first_step(y + 1);
}

/// The day number follows the calendar's order: of two days of the
/// calendar, the earlier has the smaller number.
pub proof fn lemma_day_number_increasing(y1: int, m1: int, d1: int, y2: int, m2: int, d2: int)
    requires
        is_calendar_date(y1, m1, d1),
        is_calendar_date(y2, m2, d2),
        precedes(y1, m1, d1, y2, m2, d2),
    ensures
        civil_day_number(y1, m1, d1) < civil_day_number(y2, m2, d2),
{
    if y1 < y2 {
        lemma_within_year(y1, m1, d1);
        lemma_within_year(y2, m2, d2);
        lemma_march_first_increasing(y1, y2 - 1);
    } else if m1 < m2 {
        lemma_march_first_step(y1);
    }
}

/// No two days of the calendar share a day number.
pub proof fn lemma_day_number_injective(y1: int, m1: int, d1: int, y2: int, m2: int, d2: int)
    requires
        is_calendar_date(y1, m1, d1),
        is_calendar_date(y2, m2, d2),
        civil_day_number(y1, m1, d1) == civil_day_number(y2, m2, d2),
    ensures
        y1 == y2,
        m1 == m2,
        d1 == d2,
{
    if precedes(y1, m1, d1, y2, m2, d2) {
        lemma_day_number_increasing(y1, m1, d1, y2, m2, d2);
    } else if precedes(y2, m2, d2, y1, m1, d1) {
        lemma_day_number_increasing(y2, m2, d2, y1, m1, d1);
    }
}

} // verus!
