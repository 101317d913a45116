//! The Gregorian calendar, counted in days.

use vstd::prelude::*;

verus! {

/// Whether a year has a 29 February.
pub open spec fn is_leap_year(year: int) -> bool {
    year % 4 == 0 && (year % 100 != 0 || year % 400 == 0)
}

/// The number of days of a year.
pub open spec fn year_length(year: int) -> int {
    if is_leap_year(year) {
        366
    } else {
        365
    }
}

/// The number of days of a month, counted from 1 for January.
pub open spec fn month_length(year: int, month: int) -> int {
    if month == 2 {
        if is_leap_year(year) {
            29
        } else {
            28
        }
    } else if month == 4 || month == 6 || month == 9 || month == 11 {
        30
    } else {
        31
    }
}

/// The days of the years 0 up to, not including, `year`.
pub open spec fn days_before_year(year: int) -> int
    decreases year,
{
    if year <= 0 {
        0
    } else {
        days_before_year(year - 1) + year_length(year - 1)
    }
}

/// The days of the months of `year` before `month`.
pub open spec fn days_before_month(year: int, month: int) -> int
    decreases month,
{
    if month <= 1 {
        0
    } else {
        days_before_month(year, month - 1) + month_length(year, month - 1)
    }
}

/// The number of days from 1 January of the year 0 to the given day.
pub open spec fn day_index(year: int, month: int, day: int) -> int {
    days_before_year(year) + days_before_month(year, month) + day - 1
}

/// The day of the week, from 0 for Monday to 6 for Sunday.
/// The first day of the year 0 was a Saturday.
pub open spec fn weekday(year: int, month: int, day: int) -> int {
    (day_index(year, month, day) + 5) % 7
}

/// The leap years before `year`, counted without going through them.
pub proof fn lemma_days_before_year(year: int)
    requires
        0 <= year,
    ensures
        days_before_year(year) == 365 * year + (year + 3) / 4 - (year + 99) / 100 + (year + 399)
            / 400,
    decreases year,
{
    if year > 0 {
        lemma_days_before_year(year - 1);
    }
}

/// The days before each month, in a year with and without a 29 February.
pub proof fn lemma_days_before_month(year: int)
    ensures
        days_before_month(year, 1) == 0,
        days_before_month(year, 2) == 31,
        days_before_month(year, 3) == 59 + year_length(year) - 365,
        days_before_month(year, 4) == 90 + year_length(year) - 365,
        days_before_month(year, 5) == 120 + year_length(year) - 365,
        days_before_month(year, 6) == 151 + year_length(year) - 365,
        days_before_month(year, 7) == 181 + year_length(year) - 365,
        days_before_month(year, 8) == 212 + year_length(year) - 365,
        days_before_month(year, 9) == 243 + year_length(year) - 365,
        days_before_month(year, 10) == 273 + year_length(year) - 365,
        days_before_month(year, 11) == 304 + year_length(year) - 365,
        days_before_month(year, 12) == 334 + year_length(year) - 365,
{
    reveal_with_fuel(days_before_month, 13);
}

/// Whether a day exists: the month is one of twelve and has that day.
pub open spec fn is_date(year: int, month: int, day: int) -> bool {
    0 <= year && 1 <= month <= 12 && 1 <= day <= month_length(year, month)
}

/// The day after a day: the next of the month, or the first of the next
/// month, or the first of the next year.
pub open spec fn next_date(year: int, month: int, day: int) -> (int, int, int) {
    if day < month_length(year, month) {
        (year, month, day + 1)
    } else if month < 12 {
        (year, month + 1, 1)
    } else {
        (year + 1, 1, 1)
    }
}

/// From a day to the day after it the count of days grows by one, and the
/// day of the week moves on by one, from Sunday to Monday.
pub proof fn lemma_next_date(year: int, month: int, day: int)
    requires
        is_date(year, month, day),
    ensures
        ({
            let (y, m, d) = next_date(year, month, day);
            &&& is_date(y, m, d)
            &&& day_index(y, m, d) == day_index(year, month, day) + 1
            &&& weekday(y, m, d) == (weekday(year, month, day) + 1) % 7
        }),
{
    let before = day_index(year, month, day);
    if day < month_length(year, month) {
        assert(day_index(year, month, day + 1) == before + 1);
    } else if month < 12 {
        assert(days_before_month(year, month + 1) == days_before_month(year, month)
            + month_length(year, month));
        assert(day_index(year, month + 1, 1) == before + 1);
    } else {
        lemma_days_before_month(year);
        assert(days_before_month(year, 12) + 31 == year_length(year));
        assert(days_before_year(year + 1) == days_before_year(year) + year_length(year));
        assert(days_before_month(year + 1, 1) == 0);
        assert(day_index(year + 1, 1, 1) == before + 1);
    }
    assert((before + 1 + 5) % 7 == ((before + 5) % 7 + 1) % 7);
}

/// 1 January 1970 was a Thursday.
pub proof fn lemma_weekday_of_epoch()
    ensures
        weekday(1970, 1, 1) == 3,
{
    lemma_days_before_year(1970);
    lemma_days_before_month(1970);
}

/// Whether a year has a 29 February.
pub fn leap_year(year: u16) -> (r: bool)
    ensures
        r == is_leap_year(year as int),
{
    year % 4 == 0 && (year % 100 != 0 || year % 400 == 0)
}

/// The number of days of a month.
pub fn days_in_month(year: u16, month: u8) -> (r: u8)
    ensures
        r == month_length(year as int, month as int),
{
    if month == 2 {
        if leap_year(year) {
            29
        } else {
            28
        }
    } else if month == 4 || month == 6 || month == 9 || month == 11 {
        30
    } else {
        31
    }
}

/// The day of the week of a date, from 0 for Monday to 6 for Sunday.
pub fn weekday_of(year: u16, month: u8, day: u8) -> (r: u8)
    requires
        1 <= month <= 12,
    ensures
        r == weekday(year as int, month as int, day as int),
        r < 7,
{
    let y: u32 = year as u32;
    let leaps: u32 = (y + 3) / 4 - (y + 99) / 100 + (y + 399) / 400;
    let before_month: u32 = if month == 1 {
        0
    } else if month == 2 {
        31
    } else if month == 3 {
        59
    } else if month == 4 {
        90
    } else if month == 5 {
        120
    } else if month == 6 {
        151
    } else if month == 7 {
        181
    } else if month == 8 {
        212
    } else if month == 9 {
        243
    } else if month == 10 {
        273
    } else if month == 11 {
        304
    } else {
        334
    };
    let leap_day: u32 = if month > 2 && leap_year(year) {
        1
    } else {
        0
    };
    proof {
        lemma_days_before_year(year as int);
        lemma_days_before_month(year as int);
    }
    let index: u32 = 365 * y + leaps + before_month + leap_day + day as u32 + 4;
    (index % 7) as u8
}

} // verus!
