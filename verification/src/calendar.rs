//! Calendar rules: leap years, month lengths, valid days and weekends.

use chrono::Datelike;
use vstd::prelude::*;

verus! {

/// Short lower-case month labels, January first.
pub const MONTH_LABELS: [&'static str; 12] = [
    "jan", "feb", "mar", "apr", "may", "jun", "jul", "aug", "sep", "oct", "nov", "dec",
];

/// The smallest year that the date library accepts.
pub const DATE_MIN_YEAR: i32 = -262143;

/// The largest year that the date library accepts.
pub const DATE_MAX_YEAR: i32 = 262142;

/// Gregorian leap year rule.
pub open spec fn leap_year(year: int) -> bool {
    (year % 4 == 0 && year % 100 != 0) || year % 400 == 0
}

/// Number of days of `month` in `year`; 0 for a month outside 1..=12.
pub open spec fn month_length(year: int, month: int) -> int {
    if month == 1 || month == 3 || month == 5 || month == 7 || month == 8 || month == 10
        || month == 12 {
        31
    } else if month == 4 || month == 6 || month == 9 || month == 11 {
        30
    } else if month == 2 {
        if leap_year(year) {
            29
        } else {
            28
        }
    } else {
        0
    }
}

/// A day that exists in the calendar.
pub open spec fn valid_day(year: int, month: int, day: int) -> bool {
    1 <= day <= month_length(year, month)
}

/// Days elapsed from a fixed epoch to the given proleptic Gregorian date
/// (March-based year, so that the leap day closes the year).
pub open spec fn day_number(year: int, month: int, day: int) -> int {
    let y = if month <= 2 {
        year - 1
    } else {
        year
    };
    let m = (month + 9) % 12;
    365 * y + y / 4 - y / 100 + y / 400 + (153 * m + 2) / 5 + day - 1
}

/// Day of the week, counted from Monday (0) to Sunday (6).
pub open spec fn weekday_from_monday(year: int, month: int, day: int) -> int {
    (day_number(year, month, day) + 2) % 7
}

/// A date that the date library can represent.
pub open spec fn representable_date(year: int, month: int, day: int) -> bool {
    &&& DATE_MIN_YEAR <= year <= DATE_MAX_YEAR
    &&& valid_day(year, month, day)
}

/// Saturday or Sunday of a representable date.
pub open spec fn weekend_day(year: int, month: int, day: int) -> bool {
    &&& representable_date(year, month, day)
    &&& weekday_from_monday(year, month, day) >= 5
}

/// Whether `k` divides `n`, for a positive `k`.
fn divides(n: i32, k: i64) -> (r: bool)
    requires
        0 < k,
    ensures
        r == ((n as int) % (k as int) == 0),
{
    let magnitude: i64 = if n < 0 {
        -(n as i64)
    } else {
        n as i64
    };
    proof {
        let q = magnitude as int / k as int;
        let m = magnitude as int % k as int;
        vstd::arithmetic::div_mod::lemma_fundamental_div_mod(magnitude as int, k as int);
        vstd::arithmetic::div_mod::lemma_mod_bound(magnitude as int, k as int);
        if n < 0 {
            if m == 0 {
                assert(n as int == (-q) * (k as int) + 0) by (nonlinear_arith)
                    requires
                        magnitude as int == (k as int) * q + m,
                        n as int == -(magnitude as int),
                        m == 0,
                ;
                vstd::arithmetic::div_mod::lemma_fundamental_div_mod_converse(
                    n as int,
                    k as int,
                    -q,
                    0,
                );
            } else {
                assert(n as int == (-q - 1) * (k as int) + ((k as int) - m)) by (nonlinear_arith)
                    requires
                        magnitude as int == (k as int) * q + m,
                        n as int == -(magnitude as int),
                ;
                vstd::arithmetic::div_mod::lemma_fundamental_div_mod_converse(
                    n as int,
                    k as int,
                    -q - 1,
                    (k as int) - m,
                );
            }
        }
    }
    magnitude % k == 0
}

pub fn is_leap_year(year: i32) -> (r: bool)
    ensures
        r == leap_year(year as int),
{
    (divides(year, 4) && !divides(year, 100)) || divides(year, 400)
}

pub fn days_in_month(year: i32, month: u32) -> (r: u32)
    ensures
        r == month_length(year as int, month as int),
        month == 4 || month == 6 || month == 9 || month == 11 ==> r == 30,
        month == 1 || month == 3 || month == 5 || month == 7 || month == 8 || month == 10 || month
            == 12 ==> r == 31,
        month == 2 ==> r == (if leap_year(year as int) {
            29u32
        } else {
            28u32
        }),
        !(1 <= month <= 12) ==> r == 0,
{
    match month {
        1 | 3 | 5 | 7 | 8 | 10 | 12 => 31,
        4 | 6 | 9 | 11 => 30,
        2 => {
            if is_leap_year(year) {
                29
            } else {
                28
            }
        },
        _ => 0,
    }
}

pub fn is_valid_day(year: i32, month: u32, day: u32) -> (r: bool)
    ensures
        r == valid_day(year as int, month as int, day as int),
{
    day >= 1 && day <= days_in_month(year, month)
}

/// Weekday of a date as the date library computes it, counted from Monday:
/// `None` where the library has no such date.
///
/// Calls `chrono::NaiveDate::from_ymd_opt`, which builds a date when the day
/// exists in the proleptic Gregorian calendar and the year lies in the
/// library's range, and `Datelike::weekday` on it. The contract claims that
/// the library's weekday is the Gregorian one.
#[verifier::external_body]
fn date_weekday(year: i32, month: u32, day: u32) -> (r: Option<u32>)
    ensures
        r is Some <==> representable_date(year as int, month as int, day as int),
        r matches Some(w) ==> w == weekday_from_monday(year as int, month as int, day as int),
{
    match chrono::NaiveDate::from_ymd_opt(year, month, day) {
        Some(date) => Some(date.weekday().num_days_from_monday()),
        None => None,
    }
}

/// True when the given date falls on a Saturday or Sunday.
/// Returns false for dates that don't exist (e.g. Feb 30).
pub fn is_weekend(year: i32, month: u32, day: u32) -> (r: bool)
    ensures
        r == weekend_day(year as int, month as int, day as int),
        r ==> valid_day(year as int, month as int, day as int),
{
    match date_weekday(year, month, day) {
        Some(w) => w >= 5,
        None => false,
    }
}

/// The current date as (year, month, day), in UTC; `None` when the system
/// clock reads before 1970 or beyond what the date library can represent.
///
/// Reads the clock as `chrono::Utc::now` does, through
/// `SystemTime::now().duration_since(UNIX_EPOCH)` and
/// `chrono::DateTime::from_timestamp`, but keeps their failures as `None`
/// where `Utc::now` panics. The contract claims only that a returned date is
/// one the library can represent.
#[verifier::external_body]
pub(crate) fn today_ymd() -> (r: Option<(i32, u32, u32)>)
    ensures
        r matches Some(t) ==> representable_date(t.0 as int, t.1 as int, t.2 as int),
{
    let since_epoch = std::time::SystemTime::now().duration_since(std::time::UNIX_EPOCH).ok()?;
    let secs = i64::try_from(since_epoch.as_secs()).ok()?;
    let now = chrono::DateTime::from_timestamp(secs, since_epoch.subsec_nanos())?;
    Some((now.year(), now.month(), now.day()))
}

/// The current year in UTC; `None` when the clock cannot be read as a date.
pub fn current_year() -> (r: Option<i32>)
    ensures
        r matches Some(y) ==> DATE_MIN_YEAR <= y <= DATE_MAX_YEAR,
{
    match today_ymd() {
        Some(today) => Some(today.0),
        None => None,
    }
}

/// The Gregorian month table: April, June, September and November have 30
/// days; January, March, May, July, August, October and December have 31;
/// February has 29 in leap years and 28 otherwise. So October 31 is a day
/// and September 31 is not, in every year.
pub proof fn lemma_month_table(year: int)
    ensures
        month_length(year, 4) == 30 && month_length(year, 6) == 30 && month_length(year, 9) == 30
            && month_length(year, 11) == 30,
        month_length(year, 1) == 31 && month_length(year, 3) == 31 && month_length(year, 5) == 31
            && month_length(year, 7) == 31 && month_length(year, 8) == 31 && month_length(year, 10)
            == 31 && month_length(year, 12) == 31,
        month_length(year, 2) == (if leap_year(year) {
            29int
        } else {
            28int
        }),
        valid_day(year, 10, 31) && !valid_day(year, 9, 31),
        valid_day(year, 12, 31) && !valid_day(year, 11, 31),
{
}

/// Each month's length is the number of days from its first day to the
/// first day of the next month, as the Gregorian day count (the one the
/// weekday is computed from) counts them.
pub proof fn lemma_month_length_is_day_count(year: int, month: int)
    requires
        1 <= month <= 12,
    ensures
        month < 12 ==> month_length(year, month) == day_number(year, month + 1, 1) - day_number(
            year,
            month,
            1,
        ),
        month == 12 ==> month_length(year, month) == day_number(year + 1, 1, 1) - day_number(
            year,
            12,
            1,
        ),
{
    if month == 2 {
        let y = year - 1;
        assert((year / 4 - y / 4) == (if year % 4 == 0 {
            1int
        } else {
            0int
        }));
        assert((year / 100 - y / 100) == (if year % 100 == 0 {
            1int
        } else {
            0int
        }));
        assert((year / 400 - y / 400) == (if year % 400 == 0 {
            1int
        } else {
            0int
        }));
    }
}

/// A month holds between 28 and 31 days; months outside 1..=12 hold none.
pub proof fn lemma_month_length_range(year: int, month: int)
    ensures
        1 <= month <= 12 ==> 28 <= month_length(year, month) <= 31,
        !(1 <= month <= 12) ==> month_length(year, month) == 0,
{
}

/// Only a month in 1..=12 and a day in 1..=31 can be a valid day.
pub proof fn lemma_valid_day_bounds(year: int, month: int, day: int)
    requires
        valid_day(year, month, day),
    ensures
        1 <= month <= 12,
        1 <= day <= 31,
{
}

/// February 29 exists exactly in leap years.
pub proof fn lemma_feb_29_iff_leap(year: int)
    ensures
        valid_day(year, 2, 29) <==> leap_year(year),
{
}

} // verus!
