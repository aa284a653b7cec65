//! Calendar dates and clock times through `chrono`.
use vstd::prelude::*;

verus! {

pub const MIN_YEAR: i32 = -262143;

pub const MAX_YEAR: i32 = 262142;

pub open spec fn is_leap_year(y: int) -> bool {
    (y % 4 == 0 && y % 100 != 0) || y % 400 == 0
}

pub open spec fn days_in_month(y: int, m: int) -> int {
    if m == 2 {
        if is_leap_year(y) {
            29
        } else {
            28
        }
    } else if m == 4 || m == 6 || m == 9 || m == 11 {
        30
    } else {
        31
    }
}

/// A date of the proleptic Gregorian calendar within `chrono`'s years.
pub open spec fn valid_ymd(y: int, m: int, d: int) -> bool {
    MIN_YEAR <= y <= MAX_YEAR && 1 <= m <= 12 && 1 <= d <= days_in_month(y, m)
}

/// The day of the month of the day before a valid date, `None` before the
/// first representable year.
pub open spec fn pred_day(y: int, m: int, d: int) -> Option<u32> {
    if d > 1 {
        Some((d - 1) as u32)
    } else if m > 1 {
        Some(days_in_month(y, m - 1) as u32)
    } else if valid_ymd(y - 1, 12, 31) {
        Some(31)
    } else {
        None
    }
}

/// Days from 1970-01-01 to a date (negative before it).
pub open spec fn civil_days(y: int, m: int, d: int) -> int {
    let y2 = if m <= 2 {
        y - 1
    } else {
        y
    };
    let era = y2 / 400;
    let yoe = y2 - era * 400;
    let mp = if m > 2 {
        m - 3
    } else {
        m + 9
    };
    let doy = (153 * mp + 2) / 5 + d - 1;
    let doe = yoe * 365 + yoe / 4 - yoe / 100 + doy;
    era * 146097 + doe - 719468
}

/// Calls `NaiveDate::from_ymd_opt`: whether the date exists (month and day
/// in range for the year, year within `chrono`'s range), unproved.
#[verifier::external_body]
pub(crate) fn ymd_is_valid(y: i32, m: u32, d: u32) -> (r: bool)
    ensures
        r == valid_ymd(y as int, m as int, d as int),
{
    chrono::NaiveDate::from_ymd_opt(y, m, d).is_some()
}

/// Calls `NaiveDate::pred_opt` on a valid date and reads the day of the
/// month (`Datelike::day`); the result is `pred_day`, unproved.
#[verifier::external_body]
pub(crate) fn day_before(y: i32, m: u32, d: u32) -> (r: Option<u32>)
    requires
        valid_ymd(y as int, m as int, d as int),
    ensures
        r == pred_day(y as int, m as int, d as int),
{
    let p = chrono::NaiveDate::from_ymd_opt(y, m, d)?.pred_opt()?;
    Some(chrono::Datelike::day(&p))
}

/// Calls `NaiveDate::signed_duration_since` from 1970-01-01 and
/// `TimeDelta::num_days`: the civil day count of the date, unproved.
#[verifier::external_body]
pub(crate) fn days_since_epoch(y: i32, m: u32, d: u32) -> (r: i64)
    requires
        valid_ymd(y as int, m as int, d as int),
    ensures
        r == civil_days(y as int, m as int, d as int),
{
    let date = chrono::NaiveDate::from_ymd_opt(y, m, d).unwrap();
    let epoch = chrono::NaiveDate::from_ymd_opt(1970, 1, 1).unwrap();
    date.signed_duration_since(epoch).num_days()
}

/// `NaiveDate::parse_from_str(s, "%Y-%m-%d")`: `None` when it reads,
/// otherwise the text of its error.
pub uninterp spec fn chrono_date_parse_error(s: Seq<char>) -> Option<Seq<char>>;

/// Calls `NaiveDate::parse_from_str` with `%Y-%m-%d`; the result is
/// `chrono_date_parse_error` of the text, unproved.
#[verifier::external_body]
pub(crate) fn date_parse_error(s: &[char]) -> (r: Option<String>)
    ensures
        crate::chess::timecontrol::opt_string_view(r) == chrono_date_parse_error(s@),
{
    let text: String = s.iter().collect();
    match chrono::NaiveDate::parse_from_str(&text, "%Y-%m-%d") {
        Ok(_) => None,
        Err(e) => Some(e.to_string()),
    }
}

/// `NaiveTime::parse_from_str(s, "%H:%M:%S")`: the seconds from midnight
/// and the nanoseconds of the time read, or the text of its error.
pub uninterp spec fn chrono_hms(s: Seq<char>) -> Result<(u32, u32), Seq<char>>;

pub open spec fn hms_view(r: Result<(u32, u32), String>) -> Result<(u32, u32), Seq<char>> {
    match r {
        Ok(v) => Ok(v),
        Err(e) => Err(e@),
    }
}

/// Calls `NaiveTime::parse_from_str` with `%H:%M:%S` and reads
/// `num_seconds_from_midnight` and `nanosecond`; the result is `chrono_hms`
/// of the text, unproved.
#[verifier::external_body]
pub(crate) fn parse_hms(s: &[char]) -> (r: Result<(u32, u32), String>)
    ensures
        hms_view(r) == chrono_hms(s@),
{
    let text: String = s.iter().collect();
    match chrono::NaiveTime::parse_from_str(&text, "%H:%M:%S") {
        Ok(t) => Ok((chrono::Timelike::num_seconds_from_midnight(&t), chrono::Timelike::nanosecond(&t))),
        Err(e) => Err(e.to_string()),
    }
}

/// The last day of a month: the day before the first of the next month;
/// `None` when that first day or the day before it does not exist.
pub open spec fn last_day_of_month(y: i32, m: u32) -> Option<u32> {
    if m == 12 {
        if y as int + 1 > i32::MAX as int || !valid_ymd(y + 1, 1, 1) {
            None
        } else {
            pred_day(y + 1, 1, 1)
        }
    } else {
        if m as int + 1 > u32::MAX as int || !valid_ymd(y as int, m + 1, 1) {
            None
        } else {
            pred_day(y as int, m + 1, 1)
        }
    }
}

pub fn last_day_of_month_exec(y: i32, m: u32) -> (r: Option<u32>)
    ensures
        r == last_day_of_month(y, m),
{
    if m == 12 {
        let next_year = match y.checked_add(1) {
            Some(v) => v,
            None => return None,
        };
        if !ymd_is_valid(next_year, 1, 1) {
            return None;
        }
        day_before(next_year, 1, 1)
    } else {
        let next_month = match m.checked_add(1) {
            Some(v) => v,
            None => return None,
        };
        if !ymd_is_valid(y, next_month, 1) {
            return None;
        }
        day_before(y, next_month, 1)
    }
}

} // verus!
