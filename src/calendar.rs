//! Day numbers for the rows of a series: days since 1970-01-01 in the
//! proleptic Gregorian calendar.
use vstd::prelude::*;

verus! {

/// Earliest and latest years that a calendar date may have.
pub const MIN_YEAR: i32 = -262143;
pub const MAX_YEAR: i32 = 262142;

pub open spec fn is_leap_year(y: int) -> bool {
    (y % 4 == 0 && y % 100 != 0) || y % 400 == 0
}

pub open spec fn days_in_month(y: int, m: int) -> int {
    if m == 2 {
        if is_leap_year(y) { 29 } else { 28 }
    } else if m == 4 || m == 6 || m == 9 || m == 11 {
        30
    } else {
        31
    }
}

/// Whether `year-month-day` is a date of the calendar within the supported years.
pub open spec fn is_valid_date(y: int, m: int, d: int) -> bool {
    &&& MIN_YEAR <= y <= MAX_YEAR
    &&& 1 <= m <= 12
    &&& 1 <= d <= days_in_month(y, m)
}

/// The number of leap years before year `y`, counted from an arbitrary origin.
pub open spec fn leaps_before(y: int) -> int {
    (y - 1) / 4 - (y - 1) / 100 + (y - 1) / 400
}

/// The number of days in the months of year `y` before month `m`.
pub open spec fn days_before_month(y: int, m: int) -> int {
    let common: int = if m <= 1 { 0 } else if m == 2 { 31 } else if m == 3 { 59 } else if m == 4 {
        90
    } else if m == 5 { 120 } else if m == 6 { 151 } else if m == 7 { 181 } else if m == 8 {
        212
    } else if m == 9 { 243 } else if m == 10 { 273 } else if m == 11 { 304 } else { 334 };
    if m > 2 && is_leap_year(y) { common + 1 } else { common }
}

/// The number of days from 1970-01-01 to the date `year-month-day`.
pub open spec fn epoch_day_of(year: int, month: int, day: int) -> int {
    365 * (year - 1970) + leaps_before(year) - leaps_before(1970) + days_before_month(year, month)
        + day - 1
}

/// Relies on chrono's `NaiveDate::from_ymd_opt`, which gives a date exactly for
/// valid calendar dates within its years, and `NaiveDate::to_epoch_days`, which
/// counts the days since 1970-01-01.
#[verifier::external_body]
fn epoch_day(year: i32, month: u32, day: u32) -> (r: Option<i32>)
    ensures
        r is Some <==> is_valid_date(year as int, month as int, day as int),
        r matches Some(k) ==> k == epoch_day_of(year as int, month as int, day as int),
{
    match chrono::NaiveDate::from_ymd_opt(year, month, day) {
        Some(date) => Some(date.to_epoch_days()),
        None => None,
    }
}

/// The `n` consecutive day numbers that end with `last`, in chronological order.
pub fn trailing_days(last: i64, n: usize) -> (r: Vec<i64>)
    requires
        n <= i64::MAX,
        last - n >= i64::MIN,
    ensures
        r@.len() == n,
        forall|i: int| 0 <= i < n ==> r@[i] == last - (n - 1) + i,
{
    let mut days: Vec<i64> = Vec::new();
    let mut i: usize = 0;
    while i < n
        invariant
            i <= n,
            n <= i64::MAX,
            last - n >= i64::MIN,
            days@.len() == i,
            forall|j: int| 0 <= j < i ==> days@[j] == last - (n - 1) + j,
        decreases n - i,
    {
        let back: i64 = (n - 1 - i) as i64;
        days.push(last - back);
        i = i + 1;
    }
    days
}

/// The `n` consecutive day numbers that end with the date `year-month-day`, in
/// chronological order; `None` when that is no valid date, or when the first
/// day would be earlier than the earliest day number that a date can have.
pub fn days_ending_on(year: i32, month: u32, day: u32, n: usize) -> (r: Option<Vec<i64>>)
    ensures
        r is Some <==> is_valid_date(year as int, month as int, day as int)
            && epoch_day_of(year as int, month as int, day as int) - (n - 1) >= i32::MIN,
        r matches Some(v) ==> {
            let last = epoch_day_of(year as int, month as int, day as int);
            &&& v@.len() == n
            &&& forall|i: int| 0 <= i < n ==> v@[i] == last - (n - 1) + i
        },
{
    match epoch_day(year, month, day) {
        Some(last) => {
            if n as i128 > last as i128 - i32::MIN as i128 + 1 {
                None
            } else {
                Some(trailing_days(last as i64, n))
            }
        },
        None => None,
    }
}

} // verus!
