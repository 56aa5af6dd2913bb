//! Calendar dates as plain year, month and day values, with the ordering and
//! the `YYYY-MM-DD` rendering that the provider URLs need, and two trusted
//! bridges to chrono for what only a clock or the timestamp arithmetic of an
//! outside crate can supply.

use crate::text::spec_digit_char;
use crate::text::digit_char;
use vstd::prelude::*;

verus! {

/// A calendar date in the proleptic Gregorian calendar.
#[derive(Clone, Copy, Debug, PartialEq, Eq, Structural)]
pub struct Date {
    pub year: i32,
    pub month: u8,
    pub day: u8,
}

pub open spec fn is_leap_year(y: int) -> bool {
    (y % 4 == 0 && y % 100 != 0) || y % 400 == 0
}

pub open spec fn days_in_month(y: int, m: int) -> int {
    if m == 2 {
        if is_leap_year(y) {
            29
        } else {
            28
        }
    } else if m == 4 || m == 6 || m == 9 || m == 11 {
        30
    } else {
        31
    }
}

pub fn leap_year(y: i32) -> (b: bool)
    requires
        0 <= y,
    ensures
        b == is_leap_year(y as int),
{
    let yu = y as u32;
    (yu % 4 == 0 && yu % 100 != 0) || yu % 400 == 0
}

pub fn month_length(y: i32, m: u8) -> (d: u8)
    requires
        0 <= y,
        1 <= m <= 12,
    ensures
        d as int == days_in_month(y as int, m as int),
{
    if m == 2 {
        if leap_year(y) {
            29
        } else {
            28
        }
    } else if m == 4 || m == 6 || m == 9 || m == 11 {
        30
    } else {
        31
    }
}

impl Date {
    /// A well-formed value names a real calendar date.
    pub open spec fn wf(self) -> bool {
        &&& 1 <= self.month <= 12
        &&& 1 <= self.day <= days_in_month(self.year as int, self.month as int)
    }

    /// Dates ordered as in the calendar: by year, then month, then day.
    pub open spec fn spec_before(self, other: Date) -> bool {
        ||| self.year < other.year
        ||| (self.year == other.year && self.month < other.month)
        ||| (self.year == other.year && self.month == other.month && self.day < other.day)
    }

    pub fn before(&self, other: &Date) -> (b: bool)
        ensures
            b == self.spec_before(*other),
    {
        self.year < other.year || (self.year == other.year && self.month < other.month) || (
        self.year == other.year && self.month == other.month && self.day < other.day)
    }
}

pub open spec fn spec_two_digits(n: int) -> Seq<char> {
    seq![spec_digit_char(n / 10), spec_digit_char(n % 10)]
}

pub open spec fn spec_four_digits(n: int) -> Seq<char> {
    seq![
        spec_digit_char(n / 1000),
        spec_digit_char((n / 100) % 10),
        spec_digit_char((n / 10) % 10),
        spec_digit_char(n % 10),
    ]
}

/// The `YYYY-MM-DD` rendering, zero padded, of a date with a four-digit year.
pub open spec fn spec_format_date(d: Date) -> Seq<char> {
    spec_four_digits(d.year as int) + seq!['-'] + spec_two_digits(d.month as int) + seq!['-']
        + spec_two_digits(d.day as int)
}

pub fn format_date(d: &Date) -> (r: String)
    requires
        d.wf(),
        0 <= d.year <= 9999,
    ensures
        r@ == spec_format_date(*d),
{
    let y = d.year as u64;
    let m = d.month as u64;
    let day = d.day as u64;
    let mut s = String::new();
    s.push(digit_char(y / 1000));
    s.push(digit_char((y / 100) % 10));
    s.push(digit_char((y / 10) % 10));
    s.push(digit_char(y % 10));
    s.push('-');
    s.push(digit_char(m / 10));
    s.push(digit_char(m % 10));
    s.push('-');
    s.push(digit_char(day / 10));
    s.push(digit_char(day % 10));
    proof {
        assert(s@ =~= spec_format_date(*d));
    }
    s
}

/// The calendar date, read in UTC, of a Unix timestamp. The value is fixed by
/// the timestamp alone; nothing further is assumed about it.
pub uninterp spec fn utc_ymd_of_timestamp(ts: int) -> (int, int, int);

/// Relies on chrono's `DateTime::<Utc>::from_timestamp` and the `Datelike`
/// accessors: the civil date of a timestamp, read in UTC, a function of the
/// timestamp alone. A timestamp outside chrono's supported range falls back
/// to the Unix epoch.
#[verifier::external_body]
pub fn date_of_timestamp(ts: i64) -> (d: Date)
    ensures
        d.wf(),
        (d.year as int, d.month as int, d.day as int) == utc_ymd_of_timestamp(ts as int),
{
    let dt = chrono::DateTime::from_timestamp(ts, 0).unwrap_or_default();
    let nd = dt.naive_local().date();
    Date {
        year: chrono::Datelike::year(&nd),
        month: chrono::Datelike::month(&nd) as u8,
        day: chrono::Datelike::day(&nd) as u8,
    }
}

/// Relies on chrono's `Local::now`: the current date in the local time zone,
/// always a real calendar date. Nothing more can be said of a clock reading.
#[verifier::external_body]
pub fn current_local_date() -> (d: Date)
    ensures
        d.wf(),
{
    let now = chrono::Local::now().naive_local().date();
    Date {
        year: chrono::Datelike::year(&now),
        month: chrono::Datelike::month(&now) as u8,
        day: chrono::Datelike::day(&now) as u8,
    }
}

} // verus!
