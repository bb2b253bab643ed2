//! Civil (calendar) time. A timestamp's time-of-day part is plain
//! arithmetic; the calendar date part is chrono's work, reached through a
//! trusted wrapper. The strict `YYYY-MM-DDTHH:MM:SS` text form is parsed by
//! verified code.

use std::fmt::Write;

use chrono::{Datelike, Timelike};

use vstd::prelude::*;

use crate::numfmt::{digit_val, is_digit};

verus! {

/// A calendar date and time of day, split into plain fields.
#[derive(Clone, Copy, PartialEq, Eq, Structural, Debug)]
pub struct CivilTime {
    pub year: i64,
    pub month: u8,
    pub day: u8,
    pub hour: u8,
    pub minute: u8,
    pub second: u8,
}

/// The proleptic Gregorian date of a day index (days since 1970-01-01), as
/// chrono computes it: year, month, day.
pub uninterp spec fn civil_date_of(day_index: int) -> (int, int, int);

/// Whether chrono's strftime engine accepts a format string when a date and
/// a time of day are present (and no offset is): acceptance depends on the
/// format alone.
pub uninterp spec fn strftime_accepts(fmt: Seq<char>) -> bool;

/// What chrono's strftime engine renders a civil time to, for a format
/// string: the output depends on the fields and the format alone.
pub uninterp spec fn strftime_of(
    year: int,
    month: int,
    day: int,
    hour: int,
    minute: int,
    second: int,
    fmt: Seq<char>,
) -> Seq<char>;

/// Relies on `chrono::DateTime::from_timestamp`: the civil date is that of
/// the timestamp's day index; the time of day is the timestamp's remainder
/// within the day; the conversion succeeds far beyond year 9999
/// (chrono covers about 262,000 years around the common era), and a
/// timestamp between 1970-01-01T00:00:00 and 9999-12-31T23:59:59 yields a
/// year between 1970 and 9999.
#[verifier::external_body]
pub(crate) fn civil_from_timestamp(ts: i64) -> (r: Option<CivilTime>)
    ensures
        r matches Some(c) ==> (c.year as int == civil_date_of((ts as int) / 86400).0
            && c.month as int == civil_date_of((ts as int) / 86400).1 && c.day as int
            == civil_date_of((ts as int) / 86400).2 && 1 <= c.month <= 12 && 1 <= c.day <= 31
            && c.hour as int == ((ts as int) % 86400) / 3600 && c.minute as int == (((
        ts as int) % 86400) / 60) % 60 && c.second as int == (ts as int) % 60),
        r is None ==> !(0 <= ts <= 253402300799),
        r matches Some(c) ==> (0 <= ts <= 253402300799 ==> 1970 <= c.year <= 9999),
{
    match chrono::DateTime::from_timestamp(ts, 0) {
        Some(dt) => Some(
            CivilTime {
                year: dt.year() as i64,
                month: dt.month() as u8,
                day: dt.day() as u8,
                hour: dt.hour() as u8,
                minute: dt.minute() as u8,
                second: dt.second() as u8,
            },
        ),
        None => None,
    }
}

/// Relies on chrono's strftime formatting engine (`NaiveDateTime::format`):
/// `None` exactly when the fields are no real calendar date and time of day
/// or the engine rejects the format string (an invalid item, or one needing
/// an offset, which is never present here; rejection depends on the format
/// alone); otherwise the engine's output, a function of the fields and the
/// format alone.
#[verifier::external_body]
pub(crate) fn strftime(c: &CivilTime, fmt: &str) -> (r: Option<String>)
    requires
        0 <= c.year <= 9999,
    ensures
        r is Some <==> (valid_civil(*c) && strftime_accepts(fmt@)),
        r matches Some(s) ==> s@ == strftime_of(
            c.year as int,
            c.month as int,
            c.day as int,
            c.hour as int,
            c.minute as int,
            c.second as int,
            fmt@,
        ),
{
    let date = match chrono::NaiveDate::from_ymd_opt(c.year as i32, c.month as u32, c.day as u32) {
        Some(d) => d,
        None => return None,
    };
    let dt = match date.and_hms_opt(c.hour as u32, c.minute as u32, c.second as u32) {
        Some(d) => d,
        None => return None,
    };
    let mut out = String::new();
    match write!(out, "{}", dt.format(fmt)) {
        Ok(()) => Some(out),
        Err(_) => None,
    }
}

/// Whether a year has 366 days.
pub open spec fn is_leap_year(y: int) -> bool {
    (y % 4 == 0 && y % 100 != 0) || y % 400 == 0
}

/// How many days the month of a year has.
pub open spec fn days_in_month(y: int, m: int) -> int {
    if m == 2 {
        if is_leap_year(y) {
            29
        } else {
            28
        }
    } else if m == 4 || m == 6 || m == 9 || m == 11 {
        30
    } else {
        31
    }
}

/// Whether the fields name a real calendar date and time of day.
pub open spec fn valid_civil(c: CivilTime) -> bool {
    &&& 1 <= c.month <= 12
    &&& 1 <= c.day <= days_in_month(c.year as int, c.month as int)
    &&& c.hour < 24
    &&& c.minute < 60
    &&& c.second < 60
}

/// The value of two digit characters at `i`.
pub open spec fn two_val(s: Seq<char>, i: int) -> int {
    digit_val(s[i]) * 10 + digit_val(s[i + 1])
}

/// The value of four digit characters at `i`.
pub open spec fn four_val(s: Seq<char>, i: int) -> int {
    digit_val(s[i]) * 1000 + digit_val(s[i + 1]) * 100 + digit_val(s[i + 2]) * 10 + digit_val(
        s[i + 3],
    )
}

/// Whether the text has exactly the shape `YYYY-MM-DDTHH:MM:SS`.
pub open spec fn is_datetime_literal(s: Seq<char>) -> bool {
    &&& s.len() == 19
    &&& is_digit(s[0]) && is_digit(s[1]) && is_digit(s[2]) && is_digit(s[3])
    &&& s[4] == '-'
    &&& is_digit(s[5]) && is_digit(s[6])
    &&& s[7] == '-'
    &&& is_digit(s[8]) && is_digit(s[9])
    &&& s[10] == 'T'
    &&& is_digit(s[11]) && is_digit(s[12])
    &&& s[13] == ':'
    &&& is_digit(s[14]) && is_digit(s[15])
    &&& s[16] == ':'
    &&& is_digit(s[17]) && is_digit(s[18])
}

/// The civil time a well-shaped datetime literal denotes.
pub open spec fn datetime_literal_value(s: Seq<char>) -> CivilTime {
    CivilTime {
        year: four_val(s, 0) as i64,
        month: two_val(s, 5) as u8,
        day: two_val(s, 8) as u8,
        hour: two_val(s, 11) as u8,
        minute: two_val(s, 14) as u8,
        second: two_val(s, 17) as u8,
    }
}

fn digit_at(s: &str, i: usize) -> (r: Option<u8>)
    requires
        i < s@.len(),
    ensures
        r is Some <==> is_digit(s@[i as int]),
        r matches Some(d) ==> d as int == digit_val(s@[i as int]),
{
    let c = s.get_char(i);
    let cv = c as u32;
    if 48 <= cv && cv <= 57 {
        Some((cv - 48) as u8)
    } else {
        None
    }
}

fn two_at(s: &str, i: usize) -> (r: Option<u8>)
    requires
        i + 1 < s@.len(),
        s@.len() <= usize::MAX,
    ensures
        r is Some <==> (is_digit(s@[i as int]) && is_digit(s@[i + 1])),
        r matches Some(v) ==> v as int == two_val(s@, i as int),
{
    let d0 = match digit_at(s, i) {
        Some(d) => d,
        None => return None,
    };
    let d1 = match digit_at(s, i + 1) {
        Some(d) => d,
        None => return None,
    };
    Some(d0 * 10 + d1)
}

/// How many days the month has, for a non-negative year.
pub fn days_in_month_count(y: i64, m: u8) -> (r: u8)
    requires
        y >= 0,
        1 <= m <= 12,
    ensures
        r as int == days_in_month(y as int, m as int),
{
    if m == 2 {
        if (y % 4 == 0 && y % 100 != 0) || y % 400 == 0 {
            29
        } else {
            28
        }
    } else if m == 4 || m == 6 || m == 9 || m == 11 {
        30
    } else {
        31
    }
}

/// Parses the strict `YYYY-MM-DDTHH:MM:SS` form: the denoted civil time,
/// when the shape is exact and the fields name a real date and time of day.
pub fn parse_datetime_str(s: &str) -> (r: Option<CivilTime>)
    ensures
        r is Some <==> (is_datetime_literal(s@) && valid_civil(datetime_literal_value(s@))),
        r matches Some(c) ==> c == datetime_literal_value(s@),
        r matches Some(c) ==> 0 <= c.year <= 9999 && valid_civil(c),
{
    if s.unicode_len() != 19 {
        return None;
    }
    if s.get_char(4) != '-' || s.get_char(7) != '-' || s.get_char(10) != 'T' || s.get_char(13)
        != ':' || s.get_char(16) != ':' {
        return None;
    }
    let y_hi = match two_at(s, 0) {
        Some(v) => v,
        None => return None,
    };
    let y_lo = match two_at(s, 2) {
        Some(v) => v,
        None => return None,
    };
    let year: i64 = (y_hi as i64) * 100 + (y_lo as i64);
    let month = match two_at(s, 5) {
        Some(v) => v,
        None => return None,
    };
    let day = match two_at(s, 8) {
        Some(v) => v,
        None => return None,
    };
    let hour = match two_at(s, 11) {
        Some(v) => v,
        None => return None,
    };
    let minute = match two_at(s, 14) {
        Some(v) => v,
        None => return None,
    };
    let second = match two_at(s, 17) {
        Some(v) => v,
        None => return None,
    };
    if month < 1 || month > 12 {
        return None;
    }
    if day < 1 || day > days_in_month_count(year, month) {
        return None;
    }
    if hour >= 24 || minute >= 60 || second >= 60 {
        return None;
    }
    Some(CivilTime { year, month, day, hour, minute, second })
}

} // verus!
