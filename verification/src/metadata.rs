//! Timestamp resolution: the calendar model, the parser for the fixed
//! `YYYY-MM-DD HH:MM:SS` form that the metadata facility is asked to emit,
//! the selection of the first parseable line of its output, and the
//! modification-time fallback.

use vstd::prelude::*;
use crate::text::{digit_val, is_digit_char, trim, trim_of};
use chrono::{Datelike, Timelike};

verus! {

// ---------------------------------------------------------------------------
// The calendar model
// ---------------------------------------------------------------------------

/// A naive (timezone-less) calendar date and time with second precision.
#[derive(Clone, Copy, Debug, PartialEq, Eq, Structural)]
pub struct Timestamp {
    pub year: u32,
    pub month: u32,
    pub day: u32,
    pub hour: u32,
    pub minute: u32,
    pub second: u32,
}

pub open spec fn is_leap_year(y: int) -> bool {
    y % 4 == 0 && (y % 100 != 0 || y % 400 == 0)
}

pub open spec fn spec_days_in_month(y: int, m: int) -> int {
    if m == 2 {
        if is_leap_year(y) {
            29
        } else {
            28
        }
    } else if m == 4 || m == 6 || m == 9 || m == 11 {
        30
    } else {
        31
    }
}

/// A well-formed timestamp: a real calendar date with in-range time fields
/// and a year that fits the four-digit form.
pub open spec fn valid_timestamp(t: Timestamp) -> bool {
    &&& t.year <= 9999
    &&& 1 <= t.month <= 12
    &&& 1 <= t.day <= spec_days_in_month(t.year as int, t.month as int)
    &&& t.hour <= 23
    &&& t.minute <= 59
    &&& t.second <= 59
}

/// The number of days of a month, leap years included.
pub fn days_in_month(y: u32, m: u32) -> (r: u32)
    requires
        1 <= m <= 12,
    ensures
        r == spec_days_in_month(y as int, m as int),
{
    if m == 2 {
        if y % 4 == 0 && (y % 100 != 0 || y % 400 == 0) {
            29
        } else {
            28
        }
    } else if m == 4 || m == 6 || m == 9 || m == 11 {
        30
    } else {
        31
    }
}

// ---------------------------------------------------------------------------
// The fixed textual form
// ---------------------------------------------------------------------------

/// The two-digit number at position `i`.
pub open spec fn num2(s: Seq<char>, i: int) -> int {
    10 * digit_val(s[i]) + digit_val(s[i + 1])
}

/// The four-digit number at position `i`.
pub open spec fn num4(s: Seq<char>, i: int) -> int {
    1000 * digit_val(s[i]) + 100 * digit_val(s[i + 1]) + 10 * digit_val(s[i + 2]) + digit_val(
        s[i + 3],
    )
}

/// The shape `YYYY-MM-DD HH:MM:SS`: nineteen characters, digits at the digit
/// positions and the fixed separators between them.
pub open spec fn datetime_shape(s: Seq<char>) -> bool {
    &&& s.len() == 19
    &&& is_digit_char(s[0])
    &&& is_digit_char(s[1])
    &&& is_digit_char(s[2])
    &&& is_digit_char(s[3])
    &&& s[4] == '-'
    &&& is_digit_char(s[5])
    &&& is_digit_char(s[6])
    &&& s[7] == '-'
    &&& is_digit_char(s[8])
    &&& is_digit_char(s[9])
    &&& s[10] == ' '
    &&& is_digit_char(s[11])
    &&& is_digit_char(s[12])
    &&& s[13] == ':'
    &&& is_digit_char(s[14])
    &&& is_digit_char(s[15])
    &&& s[16] == ':'
    &&& is_digit_char(s[17])
    &&& is_digit_char(s[18])
}

/// The timestamp spelled by a string of the right shape.
pub open spec fn datetime_value(s: Seq<char>) -> Timestamp {
    Timestamp {
        year: num4(s, 0) as u32,
        month: num2(s, 5) as u32,
        day: num2(s, 8) as u32,
        hour: num2(s, 11) as u32,
        minute: num2(s, 14) as u32,
        second: num2(s, 17) as u32,
    }
}

/// A string parses exactly when it has the fixed shape and spells a real
/// calendar date and time.
pub open spec fn parseable(s: Seq<char>) -> bool {
    datetime_shape(s) && valid_timestamp(datetime_value(s))
}

/// The numeric value of one digit character.
fn digit_of(c: char) -> (r: u32)
    requires
        is_digit_char(c),
    ensures
        r == digit_val(c),
        r <= 9,
{
    (c as u32) - 48
}

/// Reads the two-digit number at position `i`, if both characters are digits.
fn read2(s: &str, i: usize) -> (r: Option<u32>)
    requires
        i + 2 <= s@.len(),
        s@.len() <= usize::MAX,
    ensures
        match r {
            Some(v) => is_digit_char(s@[i as int]) && is_digit_char(s@[i + 1]) && v == num2(
                s@,
                i as int,
            ) && v <= 99,
            None => !(is_digit_char(s@[i as int]) && is_digit_char(s@[i + 1])),
        },
{
    let c0 = s.get_char(i);
    let c1 = s.get_char(i + 1);
    if '0' <= c0 && c0 <= '9' && '0' <= c1 && c1 <= '9' {
        Some(10 * digit_of(c0) + digit_of(c1))
    } else {
        None
    }
}

/// Reads the four-digit number at position `i`, if all four characters are
/// digits.
fn read4(s: &str, i: usize) -> (r: Option<u32>)
    requires
        i + 4 <= s@.len(),
        s@.len() <= usize::MAX,
    ensures
        match r {
            Some(v) => is_digit_char(s@[i as int]) && is_digit_char(s@[i + 1]) && is_digit_char(
                s@[i + 2],
            ) && is_digit_char(s@[i + 3]) && v == num4(s@, i as int) && v <= 9999,
            None => !(is_digit_char(s@[i as int]) && is_digit_char(s@[i + 1]) && is_digit_char(
                s@[i + 2],
            ) && is_digit_char(s@[i + 3])),
        },
{
    match (read2(s, i), read2(s, i + 2)) {
        (Some(hi), Some(lo)) => Some(100 * hi + lo),
        _ => None,
    }
}

/// Parses the fixed `YYYY-MM-DD HH:MM:SS` form, accepting exactly the strings
/// that have the shape and spell a real calendar date and time.
pub fn parse_datetime(s: &str) -> (r: Option<Timestamp>)
    ensures
        match r {
            Some(t) => parseable(s@) && t == datetime_value(s@) && valid_timestamp(t),
            None => !parseable(s@),
        },
{
    if s.unicode_len() != 19 {
        return None;
    }
    if !(s.get_char(4) == '-' && s.get_char(7) == '-' && s.get_char(10) == ' ' && s.get_char(13)
        == ':' && s.get_char(16) == ':') {
        return None;
    }
    let year = match read4(s, 0) {
        Some(v) => v,
        None => {
            return None;
        },
    };
    let month = match read2(s, 5) {
        Some(v) => v,
        None => {
            return None;
        },
    };
    let day = match read2(s, 8) {
        Some(v) => v,
        None => {
            return None;
        },
    };
    let hour = match read2(s, 11) {
        Some(v) => v,
        None => {
            return None;
        },
    };
    let minute = match read2(s, 14) {
        Some(v) => v,
        None => {
            return None;
        },
    };
    let second = match read2(s, 17) {
        Some(v) => v,
        None => {
            return None;
        },
    };
    if !(1 <= month && month <= 12) {
        return None;
    }
    if !(1 <= day && day <= days_in_month(year, month)) {
        return None;
    }
    if !(hour <= 23 && minute <= 59 && second <= 59) {
        return None;
    }
    Some(Timestamp { year, month, day, hour, minute, second })
}

// ---------------------------------------------------------------------------
// Selecting among the facility's output lines
// ---------------------------------------------------------------------------

/// Whether a raw output line, once trimmed, parses under the fixed form.
pub open spec fn line_parseable(l: String) -> bool {
    parseable(trim_of(l@))
}

/// The timestamp spelled by a raw output line.
pub open spec fn line_value(l: String) -> Timestamp {
    datetime_value(trim_of(l@))
}

/// Takes the first line whose trimmed form parses under the fixed
/// `YYYY-MM-DD HH:MM:SS` form; the lines are expected in field-list order, so
/// this prefers the most specific timestamp field that is available.
pub fn first_parsable_line(lines: &Vec<String>) -> (r: Option<Timestamp>)
    ensures
        match r {
            Some(t) => exists|i: int|
                0 <= i < lines@.len() && #[trigger] line_parseable(lines@[i]) && t == line_value(
                    lines@[i],
                ) && valid_timestamp(t) && forall|j: int| 0 <= j < i ==> !line_parseable(lines@[j]),
            None => forall|i: int| 0 <= i < lines@.len() ==> !line_parseable(lines@[i]),
        },
{
    let mut i: usize = 0;
    while i < lines.len()
        invariant
            0 <= i <= lines@.len(),
            forall|j: int| 0 <= j < i ==> !line_parseable(lines@[j]),
        decreases lines@.len() - i,
    {
        let trimmed = trim(lines[i].as_str());
        if let Some(t) = parse_datetime(trimmed.as_str()) {
            assert(line_parseable(lines@[i as int]));
            return Some(t);
        }
        assert(!line_parseable(lines@[i as int]));
        i = i + 1;
    }
    None
}

// ---------------------------------------------------------------------------
// The modification-time fallback
// ---------------------------------------------------------------------------

/// The calendar date and time, in UTC, of a count of seconds since the Unix
/// epoch; it depends on that count alone.
pub uninterp spec fn civil_of_epoch(secs: int) -> (int, int, int, int, int, int);

/// Relies on chrono's DateTime::from_timestamp: converts seconds since the
/// Unix epoch to the UTC calendar date and time. Within the admitted range
/// the conversion succeeds and yields a real calendar date with the year
/// between 1970 and 9999.
#[verifier::external_body]
fn timestamp_from_epoch(secs: i64) -> (t: Timestamp)
    requires
        0 <= secs < 253402300800,
    ensures
        valid_timestamp(t),
        1970 <= t.year,
        (
            t.year as int,
            t.month as int,
            t.day as int,
            t.hour as int,
            t.minute as int,
            t.second as int,
        ) == civil_of_epoch(secs as int),
{
    let dt = chrono::DateTime::from_timestamp(secs, 0).unwrap();
    let nd = dt.naive_utc();
    Timestamp {
        year: nd.year() as u32,
        month: nd.month(),
        day: nd.day(),
        hour: nd.hour(),
        minute: nd.minute(),
        second: nd.second(),
    }
}

/// Converts a file's modification time, given as seconds since the Unix
/// epoch, to the naive calendar representation; refuses a count outside the
/// range whose conversion is known to land in the four-digit years.
pub fn datetime_from_systemtime(secs: i64) -> (r: Option<Timestamp>)
    ensures
        match r {
            Some(t) => 0 <= secs < 253402300800 && valid_timestamp(t) && 1970 <= t.year && (
                t.year as int,
                t.month as int,
                t.day as int,
                t.hour as int,
                t.minute as int,
                t.second as int,
            ) == civil_of_epoch(secs as int),
            None => !(0 <= secs < 253402300800),
        },
{
    if 0 <= secs && secs < 253402300800 {
        Some(timestamp_from_epoch(secs))
    } else {
        None
    }
}

} // verus!
