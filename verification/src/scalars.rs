//! The three scalar micro-formats: calendar dates `dd.mm.yy`, times of day
//! `hh:mm`, and durations `H[:MM]`, with plain-value types for their results.

use vstd::prelude::*;
use crate::error::{Error, ErrorV};
use crate::num::{int_val, parse_i32, parse_i64, parse_uint, parses_as_int, parses_as_uint,
    uint_val};
use crate::text::{find_char, split_once_at, sub_string};

verus! {

// ---------------------------------------------------------------------------
// Calendar dates
// ---------------------------------------------------------------------------

/// The mathematical form of a calendar date.
pub struct DateV {
    pub year: int,
    pub month: int,
    pub day: int,
}

/// A calendar date in the proleptic Gregorian calendar, held as plain values.
#[derive(Debug, Clone, Copy, PartialEq, Eq, Structural)]
pub struct Date {
    pub year: i32,
    pub month: u8,
    pub day: u8,
}

impl View for Date {
    type V = DateV;

    open spec fn view(&self) -> DateV {
        DateV { year: self.year as int, month: self.month as int, day: self.day as int }
    }
}

pub open spec fn leap_year(y: int) -> bool {
    (y % 4 == 0 && y % 100 != 0) || y % 400 == 0
}

pub open spec fn days_in_month(y: int, m: int) -> int
    recommends
        1 <= m <= 12,
{
    if m == 2 {
        if leap_year(y) {
            29
        } else {
            28
        }
    } else if m == 4 || m == 6 || m == 9 || m == 11 {
        30
    } else {
        31
    }
}

/// A valid calendar date: a year within four digits, a real month, and a day
/// the month has.
pub open spec fn valid_date(y: int, m: int, d: int) -> bool {
    -9999 <= y <= 9999 && 1 <= m <= 12 && 1 <= d <= days_in_month(y, m)
}

impl Date {
    /// The date is one the calendar has.
    pub open spec fn wf(&self) -> bool {
        valid_date(self.year as int, self.month as int, self.day as int)
    }
}

// ---------------------------------------------------------------------------
// Times of day
// ---------------------------------------------------------------------------

/// The mathematical form of a time of day.
pub struct TimeV {
    pub hour: int,
    pub minute: int,
    pub second: int,
}

/// A time of day, held as plain values; seconds are always zero in this
/// format.
#[derive(Debug, Clone, Copy, PartialEq, Eq, Structural)]
pub struct Time {
    pub hour: u8,
    pub minute: u8,
    pub second: u8,
}

impl View for Time {
    type V = TimeV;

    open spec fn view(&self) -> TimeV {
        TimeV { hour: self.hour as int, minute: self.minute as int, second: self.second as int }
    }
}

pub open spec fn valid_time(h: int, m: int) -> bool {
    0 <= h < 24 && 0 <= m < 60
}

impl Time {
    pub open spec fn wf(&self) -> bool {
        valid_time(self.hour as int, self.minute as int) && self.second == 0
    }
}

// ---------------------------------------------------------------------------
// Durations
// ---------------------------------------------------------------------------

/// A signed span of time, held as a whole number of minutes.
#[derive(Debug, Clone, Copy, PartialEq, Eq, Structural)]
pub struct Duration {
    pub minutes: i64,
}

impl View for Duration {
    type V = int;

    open spec fn view(&self) -> int {
        self.minutes as int
    }
}

impl Duration {
    /// The zero duration, the default where a duration field is absent.
    pub fn zero() -> (r: Duration)
        ensures
            r@ == 0,
    {
        Duration { minutes: 0 }
    }
}

/// The hour and minute parts of a duration stay representable as minutes.
pub open spec fn duration_ok(h: int, m: int) -> bool {
    i64::MIN <= 60 * h <= i64::MAX && i64::MIN <= 60 * h + m <= i64::MAX
}

// ---------------------------------------------------------------------------
// The micro-format models
// ---------------------------------------------------------------------------

pub open spec fn parses_as_i64(s: Seq<char>) -> bool {
    parses_as_int(s, i64::MIN as int, i64::MAX as int)
}

/// What `dd.mm.yy` means: day and month up to the first and second dot, the
/// year everything after the second dot, each read as an integer, and the
/// triple a valid calendar date.
pub open spec fn date_of(s: Seq<char>) -> Option<DateV> {
    match split_once_at(s, seq!['.']) {
        None => None,
        Some((dd, rest)) => match split_once_at(rest, seq!['.']) {
            None => None,
            Some((mm, yy)) => {
                if parses_as_int(yy, i32::MIN as int, i32::MAX as int) && parses_as_uint(mm, 255)
                    && parses_as_uint(dd, 255) && valid_date(int_val(yy), uint_val(mm), uint_val(dd)) {
                    Some(DateV { year: int_val(yy), month: uint_val(mm), day: uint_val(dd) })
                } else {
                    None
                }
            },
        },
    }
}

/// What `hh:mm` means: hour and minute split at the colon, each read as an
/// integer, forming a valid time of day; seconds are zero.
pub open spec fn time_of(s: Seq<char>) -> Option<TimeV> {
    match split_once_at(s, seq![':']) {
        None => None,
        Some((hh, mm)) => {
            if parses_as_uint(hh, 255) && parses_as_uint(mm, 255) && valid_time(
                uint_val(hh),
                uint_val(mm),
            ) {
                Some(TimeV { hour: uint_val(hh), minute: uint_val(mm), second: 0 })
            } else {
                None
            }
        },
    }
}

/// What `H[:MM]` means, in minutes: hours before the colon, minutes after it;
/// without a colon the whole value is hours and the minutes are zero.
pub open spec fn duration_of(s: Seq<char>) -> Option<int> {
    match split_once_at(s, seq![':']) {
        None => {
            if parses_as_i64(s) && duration_ok(int_val(s), 0) {
                Some(60 * int_val(s))
            } else {
                None
            }
        },
        Some((hs, ms)) => {
            if parses_as_i64(hs) && parses_as_i64(ms) && duration_ok(int_val(hs), int_val(ms)) {
                Some(60 * int_val(hs) + int_val(ms))
            } else {
                None
            }
        },
    }
}

// ---------------------------------------------------------------------------
// Executable parsers
// ---------------------------------------------------------------------------

fn days_in_month_x(y: i32, m: u8) -> (r: u8)
    requires
        1 <= m <= 12,
        -9999 <= y <= 9999,
    ensures
        r as int == days_in_month(y as int, m as int),
{
    if m == 2 {
        let ya: u32 = if y >= 0 {
            y as u32
        } else {
            (-y) as u32
        };
        proof {
            assert((y as int) % 4 == 0 <==> (ya as int) % 4 == 0);
            assert((y as int) % 100 == 0 <==> (ya as int) % 100 == 0);
            assert((y as int) % 400 == 0 <==> (ya as int) % 400 == 0);
        }
        if (ya % 4 == 0 && ya % 100 != 0) || ya % 400 == 0 {
            29
        } else {
            28
        }
    } else if m == 4 || m == 6 || m == 9 || m == 11 {
        30
    } else {
        31
    }
}

/// Decode a `dd.mm.yy` date field.
pub fn parse_date(s: &str) -> (r: Result<Date, Error>)
    ensures
        match r {
            Ok(d) => date_of(s@) == Some(d@) && d.wf(),
            Err(e) => date_of(s@) is None && e@ == ErrorV::InvalidDate(s@),
        },
{
    let n: usize = s.unicode_len();
    let i: usize = match find_char(s, n, 0, '.') {
        None => {
            return Err(Error::InvalidDate(s.to_owned()));
        },
        Some(i) => i,
    };
    let dd = sub_string(s, 0, i);
    let rest = sub_string(s, i + 1, n);
    proof {
        assert(dd@ =~= s@.take(i as int));
        assert(rest@ =~= s@.skip(i + 1));
    }
    let rn: usize = n - i - 1;
    let j: usize = match find_char(rest.as_str(), rn, 0, '.') {
        None => {
            return Err(Error::InvalidDate(s.to_owned()));
        },
        Some(j) => j,
    };
    let mm = sub_string(rest.as_str(), 0, j);
    let yy = sub_string(rest.as_str(), j + 1, rn);
    proof {
        assert(mm@ =~= rest@.take(j as int));
        assert(yy@ =~= rest@.skip(j + 1));
    }
    let y: i32 = match parse_i32(yy.as_str()) {
        None => {
            return Err(Error::InvalidDate(s.to_owned()));
        },
        Some(y) => y,
    };
    let mo: u64 = match parse_uint(mm.as_str(), 255) {
        None => {
            return Err(Error::InvalidDate(s.to_owned()));
        },
        Some(v) => v,
    };
    let da: u64 = match parse_uint(dd.as_str(), 255) {
        None => {
            return Err(Error::InvalidDate(s.to_owned()));
        },
        Some(v) => v,
    };
    let mo: u8 = mo as u8;
    let da: u8 = da as u8;
    if mo < 1 || mo > 12 || y < -9999 || y > 9999 {
        return Err(Error::InvalidDate(s.to_owned()));
    }
    if da < 1 || da > days_in_month_x(y, mo) {
        return Err(Error::InvalidDate(s.to_owned()));
    }
    Ok(Date { year: y, month: mo, day: da })
}

/// Decode an `hh:mm` time field.
pub fn parse_time(s: &str) -> (r: Result<Time, Error>)
    ensures
        match r {
            Ok(t) => time_of(s@) == Some(t@) && t.wf(),
            Err(e) => time_of(s@) is None && e@ == ErrorV::InvalidTime(s@),
        },
{
    let n: usize = s.unicode_len();
    let i: usize = match find_char(s, n, 0, ':') {
        None => {
            return Err(Error::InvalidTime(s.to_owned()));
        },
        Some(i) => i,
    };
    let hh = sub_string(s, 0, i);
    let mm = sub_string(s, i + 1, n);
    proof {
        assert(hh@ =~= s@.take(i as int));
        assert(mm@ =~= s@.skip(i + 1));
    }
    let h: u64 = match parse_uint(hh.as_str(), 255) {
        None => {
            return Err(Error::InvalidTime(s.to_owned()));
        },
        Some(v) => v,
    };
    let m: u64 = match parse_uint(mm.as_str(), 255) {
        None => {
            return Err(Error::InvalidTime(s.to_owned()));
        },
        Some(v) => v,
    };
    if h >= 24 || m >= 60 {
        return Err(Error::InvalidTime(s.to_owned()));
    }
    Ok(Time { hour: h as u8, minute: m as u8, second: 0 })
}

/// Decode an `H[:MM]` duration field into minutes.
pub fn parse_duration(s: &str) -> (r: Result<Duration, Error>)
    ensures
        match r {
            Ok(d) => duration_of(s@) == Some(d@),
            Err(e) => duration_of(s@) is None && e@ == ErrorV::InvalidDuration(s@),
        },
{
    let n: usize = s.unicode_len();
    let (h, m): (i64, i64) = match find_char(s, n, 0, ':') {
        None => {
            match parse_i64(s) {
                None => {
                    return Err(Error::InvalidDuration(s.to_owned()));
                },
                Some(h) => (h, 0),
            }
        },
        Some(i) => {
            let hs = sub_string(s, 0, i);
            let ms = sub_string(s, i + 1, n);
            proof {
                assert(hs@ =~= s@.take(i as int));
                assert(ms@ =~= s@.skip(i + 1));
            }
            let h: i64 = match parse_i64(hs.as_str()) {
                None => {
                    return Err(Error::InvalidDuration(s.to_owned()));
                },
                Some(h) => h,
            };
            let m: i64 = match parse_i64(ms.as_str()) {
                None => {
                    return Err(Error::InvalidDuration(s.to_owned()));
                },
                Some(m) => m,
            };
            (h, m)
        },
    };
    let sixty: Option<i64> = h.checked_mul(60);
    match sixty {
        None => Err(Error::InvalidDuration(s.to_owned())),
        Some(hm) => match hm.checked_add(m) {
            None => Err(Error::InvalidDuration(s.to_owned())),
            Some(total) => Ok(Duration { minutes: total }),
        },
    }
}

} // verus!
