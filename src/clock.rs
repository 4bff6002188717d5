use vstd::prelude::*;

verus! {

/// Earliest year the calendar library represents.
pub const MIN_YEAR: i32 = -262143;

/// Latest year the calendar library represents.
pub const MAX_YEAR: i32 = 262142;

/// A wall-clock reading: a proleptic Gregorian date and a time of day.
#[derive(Clone, Copy, Debug, PartialEq, Eq, Structural)]
pub struct LocalTime {
    pub year: i32,
    pub month: u32,
    pub day: u32,
    pub hour: u32,
    pub minute: u32,
    pub second: u32,
}

pub open spec fn is_leap_year(y: int) -> bool {
    (y % 4 == 0 && y % 100 != 0) || y % 400 == 0
}

pub open spec fn days_in_month(y: int, m: int) -> int {
    if m == 2 {
        if is_leap_year(y) {
            29
        } else {
            28
        }
    } else if m == 4 || m == 6 || m == 9 || m == 11 {
        30
    } else {
        31
    }
}

/// The reading names an existing day and time, inside the calendar's range.
pub open spec fn valid_time(t: LocalTime) -> bool {
    &&& MIN_YEAR <= t.year <= MAX_YEAR
    &&& 1 <= t.month <= 12
    &&& 1 <= t.day <= days_in_month(t.year as int, t.month as int)
    &&& t.hour < 24
    &&& t.minute < 60
    &&& t.second < 60
}

/// The strftime-style patterns the clock screen prints.
pub open spec fn clock_pattern(p: Seq<char>) -> bool {
    p == "%A"@ || p == "%e %b %Y"@ || p == "%X"@
}

/// What the calendar library prints for a date and time under a pattern.
pub uninterp spec fn strftime(
    year: int,
    month: int,
    day: int,
    hour: int,
    minute: int,
    second: int,
    pattern: Seq<char>,
) -> Seq<char>;

/// Relies on chrono's `NaiveDate::from_ymd_opt` and `and_hms_opt`, which
/// accept every valid reading, and on `NaiveDateTime::format`, whose text
/// depends on the reading and the pattern alone.
#[verifier::external_body]
fn format_time(t: &LocalTime, pattern: &str) -> (r: String)
    requires
        valid_time(*t),
        clock_pattern(pattern@),
    ensures
        r@ == strftime(
            t.year as int,
            t.month as int,
            t.day as int,
            t.hour as int,
            t.minute as int,
            t.second as int,
            pattern@,
        ),
{
    match chrono::NaiveDate::from_ymd_opt(t.year, t.month, t.day)
        .and_then(|d| d.and_hms_opt(t.hour, t.minute, t.second)) {
        Some(dt) => dt.format(pattern).to_string(),
        None => String::new(),
    }
}

impl LocalTime {
    /// The reading, or `None` where it names no existing day and time.
    pub fn new(year: i32, month: u32, day: u32, hour: u32, minute: u32, second: u32) -> (r:
        Option<LocalTime>)
        ensures
            r.is_some() <==> valid_time(LocalTime { year, month, day, hour, minute, second }),
            r matches Some(t) ==> t == (LocalTime { year, month, day, hour, minute, second }),
    {
        let t = LocalTime { year, month, day, hour, minute, second };
        if year < MIN_YEAR || year > MAX_YEAR || month < 1 || month > 12 || day < 1 || hour >= 24
            || minute >= 60 || second >= 60 {
            return None;
        }
        let leap = (year % 4 == 0 && year % 100 != 0) || year % 400 == 0;
        let dim: u32 = if month == 2 {
            if leap {
                29
            } else {
                28
            }
        } else if month == 4 || month == 6 || month == 9 || month == 11 {
            30
        } else {
            31
        };
        if day > dim {
            None
        } else {
            Some(t)
        }
    }
}

/// The clock screen's lines for reading `t`: the weekday, the date, and the
/// time of day.
pub fn clock_lines(t: &LocalTime) -> (r: Vec<String>)
    requires
        valid_time(*t),
    ensures
        r@.len() == 3,
        r@[0]@ == strftime(
            t.year as int,
            t.month as int,
            t.day as int,
            t.hour as int,
            t.minute as int,
            t.second as int,
            "%A"@,
        ),
        r@[1]@ == strftime(
            t.year as int,
            t.month as int,
            t.day as int,
            t.hour as int,
            t.minute as int,
            t.second as int,
            "%e %b %Y"@,
        ),
        r@[2]@ == strftime(
            t.year as int,
            t.month as int,
            t.day as int,
            t.hour as int,
            t.minute as int,
            t.second as int,
            "%X"@,
        ),
{
    let mut r: Vec<String> = Vec::new();
    r.push(format_time(t, "%A"));
    r.push(format_time(t, "%e %b %Y"));
    r.push(format_time(t, "%X"));
    r
}

} // verus!
