//! Log severity levels.

use vstd::prelude::*;
use crate::text::{decimal, push_char, push_str, u64_to_decimal};

verus! {

/// Log severity levels.
#[derive(Debug, Clone, Copy, PartialEq, Eq, Structural)]
pub enum LogLevel {
    Trace,
    Debug,
    Info,
    Warn,
    Error,
}

pub open spec fn level_name(l: LogLevel) -> Seq<char> {
    match l {
        LogLevel::Trace => "TRACE"@,
        LogLevel::Debug => "DEBUG"@,
        LogLevel::Info => "INFO"@,
        LogLevel::Warn => "WARN"@,
        LogLevel::Error => "ERROR"@,
    }
}

impl LogLevel {
    /// The level's name as written in log lines.
    pub fn as_str(&self) -> (s: &'static str)
        ensures
            s@ == level_name(*self),
    {
        match self {
            Self::Trace => "TRACE",
            Self::Debug => "DEBUG",
            Self::Info => "INFO",
            Self::Warn => "WARN",
            Self::Error => "ERROR",
        }
    }
}

} // verus!

verus! {

/// A log line: `[timestamp] [LEVEL] message` and a line break.
pub open spec fn log_line_text(timestamp: Seq<char>, level: LogLevel, message: Seq<char>) -> Seq<char> {
    "["@ + timestamp + "] ["@ + level_name(level) + "] "@ + message + "\n"@
}

/// Builds the line that the logger writes for a message.
pub fn log_line(timestamp: &str, level: LogLevel, message: &str) -> (s: String)
    ensures
        s@ == log_line_text(timestamp@, level, message@),
{
    let mut s = String::new();
    push_str(&mut s, "[");
    push_str(&mut s, timestamp);
    push_str(&mut s, "] [");
    push_str(&mut s, level.as_str());
    push_str(&mut s, "] ");
    push_str(&mut s, message);
    push_str(&mut s, "\n");
    proof {
        reveal_strlit("[");
        reveal_strlit("] [");
        reveal_strlit("] ");
        reveal_strlit("\n");
    }
    s
}

/// The civil date (year, month, day) of the day that lies `days` days after
/// 1970-01-01 in the proleptic Gregorian calendar: the year is split into
/// 400-year eras and the days of an era counted from March 1.
pub open spec fn civil_from_days(days: nat) -> (int, int, int) {
    let z = days + 719468;
    let era = z / 146097;
    let doe = z % 146097;
    let yoe = (doe - doe / 1460 + doe / 36524 - doe / 146096) / 365;
    let doy = doe - (365 * yoe + yoe / 4 - yoe / 100);
    let mp = (5 * doy + 2) / 153;
    let d = doy - (153 * mp + 2) / 5 + 1;
    let mo = if mp < 10 { mp + 3 } else { mp - 9 };
    let y = yoe + era * 400;
    (if mo <= 2 { y + 1 } else { y }, mo, d)
}

/// `n` in decimal, with leading zeros up to `width` digits.
pub open spec fn zero_padded(n: nat, width: nat) -> Seq<char> {
    let d = decimal(n);
    if d.len() >= width {
        d
    } else {
        Seq::new((width - d.len()) as nat, |_i: int| '0') + d
    }
}

/// The timestamp of a moment given in whole seconds since 1970-01-01 UTC
/// and milliseconds: `YYYY-MM-DD hh:mm:ss.mmm`.
pub open spec fn timestamp_text(secs: nat, millis: nat) -> Seq<char> {
    let (y, mo, d) = civil_from_days(secs / 86400);
    let tod = secs % 86400;
    zero_padded(y as nat, 4) + "-"@ + zero_padded(mo as nat, 2) + "-"@ + zero_padded(d as nat, 2) + " "@
        + zero_padded(tod / 3600, 2) + ":"@ + zero_padded((tod % 3600) / 60, 2) + ":"@
        + zero_padded(tod % 60, 2) + "."@ + zero_padded(millis, 3)
}

/// The civil date of a day count is a date: a year after 1969, a month of
/// the year and a day of the month.
pub proof fn lemma_civil_date_in_range(days: nat)
    ensures
        civil_from_days(days).0 >= 1970,
        1 <= civil_from_days(days).1 <= 12,
        1 <= civil_from_days(days).2 <= 31,
{
    let z = days + 719468;
    let era = z / 146097;
    let doe = z % 146097;
    assert(0 <= doe < 146097);
    assert(era >= 4);
    let yoe = (doe - doe / 1460 + doe / 36524 - doe / 146096) / 365;
    assert(0 <= yoe <= 399) by (nonlinear_arith)
        requires
            0 <= doe < 146097,
            yoe == (doe - doe / 1460 + doe / 36524 - doe / 146096) / 365,
    ;
    let doy = doe - (365 * yoe + yoe / 4 - yoe / 100);
    assert(0 <= doy <= 365) by (nonlinear_arith)
        requires
            0 <= doe < 146097,
            yoe == (doe - doe / 1460 + doe / 36524 - doe / 146096) / 365,
            doy == doe - (365 * yoe + yoe / 4 - yoe / 100),
    ;
    let mp = (5 * doy + 2) / 153;
    assert(0 <= mp <= 11);
    let d = doy - (153 * mp + 2) / 5 + 1;
    assert(1 <= d <= 31) by (nonlinear_arith)
        requires
            0 <= doy <= 365,
            mp == (5 * doy + 2) / 153,
            d == doy - (153 * mp + 2) / 5 + 1,
    ;
}

} // verus!

verus! {

/// Appends `n` in decimal with leading zeros up to `width` digits.
fn push_zero_padded(s: &mut String, n: u64, width: usize)
    requires
        width <= 8,
    ensures
        final(s)@ == old(s)@ + zero_padded(n as nat, width as nat),
{
    let d = u64_to_decimal(n);
    let len = d.as_str().unicode_len();
    if len < width {
        let mut i: usize = len;
        let ghost start = s@;
        while i < width
            invariant
                len <= i <= width,
                len == d@.len(),
                s@ == start + Seq::new((i - len) as nat, |_i: int| '0'),
            decreases width - i,
        {
            push_char(s, '0');
            i = i + 1;
            proof {
                assert(s@ =~= start + Seq::new((i - len) as nat, |_i: int| '0'));
            }
        }
        push_str(s, d.as_str());
        proof {
            assert(s@ =~= old(s)@ + zero_padded(n as nat, width as nat));
        }
    } else {
        push_str(s, d.as_str());
    }
}

/// Writes the timestamp of a moment given in whole seconds since
/// 1970-01-01 UTC and milliseconds, as `YYYY-MM-DD hh:mm:ss.mmm`.
pub fn format_timestamp_utc(secs: u64, millis: u32) -> (s: String)
    ensures
        s@ == timestamp_text(secs as nat, millis as nat),
{
    let days = secs / 86400;
    let tod = secs % 86400;
    proof {
        lemma_civil_date_in_range(days as nat);
    }
    let z: u64 = days + 719468;
    let era = z / 146097;
    let doe = z % 146097;
    let yoe = (doe - doe / 1460 + doe / 36524 - doe / 146096) / 365;
    let doy = doe - (365 * yoe + yoe / 4 - yoe / 100);
    let mp = (5 * doy + 2) / 153;
    let d = doy - (153 * mp + 2) / 5 + 1;
    let mo = if mp < 10 { mp + 3 } else { mp - 9 };
    let y0 = yoe + era * 400;
    let y = if mo <= 2 { y0 + 1 } else { y0 };
    let mut s = String::new();
    push_zero_padded(&mut s, y, 4);
    push_str(&mut s, "-");
    push_zero_padded(&mut s, mo, 2);
    push_str(&mut s, "-");
    push_zero_padded(&mut s, d, 2);
    push_str(&mut s, " ");
    push_zero_padded(&mut s, tod / 3600, 2);
    push_str(&mut s, ":");
    push_zero_padded(&mut s, (tod % 3600) / 60, 2);
    push_str(&mut s, ":");
    push_zero_padded(&mut s, tod % 60, 2);
    push_str(&mut s, ".");
    push_zero_padded(&mut s, millis as u64, 3);
    proof {
        assert(civil_from_days(days as nat) == (y as int, mo as int, d as int));
    }
    s
}

} // verus!

verus! {

/// Whether a year of the Gregorian calendar has a February 29.
pub open spec fn is_leap_year(y: int) -> bool {
    y % 4 == 0 && (y % 100 != 0 || y % 400 == 0)
}

/// The number of days of a month (1 to 12) of a year.
pub open spec fn days_in_month(y: int, m: int) -> int {
    if m == 2 {
        if is_leap_year(y) {
            29
        } else {
            28
        }
    } else if m == 4 || m == 6 || m == 9 || m == 11 {
        30
    } else {
        31
    }
}

/// The number of days of a year before the first of a month (1 to 12).
pub open spec fn days_before_month(y: int, m: int) -> int {
    let t: int = if m <= 1 {
        0
    } else if m == 2 {
        31
    } else if m == 3 {
        59
    } else if m == 4 {
        90
    } else if m == 5 {
        120
    } else if m == 6 {
        151
    } else if m == 7 {
        181
    } else if m == 8 {
        212
    } else if m == 9 {
        243
    } else if m == 10 {
        273
    } else if m == 11 {
        304
    } else {
        334
    };
    if m > 2 && is_leap_year(y) {
        t + 1
    } else {
        t
    }
}

/// The number of leap years from year 1 through year `y`.
pub open spec fn leap_years_through(y: int) -> int {
    y / 4 - y / 100 + y / 400
}

/// The number of days from 1970-01-01 to a date.
pub open spec fn days_from_epoch(y: int, m: int, d: int) -> int {
    365 * (y - 1970) + leap_years_through(y - 1) - leap_years_through(1969) + days_before_month(y, m) + d - 1
}

proof fn lemma_leap_count_step(y: int)
    requires
        y >= 1,
    ensures
        leap_years_through(y) == leap_years_through(y - 1) + if is_leap_year(y) { 1int } else { 0int },
{
    assert(y / 4 - (y - 1) / 4 == if y % 4 == 0 { 1int } else { 0int }) by (nonlinear_arith)
        requires
            y >= 1,
    ;
    assert(y / 100 - (y - 1) / 100 == if y % 100 == 0 { 1int } else { 0int }) by (nonlinear_arith)
        requires
            y >= 1,
    ;
    assert(y / 400 - (y - 1) / 400 == if y % 400 == 0 { 1int } else { 0int }) by (nonlinear_arith)
        requires
            y >= 1,
    ;
    assert(y % 100 == 0 ==> y % 4 == 0) by (nonlinear_arith);
    assert(y % 400 == 0 ==> y % 100 == 0) by (nonlinear_arith);
}

proof fn lemma_year_of_era(doe: int)
    requires
        0 <= doe < 146097,
    ensures
        ({
            let yoe = (doe - doe / 1460 + doe / 36524 - doe / 146096) / 365;
            &&& 0 <= yoe <= 399
            &&& 365 * yoe + yoe / 4 - yoe / 100 <= doe
            &&& doe < 365 * (yoe + 1) + (yoe + 1) / 4 - (yoe + 1) / 100 + (yoe + 1) / 400
        }),
{
    let yoe = (doe - doe / 1460 + doe / 36524 - doe / 146096) / 365;
    assert(0 <= yoe <= 399) by (nonlinear_arith)
        requires
            0 <= doe < 146097,
            yoe == (doe - doe / 1460 + doe / 36524 - doe / 146096) / 365,
    ;
    assert(doe < 365 * (yoe + 1) + (yoe + 1) / 4 - (yoe + 1) / 100 + (yoe + 1) / 400) by (nonlinear_arith)
        requires
            0 <= doe < 146097,
            yoe == (doe - doe / 1460 + doe / 36524 - doe / 146096) / 365,
    ;
    assert(365 * yoe + yoe / 4 - yoe / 100 <= doe) by (nonlinear_arith)
        requires
            0 <= doe < 146097,
            yoe == (doe - doe / 1460 + doe / 36524 - doe / 146096) / 365,
    ;
}

/// The date written for a day count is the date that many days after
/// 1970-01-01: a valid date whose distance from 1970-01-01 is the count.
pub proof fn lemma_civil_date_is_the_day(days: nat)
    ensures
        ({
            let (y, m, d) = civil_from_days(days);
            &&& 1 <= m <= 12
            &&& 1 <= d <= days_in_month(y, m)
            &&& days_from_epoch(y, m, d) == days
        }),
{
    let z: int = days as int + 719468;
    let era: int = z / 146097;
    let doe: int = z % 146097;
    assert(z == era * 146097 + doe && era >= 4);
    lemma_year_of_era(doe);
    let yoe = (doe - doe / 1460 + doe / 36524 - doe / 146096) / 365;
    let doy = doe - (365 * yoe + yoe / 4 - yoe / 100);
    let yp = yoe + era * 400;
    // the count of days from 0000-03-01 to March 1 of year `yp`
    assert(era * 146097 + 365 * yoe + yoe / 4 - yoe / 100 == 365 * yp + leap_years_through(yp)) by (nonlinear_arith)
        requires
            0 <= yoe <= 399,
            era >= 0,
            yp == yoe + era * 400,
    ;
    assert(z == 365 * yp + leap_years_through(yp) + doy);
    // the length of the year from March 1 of `yp`
    lemma_leap_count_step(yp + 1);
    assert(leap_years_through(yp + 1) - leap_years_through(yp) == (yoe + 1) / 4 - yoe / 4 - ((yoe + 1) / 100 - yoe
        / 100) + (yoe + 1) / 400) by (nonlinear_arith)
        requires
            0 <= yoe <= 399,
            era >= 0,
            yp == yoe + era * 400,
    ;
    assert(0 <= doy < 365 + if is_leap_year(yp + 1) { 1int } else { 0int });
    lemma_leap_count_step(yp);
    let mp = (5 * doy + 2) / 153;
    let d = doy - (153 * mp + 2) / 5 + 1;
    let mo = if mp < 10 { mp + 3 } else { mp - 9 };
    let y = if mo <= 2 { yp + 1 } else { yp };
    assert(civil_from_days(days) == (y, mo, d));
    assert(0 <= mp <= 11);
    assert(1 <= mo <= 12);
    if mp == 0 { assert(d == doy + 1 && doy < 31); }
    else if mp == 1 { assert(d == doy - 30 && 31 <= doy < 61); }
    else if mp == 2 { assert(d == doy - 60 && 61 <= doy < 92); }
    else if mp == 3 { assert(d == doy - 91 && 92 <= doy < 122); }
    else if mp == 4 { assert(d == doy - 121 && 122 <= doy < 153); }
    else if mp == 5 { assert(d == doy - 152 && 153 <= doy < 184); }
    else if mp == 6 { assert(d == doy - 183 && 184 <= doy < 214); }
    else if mp == 7 { assert(d == doy - 213 && 214 <= doy < 245); }
    else if mp == 8 { assert(d == doy - 244 && 245 <= doy < 275); }
    else if mp == 9 { assert(d == doy - 274 && 275 <= doy < 306); }
    else if mp == 10 { assert(d == doy - 305 && 306 <= doy < 337); }
    else { assert(d == doy - 336 && 337 <= doy); }
}

} // verus!
