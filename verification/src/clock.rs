//! The clock-backed PAC predicates.  A `Moment` is a plain calendar/time
//! snapshot the caller supplies (local and GMT); the range tests here are
//! pure functions of that snapshot, with the classic wrap-around semantics:
//! a range whose start lies after its end wraps around the week, day or
//! month boundary.

use vstd::prelude::*;

use crate::text::{seq_eq_ci, str_to_chars, eq_ignore_case};

verus! {

/// A calendar/time snapshot.  `weekday` is 0 for Sunday through 6 for
/// Saturday, as PAC scripts expect.
#[derive(Clone, Copy, PartialEq, Eq, Structural, Debug)]
pub struct Moment {
    pub year: u16,
    pub month: u8,
    pub day: u8,
    pub weekday: u8,
    pub hour: u8,
    pub minute: u8,
    pub second: u8,
}

pub open spec fn moment_wf(m: Moment) -> bool {
    &&& 1 <= m.month <= 12
    &&& 1 <= m.day <= 31
    &&& m.weekday <= 6
    &&& m.hour <= 23
    &&& m.minute <= 59
    &&& m.second <= 59
}

/// The epoch moment: midnight starting the first day of 1970, a Thursday.
pub open spec fn s_epoch_moment() -> Moment {
    Moment { year: 1970, month: 1, day: 1, weekday: 4, hour: 0, minute: 0, second: 0 }
}

impl Moment {
    /// The epoch moment, used until a caller installs a real clock.
    pub fn zero() -> (r: Moment)
        ensures
            r == s_epoch_moment(),
            moment_wf(r),
    {
        Moment { year: 1970, month: 1, day: 1, weekday: 4, hour: 0, minute: 0, second: 0 }
    }
}

/// Subtraction floored at zero.
pub open spec fn s_monus(a: int, b: int) -> int {
    if a >= b {
        a - b
    } else {
        0
    }
}

fn monus(a: u64, b: u64) -> (r: u64)
    ensures
        r as int == s_monus(a as int, b as int),
{
    if a >= b {
        a - b
    } else {
        0
    }
}

pub open spec fn s_clamp(x: int, lo: int, hi: int) -> int {
    if x < lo {
        lo
    } else if x > hi {
        hi
    } else {
        x
    }
}

/// The Gregorian calendar date for a count of days since the epoch, as
/// year, month and day; days beyond the representable years saturate.
pub open spec fn s_civil_from_days(days0: int) -> (int, int, int) {
    let days = s_clamp(days0, 0, 53000000);
    let z = days + 719468;
    let era = z / 146097;
    let doe = z % 146097;
    let yoe = s_monus(doe + doe / 36524, doe / 1460 + doe / 146096) / 365;
    let y = yoe + era * 400;
    let doy = s_monus(doe + yoe / 100, 365 * yoe + yoe / 4);
    let mp = (5 * doy + 2) / 153;
    let d = s_monus(doy + 1, (153 * mp + 2) / 5);
    let mo = if mp < 10 {
        mp + 3
    } else {
        s_monus(mp, 9)
    };
    ((if mo <= 2 { y + 1 } else { y }), s_clamp(mo, 1, 12), s_clamp(d, 1, 31))
}

/// The GMT calendar moment for a count of seconds since the epoch: the
/// civil date, the weekday (the epoch fell on a Thursday), and the time of
/// day.  Years beyond the representable range saturate.
pub open spec fn s_moment_from_epoch(secs: int) -> Moment {
    let days = secs / 86400;
    let rem = secs % 86400;
    let ymd = s_civil_from_days(days);
    Moment {
        year: s_clamp(ymd.0, 0, 65535) as u16,
        month: ymd.1 as u8,
        day: ymd.2 as u8,
        weekday: ((days + 4) % 7) as u8,
        hour: (rem / 3600) as u8,
        minute: ((rem % 3600) / 60) as u8,
        second: (rem % 60) as u8,
    }
}

/// Computes the GMT moment a count of epoch seconds denotes.
pub fn moment_from_epoch(secs: u64) -> (r: Moment)
    ensures
        r == s_moment_from_epoch(secs as int),
        moment_wf(r),
{
    let days: u64 = secs / 86400;
    let rem: u64 = secs % 86400;
    let days_c: u64 = if days > 53000000 {
        53000000
    } else {
        days
    };
    let z: u64 = days_c + 719468;
    let era: u64 = z / 146097;
    let doe: u64 = z % 146097;
    let yoe: u64 = monus(doe + doe / 36524, doe / 1460 + doe / 146096) / 365;
    proof {
        assert(doe / 36524 <= doe && doe / 1460 <= doe && doe / 146096 <= doe && (doe + doe
            / 36524) / 365 <= doe + doe / 36524) by (nonlinear_arith);
    }
    let y: u64 = yoe + era * 400;
    let doy: u64 = monus(doe + yoe / 100, 365 * yoe + yoe / 4);
    proof {
        assert(yoe / 100 <= yoe && yoe / 4 <= yoe) by (nonlinear_arith);
        assert(s_monus(doe + yoe / 100, 365 * yoe + yoe / 4) <= doe + yoe);
    }
    let mp: u64 = (5 * doy + 2) / 153;
    proof {
        assert((5 * (doe + yoe) + 2) / 153 <= 5 * (doe + yoe) + 2 && (5 * doy + 2) / 153 <= 5
            * doy + 2) by (nonlinear_arith);
    }
    let d: u64 = monus(doy + 1, (153 * mp + 2) / 5);
    let mo: u64 = if mp < 10 {
        mp + 3
    } else {
        monus(mp, 9)
    };
    let year_raw: u64 = if mo <= 2 {
        y + 1
    } else {
        y
    };
    let year: u16 = if year_raw > 65535 {
        65535
    } else {
        year_raw as u16
    };
    let month: u8 = if mo < 1 {
        1
    } else if mo > 12 {
        12
    } else {
        mo as u8
    };
    let day: u8 = if d < 1 {
        1
    } else if d > 31 {
        31
    } else {
        d as u8
    };
    Moment {
        year,
        month,
        day,
        weekday: ((days + 4) % 7) as u8,
        hour: (rem / 3600) as u8,
        minute: ((rem % 3600) / 60) as u8,
        second: (rem % 60) as u8,
    }
}

/// Membership in an inclusive range that may wrap around its cycle.
pub open spec fn s_wrap_in(x: int, lo: int, hi: int) -> bool {
    if lo <= hi {
        lo <= x <= hi
    } else {
        x >= lo || x <= hi
    }
}

pub fn wrap_in(x: u32, lo: u32, hi: u32) -> (r: bool)
    ensures
        r == s_wrap_in(x as int, lo as int, hi as int),
{
    if lo <= hi {
        lo <= x && x <= hi
    } else {
        x >= lo || x <= hi
    }
}

/// `weekdayRange`: one weekday, or an inclusive wrap-around range of two.
pub open spec fn s_weekday_range(m: Moment, w1: u8, w2: Option<u8>) -> bool {
    match w2 {
        None => m.weekday == w1,
        Some(w2) => s_wrap_in(m.weekday as int, w1 as int, w2 as int),
    }
}

pub fn weekday_range(m: &Moment, w1: u8, w2: Option<u8>) -> (r: bool)
    ensures
        r == s_weekday_range(*m, w1, w2),
{
    match w2 {
        None => m.weekday == w1,
        Some(w2) => wrap_in(m.weekday as u32, w1 as u32, w2 as u32),
    }
}

/// Seconds since midnight.
pub open spec fn s_secs_of_day(h: int, mi: int, s: int) -> int {
    h * 3600 + mi * 60 + s
}

/// `timeRange`: one hour, an hour range, a minute range, or a second range,
/// each inclusive and wrapping around midnight.
pub open spec fn s_time_range(m: Moment, args: Seq<u8>) -> Option<bool> {
    if args.len() == 1 {
        Some(m.hour == args[0])
    } else if args.len() == 2 {
        Some(s_wrap_in(m.hour as int, args[0] as int, args[1] as int))
    } else if args.len() == 4 {
        Some(
            s_wrap_in(
                m.hour as int * 60 + m.minute as int,
                args[0] as int * 60 + args[1] as int,
                args[2] as int * 60 + args[3] as int,
            ),
        )
    } else if args.len() == 6 {
        Some(
            s_wrap_in(
                s_secs_of_day(m.hour as int, m.minute as int, m.second as int),
                s_secs_of_day(args[0] as int, args[1] as int, args[2] as int),
                s_secs_of_day(args[3] as int, args[4] as int, args[5] as int),
            ),
        )
    } else {
        None
    }
}

pub fn time_range(m: &Moment, args: &Vec<u8>) -> (r: Option<bool>)
    ensures
        r == s_time_range(*m, args@),
{
    if args.len() == 1 {
        Some(m.hour == args[0])
    } else if args.len() == 2 {
        Some(wrap_in(m.hour as u32, args[0] as u32, args[1] as u32))
    } else if args.len() == 4 {
        Some(
            wrap_in(
                m.hour as u32 * 60 + m.minute as u32,
                args[0] as u32 * 60 + args[1] as u32,
                args[2] as u32 * 60 + args[3] as u32,
            ),
        )
    } else if args.len() == 6 {
        Some(
            wrap_in(
                m.hour as u32 * 3600 + m.minute as u32 * 60 + m.second as u32,
                args[0] as u32 * 3600 + args[1] as u32 * 60 + args[2] as u32,
                args[3] as u32 * 3600 + args[4] as u32 * 60 + args[5] as u32,
            ),
        )
    } else {
        None
    }
}

/// The kinds of `dateRange` bounds this engine accepts: a day of the month,
/// a named month, or a year, uniformly one value or a range of two.
#[derive(Clone, Copy, PartialEq, Eq, Structural, Debug)]
pub enum DateField {
    Day,
    Month,
    Year,
}

pub open spec fn s_date_part(m: Moment, f: DateField) -> int {
    match f {
        DateField::Day => m.day as int,
        DateField::Month => m.month as int,
        DateField::Year => m.year as int,
    }
}

/// `dateRange` on one field: a single value, or an inclusive wrap-around
/// range of two values of the same field.
pub open spec fn s_date_range(m: Moment, f: DateField, lo: u16, hi: Option<u16>) -> bool {
    match hi {
        None => s_date_part(m, f) == lo as int,
        Some(hi) => s_wrap_in(s_date_part(m, f), lo as int, hi as int),
    }
}

pub fn date_range(m: &Moment, f: DateField, lo: u16, hi: Option<u16>) -> (r: bool)
    ensures
        r == s_date_range(*m, f, lo, hi),
{
    let part: u32 = match f {
        DateField::Day => m.day as u32,
        DateField::Month => m.month as u32,
        DateField::Year => m.year as u32,
    };
    match hi {
        None => part == lo as u32,
        Some(hi) => wrap_in(part, lo as u32, hi as u32),
    }
}

/// The weekday a PAC name denotes, `"SUN"` through `"SAT"`.
pub open spec fn s_weekday_num(s: Seq<char>) -> Option<u8> {
    if seq_eq_ci(s, "SUN"@) {
        Some(0u8)
    } else if seq_eq_ci(s, "MON"@) {
        Some(1u8)
    } else if seq_eq_ci(s, "TUE"@) {
        Some(2u8)
    } else if seq_eq_ci(s, "WED"@) {
        Some(3u8)
    } else if seq_eq_ci(s, "THU"@) {
        Some(4u8)
    } else if seq_eq_ci(s, "FRI"@) {
        Some(5u8)
    } else if seq_eq_ci(s, "SAT"@) {
        Some(6u8)
    } else {
        None
    }
}

pub fn weekday_num(s: &Vec<char>) -> (r: Option<u8>)
    ensures
        r == s_weekday_num(s@),
{
    if eq_ignore_case(s, &str_to_chars("SUN")) {
        Some(0)
    } else if eq_ignore_case(s, &str_to_chars("MON")) {
        Some(1)
    } else if eq_ignore_case(s, &str_to_chars("TUE")) {
        Some(2)
    } else if eq_ignore_case(s, &str_to_chars("WED")) {
        Some(3)
    } else if eq_ignore_case(s, &str_to_chars("THU")) {
        Some(4)
    } else if eq_ignore_case(s, &str_to_chars("FRI")) {
        Some(5)
    } else if eq_ignore_case(s, &str_to_chars("SAT")) {
        Some(6)
    } else {
        None
    }
}

/// The month a PAC name denotes, `"JAN"` through `"DEC"`, one-based.
pub open spec fn s_month_num(s: Seq<char>) -> Option<u8> {
    if seq_eq_ci(s, "JAN"@) {
        Some(1u8)
    } else if seq_eq_ci(s, "FEB"@) {
        Some(2u8)
    } else if seq_eq_ci(s, "MAR"@) {
        Some(3u8)
    } else if seq_eq_ci(s, "APR"@) {
        Some(4u8)
    } else if seq_eq_ci(s, "MAY"@) {
        Some(5u8)
    } else if seq_eq_ci(s, "JUN"@) {
        Some(6u8)
    } else if seq_eq_ci(s, "JUL"@) {
        Some(7u8)
    } else if seq_eq_ci(s, "AUG"@) {
        Some(8u8)
    } else if seq_eq_ci(s, "SEP"@) {
        Some(9u8)
    } else if seq_eq_ci(s, "OCT"@) {
        Some(10u8)
    } else if seq_eq_ci(s, "NOV"@) {
        Some(11u8)
    } else if seq_eq_ci(s, "DEC"@) {
        Some(12u8)
    } else {
        None
    }
}

pub fn month_num(s: &Vec<char>) -> (r: Option<u8>)
    ensures
        r == s_month_num(s@),
{
    if eq_ignore_case(s, &str_to_chars("JAN")) {
        Some(1)
    } else if eq_ignore_case(s, &str_to_chars("FEB")) {
        Some(2)
    } else if eq_ignore_case(s, &str_to_chars("MAR")) {
        Some(3)
    } else if eq_ignore_case(s, &str_to_chars("APR")) {
        Some(4)
    } else if eq_ignore_case(s, &str_to_chars("MAY")) {
        Some(5)
    } else if eq_ignore_case(s, &str_to_chars("JUN")) {
        Some(6)
    } else if eq_ignore_case(s, &str_to_chars("JUL")) {
        Some(7)
    } else if eq_ignore_case(s, &str_to_chars("AUG")) {
        Some(8)
    } else if eq_ignore_case(s, &str_to_chars("SEP")) {
        Some(9)
    } else if eq_ignore_case(s, &str_to_chars("OCT")) {
        Some(10)
    } else if eq_ignore_case(s, &str_to_chars("NOV")) {
        Some(11)
    } else if eq_ignore_case(s, &str_to_chars("DEC")) {
        Some(12)
    } else {
        None
    }
}

/// The `"GMT"` flag that selects the GMT snapshot over the local one.
pub open spec fn s_is_gmt_flag(s: Seq<char>) -> bool {
    seq_eq_ci(s, "GMT"@)
}

pub fn is_gmt_flag(s: &Vec<char>) -> (r: bool)
    ensures
        r == s_is_gmt_flag(s@),
{
    eq_ignore_case(s, &str_to_chars("GMT"))
}

} // verus!
