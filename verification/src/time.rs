//! Wall-clock instants as read from the host time source: a whole
//! count of milliseconds since the epoch plus a sub-millisecond
//! remainder, compared lexicographically. Reading the clock itself is
//! a host service; this module only works with the values read.

use vstd::prelude::*;
use crate::numtext::{number_text, radix_text};
use crate::text::Text;

verus! {

/// An instant: whole milliseconds since the epoch and a nanosecond
/// remainder below one millisecond.
#[derive(Clone, Copy, PartialEq, Eq, Structural, Hash, Debug)]
pub struct SystemTime {
    pub unix_time: usize,
    pub ns_time: usize,
}

/// A non-negative distance between two instants, in whole
/// milliseconds; the sub-millisecond remainders do not contribute.
#[derive(Clone, Copy, PartialEq, Eq, Structural, Hash, Debug)]
pub struct TimeSpan {
    pub millis: usize,
}

/// The failure returned when a duration is asked of two instants in
/// the wrong order; it carries the distance by which they are
/// reversed.
#[derive(Debug)]
pub struct SystemTimeError(pub TimeSpan);

/// Lexicographic order on instants: whole milliseconds first, the
/// nanosecond remainder as tie breaker.
pub open spec fn time_le(a: SystemTime, b: SystemTime) -> bool {
    a.unix_time < b.unix_time || (a.unix_time == b.unix_time && a.ns_time <= b.ns_time)
}

pub open spec fn time_lt(a: SystemTime, b: SystemTime) -> bool {
    time_le(a, b) && a != b
}

impl SystemTime {
    /// Whether `self` is no later than `other`, lexicographically.
    pub fn le(&self, other: &SystemTime) -> (r: bool)
        ensures
            r == time_le(*self, *other),
    {
        self.unix_time < other.unix_time || (self.unix_time == other.unix_time && self.ns_time
            <= other.ns_time)
    }

    /// The distance from `earlier` to `self`, or the failure carrying
    /// the reverse distance when `self` comes first.
    pub fn duration_since(&self, earlier: &SystemTime) -> (r: Result<TimeSpan, SystemTimeError>)
        ensures
            time_lt(*self, *earlier) ==> (r matches Err(e) && e.0.millis == earlier.unix_time
                - self.unix_time),
            !time_lt(*self, *earlier) ==> r == Ok::<TimeSpan, SystemTimeError>(
                TimeSpan { millis: (self.unix_time - earlier.unix_time) as usize },
            ),
    {
        if self.unix_time < earlier.unix_time || (self.unix_time == earlier.unix_time
            && self.ns_time < earlier.ns_time) {
            Err(SystemTimeError(TimeSpan { millis: earlier.unix_time - self.unix_time }))
        } else {
            Ok(TimeSpan { millis: self.unix_time - earlier.unix_time })
        }
    }

    /// The distance from `self` to `now`, a clock value the caller
    /// read from the host time source.
    pub fn elapsed(&self, now: &SystemTime) -> (r: Result<TimeSpan, SystemTimeError>)
        ensures
            time_lt(*now, *self) ==> (r matches Err(e) && e.0.millis == self.unix_time
                - now.unix_time),
            !time_lt(*now, *self) ==> r == Ok::<TimeSpan, SystemTimeError>(
                TimeSpan { millis: (now.unix_time - self.unix_time) as usize },
            ),
    {
        now.duration_since(self)
    }

    /// Renders the instant as a bracketed date and time-of-day label.
    #[verifier::rlimit(30)]
    pub fn to_label(&self) -> (t: Text)
        ensures
            t@ == time_label(self.unix_time as nat),
    {
        let ms = self.unix_time as u128;
        proof {
            vstd::arithmetic::div_mod::lemma_div_nonincreasing(ms as int, FOUR_YEAR_MS as int);
            vstd::arithmetic::div_mod::lemma_mod_bound(ms as int, FOUR_YEAR_MS as int);
        }
        let four_years: u128 = ms / FOUR_YEAR_MS;
        let rest0: u128 = ms % FOUR_YEAR_MS;
        let year: u128 = 1970 + 4 * four_years + (if rest0 < 59 * DAY_MS {
            0
        } else {
            (rest0 - DAY_MS) / YEAR_MS
        });
        let rest: u128 = if rest0 < 59 * DAY_MS {
            rest0
        } else {
            rest0 - DAY_MS
        };
        proof {
            vstd::arithmetic::div_mod::lemma_mod_bound(rest as int, YEAR_MS as int);
        }
        let in_year: u128 = rest % YEAR_MS;
        let month: u128 = month_of_ms(in_year);
        let in_month: u128 = in_year - month_start_ms(month);
        let day: u128 = in_month / DAY_MS + 1;
        let in_day: u128 = in_month % DAY_MS;
        let hour: u128 = in_day / HOUR_MS;
        let in_hour: u128 = in_day % HOUR_MS;
        let minute: u128 = in_hour / MINUTE_MS;
        let in_minute: u128 = in_hour % MINUTE_MS;
        let second: u128 = in_minute / 1000;
        let milli: u128 = in_minute % 1000;

        proof {
            reveal_strlit("[ ");
        }
        let mut out = Text::from_str("[ ");
        out.append(radix_text(year, 10, true));
        out.push('-');
        out.append(radix_text(month, 10, true));
        out.push('-');
        out.append(radix_text(day, 10, true));
        out.push(' ');
        out.append(radix_text(hour, 10, true));
        out.push(':');
        out.append(radix_text(minute, 10, true));
        out.push(':');
        out.append(radix_text(second, 10, true));
        out.push('.');
        out.append(radix_text(milli, 10, true));
        out.push(' ');
        out.push(']');
        proof {
            assert(out@ =~= time_label(self.unix_time as nat));
        }
        out
    }
}

pub const DAY_MS: u128 = 86400000;

pub const YEAR_MS: u128 = 31536000000;

pub const FOUR_YEAR_MS: u128 = 126230400000;

pub const HOUR_MS: u128 = 3600000;

pub const MINUTE_MS: u128 = 60000;

/// Milliseconds from the start of a non-leap year to the first moment
/// of the given month.
pub open spec fn spec_month_start_ms(month: int) -> int {
    (if month <= 1 {
        0int
    } else if month == 2 {
        31
    } else if month == 3 {
        59
    } else if month == 4 {
        90
    } else if month == 5 {
        120
    } else if month == 6 {
        151
    } else if month == 7 {
        181
    } else if month == 8 {
        212
    } else if month == 9 {
        243
    } else if month == 10 {
        273
    } else if month == 11 {
        304
    } else {
        334
    }) * 86400000
}

/// The month, one through twelve, whose span of a non-leap year
/// contains the given millisecond offset.
pub open spec fn spec_month_of_ms(in_year: int) -> int {
    if in_year < spec_month_start_ms(2) {
        1
    } else if in_year < spec_month_start_ms(3) {
        2
    } else if in_year < spec_month_start_ms(4) {
        3
    } else if in_year < spec_month_start_ms(5) {
        4
    } else if in_year < spec_month_start_ms(6) {
        5
    } else if in_year < spec_month_start_ms(7) {
        6
    } else if in_year < spec_month_start_ms(8) {
        7
    } else if in_year < spec_month_start_ms(9) {
        8
    } else if in_year < spec_month_start_ms(10) {
        9
    } else if in_year < spec_month_start_ms(11) {
        10
    } else if in_year < spec_month_start_ms(12) {
        11
    } else {
        12
    }
}

fn month_start_ms(month: u128) -> (r: u128)
    requires
        1 <= month <= 12,
    ensures
        r == spec_month_start_ms(month as int),
{
    let days: u128 = if month <= 1 {
        0
    } else if month == 2 {
        31
    } else if month == 3 {
        59
    } else if month == 4 {
        90
    } else if month == 5 {
        120
    } else if month == 6 {
        151
    } else if month == 7 {
        181
    } else if month == 8 {
        212
    } else if month == 9 {
        243
    } else if month == 10 {
        273
    } else if month == 11 {
        304
    } else {
        334
    };
    days * 86400000
}

fn month_of_ms(in_year: u128) -> (r: u128)
    requires
        in_year < YEAR_MS,
    ensures
        r == spec_month_of_ms(in_year as int),
        1 <= r <= 12,
        spec_month_start_ms(r as int) <= in_year,
{
    if in_year < 31 * DAY_MS {
        1
    } else if in_year < 59 * DAY_MS {
        2
    } else if in_year < 90 * DAY_MS {
        3
    } else if in_year < 120 * DAY_MS {
        4
    } else if in_year < 151 * DAY_MS {
        5
    } else if in_year < 181 * DAY_MS {
        6
    } else if in_year < 212 * DAY_MS {
        7
    } else if in_year < 243 * DAY_MS {
        8
    } else if in_year < 273 * DAY_MS {
        9
    } else if in_year < 304 * DAY_MS {
        10
    } else if in_year < 334 * DAY_MS {
        11
    } else {
        12
    }
}

/// The calendar fields read off a millisecond count by the four-year
/// cycle scheme: years come in blocks of four (one leap day per
/// block), months follow the non-leap lengths.
pub open spec fn spec_year_of(t: int) -> int {
    let fy = FOUR_YEAR_MS as int;
    let day = DAY_MS as int;
    let yr = YEAR_MS as int;
    1970 + 4 * (t / fy) + (if t % fy < 59 * day {
        0
    } else {
        (t % fy - day) / yr
    })
}

pub open spec fn spec_in_year_of(t: int) -> int {
    let fy = FOUR_YEAR_MS as int;
    let day = DAY_MS as int;
    let yr = YEAR_MS as int;
    (if t % fy < 59 * day {
        t % fy
    } else {
        t % fy - day
    }) % yr
}

pub open spec fn spec_in_month_of(t: int) -> int {
    spec_in_year_of(t) - spec_month_start_ms(spec_month_of_ms(spec_in_year_of(t)))
}

/// A timestamp's bracketed label: year, month, day, then hour, minute,
/// second and millisecond, each in decimal.
pub open spec fn time_label(t: nat) -> Seq<char> {
    let day = DAY_MS as int;
    let hour = HOUR_MS as int;
    let minute = MINUTE_MS as int;
    let in_month = spec_in_month_of(t as int);
    let in_day = in_month % day;
    let in_hour = in_day % hour;
    let in_minute = in_hour % minute;
    "[ "@ + dec_label(spec_year_of(t as int) as nat) + seq!['-'] + dec_label(
        spec_month_of_ms(spec_in_year_of(t as int)) as nat,
    ) + seq!['-'] + dec_label((in_month / day + 1) as nat) + seq![' '] + dec_label(
        (in_day / hour) as nat,
    ) + seq![':'] + dec_label((in_hour / minute) as nat) + seq![':'] + dec_label(
        (in_minute / 1000) as nat,
    ) + seq!['.'] + dec_label((in_minute % 1000) as nat) + seq![' ', ']']
}

/// Decimal rendering with zero written as `0`.
pub open spec fn dec_label(n: nat) -> Seq<char> {
    number_text(n, 10, true)
}

} // verus!
