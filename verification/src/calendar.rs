//! The proleptic Gregorian calendar and its mapping to seconds counted from
//! 1970-01-01T00:00:00 UTC.

use vstd::arithmetic::div_mod::{
    lemma_fundamental_div_mod,
    lemma_fundamental_div_mod_converse,
    lemma_hoist_over_denominator,
    lemma_mod_bound,
    lemma_mod_multiples_vanish,
};
use vstd::prelude::*;

verus! {

/// The first second that lies beyond the years a 32-bit year can name.
pub const SECONDS_END: i64 = 67767976233532800;

/// The first second of the earliest year a 32-bit year can name.
pub const SECONDS_START: i64 = -67768100567971200;

/// Whether `year` is a leap year: divisible by 4 but not by 100, or
/// divisible by 400.
#[verifier::opaque]
pub open spec fn is_leap_year(year: int) -> bool {
    (year % 4 == 0 && year % 100 != 0) || year % 400 == 0
}

/// Number of days in `year`.
pub open spec fn days_in_year(year: int) -> int {
    if is_leap_year(year) {
        366
    } else {
        365
    }
}

/// Number of leap years among the years up to and including `year`, counted
/// from a fixed origin (only differences of this count are meaningful).
#[verifier::opaque]
pub open spec fn leap_count(year: int) -> int {
    year / 4 - year / 100 + year / 400
}

/// Days from 1970-01-01 to the first day of `year` (negative before 1970).
pub open spec fn days_before_year(year: int) -> int {
    365 * (year - 1970) + leap_count(year - 1) - leap_count(1969)
}

/// Number of days in `month` (1 to 12) of `year`; 0 for any other month.
pub open spec fn days_in_month(year: int, month: int) -> int {
    if month == 2 {
        if is_leap_year(year) {
            29
        } else {
            28
        }
    } else if month == 4 || month == 6 || month == 9 || month == 11 {
        30
    } else if 1 <= month <= 12 {
        31
    } else {
        0
    }
}

/// Days from the first day of `year` to the first day of `month`: the sum of
/// the lengths of the months before it.
pub open spec fn days_before_month(year: int, month: int) -> int
    decreases month,
{
    if month <= 1 {
        0
    } else {
        days_before_month(year, month - 1) + days_in_month(year, month - 1)
    }
}

/// Days from 1970-01-01 to the given day.
pub open spec fn days_from_epoch(year: int, month: int, day: int) -> int {
    days_before_year(year) + days_before_month(year, month) + day - 1
}

/// Seconds from 1970-01-01T00:00:00 to the given date and time.
pub open spec fn epoch_seconds(
    year: int,
    month: int,
    day: int,
    hour: int,
    minute: int,
    second: int,
) -> int {
    days_from_epoch(year, month, day) * 86400 + hour * 3600 + minute * 60 + second
}

/// Whether the six numbers name a date and time of the calendar.
pub open spec fn is_civil(
    year: int,
    month: int,
    day: int,
    hour: int,
    minute: int,
    second: int,
) -> bool {
    &&& 1 <= month <= 12
    &&& 1 <= day <= days_in_month(year, month)
    &&& 0 <= hour < 24
    &&& 0 <= minute < 60
    &&& 0 <= second < 60
}

/// The table of days before each month in a common year, and one day more
/// from March on in a leap year.
pub proof fn lemma_days_before_month(year: int, month: int)
    requires
        1 <= month <= 13,
    ensures
        days_before_month(year, month) == (if month == 1 {
            0int
        } else if month == 2 {
            31
        } else if month == 3 {
            59
        } else if month == 4 {
            90
        } else if month == 5 {
            120
        } else if month == 6 {
            151
        } else if month == 7 {
            181
        } else if month == 8 {
            212
        } else if month == 9 {
            243
        } else if month == 10 {
            273
        } else if month == 11 {
            304
        } else if month == 12 {
            334
        } else {
            365
        }) + (if month > 2 && is_leap_year(year) {
            1int
        } else {
            0
        }),
{
    reveal_with_fuel(days_before_month, 14);
}

/// Decides whether `year` is a leap year.
pub fn leap_year(year: i32) -> (r: bool)
    ensures
        r == is_leap_year(year as int),
{
    // Shifting by a multiple of 400 years keeps every dividend positive.
    let shifted: i64 = year as i64 + 2147484000;
    proof {
        reveal(is_leap_year);
        lemma_mod_multiples_vanish(536871000, year as int, 4);
        lemma_mod_multiples_vanish(21474840, year as int, 100);
        lemma_mod_multiples_vanish(5368710, year as int, 400);
    }
    (shifted % 4 == 0 && shifted % 100 != 0) || shifted % 400 == 0
}

/// Days from 1970-01-01 to the first day of `year`.
pub fn year_start(year: i32) -> (days: i64)
    ensures
        days == days_before_year(year as int),
        -784353015833 <= days <= 784351576412,
{
    // Shifting by a multiple of 400 years keeps every dividend positive.
    let shifted: i64 = (year as i64 - 1) + 2147484000;
    proof {
        reveal(leap_count);
        let last = year as int - 1;
        lemma_hoist_over_denominator(last, 536871000, 4);
        lemma_hoist_over_denominator(last, 21474840, 100);
        lemma_hoist_over_denominator(last, 5368710, 400);
        assert(shifted / 4 == last / 4 + 536871000);
        assert(shifted / 100 == last / 100 + 21474840);
        assert(shifted / 400 == last / 400 + 5368710);
    }
    let leaps: i64 = (shifted / 4 - 536871000) - (shifted / 100 - 21474840) + (shifted / 400
        - 5368710);
    365 * (year as i64 - 1970) + leaps - 477
}

/// Days from the first day of `year` to the first day of `month`.
pub fn month_start(year: i32, month: u32) -> (days: i64)
    requires
        1 <= month <= 12,
    ensures
        days == days_before_month(year as int, month as int),
        0 <= days <= 335,
{
    proof {
        lemma_days_before_month(year as int, month as int);
    }
    let common: i64 = if month == 1 {
        0
    } else if month == 2 {
        31
    } else if month == 3 {
        59
    } else if month == 4 {
        90
    } else if month == 5 {
        120
    } else if month == 6 {
        151
    } else if month == 7 {
        181
    } else if month == 8 {
        212
    } else if month == 9 {
        243
    } else if month == 10 {
        273
    } else if month == 11 {
        304
    } else {
        334
    };
    if month > 2 && leap_year(year) {
        common + 1
    } else {
        common
    }
}

/// Converts a date and time to seconds counted from 1970-01-01T00:00:00.
///
/// The day and the time fields are taken as plain offsets, so a day beyond
/// the month's end, or an hour beyond 23, runs on into what follows.
pub fn date_to_seconds(
    year: i32,
    month: u32,
    day: u32,
    hour: u32,
    minute: u32,
    second: u32,
) -> (secs: i64)
    requires
        1 <= month <= 12,
    ensures
        secs == epoch_seconds(
            year as int,
            month as int,
            day as int,
            hour as int,
            minute as int,
            second as int,
        ),
        -70000000000000000 < secs < 70000000000000000,
{
    let days: i64 = year_start(year) + month_start(year, month) + (day as i64 - 1);
    days * 86400 + hour as i64 * 3600 + minute as i64 * 60 + second as i64
}

/// Each year starts as many days after the year before it as that year is
/// long.
pub proof fn lemma_year_step(year: int)
    ensures
        days_before_year(year + 1) == days_before_year(year) + days_in_year(year),
{
    reveal(is_leap_year);
    reveal(leap_count);
    lemma_div_step(year, 4);
    lemma_div_step(year, 100);
    lemma_div_step(year, 400);
    lemma_multiple(year, 100, 4);
    lemma_multiple(year, 4, 25);
    let by4 = year % 4 == 0;
    let by100 = year % 100 == 0;
    let by400 = year % 400 == 0;
    assert(by400 ==> by100);
    assert(by100 ==> by4);
    assert(is_leap_year(year) == ((by4 && !by100) || by400));
    assert(leap_count(year) - leap_count(year - 1) == (if is_leap_year(year) {
        1int
    } else {
        0
    }));
}

/// What a product of two numbers divides is divided by the first of them.
proof fn lemma_multiple(x: int, small: int, times: int)
    requires
        small > 0,
        times > 0,
    ensures
        x % (small * times) == 0 ==> x % small == 0,
{
    let big = small * times;
    assert(big > 0) by (nonlinear_arith)
        requires
            big == small * times,
            small > 0,
            times > 0,
    ;
    if x % big == 0 {
        lemma_fundamental_div_mod(x, big);
        let q = x / big;
        assert(x == (times * q) * small + 0) by (nonlinear_arith)
            requires
                x == big * q + 0,
                big == small * times,
        ;
        lemma_fundamental_div_mod_converse(x, small, times * q, 0);
    }
}

proof fn lemma_div_step(x: int, d: int)
    requires
        d > 0,
    ensures
        x / d - (x - 1) / d == (if x % d == 0 {
            1int
        } else {
            0
        }),
{
    lemma_fundamental_div_mod(x, d);
    lemma_fundamental_div_mod(x - 1, d);
    let q = x / d;
    let r = x % d;
    assert(0 <= r < d) by {
        lemma_mod_bound(x, d);
    }
    if r == 0 {
        assert(x - 1 == (q - 1) * d + (d - 1)) by (nonlinear_arith)
            requires
                x == d * q + r,
                r == 0,
        ;
        lemma_fundamental_div_mod_converse(x - 1, d, q - 1, d - 1);
    } else {
        assert(x - 1 == q * d + (r - 1)) by (nonlinear_arith)
            requires
                x == d * q + r,
        ;
        lemma_fundamental_div_mod_converse(x - 1, d, q, r - 1);
    }
}

/// The year 1970 starts on day 0, and the years that a 32-bit year can name
/// start and end where `SECONDS_START` and `SECONDS_END` say.
pub proof fn lemma_range_ends()
    ensures
        days_before_year(1970) == 0,
        days_before_year(-2147483648) == -784353015833,
        days_before_year(2147483648) == 784351576777,
        days_before_year(-2147483648) * 86400 == SECONDS_START,
        days_before_year(2147483648) * 86400 == SECONDS_END,
{
    reveal(leap_count);
}

/// Later years start on later days.
pub proof fn lemma_year_start_monotone(a: int, b: int)
    requires
        a <= b,
    ensures
        days_before_year(a) <= days_before_year(b),
        days_before_year(b) - days_before_year(a) >= 365 * (b - a),
    decreases b - a,
{
    if a < b {
        lemma_year_start_monotone(a, b - 1);
        lemma_year_step(b - 1);
    }
}

/// Number of days in `year`.
pub fn year_length(year: i32) -> (days: i64)
    ensures
        days == days_in_year(year as int),
{
    if leap_year(year) {
        366
    } else {
        365
    }
}

/// Number of days in `month` of `year`.
pub fn month_length(year: i32, month: u32) -> (days: i64)
    ensures
        days == days_in_month(year as int, month as int),
{
    if month == 2 {
        if leap_year(year) {
            29
        } else {
            28
        }
    } else if month == 4 || month == 6 || month == 9 || month == 11 {
        30
    } else if 1 <= month && month <= 12 {
        31
    } else {
        0
    }
}

/// Converts seconds counted from 1970-01-01T00:00:00 to the date and time
/// they fall on, as (year, month, day, hour, minute, second).
///
/// The result is the one date and time of the calendar that
/// [`date_to_seconds`] maps back to `secs`.
pub fn seconds_to_date(secs: i64) -> (r: (i32, u32, u32, u32, u32, u32))
    requires
        SECONDS_START <= secs < SECONDS_END,
    ensures
        is_civil(r.0 as int, r.1 as int, r.2 as int, r.3 as int, r.4 as int, r.5 as int),
        epoch_seconds(r.0 as int, r.1 as int, r.2 as int, r.3 as int, r.4 as int, r.5 as int)
            == secs,
{
    let mut days: i64 = secs / 86400;
    let mut of_day: i64 = secs % 86400;
    if of_day < 0 {
        of_day = of_day + 86400;
        days = days - 1;
    }
    assert(secs == days * 86400 + of_day && 0 <= of_day < 86400);
    let hour: u32 = (of_day / 3600) as u32;
    let minute: u32 = ((of_day % 3600) / 60) as u32;
    let second: u32 = (of_day % 60) as u32;

    let mut year: i32 = 1970;
    let mut rest: i64 = days;
    let mut len: i64 = year_length(year);
    proof {
        lemma_range_ends();
    }
    while rest >= len
        invariant
            rest == days - days_before_year(year as int),
            len == days_in_year(year as int),
            year >= 1970,
            days < 784351576777,
        decreases rest,
    {
        proof {
            lemma_year_step(year as int);
            lemma_range_ends();
        }
        rest = rest - len;
        year = year + 1;
        len = year_length(year);
    }
    while rest < 0
        invariant
            rest == days - days_before_year(year as int),
            len == days_in_year(year as int),
            rest < len,
            days >= -784353015833,
        decreases year as int + 2147483648,
    {
        proof {
            lemma_year_step(year as int - 1);
            lemma_range_ends();
        }
        year = year - 1;
        len = year_length(year);
        rest = rest + len;
    }

    let mut month: u32 = 1;
    let mut day: i64 = rest + 1;
    let mut span: i64 = month_length(year, month);
    while day > span
        invariant
            1 <= month <= 12,
            0 <= rest < days_in_year(year as int),
            day == rest + 1 - days_before_month(year as int, month as int),
            day >= 1,
            span == days_in_month(year as int, month as int),
        decreases 12 - month,
    {
        proof {
            lemma_days_before_month(year as int, month as int);
            lemma_days_before_month(year as int, month as int + 1);
        }
        day = day - span;
        month = month + 1;
        span = month_length(year, month);
    }
    (year, month, day as u32, hour, minute, second)
}

/// A day of the calendar lies within its year.
pub proof fn lemma_day_of_year_bound(year: int, month: int, day: int)
    requires
        1 <= month <= 12,
        1 <= day <= days_in_month(year, month),
    ensures
        0 <= days_before_month(year, month) + day - 1 < days_in_year(year),
{
    lemma_days_before_month(year, month);
}

/// Two dates of the calendar that lie equally many days from 1970-01-01 are
/// the same date.
pub proof fn lemma_days_from_epoch_injective(
    year1: int,
    month1: int,
    day1: int,
    year2: int,
    month2: int,
    day2: int,
)
    requires
        1 <= month1 <= 12,
        1 <= day1 <= days_in_month(year1, month1),
        1 <= month2 <= 12,
        1 <= day2 <= days_in_month(year2, month2),
        days_from_epoch(year1, month1, day1) == days_from_epoch(year2, month2, day2),
    ensures
        year1 == year2,
        month1 == month2,
        day1 == day2,
{
    lemma_day_of_year_bound(year1, month1, day1);
    lemma_day_of_year_bound(year2, month2, day2);
    if year1 < year2 {
        lemma_year_step(year1);
        lemma_year_start_monotone(year1 + 1, year2);
    } else if year2 < year1 {
        lemma_year_step(year2);
        lemma_year_start_monotone(year2 + 1, year1);
    }
    assert(year1 == year2);
    lemma_days_before_month(year1, month1);
    lemma_days_before_month(year1, month2);
    if month1 < month2 {
        lemma_days_before_month(year1, month1 + 1);
        lemma_month_start_monotone(year1, month1 + 1, month2);
    } else if month2 < month1 {
        lemma_days_before_month(year1, month2 + 1);
        lemma_month_start_monotone(year1, month2 + 1, month1);
    }
}

/// Later months start on later days of the year.
pub proof fn lemma_month_start_monotone(year: int, a: int, b: int)
    requires
        1 <= a <= b <= 13,
    ensures
        days_before_month(year, a) <= days_before_month(year, b),
{
    lemma_days_before_month(year, a);
    lemma_days_before_month(year, b);
}

/// Two dates and times of the calendar that lie equally many seconds from
/// 1970-01-01T00:00:00 agree in every field: the conversion to seconds loses
/// nothing.
pub proof fn lemma_epoch_seconds_injective(
    year1: int,
    month1: int,
    day1: int,
    hour1: int,
    minute1: int,
    second1: int,
    year2: int,
    month2: int,
    day2: int,
    hour2: int,
    minute2: int,
    second2: int,
)
    requires
        is_civil(year1, month1, day1, hour1, minute1, second1),
        is_civil(year2, month2, day2, hour2, minute2, second2),
        epoch_seconds(year1, month1, day1, hour1, minute1, second1) == epoch_seconds(
            year2,
            month2,
            day2,
            hour2,
            minute2,
            second2,
        ),
    ensures
        year1 == year2,
        month1 == month2,
        day1 == day2,
        hour1 == hour2,
        minute1 == minute2,
        second1 == second2,
{
    let of_day1 = hour1 * 3600 + minute1 * 60 + second1;
    let of_day2 = hour2 * 3600 + minute2 * 60 + second2;
    assert(0 <= of_day1 < 86400 && 0 <= of_day2 < 86400);
    assert(days_from_epoch(year1, month1, day1) == days_from_epoch(year2, month2, day2));
    assert(of_day1 == of_day2);
    assert(hour1 == hour2);
    assert(minute1 == minute2);
    lemma_days_from_epoch_injective(year1, month1, day1, year2, month2, day2);
}

/// Every day lies in a year: the year found starts on or before the day,
/// and the next year starts after it.
pub proof fn lemma_year_exists(days: int) -> (year: int)
    ensures
        days_before_year(year) <= days < days_before_year(year + 1),
    decreases
            if days >= 0 {
                days
            } else {
                -days
            },
{
    if days == 0 {
        lemma_range_ends();
        lemma_year_step(1970);
        1970
    } else if days > 0 {
        let near = lemma_year_exists(days - 1);
        lemma_year_step(near + 1);
        if days < days_before_year(near + 1) {
            near
        } else {
            near + 1
        }
    } else {
        let near = lemma_year_exists(days + 1);
        lemma_year_step(near - 1);
        if days >= days_before_year(near) {
            near
        } else {
            near - 1
        }
    }
}

/// Every day of a year lies in a month: the month found starts on or before
/// the day, and ends after it.
pub proof fn lemma_month_exists(year: int, day_of_year: int) -> (month: int)
    requires
        0 <= day_of_year < days_in_year(year),
    ensures
        1 <= month <= 12,
        days_before_month(year, month) <= day_of_year < days_before_month(year, month)
            + days_in_month(year, month),
{
    lemma_days_before_month(year, 1);
    lemma_days_before_month(year, 2);
    lemma_days_before_month(year, 3);
    lemma_days_before_month(year, 4);
    lemma_days_before_month(year, 5);
    lemma_days_before_month(year, 6);
    lemma_days_before_month(year, 7);
    lemma_days_before_month(year, 8);
    lemma_days_before_month(year, 9);
    lemma_days_before_month(year, 10);
    lemma_days_before_month(year, 11);
    lemma_days_before_month(year, 12);
    if day_of_year < days_before_month(year, 2) {
        1
    } else if day_of_year < days_before_month(year, 3) {
        2
    } else if day_of_year < days_before_month(year, 4) {
        3
    } else if day_of_year < days_before_month(year, 5) {
        4
    } else if day_of_year < days_before_month(year, 6) {
        5
    } else if day_of_year < days_before_month(year, 7) {
        6
    } else if day_of_year < days_before_month(year, 8) {
        7
    } else if day_of_year < days_before_month(year, 9) {
        8
    } else if day_of_year < days_before_month(year, 10) {
        9
    } else if day_of_year < days_before_month(year, 11) {
        10
    } else if day_of_year < days_before_month(year, 12) {
        11
    } else {
        12
    }
}

/// Every count of seconds falls on a date and time of the calendar: the one
/// found lies that many seconds from 1970-01-01T00:00:00.
pub proof fn lemma_civil_exists(secs: int) -> (r: (int, int, int, int, int, int))
    ensures
        is_civil(r.0, r.1, r.2, r.3, r.4, r.5),
        epoch_seconds(r.0, r.1, r.2, r.3, r.4, r.5) == secs,
{
    let days = secs / 86400;
    let of_day = secs % 86400;
    let year = lemma_year_exists(days);
    let day_of_year = days - days_before_year(year);
    lemma_year_step(year);
    let month = lemma_month_exists(year, day_of_year);
    let day = day_of_year - days_before_month(year, month) + 1;
    (year, month, day, of_day / 3600, (of_day % 3600) / 60, of_day % 60)
}

/// A date of the calendar lies in the year that its count of days lies in:
/// where the count is below the start of `limit`, so is the year, and where
/// it is at least the start of `limit`, so is the year.
pub proof fn lemma_year_of_days(year: int, month: int, day: int, limit: int)
    requires
        1 <= month <= 12,
        1 <= day <= days_in_month(year, month),
    ensures
        days_from_epoch(year, month, day) < days_before_year(limit) ==> year < limit,
        days_from_epoch(year, month, day) >= days_before_year(limit) ==> year >= limit,
{
    lemma_day_of_year_bound(year, month, day);
    if year >= limit {
        lemma_year_start_monotone(limit, year);
    } else {
        lemma_year_step(year);
        lemma_year_start_monotone(year + 1, limit);
    }
}

} // verus!
