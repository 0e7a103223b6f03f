//! Dates with times, the difference between two of them, and the text that
//! shows a difference.

use crate::calendar::{
    date_to_seconds,
    epoch_seconds,
    is_civil,
    lemma_civil_exists,
    lemma_days_before_month,
    lemma_epoch_seconds_injective,
    lemma_range_ends,
    lemma_year_of_days,
    seconds_to_date,
    SECONDS_END,
    SECONDS_START,
};
use crate::clock::read_clock;
use crate::decimal::{parse_i32, parse_u32, push_signed, signed_text, signed_value, unsigned_value};
use crate::text::{
    chars_of,
    fields,
    is_word,
    lowercase,
    lowercase_of,
    owned,
    push_all,
    push_str,
    split,
    string_of,
    strings,
    texts,
};
use vstd::prelude::*;

verus! {

/// A date and a time of day.
#[derive(Debug, Clone, Copy, PartialEq, Eq, Structural)]
pub struct DateTime {
    pub year: i32,
    pub month: u32,
    pub day: u32,
    pub hour: u32,
    pub minute: u32,
    pub second: u32,
}

/// The date and time that lies `secs` seconds from 1970-01-01T00:00:00.
pub open spec fn date_at(secs: int) -> DateTime {
    choose|d: DateTime| d.is_civil() && d.seconds() == secs
}

impl DateTime {
    /// Whether the fields name a date and a time of the calendar.
    pub open spec fn is_civil(self) -> bool {
        is_civil(
            self.year as int,
            self.month as int,
            self.day as int,
            self.hour as int,
            self.minute as int,
            self.second as int,
        )
    }

    /// Seconds from 1970-01-01T00:00:00 to this date and time.
    pub open spec fn seconds(self) -> int {
        epoch_seconds(
            self.year as int,
            self.month as int,
            self.day as int,
            self.hour as int,
            self.minute as int,
            self.second as int,
        )
    }

    /// A date and time with the given fields.
    pub fn new(year: i32, month: u32, day: u32, hour: u32, minute: u32, second: u32) -> (r: Self)
        ensures
            r == (DateTime { year, month, day, hour, minute, second }),
    {
        DateTime { year, month, day, hour, minute, second }
    }

    /// Seconds from 1970-01-01T00:00:00 to this date and time.
    pub fn to_seconds(&self) -> (secs: i64)
        requires
            1 <= self.month <= 12,
        ensures
            secs == self.seconds(),
            -70000000000000000 < secs < 70000000000000000,
    {
        date_to_seconds(self.year, self.month, self.day, self.hour, self.minute, self.second)
    }

    /// The date and time that lies `secs` seconds from 1970-01-01T00:00:00.
    pub fn from_seconds(secs: i64) -> (r: Self)
        requires
            SECONDS_START <= secs < SECONDS_END,
        ensures
            r == date_at(secs as int),
            r.is_civil(),
            r.seconds() == secs,
    {
        let (year, month, day, hour, minute, second) = seconds_to_date(secs);
        let r = DateTime::new(year, month, day, hour, minute, second);
        proof {
            lemma_date_at(r);
        }
        r
    }
}

/// Turning a date and time of the calendar into seconds and back gives the
/// same date and time.
pub proof fn lemma_date_at(d: DateTime)
    requires
        d.is_civil(),
    ensures
        date_at(d.seconds()) == d,
{
    let c = date_at(d.seconds());
    assert(c.is_civil() && c.seconds() == d.seconds());
    lemma_epoch_seconds_injective(
        c.year as int,
        c.month as int,
        c.day as int,
        c.hour as int,
        c.minute as int,
        c.second as int,
        d.year as int,
        d.month as int,
        d.day as int,
        d.hour as int,
        d.minute as int,
        d.second as int,
    );
}

/// Turning seconds into a date and time and back gives the same seconds,
/// and the date and time is one of the calendar.
pub proof fn lemma_seconds_of_date_at(secs: int)
    requires
        SECONDS_START <= secs < SECONDS_END,
    ensures
        date_at(secs).is_civil(),
        date_at(secs).seconds() == secs,
{
    let found = lemma_civil_exists(secs);
    let (year, month, day, hour, minute, second) = found;
    lemma_range_ends();
    lemma_year_of_days(year, month, day, -2147483648);
    lemma_year_of_days(year, month, day, 2147483648);
    lemma_days_before_month(year, month);
    let d = DateTime {
        year: year as i32,
        month: month as u32,
        day: day as u32,
        hour: hour as u32,
        minute: minute as u32,
        second: second as u32,
    };
    assert(d.is_civil() && d.seconds() == secs);
}

/// A word that stands for a date relative to the present moment.
#[derive(Debug, Clone, Copy, PartialEq, Eq, Structural)]
pub enum Keyword {
    Now,
    Today,
    Yesterday,
    Tomorrow,
}

/// The date and time that `word` stands for when the clock reads `clock`
/// whole seconds since 1970-01-01T00:00:00: the present moment, or midnight
/// of the present, the previous or the next day. There is none where the
/// clock gave no reading, or where the date lies beyond the years that a
/// 32-bit year can name.
pub open spec fn keyword_date(word: Keyword, clock: Option<u64>) -> Option<DateTime> {
    match clock {
        Some(t) => {
            let midnight = t - t % 86400;
            if t >= SECONDS_END {
                None
            } else {
                match word {
                    Keyword::Now => Some(date_at(t as int)),
                    Keyword::Today => Some(date_at(midnight)),
                    Keyword::Yesterday => Some(date_at(midnight - 86400)),
                    Keyword::Tomorrow => if midnight + 86400 < SECONDS_END {
                        Some(date_at(midnight + 86400))
                    } else {
                        None
                    },
                }
            }
        },
        None => None,
    }
}

impl DateTime {
    /// The date and time that `word` stands for when the clock reads
    /// `clock`.
    pub fn at_keyword(word: Keyword, clock: Option<u64>) -> (r: Option<Self>)
        ensures
            r == keyword_date(word, clock),
            r matches Some(d) ==> d.is_civil(),
    {
        let t: u64 = match clock {
            Some(t) => t,
            None => {
                return None;
            },
        };
        if t >= SECONDS_END as u64 {
            return None;
        }
        let now = DateTime::from_seconds(t as i64);
        if let Keyword::Now = word {
            return Some(now);
        }
        let today = DateTime::new(now.year, now.month, now.day, 0, 0, 0);
        let midnight: i64 = today.to_seconds();
        proof {
            assert(midnight == t - t % 86400);
            lemma_date_at(today);
        }
        let timestamp: i64 = match word {
            Keyword::Yesterday => midnight - 86400,
            Keyword::Tomorrow => midnight + 86400,
            _ => {
                return Some(today);
            },
        };
        if timestamp >= SECONDS_END {
            return None;
        }
        let (year, month, day, _, _, _) = seconds_to_date(timestamp);
        let r = DateTime::new(year, month, day, 0, 0, 0);
        proof {
            lemma_date_at(r);
        }
        Some(r)
    }

    /// The present moment, or `None` where the clock cannot be read as a
    /// date.
    pub fn now() -> (r: Option<Self>)
        ensures
            exists|clock: Option<u64>| r == keyword_date(Keyword::Now, clock),
    {
        let clock = read_clock();
        let r = DateTime::at_keyword(Keyword::Now, clock);
        assert(r == keyword_date(Keyword::Now, clock));
        r
    }

    /// Midnight of the present day, or `None` where the clock cannot be read
    /// as a date.
    pub fn today() -> (r: Option<Self>)
        ensures
            exists|clock: Option<u64>| r == keyword_date(Keyword::Today, clock),
    {
        let clock = read_clock();
        let r = DateTime::at_keyword(Keyword::Today, clock);
        assert(r == keyword_date(Keyword::Today, clock));
        r
    }

    /// Midnight of the day before the present one, or `None` where the clock
    /// cannot be read as a date.
    pub fn yesterday() -> (r: Option<Self>)
        ensures
            exists|clock: Option<u64>| r == keyword_date(Keyword::Yesterday, clock),
    {
        let clock = read_clock();
        let r = DateTime::at_keyword(Keyword::Yesterday, clock);
        assert(r == keyword_date(Keyword::Yesterday, clock));
        r
    }

    /// Midnight of the day after the present one, or `None` where the clock
    /// cannot be read as a date.
    pub fn tomorrow() -> (r: Option<Self>)
        ensures
            exists|clock: Option<u64>| r == keyword_date(Keyword::Tomorrow, clock),
    {
        let clock = read_clock();
        let r = DateTime::at_keyword(Keyword::Tomorrow, clock);
        assert(r == keyword_date(Keyword::Tomorrow, clock));
        r
    }
}

/// The keyword that a text in lowercase spells, if any.
pub open spec fn keyword_named(lowered: Seq<char>) -> Option<Keyword> {
    if lowered == "now"@ {
        Some(Keyword::Now)
    } else if lowered == "today"@ {
        Some(Keyword::Today)
    } else if lowered == "yesterday"@ {
        Some(Keyword::Yesterday)
    } else if lowered == "tomorrow"@ {
        Some(Keyword::Tomorrow)
    } else {
        None
    }
}

/// The keyword that a text in lowercase spells, if any.
pub fn keyword_of(lowered: &str) -> (r: Option<Keyword>)
    ensures
        r == keyword_named(lowered@),
{
    let word = chars_of(lowered);
    if is_word(word.as_slice(), "now") {
        Some(Keyword::Now)
    } else if is_word(word.as_slice(), "today") {
        Some(Keyword::Today)
    } else if is_word(word.as_slice(), "yesterday") {
        Some(Keyword::Yesterday)
    } else if is_word(word.as_slice(), "tomorrow") {
        Some(Keyword::Tomorrow)
    } else {
        None
    }
}

/// The three numbers of a time of day written as `HH:MM:SS`, or the message
/// that says what is wrong with it.
pub open spec fn parsed_time(text: Seq<char>) -> Result<(int, int, int), Seq<char>> {
    let time = fields(text, ':');
    if time.len() != 3 {
        Err("Invalid time format. Expected HH:MM:SS"@)
    } else if unsigned_value(time[0], u32::MAX as int) is None {
        Err("Invalid hour"@)
    } else if unsigned_value(time[1], u32::MAX as int) is None {
        Err("Invalid minute"@)
    } else if unsigned_value(time[2], u32::MAX as int) is None {
        Err("Invalid second"@)
    } else {
        Ok(
            (
                unsigned_value(time[0], u32::MAX as int)->0,
                unsigned_value(time[1], u32::MAX as int)->0,
                unsigned_value(time[2], u32::MAX as int)->0,
            ),
        )
    }
}

/// The message that says which field lies outside its range, if one does.
/// The day is held to 1 to 31 whatever the month.
pub open spec fn range_fault(month: int, day: int, hour: int, minute: int, second: int) -> Option<
    Seq<char>,
> {
    if month < 1 || month > 12 {
        Some("Month must be between 1 and 12"@)
    } else if day < 1 || day > 31 {
        Some("Day must be between 1 and 31"@)
    } else if hour > 23 {
        Some("Hour must be between 0 and 23"@)
    } else if minute > 59 {
        Some("Minute must be between 0 and 59"@)
    } else if second > 59 {
        Some("Second must be between 0 and 59"@)
    } else {
        None
    }
}

/// The date and time that `text` writes as `YYYY-MM-DD`, optionally followed
/// by a space and `HH:MM:SS`, or the message that says what is wrong with
/// it. What follows a second space is not read.
pub open spec fn parsed_date_time(text: Seq<char>) -> Result<DateTime, Seq<char>> {
    let parts = fields(text, ' ');
    let date = fields(parts[0], '-');
    if date.len() != 3 {
        Err("Invalid date format. Expected YYYY-MM-DD"@)
    } else if signed_value(date[0], 2147483648, i32::MAX as int) is None {
        Err("Invalid year"@)
    } else if unsigned_value(date[1], u32::MAX as int) is None {
        Err("Invalid month"@)
    } else if unsigned_value(date[2], u32::MAX as int) is None {
        Err("Invalid day"@)
    } else {
        let year = signed_value(date[0], 2147483648, i32::MAX as int)->0;
        let month = unsigned_value(date[1], u32::MAX as int)->0;
        let day = unsigned_value(date[2], u32::MAX as int)->0;
        let time = if parts.len() > 1 {
            parsed_time(parts[1])
        } else {
            Ok((0int, 0int, 0int))
        };
        match time {
            Err(e) => Err(e),
            Ok((hour, minute, second)) => match range_fault(month, day, hour, minute, second) {
                Some(e) => Err(e),
                None => Ok(
                    DateTime {
                        year: year as i32,
                        month: month as u32,
                        day: day as u32,
                        hour: hour as u32,
                        minute: minute as u32,
                        second: second as u32,
                    },
                ),
            },
        }
    }
}

/// A result with its message taken as a sequence of characters.
pub open spec fn outcome(r: Result<DateTime, String>) -> Result<DateTime, Seq<char>> {
    match r {
        Ok(d) => Ok(d),
        Err(e) => Err(e@),
    }
}

/// What a keyword gives when the clock reads `clock`: its date, or a message
/// where there is none.
pub open spec fn keyword_outcome(word: Keyword, clock: Option<u64>) -> Result<
    DateTime,
    Seq<char>,
> {
    match keyword_date(word, clock) {
        Some(d) => Ok(d),
        None => Err("System clock is out of range"@),
    }
}

fn parse_time(text: &[char]) -> (r: Result<(u32, u32, u32), String>)
    ensures
        r matches Ok(t) ==> parsed_time(text@) == Ok::<(int, int, int), Seq<char>>(
            (t.0 as int, t.1 as int, t.2 as int),
        ),
        r matches Err(e) ==> parsed_time(text@) == Err::<(int, int, int), Seq<char>>(e@),
{
    let time = split(text, ':');
    assert(texts(time@).len() == time.len());
    if time.len() != 3 {
        return Err(owned("Invalid time format. Expected HH:MM:SS"));
    }
    assert(texts(time@)[0] == time[0]@ && texts(time@)[1] == time[1]@ && texts(time@)[2]
        == time[2]@);
    let hour = match parse_u32(time[0].as_slice()) {
        Some(v) => v,
        None => {
            return Err(owned("Invalid hour"));
        },
    };
    let minute = match parse_u32(time[1].as_slice()) {
        Some(v) => v,
        None => {
            return Err(owned("Invalid minute"));
        },
    };
    let second = match parse_u32(time[2].as_slice()) {
        Some(v) => v,
        None => {
            return Err(owned("Invalid second"));
        },
    };
    Ok((hour, minute, second))
}

impl DateTime {
    /// Reads a date written as `YYYY-MM-DD`, optionally followed by a space
    /// and a time written as `HH:MM:SS`.
    pub fn parse(text: &str) -> (r: Result<Self, String>)
        ensures
            outcome(r) == parsed_date_time(text@),
            r matches Ok(d) ==> 1 <= d.month <= 12,
    {
        let all = chars_of(text);
        let parts = split(all.as_slice(), ' ');
        assert(texts(parts@).len() == parts.len());
        assert(texts(parts@)[0] == parts[0]@);
        let date = split(parts[0].as_slice(), '-');
        assert(texts(date@).len() == date.len());
        if date.len() != 3 {
            return Err(owned("Invalid date format. Expected YYYY-MM-DD"));
        }
        assert(texts(date@)[0] == date[0]@ && texts(date@)[1] == date[1]@ && texts(date@)[2]
            == date[2]@);
        let year = match parse_i32(date[0].as_slice()) {
            Some(v) => v,
            None => {
                return Err(owned("Invalid year"));
            },
        };
        let month = match parse_u32(date[1].as_slice()) {
            Some(v) => v,
            None => {
                return Err(owned("Invalid month"));
            },
        };
        let day = match parse_u32(date[2].as_slice()) {
            Some(v) => v,
            None => {
                return Err(owned("Invalid day"));
            },
        };
        let (hour, minute, second) = if parts.len() > 1 {
            assert(texts(parts@)[1] == parts[1]@);
            match parse_time(parts[1].as_slice()) {
                Ok(t) => t,
                Err(e) => {
                    return Err(e);
                },
            }
        } else {
            (0, 0, 0)
        };
        if month < 1 || month > 12 {
            return Err(owned("Month must be between 1 and 12"));
        }
        if day < 1 || day > 31 {
            return Err(owned("Day must be between 1 and 31"));
        }
        if hour > 23 {
            return Err(owned("Hour must be between 0 and 23"));
        }
        if minute > 59 {
            return Err(owned("Minute must be between 0 and 59"));
        }
        if second > 59 {
            return Err(owned("Second must be between 0 and 59"));
        }
        Ok(DateTime::new(year, month, day, hour, minute, second))
    }

    /// What a keyword gives when the clock reads `clock`.
    pub fn from_keyword(word: Keyword, clock: Option<u64>) -> (r: Result<Self, String>)
        ensures
            outcome(r) == keyword_outcome(word, clock),
            r matches Ok(d) ==> d.is_civil(),
    {
        match DateTime::at_keyword(word, clock) {
            Some(d) => Ok(d),
            None => Err(owned("System clock is out of range")),
        }
    }

    /// Reads a date and time: one of the words `now`, `today`, `yesterday`
    /// and `tomorrow` in any mix of upper and lower case, which stand for
    /// dates relative to the reading of the system clock, or else a date as
    /// [`DateTime::parse`] reads it.
    pub fn from_str(text: &str) -> (r: Result<Self, String>)
        ensures
            keyword_named(lowercase_of(text@)) is None ==> outcome(r) == parsed_date_time(text@),
            keyword_named(lowercase_of(text@)) matches Some(word) ==> exists|clock: Option<u64>|
                outcome(r) == keyword_outcome(word, clock),
            r matches Ok(d) ==> 1 <= d.month <= 12,
    {
        let lowered = lowercase(text);
        match keyword_of(lowered.as_str()) {
            Some(word) => {
                let clock = read_clock();
                let r = DateTime::from_keyword(word, clock);
                assert(outcome(r) == keyword_outcome(word, clock));
                r
            },
            None => DateTime::parse(text),
        }
    }
}

/// The quotient of `a` by a positive `b`, rounded toward zero.
pub open spec fn quotient(a: int, b: int) -> int {
    if a >= 0 {
        a / b
    } else {
        -((-a) / b)
    }
}

/// What is left of `a` after taking out `b` as often as `quotient` says; it
/// has the sign of `a`.
pub open spec fn remainder(a: int, b: int) -> int {
    if a >= 0 {
        a % b
    } else {
        -((-a) % b)
    }
}

/// The time between two moments: the whole of it in seconds, and the same
/// length cut into years of 365 days, months of 30 days, days, hours, minutes
/// and seconds. Every part has the sign of the whole.
#[derive(Debug, Clone, Copy, PartialEq, Eq, Structural)]
pub struct TimeDiff {
    pub years: i64,
    pub months: i64,
    pub days: i64,
    pub hours: i64,
    pub minutes: i64,
    pub seconds: i64,
    pub total_seconds: i64,
}

/// The parts of a length of `total` seconds.
pub open spec fn diff_of(total: int) -> TimeDiff {
    let total_days = quotient(total, 86400);
    let remaining_days = remainder(total_days, 365);
    let remaining_seconds = remainder(total, 86400);
    TimeDiff {
        years: quotient(total_days, 365) as i64,
        months: quotient(remaining_days, 30) as i64,
        days: remainder(remaining_days, 30) as i64,
        hours: quotient(remaining_seconds, 3600) as i64,
        minutes: quotient(remainder(remaining_seconds, 3600), 60) as i64,
        seconds: remainder(remaining_seconds, 60) as i64,
        total_seconds: total as i64,
    }
}

/// The parts of a length of time make up the whole: counted back into
/// seconds they give the total, and none of them has the other sign.
pub proof fn lemma_diff_recombines(total: int)
    requires
        i64::MIN <= total <= i64::MAX,
    ensures
        ({
            let d = diff_of(total);
            &&& total == ((d.years * 365 + d.months * 30 + d.days) * 86400 + d.hours * 3600
                + d.minutes * 60 + d.seconds)
            &&& total >= 0 ==> d.years >= 0 && 0 <= d.months < 13 && 0 <= d.days < 30 && 0
                <= d.hours < 24 && 0 <= d.minutes < 60 && 0 <= d.seconds < 60
            &&& total <= 0 ==> d.years <= 0 && -13 < d.months <= 0 && -30 < d.days <= 0 && -24
                < d.hours <= 0 && -60 < d.minutes <= 0 && -60 < d.seconds <= 0
        }),
{
}

/// The time from `date1` to `date2`, negative where `date2` is the earlier.
pub fn calculate_diff(date1: DateTime, date2: DateTime) -> (r: TimeDiff)
    requires
        1 <= date1.month <= 12,
        1 <= date2.month <= 12,
    ensures
        r == diff_of(date2.seconds() - date1.seconds()),
        r.total_seconds == date2.seconds() - date1.seconds(),
{
    let seconds1 = date1.to_seconds();
    let seconds2 = date2.to_seconds();
    let total_seconds = seconds2 - seconds1;

    let total_days = total_seconds / 86400;
    let years = total_days / 365;
    let remaining_days = total_days % 365;
    let months = remaining_days / 30;
    let days = remaining_days % 30;

    let remaining_seconds = total_seconds % 86400;
    let hours = remaining_seconds / 3600;
    let minutes = (remaining_seconds % 3600) / 60;
    let seconds = remaining_seconds % 60;

    TimeDiff { years, months, days, hours, minutes, seconds, total_seconds }
}

/// How a difference is to be shown.
#[derive(Debug, Clone, PartialEq, Eq)]
pub enum DiffText {
    /// The text itself.
    Plain(String),
    /// The number `seconds / per_unit`, to be written with two digits after
    /// the point, then a space and `unit`.
    Scaled { seconds: i64, per_unit: i64, unit: String },
}

/// A `DiffText` with its texts taken as sequences of characters.
pub enum DiffShown {
    Plain(Seq<char>),
    Scaled { seconds: int, per_unit: int, unit: Seq<char> },
}

impl View for DiffText {
    type V = DiffShown;

    open spec fn view(&self) -> DiffShown {
        match self {
            DiffText::Plain(text) => DiffShown::Plain(text@),
            DiffText::Scaled { seconds, per_unit, unit } => DiffShown::Scaled {
                seconds: *seconds as int,
                per_unit: *per_unit as int,
                unit: unit@,
            },
        }
    }
}

/// The number of seconds in the unit that `unit` names: a year counts 365
/// days and a month 30.
pub open spec fn unit_seconds(unit: Seq<char>) -> Option<int> {
    if unit == "years"@ {
        Some(31536000)
    } else if unit == "months"@ {
        Some(2592000)
    } else if unit == "days"@ {
        Some(86400)
    } else if unit == "hours"@ {
        Some(3600)
    } else if unit == "minutes"@ {
        Some(60)
    } else if unit == "seconds"@ {
        Some(1)
    } else {
        None
    }
}

/// `sofar` with one more part, `value` and `label`, where `value` is
/// positive; parts are set apart by a comma and a space.
pub open spec fn with_part(sofar: Seq<char>, value: int, label: Seq<char>) -> Seq<char> {
    if value <= 0 {
        sofar
    } else if sofar.len() == 0 {
        signed_text(value) + " "@ + label
    } else {
        sofar + ", "@ + signed_text(value) + " "@ + label
    }
}

/// The parts of `diff` that are positive, each with its unit, from years
/// down to seconds; `0 seconds` where none is.
pub open spec fn breakdown(diff: TimeDiff) -> Seq<char> {
    let years = with_part(Seq::empty(), diff.years as int, "years"@);
    let months = with_part(years, diff.months as int, "months"@);
    let days = with_part(months, diff.days as int, "days"@);
    let hours = with_part(days, diff.hours as int, "hours"@);
    let minutes = with_part(hours, diff.minutes as int, "minutes"@);
    let seconds = with_part(minutes, diff.seconds as int, "seconds"@);
    if seconds.len() == 0 {
        "0 seconds"@
    } else {
        seconds
    }
}

/// How `diff` is shown.
///
/// With `simple`, the whole seconds counted in `unit`, rounded toward zero,
/// as a bare number; in seconds where there is no unit or an unknown one.
/// Else with `format`, the breakdown into parts. Else the whole seconds as a
/// fraction of `unit`, or of days where there is none; in seconds as a whole
/// number; and a complaint where the unit is unknown.
pub open spec fn shown_diff(diff: TimeDiff, unit: Option<Seq<char>>, format: bool, simple: bool)
    -> DiffShown {
    let total = diff.total_seconds as int;
    if simple {
        match unit {
            Some(u) => match unit_seconds(u) {
                Some(per) => DiffShown::Plain(signed_text(quotient(total, per))),
                None => DiffShown::Plain(signed_text(total)),
            },
            None => DiffShown::Plain(signed_text(total)),
        }
    } else if format {
        DiffShown::Plain(breakdown(diff))
    } else {
        match unit {
            Some(u) => match unit_seconds(u) {
                Some(per) => if per == 1 {
                    DiffShown::Plain(signed_text(total) + " seconds"@)
                } else {
                    DiffShown::Scaled { seconds: total, per_unit: per, unit: u }
                },
                None => DiffShown::Plain("Invalid unit: "@ + u),
            },
            None => DiffShown::Scaled { seconds: total, per_unit: 86400, unit: "days"@ },
        }
    }
}

/// The number of seconds in the unit that `unit` names.
pub fn seconds_per(unit: &[char]) -> (r: Option<i64>)
    ensures
        r matches Some(per) ==> unit_seconds(unit@) == Some(per as int),
        r is None ==> unit_seconds(unit@) is None,
{
    if is_word(unit, "years") {
        Some(31536000)
    } else if is_word(unit, "months") {
        Some(2592000)
    } else if is_word(unit, "days") {
        Some(86400)
    } else if is_word(unit, "hours") {
        Some(3600)
    } else if is_word(unit, "minutes") {
        Some(60)
    } else if is_word(unit, "seconds") {
        Some(1)
    } else {
        None
    }
}

fn push_part(out: &mut Vec<char>, value: i64, label: &str)
    ensures
        final(out)@ == with_part(old(out)@, value as int, label@),
{
    if value > 0 {
        if out.len() > 0 {
            push_str(out, ", ");
        }
        push_signed(out, value);
        push_str(out, " ");
        push_str(out, label);
    }
}

/// Decides how `diff` is shown, and writes all of it that whole numbers can
/// write.
pub fn format_diff(diff: &TimeDiff, unit: Option<&str>, format: bool, simple: bool) -> (r:
    DiffText)
    ensures
        r@ == shown_diff(
            *diff,
            match unit {
                Some(u) => Some(u@),
                None => None,
            },
            format,
            simple,
        ),
{
    let mut out: Vec<char> = Vec::new();
    if simple {
        let per: i64 = match unit {
            Some(u) => {
                let name = chars_of(u);
                match seconds_per(name.as_slice()) {
                    Some(per) => per,
                    None => 1,
                }
            },
            None => 1,
        };
        push_signed(&mut out, diff.total_seconds / per);
        return DiffText::Plain(string_of(out.as_slice()));
    }
    if format {
        push_part(&mut out, diff.years, "years");
        push_part(&mut out, diff.months, "months");
        push_part(&mut out, diff.days, "days");
        push_part(&mut out, diff.hours, "hours");
        push_part(&mut out, diff.minutes, "minutes");
        push_part(&mut out, diff.seconds, "seconds");
        if out.len() == 0 {
            return DiffText::Plain(owned("0 seconds"));
        }
        return DiffText::Plain(string_of(out.as_slice()));
    }
    match unit {
        Some(u) => {
            let name = chars_of(u);
            match seconds_per(name.as_slice()) {
                Some(per) => {
                    if per == 1 {
                        push_signed(&mut out, diff.total_seconds);
                        push_str(&mut out, " seconds");
                        DiffText::Plain(string_of(out.as_slice()))
                    } else {
                        DiffText::Scaled {
                            seconds: diff.total_seconds,
                            per_unit: per,
                            unit: owned(u),
                        }
                    }
                },
                None => {
                    push_str(&mut out, "Invalid unit: ");
                    push_all(&mut out, name.as_slice());
                    DiffText::Plain(string_of(out.as_slice()))
                },
            }
        },
        None => DiffText::Scaled {
            seconds: diff.total_seconds,
            per_unit: 86400,
            unit: owned("days"),
        },
    }
}

/// What the command line asks for.
#[derive(Debug, Clone, PartialEq, Eq)]
pub struct Options {
    pub date1: String,
    pub date2: String,
    pub unit: Option<String>,
    pub format: bool,
    pub simple: bool,
}

/// `Options` with its texts taken as sequences of characters. While the
/// command line is read, `use_now` says whether the second date was asked to
/// be the present moment.
pub struct OptionsView {
    pub date1: Seq<char>,
    pub date2: Seq<char>,
    pub use_now: bool,
    pub unit: Option<Seq<char>>,
    pub format: bool,
    pub simple: bool,
}

impl View for Options {
    type V = OptionsView;

    open spec fn view(&self) -> OptionsView {
        OptionsView {
            date1: self.date1@,
            date2: self.date2@,
            use_now: false,
            unit: match self.unit {
                Some(u) => Some(u@),
                None => None,
            },
            format: self.format,
            simple: self.simple,
        }
    }
}

/// What a command line comes to: a request for the help text, or two dates
/// to compare.
#[derive(Debug, Clone, PartialEq, Eq)]
pub enum Request {
    Help,
    Run(Options),
}

/// A `Request` with its texts taken as sequences of characters.
pub enum RequestView {
    Help,
    Run(OptionsView),
}

impl View for Request {
    type V = RequestView;

    open spec fn view(&self) -> RequestView {
        match self {
            Request::Help => RequestView::Help,
            Request::Run(options) => RequestView::Run(options@),
        }
    }
}

/// What is wrong with a command line.
#[derive(Debug, Clone, Copy, PartialEq, Eq, Structural)]
pub enum ArgsError {
    /// The option for the unit is the last argument.
    UnitNotSpecified,
    /// No date is given.
    FirstDateNotSpecified,
}

impl ArgsError {
    /// The message that tells of the error.
    pub fn message(&self) -> (r: String)
        ensures
            r@ == (match *self {
                ArgsError::UnitNotSpecified => "Unit not specified"@,
                ArgsError::FirstDateNotSpecified => "First date not specified"@,
            }),
    {
        match self {
            ArgsError::UnitNotSpecified => owned("Unit not specified"),
            ArgsError::FirstDateNotSpecified => owned("First date not specified"),
        }
    }
}

/// What is made of the arguments once all are read: the first date must be
/// there, and the second is the present moment where it was asked to be or
/// where none was given.
pub open spec fn settled(sofar: OptionsView) -> Result<RequestView, ArgsError> {
    if sofar.date1.len() == 0 {
        Err(ArgsError::FirstDateNotSpecified)
    } else {
        Ok(
            RequestView::Run(
                OptionsView {
                    date2: if sofar.use_now || sofar.date2.len() == 0 {
                        "now"@
                    } else {
                        sofar.date2
                    },
                    use_now: false,
                    ..sofar
                },
            ),
        )
    }
}

/// What the arguments from position `at` on come to, with `sofar` read of
/// those before. An argument that is no option is the first date, then the
/// second; more of them are passed over.
pub open spec fn request_from(args: Seq<Seq<char>>, at: int, sofar: OptionsView) -> Result<
    RequestView,
    ArgsError,
>
    decreases args.len() - at,
{
    if at < 0 || at >= args.len() {
        settled(sofar)
    } else {
        let arg = args[at];
        if arg == "-h"@ || arg == "--help"@ {
            Ok(RequestView::Help)
        } else if arg == "-n"@ || arg == "--now"@ {
            request_from(args, at + 1, OptionsView { use_now: true, ..sofar })
        } else if arg == "-u"@ || arg == "--unit"@ {
            if at + 1 < args.len() {
                request_from(args, at + 2, OptionsView { unit: Some(args[at + 1]), ..sofar })
            } else {
                Err(ArgsError::UnitNotSpecified)
            }
        } else if arg == "-f"@ || arg == "--format"@ {
            request_from(args, at + 1, OptionsView { format: true, ..sofar })
        } else if arg == "-s"@ || arg == "--simple"@ {
            request_from(args, at + 1, OptionsView { simple: true, ..sofar })
        } else if sofar.date1.len() == 0 {
            request_from(args, at + 1, OptionsView { date1: arg, ..sofar })
        } else if sofar.date2.len() == 0 {
            request_from(args, at + 1, OptionsView { date2: arg, ..sofar })
        } else {
            request_from(args, at + 1, sofar)
        }
    }
}

/// What a command line comes to. The first argument is the program's own
/// name and is not read.
pub open spec fn request_of(args: Seq<Seq<char>>) -> Result<RequestView, ArgsError> {
    request_from(
        args,
        1,
        OptionsView {
            date1: Seq::empty(),
            date2: Seq::empty(),
            use_now: false,
            unit: None,
            format: false,
            simple: false,
        },
    )
}

/// A result with its texts taken as sequences of characters.
pub open spec fn request_outcome(r: Result<Request, ArgsError>) -> Result<RequestView, ArgsError> {
    match r {
        Ok(request) => Ok(request@),
        Err(e) => Err(e),
    }
}

/// Reads the command line.
pub fn parse_args(args: &Vec<String>) -> (r: Result<Request, ArgsError>)
    ensures
        request_outcome(r) == request_of(strings(args@)),
{
    let mut options = Options {
        date1: String::new(),
        date2: String::new(),
        unit: None,
        format: false,
        simple: false,
    };
    let mut use_now = false;
    let ghost all = strings(args@);
    let mut i: usize = 1;
    while i < args.len()
        invariant
            1 <= i,
            all == strings(args@),
            request_of(all) == request_from(
                all,
                i as int,
                OptionsView { use_now, ..options@ },
            ),
        decreases args.len() - i,
    {
        let arg = chars_of(args[i].as_str());
        assert(arg@ == all[i as int]);
        if is_word(arg.as_slice(), "-h") || is_word(arg.as_slice(), "--help") {
            return Ok(Request::Help);
        } else if is_word(arg.as_slice(), "-n") || is_word(arg.as_slice(), "--now") {
            use_now = true;
            i += 1;
        } else if is_word(arg.as_slice(), "-u") || is_word(arg.as_slice(), "--unit") {
            if i + 1 < args.len() {
                assert(args@[i as int + 1]@ == all[i as int + 1]);
                options.unit = Some(args[i + 1].clone());
                i += 2;
            } else {
                return Err(ArgsError::UnitNotSpecified);
            }
        } else if is_word(arg.as_slice(), "-f") || is_word(arg.as_slice(), "--format") {
            options.format = true;
            i += 1;
        } else if is_word(arg.as_slice(), "-s") || is_word(arg.as_slice(), "--simple") {
            options.simple = true;
            i += 1;
        } else {
            if options.date1.as_str().is_empty() {
                options.date1 = args[i].clone();
            } else if options.date2.as_str().is_empty() {
                options.date2 = args[i].clone();
            }
            i += 1;
        }
    }
    if options.date1.as_str().is_empty() {
        return Err(ArgsError::FirstDateNotSpecified);
    }
    if use_now || options.date2.as_str().is_empty() {
        options.date2 = owned("now");
    }
    Ok(Request::Run(options))
}

} // verus!
