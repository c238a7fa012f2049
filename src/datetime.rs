use vstd::prelude::*;

verus! {

/// A calendar date and a time of day with no offset, as plain numbers.
#[derive(Clone, Copy, PartialEq, Eq, Structural, Debug)]
pub struct DateTime {
    pub year: i32,
    pub month: u8,
    pub day: u8,
    pub hour: u8,
    pub minute: u8,
    pub second: u8,
    pub nanosecond: u32,
}

/// A time of day.
#[derive(Clone, Copy, PartialEq, Eq, Structural, Debug)]
pub struct ClockTime {
    pub hour: u8,
    pub minute: u8,
    pub second: u8,
    pub nanosecond: u32,
}

/// A calendar date.
#[derive(Clone, Copy, PartialEq, Eq, Structural, Debug)]
pub struct CalendarDate {
    pub year: i32,
    pub month: u8,
    pub day: u8,
}

/// What the time crate reads from a text as an ISO 8601 date and time.
pub uninterp spec fn iso8601_date_time(s: Seq<char>) -> Option<DateTime>;

/// What the time crate reads from a text as a time of day, by a format
/// description.
pub uninterp spec fn clock_time_by(s: Seq<char>, description: Seq<char>) -> Option<ClockTime>;

/// What the time crate reads from a text as a date and time, by a format
/// description.
pub uninterp spec fn date_time_by(s: Seq<char>, description: Seq<char>) -> Option<DateTime>;

pub open spec fn is_leap_year(y: int) -> bool {
    y % 4 == 0 && (y % 100 != 0 || y % 400 == 0)
}

pub open spec fn days_in_month(y: int, m: int) -> int {
    if m == 2 {
        if is_leap_year(y) {
            29
        } else {
            28
        }
    } else if m == 4 || m == 6 || m == 9 || m == 11 {
        30
    } else {
        31
    }
}

/// The time of day is one that a clock shows.
pub open spec fn valid_clock(hour: u8, minute: u8, second: u8, nanosecond: u32) -> bool {
    hour < 24 && minute < 60 && second < 60 && nanosecond < 1_000_000_000
}

/// The numbers make a date and time that the time crate can hold (its years
/// run from -9999 to 9999).
pub open spec fn valid_date_time(dt: DateTime) -> bool {
    &&& -9999 <= dt.year <= 9999
    &&& 1 <= dt.month <= 12
    &&& 1 <= dt.day <= days_in_month(dt.year as int, dt.month as int)
    &&& valid_clock(dt.hour, dt.minute, dt.second, dt.nanosecond)
}

/// The last `width` decimal digits of `n`, zero-padded.
pub open spec fn padded(n: nat, width: nat) -> Seq<char>
    decreases width,
{
    if width == 0 {
        Seq::empty()
    } else {
        padded(n / 10, (width - 1) as nat).push("0123456789"@[(n % 10) as int])
    }
}

/// The text that the time crate writes for a date, `YYYY-MM-DD` with a minus
/// sign before a year below 0, where the numbers make a date that it holds.
pub open spec fn date_text(d: CalendarDate) -> Option<Seq<char>> {
    if -9999 <= d.year <= 9999 && 1 <= d.month <= 12 && 1 <= d.day <= days_in_month(
        d.year as int,
        d.month as int,
    ) {
        let month_day = "-"@ + padded(d.month as nat, 2) + "-"@ + padded(d.day as nat, 2);
        if d.year < 0 {
            Some("-"@ + padded((-d.year) as nat, 4) + month_day)
        } else {
            Some(padded(d.year as nat, 4) + month_day)
        }
    } else {
        None
    }
}

/// A date and time written as `YYYY-MM-DDTHH:MM:SS.nnnnnnnnn`.
pub open spec fn iso8601_of(dt: DateTime) -> Seq<char> {
    padded(dt.year as nat, 4) + "-"@ + padded(dt.month as nat, 2) + "-"@ + padded(
        dt.day as nat,
        2,
    ) + "T"@ + padded(dt.hour as nat, 2) + ":"@ + padded(dt.minute as nat, 2) + ":"@ + padded(
        dt.second as nat,
        2,
    ) + "."@ + padded(dt.nanosecond as nat, 9)
}


/// The characters of an optional text.
pub open spec fn text_view(r: Option<String>) -> Option<Seq<char>> {
    match r {
        Some(t) => Some(t@),
        None => None,
    }
}

/// Relies on time::PrimitiveDateTime::parse with Iso8601::DATE_TIME.
#[verifier::external_body]
pub(crate) fn parse_iso8601(s: &str) -> (r: Option<DateTime>)
    ensures
        r == iso8601_date_time(s@),
        r matches Some(d) ==> valid_date_time(d),
{
    let d = time::PrimitiveDateTime::parse(s, &time::format_description::well_known::Iso8601::DATE_TIME).ok()?;
    Some(DateTime {
        year: d.year(),
        month: d.month() as u8,
        day: d.day(),
        hour: d.hour(),
        minute: d.minute(),
        second: d.second(),
        nanosecond: d.nanosecond(),
    })
}

/// Relies on time::format_description::parse_owned (version 2 of the format
/// description syntax) and time::Time::parse.
#[verifier::external_body]
pub(crate) fn parse_clock_time(s: &str, description: &str) -> (r: Option<ClockTime>)
    ensures
        r == clock_time_by(s@, description@),
        r matches Some(c) ==> valid_clock(c.hour, c.minute, c.second, c.nanosecond),
{
    let item = time::format_description::parse_owned::<2>(description).ok()?;
    let t = time::Time::parse(s, &item).ok()?;
    Some(ClockTime { hour: t.hour(), minute: t.minute(), second: t.second(), nanosecond: t.nanosecond() })
}

/// Relies on time::format_description::parse_owned (version 2 of the format
/// description syntax) and time::PrimitiveDateTime::parse.
#[verifier::external_body]
pub(crate) fn parse_date_time(s: &str, description: &str) -> (r: Option<DateTime>)
    ensures
        r == date_time_by(s@, description@),
        r matches Some(d) ==> valid_date_time(d),
{
    let item = time::format_description::parse_owned::<2>(description).ok()?;
    let d = time::PrimitiveDateTime::parse(s, &item).ok()?;
    Some(DateTime {
        year: d.year(),
        month: d.month() as u8,
        day: d.day(),
        hour: d.hour(),
        minute: d.minute(),
        second: d.second(),
        nanosecond: d.nanosecond(),
    })
}

/// Relies on time::PrimitiveDateTime::format with Iso8601::DATE_TIME, after
/// the time crate's constructors have accepted the numbers: four year digits
/// (a year outside 0 to 9999 is refused) and nine fraction digits.
#[verifier::external_body]
pub(crate) fn format_iso8601(dt: DateTime) -> (r: Option<String>)
    ensures
        (r is Some) <==> (valid_date_time(dt) && 0 <= dt.year),
        r matches Some(t) ==> t@ == iso8601_of(dt),
{
    let month = time::Month::try_from(dt.month).ok()?;
    let date = time::Date::from_calendar_date(dt.year, month, dt.day).ok()?;
    let t = time::Time::from_hms_nano(dt.hour, dt.minute, dt.second, dt.nanosecond).ok()?;
    let iso = time::format_description::well_known::Iso8601::DATE_TIME;
    time::PrimitiveDateTime::new(date, t).format(&iso).ok()
}

/// Relies on the Display of time::Date, after time::Date::from_calendar_date
/// has accepted the numbers: a sign for a year below 0, four year digits, two
/// month and two day digits.
#[verifier::external_body]
pub(crate) fn format_date(d: CalendarDate) -> (r: Option<String>)
    ensures
        text_view(r) == date_text(d),
{
    let month = time::Month::try_from(d.month).ok()?;
    Some(time::Date::from_calendar_date(d.year, month, d.day).ok()?.to_string())
}

/// The date of `date` at the time of day `t`.
pub open spec fn at_time(date: DateTime, t: ClockTime) -> DateTime {
    DateTime {
        year: date.year,
        month: date.month,
        day: date.day,
        hour: t.hour,
        minute: t.minute,
        second: t.second,
        nanosecond: t.nanosecond,
    }
}

/// Keeps the date of `date` and takes the time of day from `t`.
pub fn with_time(date: DateTime, t: ClockTime) -> (r: DateTime)
    ensures
        r == at_time(date, t),
{
    DateTime { hour: t.hour, minute: t.minute, second: t.second, nanosecond: t.nanosecond, ..date }
}

} // verus!
