use vstd::prelude::*;
use chrono::{Datelike, Timelike};
use chrono::format::ParseErrorKind;
use crate::text::zero_padded;

verus! {

/// The earliest year that a date can have.
pub const MIN_YEAR: i32 = -262143;

/// The latest year that a date can have.
pub const MAX_YEAR: i32 = 262142;

/// A calendar date and a wall-clock time of day, with no time zone, field by field.
///
/// A `nanosecond` of one billion or more marks a leap second, which only the
/// last second of a minute (`second == 59`) can carry.
#[derive(Clone, Copy, Debug, PartialEq, Eq)]
pub struct NaiveDateTimeParts {
    pub year: i32,
    pub month: u32,
    pub day: u32,
    pub hour: u32,
    pub minute: u32,
    pub second: u32,
    pub nanosecond: u32,
}

/// A parsed date and time: the moment in UTC, and the offset of the local
/// time that the text gave, in seconds east of UTC.
#[derive(Clone, Copy, Debug, PartialEq, Eq)]
pub struct ParsedDateTime {
    pub utc: NaiveDateTimeParts,
    pub offset_seconds: i32,
}

/// Why a date and time could not be parsed.
#[derive(Clone, Copy, Debug, PartialEq, Eq)]
pub enum DateParseError {
    /// A field is out of its permitted range.
    OutOfRange,
    /// The fields contradict each other.
    Impossible,
    /// The text lacks a field that the date needs.
    NotEnough,
    /// A character or field is not what the format allows.
    Invalid,
    /// The text ended early.
    TooShort,
    /// Text follows the date.
    TooLong,
    /// The format itself is wrong.
    BadFormat,
    /// Any other cause.
    Other,
}

pub open spec fn is_leap_year(year: int) -> bool {
    (year % 4 == 0 && year % 100 != 0) || year % 400 == 0
}

pub open spec fn days_in_month(year: int, month: int) -> int {
    if month == 2 {
        if is_leap_year(year) { 29 } else { 28 }
    } else if month == 4 || month == 6 || month == 9 || month == 11 {
        30
    } else {
        31
    }
}

/// The number of days from 1970-01-01 to the given date of the proleptic
/// Gregorian calendar (negative before it).
pub open spec fn days_from_civil(year: int, month: int, day: int) -> int {
    let y = if month <= 2 { year - 1 } else { year };
    let era = y / 400;
    let year_of_era = y - era * 400;
    let shifted_month = if month > 2 { month - 3 } else { month + 9 };
    let day_of_year = (153 * shifted_month + 2) / 5 + day - 1;
    let day_of_era = year_of_era * 365 + year_of_era / 4 - year_of_era / 100 + day_of_year;
    era * 146097 + day_of_era - 719468
}

impl NaiveDateTimeParts {
    /// The fields name a date and time that exists.
    pub open spec fn is_valid(self) -> bool {
        &&& MIN_YEAR <= self.year <= MAX_YEAR
        &&& 1 <= self.month <= 12
        &&& 1 <= self.day <= days_in_month(self.year as int, self.month as int)
        &&& self.hour < 24
        &&& self.minute < 60
        &&& self.second < 60
        &&& self.nanosecond < 2_000_000_000
        &&& self.nanosecond >= 1_000_000_000 ==> self.second == 59
    }

    /// Seconds since 1970-01-01 00:00:00, leap seconds not counted.
    pub open spec fn unix_seconds(self) -> int {
        days_from_civil(self.year as int, self.month as int, self.day as int) * 86400
            + self.hour * 3600 + self.minute * 60 + self.second
    }

    /// The second shown in text: a leap second shows as second 60.
    pub open spec fn shown_second(self) -> nat {
        if self.nanosecond >= 1_000_000_000 { (self.second + 1) as nat } else { self.second as nat }
    }

    /// The fraction of the second shown in text, in nanoseconds.
    pub open spec fn shown_nanosecond(self) -> nat {
        if self.nanosecond >= 1_000_000_000 {
            (self.nanosecond - 1_000_000_000) as nat
        } else {
            self.nanosecond as nat
        }
    }

    /// The year as text: four digits inside 0..=9999, else a sign and at least four digits.
    pub open spec fn year_text(self) -> Seq<char> {
        if 0 <= self.year <= 9999 {
            zero_padded(self.year as nat, 4)
        } else if self.year < 0 {
            seq!['-'] + zero_padded((-self.year) as nat, 4)
        } else {
            seq!['+'] + zero_padded(self.year as nat, 4)
        }
    }

    /// The fraction of the second as text: nothing when zero, else a dot and
    /// three, six or nine digits, the fewest that show it exactly.
    pub open spec fn fraction_text(self) -> Seq<char> {
        let nano = self.shown_nanosecond();
        if nano == 0 {
            Seq::empty()
        } else if nano % 1_000_000 == 0 {
            seq!['.'] + zero_padded(nano / 1_000_000, 3)
        } else if nano % 1_000 == 0 {
            seq!['.'] + zero_padded(nano / 1_000, 6)
        } else {
            seq!['.'] + zero_padded(nano, 9)
        }
    }

    /// The text `YYYY-MM-DD HH:MM:SS` with the fraction, if any, after it.
    pub open spec fn display_text(self) -> Seq<char> {
        self.year_text() + seq!['-'] + zero_padded(self.month as nat, 2) + seq!['-']
            + zero_padded(self.day as nat, 2) + seq![' '] + zero_padded(self.hour as nat, 2)
            + seq![':'] + zero_padded(self.minute as nat, 2) + seq![':']
            + zero_padded(self.shown_second(), 2) + self.fraction_text()
    }
}

/// What parsing the text as an RFC 2822 date and time gives.
pub uninterp spec fn rfc2822_parse(text: Seq<char>) -> Result<ParsedDateTime, DateParseError>;

/// Parses an RFC 2822 date and time with `chrono::DateTime::parse_from_rfc2822`.
///
/// Trusted: the result is `rfc2822_parse` of the text; a parsed value is a
/// valid date and time whose offset lies strictly within a day, as chrono's
/// `NaiveDateTime` and `FixedOffset` guarantee. The moment is taken in UTC
/// (`naive_utc`, a field of chrono's value), field by field.
#[verifier::external_body]
pub(crate) fn parse_from_rfc2822(text: &str) -> (parsed: Result<ParsedDateTime, DateParseError>)
    ensures
        parsed == rfc2822_parse(text@),
        parsed matches Ok(d) ==> d.utc.is_valid() && -86400 < d.offset_seconds < 86400,
{
    match chrono::DateTime::parse_from_rfc2822(text) {
        Ok(d) => { let n = d.naive_utc(); Ok(ParsedDateTime { utc: NaiveDateTimeParts { year: n.year(), month: n.month(), day: n.day(), hour: n.hour(), minute: n.minute(), second: n.second(), nanosecond: n.nanosecond() }, offset_seconds: d.offset().local_minus_utc() }) },
        Err(e) => Err(match e.kind() {
            ParseErrorKind::OutOfRange => DateParseError::OutOfRange,
            ParseErrorKind::Impossible => DateParseError::Impossible,
            ParseErrorKind::NotEnough => DateParseError::NotEnough,
            ParseErrorKind::Invalid => DateParseError::Invalid,
            ParseErrorKind::TooShort => DateParseError::TooShort,
            ParseErrorKind::TooLong => DateParseError::TooLong,
            ParseErrorKind::BadFormat => DateParseError::BadFormat,
            _ => DateParseError::Other,
        }),
    }
}

/// The seconds since 1970-01-01 00:00:00 of a date and time, by
/// `chrono::NaiveDateTime::timestamp`.
///
/// Trusted: chrono documents the result as the number of non-leap seconds
/// since the epoch, which `unix_seconds` counts.
#[verifier::external_body]
#[allow(deprecated)]
pub(crate) fn naive_timestamp(parts: &NaiveDateTimeParts) -> (seconds: i64)
    requires
        parts.is_valid(),
    ensures
        seconds == parts.unix_seconds(),
{
    match chrono::NaiveDate::from_ymd_opt(parts.year, parts.month, parts.day) {
        Some(d) => match d.and_hms_nano_opt(parts.hour, parts.minute, parts.second, parts.nanosecond) {
            Some(n) => n.timestamp(),
            None => 0,
        },
        None => 0,
    }
}

/// The text of a date and time, by `chrono::NaiveDateTime`'s `to_string`.
///
/// Trusted: chrono writes the date, a space and the time, as its `Display`
/// implementation for `NaiveDate` and `NaiveTime` shows, which `display_text`
/// spells out.
#[verifier::external_body]
pub(crate) fn naive_display(parts: &NaiveDateTimeParts) -> (text: String)
    requires
        parts.is_valid(),
    ensures
        text@ == parts.display_text(),
{
    match chrono::NaiveDate::from_ymd_opt(parts.year, parts.month, parts.day) {
        Some(d) => match d.and_hms_nano_opt(parts.hour, parts.minute, parts.second, parts.nanosecond) {
            Some(n) => n.to_string(),
            None => String::new(),
        },
        None => String::new(),
    }
}

} // verus!
