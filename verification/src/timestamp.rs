use vstd::prelude::*;
use vstd::string::*;
use crate::chars::decimal_padded;

verus! {

/// A point in local time with a precision of one second, as calendar
/// fields.
#[derive(Clone, Copy, Debug, PartialEq, Eq, Structural)]
pub struct Timestamp {
    pub year: i32,
    pub month: u32,
    pub day: u32,
    pub hour: u32,
    pub minute: u32,
    pub second: u32,
}

/// Whether a year of the Gregorian calendar has a 29th of February.
pub open spec fn leap_year(year: int) -> bool {
    year % 4 == 0 && (year % 100 != 0 || year % 400 == 0)
}

/// The number of days of a month, counted from 1 for January.
pub open spec fn days_in_month(year: int, month: int) -> int {
    if month == 2 {
        if leap_year(year) { 29 } else { 28 }
    } else if month == 4 || month == 6 || month == 9 || month == 11 {
        30
    } else {
        31
    }
}

/// Whether the fields name a second of a day that the calendar has, in a
/// year of four digits.
pub open spec fn valid_fields(
    year: int,
    month: int,
    day: int,
    hour: int,
    minute: int,
    second: int,
) -> bool {
    &&& 0 <= year <= 9999
    &&& 1 <= month <= 12
    &&& 1 <= day <= days_in_month(year, month)
    &&& 0 <= hour < 24
    &&& 0 <= minute < 60
    &&& 0 <= second < 60
}

/// The text `DD/MM/YYYY HH:MM:SS` for the given fields, each filled with
/// zeros to its width.
pub open spec fn date_time_text(
    year: nat,
    month: nat,
    day: nat,
    hour: nat,
    minute: nat,
    second: nat,
) -> Seq<char> {
    decimal_padded(day, 2) + seq!['/'] + decimal_padded(month, 2) + seq!['/'] + decimal_padded(
        year,
        4,
    ) + seq![' '] + decimal_padded(hour, 2) + seq![':'] + decimal_padded(minute, 2) + seq![':']
        + decimal_padded(second, 2)
}

/// Calls chrono: `NaiveDate::from_ymd_opt`, `NaiveDate::and_hms_opt` and
/// `NaiveDateTime::format` with the pattern `%d/%m/%Y %H:%M:%S`. For fields
/// that name an existing second in a year from 0 to 9999 both constructors
/// succeed, and the pattern gives day, month, hour, minute and second with
/// two digits and the year with four, filled with zeros; this is taken from
/// chrono's documentation and not proved.
#[verifier::external_body]
fn format_date_time(year: i32, month: u32, day: u32, hour: u32, minute: u32, second: u32) -> (text:
    String)
    requires
        valid_fields(
            year as int,
            month as int,
            day as int,
            hour as int,
            minute as int,
            second as int,
        ),
    ensures
        text@ == date_time_text(
            year as nat,
            month as nat,
            day as nat,
            hour as nat,
            minute as nat,
            second as nat,
        ),
{
    let date = chrono::NaiveDate::from_ymd_opt(year, month, day).unwrap();
    let at = date.and_hms_opt(hour, minute, second).unwrap();
    at.format("%d/%m/%Y %H:%M:%S").to_string()
}

fn is_leap_year(year: i32) -> (b: bool)
    requires
        0 <= year,
    ensures
        b == leap_year(year as int),
{
    year % 4 == 0 && (year % 100 != 0 || year % 400 == 0)
}

impl Timestamp {
    /// Whether the timestamp names an existing second; see `valid_fields`.
    pub open spec fn wf(&self) -> bool {
        valid_fields(
            self.year as int,
            self.month as int,
            self.day as int,
            self.hour as int,
            self.minute as int,
            self.second as int,
        )
    }

    /// The prefix shown before a row: the date and time in square brackets,
    /// followed by a space.
    pub open spec fn label(&self) -> Seq<char> {
        seq!['['] + date_time_text(
            self.year as nat,
            self.month as nat,
            self.day as nat,
            self.hour as nat,
            self.minute as nat,
            self.second as nat,
        ) + seq![']', ' ']
    }

    /// A timestamp from calendar fields, where they name an existing second
    /// in a year from 0 to 9999.
    pub fn new(year: i32, month: u32, day: u32, hour: u32, minute: u32, second: u32) -> (r: Option<
        Timestamp,
    >)
        ensures
            r is Some <==> valid_fields(
                year as int,
                month as int,
                day as int,
                hour as int,
                minute as int,
                second as int,
            ),
            r is Some ==> r->0 == (Timestamp { year, month, day, hour, minute, second }),
    {
        if year < 0 || year > 9999 || month < 1 || month > 12 || day < 1 || hour >= 24 || minute
            >= 60 || second >= 60 {
            return None;
        }
        let last: u32 = if month == 2 {
            if is_leap_year(year) { 29 } else { 28 }
        } else if month == 4 || month == 6 || month == 9 || month == 11 {
            30
        } else {
            31
        };
        if day > last {
            None
        } else {
            Some(Timestamp { year, month, day, hour, minute, second })
        }
    }

    /// The timestamp as it is shown before a row.
    pub fn format(&self) -> (text: String)
        requires
            self.wf(),
        ensures
            text@ == self.label(),
    {
        let mut text = String::new();
        text.push('[');
        let inner = format_date_time(
            self.year,
            self.month,
            self.day,
            self.hour,
            self.minute,
            self.second,
        );
        text.append(inner.as_str());
        text.push(']');
        text.push(' ');
        assert(text@ =~= self.label());
        text
    }
}

} // verus!
