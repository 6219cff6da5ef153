//! Calendar dates. Reading a date from text and writing it out are done by
//! `chrono`; a date is kept here as its year, month and day.

use crate::digits::zero_padded;
use vstd::prelude::*;

verus! {

/// `chrono::ParseError`, the error of `parse_from_str`: a value of it is carried as it
/// is, and nothing is known of what it holds.
#[verifier::external_type_specification]
#[verifier::external_body]
pub struct ExChronoParseError(chrono::ParseError);

/// The first year that a date can lie in.
pub const MIN_YEAR: i32 = -262143;

/// The last year that a date can lie in.
pub const MAX_YEAR: i32 = 262142;

/// Leap years of the proleptic Gregorian calendar.
pub open spec fn is_leap_year(year: int) -> bool {
    year % 4 == 0 && (year % 100 != 0 || year % 400 == 0)
}

/// Number of days of a month; 0 for a month that does not exist.
pub open spec fn days_in_month(year: int, month: int) -> int {
    if month == 2 {
        if is_leap_year(year) {
            29
        } else {
            28
        }
    } else if month == 4 || month == 6 || month == 9 || month == 11 {
        30
    } else if 1 <= month <= 12 {
        31
    } else {
        0
    }
}

/// The day exists in the proleptic Gregorian calendar, in a year that a date
/// can lie in.
pub open spec fn valid_ymd(year: int, month: int, day: int) -> bool {
    &&& MIN_YEAR <= year <= MAX_YEAR
    &&& 1 <= month <= 12
    &&& 1 <= day <= days_in_month(year, month)
}

/// A year as `%Y` writes it: at least four digits, and a sign in front for a
/// year before 0 or after 9999.
pub open spec fn year_text(year: int) -> Seq<char> {
    if 0 <= year <= 9999 {
        zero_padded(year as nat, 4)
    } else if year < 0 {
        seq!['-'] + zero_padded((-year) as nat, 4)
    } else {
        seq!['+'] + zero_padded(year as nat, 4)
    }
}

/// A date as `%Y-%m-%d` writes it: the year, then month and day with two
/// digits each.
pub open spec fn iso_text(year: int, month: int, day: int) -> Seq<char> {
    year_text(year) + seq!['-'] + zero_padded(month as nat, 2) + seq!['-'] + zero_padded(
        day as nat,
        2,
    )
}

/// Year, month and day of the date that `NaiveDate::parse_from_str` reads
/// from a text under the pattern `%d.%m.%Y`; `None` where it reads none.
pub uninterp spec fn day_month_year(text: Seq<char>) -> Option<(int, int, int)>;

/// Year, month and day of the moment that `NaiveDateTime::parse_from_str`
/// reads from a text under the pattern `%Y-%m-%d %H:%M:%S`; `None` where it
/// reads none.
pub uninterp spec fn timestamp_day(text: Seq<char>) -> Option<(int, int, int)>;

/// `NaiveDate::parse_from_str` with the pattern `%d.%m.%Y`, and the year,
/// month and day of the date it returns. The result depends on the text
/// alone.
#[verifier::external_body]
fn chrono_day_month_year(text: &str) -> (r: Result<(i32, u32, u32), chrono::ParseError>)
    ensures
        match r {
            Ok(ymd) => day_month_year(text@) == Some((ymd.0 as int, ymd.1 as int, ymd.2 as int)),
            Err(_) => day_month_year(text@) is None,
        },
{
    chrono::NaiveDate::parse_from_str(text, "%d.%m.%Y").map(
        |d| (chrono::Datelike::year(&d), chrono::Datelike::month(&d), chrono::Datelike::day(&d)),
    )
}

/// `NaiveDateTime::parse_from_str` with the pattern `%Y-%m-%d %H:%M:%S`, and
/// the year, month and day of the moment it returns. The result depends on
/// the text alone.
#[verifier::external_body]
fn chrono_timestamp_day(text: &str) -> (r: Result<(i32, u32, u32), chrono::ParseError>)
    ensures
        match r {
            Ok(ymd) => timestamp_day(text@) == Some((ymd.0 as int, ymd.1 as int, ymd.2 as int)),
            Err(_) => timestamp_day(text@) is None,
        },
{
    chrono::NaiveDateTime::parse_from_str(text, "%Y-%m-%d %H:%M:%S").map(
        |t| (chrono::Datelike::year(&t), chrono::Datelike::month(&t), chrono::Datelike::day(&t)),
    )
}

/// `NaiveDate::format` with the pattern `%Y-%m-%d`, on the date that
/// `NaiveDate::from_ymd_opt` makes of a year, a month and a day. For a day
/// that exists, `from_ymd_opt` returns a date; `%Y` writes the year with at
/// least four digits, signed outside 0..=9999; `%m` and `%d` write two digits.
#[verifier::external_body]
fn chrono_iso_text(year: i32, month: u32, day: u32) -> (r: String)
    requires
        valid_ymd(year as int, month as int, day as int),
    ensures
        r@ == iso_text(year as int, month as int, day as int),
{
    chrono::NaiveDate::from_ymd_opt(year, month, day).unwrap().format("%Y-%m-%d").to_string()
}

/// Year, month and day of a date, as numbers.
pub struct Ymd {
    pub year: int,
    pub month: int,
    pub day: int,
}

/// The date of given year, month and day, where that day exists.
pub open spec fn checked_ymd(fields: Option<(int, int, int)>) -> Option<Ymd> {
    match fields {
        Some((year, month, day)) => if valid_ymd(year, month, day) {
            Some(Ymd { year, month, day })
        } else {
            None
        },
        None => None,
    }
}

/// The date that a text of the form day, point, month, point, year writes.
pub open spec fn dmy_date(text: Seq<char>) -> Option<Ymd> {
    checked_ymd(day_month_year(text))
}

/// The day of the moment that a text of the form year, hyphen, month, hyphen,
/// day, blank, hour, colon, minute, colon, second writes.
pub open spec fn timestamp_date(text: Seq<char>) -> Option<Ymd> {
    checked_ymd(timestamp_day(text))
}

/// A day of the proleptic Gregorian calendar.
#[derive(Clone, Copy, Debug, PartialEq, Eq)]
pub struct Date {
    year: i32,
    month: u32,
    day: u32,
}

impl View for Date {
    type V = Ymd;

    closed spec fn view(&self) -> Ymd {
        Ymd { year: self.year as int, month: self.month as int, day: self.day as int }
    }
}

impl Date {
    #[verifier::type_invariant]
    closed spec fn is_a_day(self) -> bool {
        valid_ymd(self.year as int, self.month as int, self.day as int)
    }

    /// Two dates of the same year, month and day are the same date.
    pub proof fn same_view_same_date(self, other: Date)
        requires
            self@ == other@,
        ensures
            self == other,
    {
    }

    /// The date of given year, month and day, if that day exists.
    pub fn from_ymd(year: i32, month: u32, day: u32) -> (r: Option<Date>)
        ensures
            r is Some <==> valid_ymd(year as int, month as int, day as int),
            r matches Some(d) ==> d@ == (Ymd {
                year: year as int,
                month: month as int,
                day: day as int,
            }),
    {
        if year < MIN_YEAR || year > MAX_YEAR || month < 1 || month > 12 || day < 1 {
            return None;
        }
        let leap: bool = year % 4 == 0 && (year % 100 != 0 || year % 400 == 0);
        let days: u32 = if month == 2 {
            if leap {
                29
            } else {
                28
            }
        } else if month == 4 || month == 6 || month == 9 || month == 11 {
            30
        } else {
            31
        };
        if day > days {
            return None;
        }
        Some(Date { year, month, day })
    }

    /// The year.
    pub fn year(&self) -> (y: i32)
        ensures
            y == self@.year,
    {
        self.year
    }

    /// The month, from 1 to 12.
    pub fn month(&self) -> (m: u32)
        ensures
            m == self@.month,
            1 <= m <= 12,
    {
        proof {
            use_type_invariant(self);
        }
        self.month
    }

    /// The day of the month, from 1.
    pub fn day(&self) -> (d: u32)
        ensures
            d == self@.day,
            valid_ymd(self@.year, self@.month, self@.day),
    {
        proof {
            use_type_invariant(self);
        }
        self.day
    }

    /// Reads a date written as day, point, month, point, year.
    pub fn parse_dmy(text: &str) -> (r: Option<Date>)
        ensures
            match r {
                Some(d) => dmy_date(text@) == Some(d@),
                None => dmy_date(text@) is None,
            },
    {
        match chrono_day_month_year(text) {
            Ok(ymd) => Date::from_ymd(ymd.0, ymd.1, ymd.2),
            Err(_) => None,
        }
    }

    /// Reads a moment written as year, hyphen, month, hyphen, day, blank,
    /// hour, colon, minute, colon, second, and keeps its day.
    pub fn parse_timestamp(text: &str) -> (r: Option<Date>)
        ensures
            match r {
                Some(d) => timestamp_date(text@) == Some(d@),
                None => timestamp_date(text@) is None,
            },
    {
        match chrono_timestamp_day(text) {
            Ok(ymd) => Date::from_ymd(ymd.0, ymd.1, ymd.2),
            Err(_) => None,
        }
    }

    /// The date written as year, hyphen, month, hyphen, day.
    pub fn render(&self) -> (r: String)
        ensures
            r@ == iso_text(self@.year, self@.month, self@.day),
    {
        proof {
            use_type_invariant(self);
        }
        chrono_iso_text(self.year, self.month, self.day)
    }
}

} // verus!
