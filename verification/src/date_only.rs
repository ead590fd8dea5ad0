//! A calendar date without time of day, written `YYYY-MM-DD`.

use vstd::prelude::*;
use chrono::Datelike;
use crate::api_error::ApiError;
use crate::text::{
    chars_of, decimal_digits, format_int, lemma_padded_digits, lemma_parse_padded, lemma_split_three,
    parse_integer, parse_integer_exec, push_char, push_padded_i64, push_padded_u64, split_chars,
    split_on, zero_padded,
};

verus! {

/// A calendar date: year, month and day, with no time of day or time zone.
#[derive(Clone, Copy, Debug, PartialEq, Eq, Hash, Structural)]
pub struct DateOnly {
    pub year: i32,
    /// The month, 1 to 12 (`parse` holds to that; `new` takes what it is given).
    pub month: u32,
    /// The day, 1 to 31 (`parse` holds to that; `new` takes what it is given).
    pub day: u32,
}

/// `YYYY-MM-DD`: the year zero-padded to four places (a minus sign counting
/// as one), month and day to two.
pub open spec fn date_text(d: DateOnly) -> Seq<char> {
    format_int(d.year as int, 4) + seq!['-'] + zero_padded(decimal_digits(d.month as nat), 2)
        + seq!['-'] + zero_padded(decimal_digits(d.day as nat), 2)
}

/// Whether the month is from 1 to 12 and the day from 1 to 31, the ranges
/// the fields are documented to take.
pub open spec fn date_fields_in_range(d: DateOnly) -> bool {
    1 <= d.month <= 12 && 1 <= d.day <= 31
}

/// What reading `s` as a date gives: the date, or the message of the error.
/// `s` must split at `-` into exactly three pieces, read as an `i32` year,
/// a `u32` month from 1 to 12 and a `u32` day from 1 to 31.
pub open spec fn parse_date(s: Seq<char>) -> Result<DateOnly, Seq<char>> {
    let parts = split_on(s, '-');
    if parts.len() != 3 {
        Err("invalid date format, expected YYYY-MM-DD: "@ + s)
    } else {
        match parse_integer(parts[0], true, i32::MIN as int, i32::MAX as int) {
            Err(e) => Err("invalid year in date '"@ + s + "': "@ + e.spec_text()),
            Ok(y) => match parse_integer(parts[1], false, 0, u32::MAX as int) {
                Err(e) => Err("invalid month in date '"@ + s + "': "@ + e.spec_text()),
                Ok(m) => if !(1 <= m <= 12) {
                    Err("invalid month in date '"@ + s + "': "@ + "out of range 1 to 12"@)
                } else {
                    match parse_integer(parts[2], false, 0, u32::MAX as int) {
                        Err(e) => Err("invalid day in date '"@ + s + "': "@ + e.spec_text()),
                        Ok(d) => if !(1 <= d <= 31) {
                            Err("invalid day in date '"@ + s + "': "@ + "out of range 1 to 31"@)
                        } else {
                            Ok(DateOnly { year: y as i32, month: m as u32, day: d as u32 })
                        },
                    }
                },
            },
        }
    }
}

/// Whether `y` is a leap year of the proleptic Gregorian calendar.
pub open spec fn is_leap_year(y: int) -> bool {
    (y % 4 == 0 && y % 100 != 0) || y % 400 == 0
}

/// The number of days of month `m` (1 to 12) of year `y`.
pub open spec fn days_in_month(y: int, m: int) -> int {
    if m == 2 {
        if is_leap_year(y) { 29 } else { 28 }
    } else if m == 4 || m == 6 || m == 9 || m == 11 {
        30
    } else {
        31
    }
}

/// The earliest and latest years that `chrono::NaiveDate` represents.
pub open spec fn naive_date_min_year() -> int { -262143 }
pub open spec fn naive_date_max_year() -> int { 262142 }

/// Whether `(y, m, d)` names a day that `chrono::NaiveDate` can hold.
pub open spec fn is_valid_date(y: int, m: int, d: int) -> bool {
    &&& naive_date_min_year() <= y <= naive_date_max_year()
    &&& 1 <= m <= 12
    &&& 1 <= d <= days_in_month(y, m)
}

/// Builds the error for a message made of `a`, `s`, `b` and `c` in turn.
fn message4(a: &str, s: &str, b: &str, c: &str) -> (r: ApiError)
    ensures
        r.status_code == 0,
        r.message@ == a@ + s@ + b@ + c@,
{
    let mut m = String::from_str(a);
    m.append(s);
    m.append(b);
    m.append(c);
    ApiError::new(0, m.as_str())
}

impl DateOnly {
    pub fn new(year: i32, month: u32, day: u32) -> (r: Self)
        ensures
            r == (DateOnly { year, month, day }),
    {
        DateOnly { year, month, day }
    }

    /// The date as `YYYY-MM-DD`.
    pub fn to_string(&self) -> (r: String)
        ensures
            r@ == date_text(*self),
    {
        let mut out = String::new();
        push_padded_i64(&mut out, self.year as i64, 4);
        push_char(&mut out, '-');
        push_padded_u64(&mut out, self.month as u64, 2);
        push_char(&mut out, '-');
        push_padded_u64(&mut out, self.day as u64, 2);
        out
    }

    /// Reads a date written `YYYY-MM-DD`; the error has status code 0 and
    /// names the piece that could not be read.
    pub fn parse(s: &str) -> (r: Result<Self, ApiError>)
        ensures
            match r {
                Ok(d) => parse_date(s@) == Ok::<DateOnly, Seq<char>>(d),
                Err(e) => e.status_code == 0 && parse_date(s@) == Err::<DateOnly, Seq<char>>(e.message@),
            },
            r matches Ok(d) ==> date_fields_in_range(d),
    {
        let chars = chars_of(s);
        let parts = split_chars(chars.as_slice(), '-');
        if parts.len() != 3 {
            let mut m = String::from_str("invalid date format, expected YYYY-MM-DD: ");
            m.append(s);
            return Err(ApiError::new(0, m.as_str()));
        }
        assert(parts@[0]@ == split_on(s@, '-')[0]);
        assert(parts@[1]@ == split_on(s@, '-')[1]);
        assert(parts@[2]@ == split_on(s@, '-')[2]);
        let year = match parse_integer_exec(parts[0].as_slice(), true, i32::MIN as i128, i32::MAX as i128) {
            Ok(v) => v as i32,
            Err(e) => { return Err(message4("invalid year in date '", s, "': ", e.text())); },
        };
        let month = match parse_integer_exec(parts[1].as_slice(), false, 0, u32::MAX as i128) {
            Ok(v) => v as u32,
            Err(e) => { return Err(message4("invalid month in date '", s, "': ", e.text())); },
        };
        if month < 1 || month > 12 {
            return Err(message4("invalid month in date '", s, "': ", "out of range 1 to 12"));
        }
        let day = match parse_integer_exec(parts[2].as_slice(), false, 0, u32::MAX as i128) {
            Ok(v) => v as u32,
            Err(e) => { return Err(message4("invalid day in date '", s, "': ", e.text())); },
        };
        if day < 1 || day > 31 {
            return Err(message4("invalid day in date '", s, "': ", "out of range 1 to 31"));
        }
        Ok(DateOnly { year, month, day })
    }

    /// The date as a `chrono::NaiveDate`; the date must exist in the calendar
    /// and lie in the range that `NaiveDate` covers.
    pub fn to_naive_date(self) -> (r: chrono::NaiveDate)
        requires
            is_valid_date(self.year as int, self.month as int, self.day as int),
        ensures
            r == naive_date_ymd(self.year, self.month, self.day),
    {
        naive_date_from_ymd(self.year, self.month, self.day).unwrap()
    }

    /// The year, month and day of a `chrono::NaiveDate`: for the date that
    /// `to_naive_date` makes of a `DateOnly`, that `DateOnly` again.
    pub fn from_naive_date(d: chrono::NaiveDate) -> (r: Self)
        ensures
            naive_date_min_year() <= r.year <= naive_date_max_year(),
            1 <= r.month <= 12,
            1 <= r.day <= 31,
            forall|y: i32, m: u32, dd: u32| is_valid_date(y as int, m as int, dd as int)
                && d == #[trigger] naive_date_ymd(y, m, dd) ==> r == (DateOnly { year: y, month: m, day: dd }),
    {
        DateOnly { year: naive_date_year(&d), month: naive_date_month(&d), day: naive_date_day(&d) }
    }
}

/// Writing a date with a year of 0 or more and fields in their ranges, and
/// reading it back, gives the same date.
pub proof fn lemma_date_text_parses_back(d: DateOnly)
    requires
        d.year >= 0,
        date_fields_in_range(d),
    ensures
        parse_date(date_text(d)) == Ok::<DateOnly, Seq<char>>(d),
{
    let y = zero_padded(decimal_digits(d.year as nat), 4);
    let m = zero_padded(decimal_digits(d.month as nat), 2);
    let dd = zero_padded(decimal_digits(d.day as nat), 2);
    lemma_padded_digits(d.year as nat, 4);
    lemma_padded_digits(d.month as nat, 2);
    lemma_padded_digits(d.day as nat, 2);
    assert(!y.contains('-'));
    assert(!m.contains('-'));
    assert(!dd.contains('-'));
    lemma_split_three(y, m, dd, '-');
    lemma_parse_padded(d.year as nat, 4, true, i32::MIN as int, i32::MAX as int);
    lemma_parse_padded(d.month as nat, 2, false, 0, u32::MAX as int);
    lemma_parse_padded(d.day as nat, 2, false, 0, u32::MAX as int);
}

#[verifier::external_type_specification]
#[verifier::external_body]
pub struct ExNaiveDate(chrono::NaiveDate);

/// The date that `chrono::NaiveDate::from_ymd_opt(year, month, day)` makes,
/// where it makes one.
pub uninterp spec fn naive_date_ymd(year: i32, month: u32, day: u32) -> chrono::NaiveDate;

/// `chrono::NaiveDate::from_ymd_opt`: a date exactly when `(year, month, day)`
/// is a day of the proleptic Gregorian calendar within `NaiveDate`'s range,
/// as its documentation states; the date is named `naive_date_ymd`.
#[verifier::external_body]
fn naive_date_from_ymd(year: i32, month: u32, day: u32) -> (r: Option<chrono::NaiveDate>)
    ensures
        r is Some <==> is_valid_date(year as int, month as int, day as int),
        r matches Some(x) ==> x == naive_date_ymd(year, month, day),
{
    chrono::NaiveDate::from_ymd_opt(year, month, day)
}

/// `Datelike::year` of a `NaiveDate`: within `NaiveDate`'s range of years,
/// and, as documented, the year of the calendar date the `NaiveDate` was
/// made from.
#[verifier::external_body]
fn naive_date_year(d: &chrono::NaiveDate) -> (r: i32)
    ensures
        naive_date_min_year() <= r <= naive_date_max_year(),
        forall|y: i32, m: u32, dd: u32| is_valid_date(y as int, m as int, dd as int)
            && *d == #[trigger] naive_date_ymd(y, m, dd) ==> r == y,
{
    d.year()
}

/// `Datelike::month` of a `NaiveDate`: from 1 to 12, and the month of the
/// calendar date it was made from, as documented.
#[verifier::external_body]
fn naive_date_month(d: &chrono::NaiveDate) -> (r: u32)
    ensures
        1 <= r <= 12,
        forall|y: i32, m: u32, dd: u32| is_valid_date(y as int, m as int, dd as int)
            && *d == #[trigger] naive_date_ymd(y, m, dd) ==> r == m,
{
    d.month()
}

/// `Datelike::day` of a `NaiveDate`: from 1 to 31, and the day of the
/// calendar date it was made from, as documented.
#[verifier::external_body]
fn naive_date_day(d: &chrono::NaiveDate) -> (r: u32)
    ensures
        1 <= r <= 31,
        forall|y: i32, m: u32, dd: u32| is_valid_date(y as int, m as int, dd as int)
            && *d == #[trigger] naive_date_ymd(y, m, dd) ==> r == dd,
{
    d.day()
}

impl core::str::FromStr for DateOnly {
    type Err = ApiError;

    /// Reads a date as `DateOnly::parse` does.
    fn from_str(s: &str) -> (r: Result<Self, Self::Err>)
        ensures
            match r {
                Ok(d) => parse_date(s@) == Ok::<DateOnly, Seq<char>>(d),
                Err(e) => e.status_code == 0 && parse_date(s@) == Err::<DateOnly, Seq<char>>(e.message@),
            },
            r matches Ok(d) ==> date_fields_in_range(d),
    {
        DateOnly::parse(s)
    }
}

} // verus!
