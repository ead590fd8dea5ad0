//! A time of day without date or time zone, written `HH:MM:SS`.

use vstd::prelude::*;
use chrono::Timelike;
use crate::api_error::ApiError;
use crate::text::{
    chars_of, decimal_digits, lemma_padded_digits, lemma_parse_padded, lemma_split_three,
    parse_integer, parse_integer_exec, push_char, push_padded_u64, split_chars, split_on,
    zero_padded,
};

verus! {

/// A time of day: hour, minute and second.
#[derive(Clone, Copy, Debug, PartialEq, Eq, Hash, Structural)]
pub struct TimeOnly {
    /// The hour, 0 to 23 (`parse` holds to that; `new` takes what it is given).
    pub hour: u32,
    /// The minute, 0 to 59 (`parse` holds to that; `new` takes what it is given).
    pub minute: u32,
    /// The second, 0 to 59 (`parse` holds to that; `new` takes what it is given).
    pub second: u32,
}

/// `HH:MM:SS`, each part zero-padded to two places.
pub open spec fn time_text(t: TimeOnly) -> Seq<char> {
    zero_padded(decimal_digits(t.hour as nat), 2) + seq![':'] + zero_padded(decimal_digits(t.minute as nat), 2)
        + seq![':'] + zero_padded(decimal_digits(t.second as nat), 2)
}

/// What reading `s` as a time gives: the time, or the message of the error.
/// `s` must split at `:` into exactly three pieces, each read as a `u32`:
/// an hour below 24, a minute and a second below 60.
pub open spec fn parse_time(s: Seq<char>) -> Result<TimeOnly, Seq<char>> {
    let parts = split_on(s, ':');
    if parts.len() != 3 {
        Err("invalid time format, expected HH:MM:SS: "@ + s)
    } else {
        match parse_integer(parts[0], false, 0, u32::MAX as int) {
            Err(e) => Err("invalid hour in time '"@ + s + "': "@ + e.spec_text()),
            Ok(h) => if h > 23 {
                Err("invalid hour in time '"@ + s + "': "@ + "out of range 0 to 23"@)
            } else {
                match parse_integer(parts[1], false, 0, u32::MAX as int) {
                    Err(e) => Err("invalid minute in time '"@ + s + "': "@ + e.spec_text()),
                    Ok(m) => if m > 59 {
                        Err("invalid minute in time '"@ + s + "': "@ + "out of range 0 to 59"@)
                    } else {
                        match parse_integer(parts[2], false, 0, u32::MAX as int) {
                            Err(e) => Err("invalid second in time '"@ + s + "': "@ + e.spec_text()),
                            Ok(sec) => if sec > 59 {
                                Err("invalid second in time '"@ + s + "': "@ + "out of range 0 to 59"@)
                            } else {
                                Ok(TimeOnly { hour: h as u32, minute: m as u32, second: sec as u32 })
                            },
                        }
                    },
                }
            },
        }
    }
}

/// Whether the time exists on a clock, which is what `chrono::NaiveTime` holds.
pub open spec fn is_valid_time(h: int, m: int, s: int) -> bool {
    0 <= h < 24 && 0 <= m < 60 && 0 <= s < 60
}

fn message4(a: &str, s: &str, b: &str, c: &str) -> (r: ApiError)
    ensures
        r.status_code == 0,
        r.message@ == a@ + s@ + b@ + c@,
{
    let mut m = String::from_str(a);
    m.append(s);
    m.append(b);
    m.append(c);
    ApiError::new(0, m.as_str())
}

impl TimeOnly {
    pub fn new(hour: u32, minute: u32, second: u32) -> (r: Self)
        ensures
            r == (TimeOnly { hour, minute, second }),
    {
        TimeOnly { hour, minute, second }
    }

    /// The time as `HH:MM:SS`.
    pub fn to_string(&self) -> (r: String)
        ensures
            r@ == time_text(*self),
    {
        let mut out = String::new();
        push_padded_u64(&mut out, self.hour as u64, 2);
        push_char(&mut out, ':');
        push_padded_u64(&mut out, self.minute as u64, 2);
        push_char(&mut out, ':');
        push_padded_u64(&mut out, self.second as u64, 2);
        out
    }

    /// Reads a time written `HH:MM:SS`; the error has status code 0 and
    /// names the piece that could not be read.
    pub fn parse(s: &str) -> (r: Result<Self, ApiError>)
        ensures
            match r {
                Ok(t) => parse_time(s@) == Ok::<TimeOnly, Seq<char>>(t),
                Err(e) => e.status_code == 0 && parse_time(s@) == Err::<TimeOnly, Seq<char>>(e.message@),
            },
            r matches Ok(t) ==> is_valid_time(t.hour as int, t.minute as int, t.second as int),
    {
        let chars = chars_of(s);
        let parts = split_chars(chars.as_slice(), ':');
        if parts.len() != 3 {
            let mut m = String::from_str("invalid time format, expected HH:MM:SS: ");
            m.append(s);
            return Err(ApiError::new(0, m.as_str()));
        }
        assert(parts@[0]@ == split_on(s@, ':')[0]);
        assert(parts@[1]@ == split_on(s@, ':')[1]);
        assert(parts@[2]@ == split_on(s@, ':')[2]);
        let hour = match parse_integer_exec(parts[0].as_slice(), false, 0, u32::MAX as i128) {
            Ok(v) => v as u32,
            Err(e) => { return Err(message4("invalid hour in time '", s, "': ", e.text())); },
        };
        if hour > 23 {
            return Err(message4("invalid hour in time '", s, "': ", "out of range 0 to 23"));
        }
        let minute = match parse_integer_exec(parts[1].as_slice(), false, 0, u32::MAX as i128) {
            Ok(v) => v as u32,
            Err(e) => { return Err(message4("invalid minute in time '", s, "': ", e.text())); },
        };
        if minute > 59 {
            return Err(message4("invalid minute in time '", s, "': ", "out of range 0 to 59"));
        }
        let second = match parse_integer_exec(parts[2].as_slice(), false, 0, u32::MAX as i128) {
            Ok(v) => v as u32,
            Err(e) => { return Err(message4("invalid second in time '", s, "': ", e.text())); },
        };
        if second > 59 {
            return Err(message4("invalid second in time '", s, "': ", "out of range 0 to 59"));
        }
        Ok(TimeOnly { hour, minute, second })
    }

    /// The time as a `chrono::NaiveTime`; the time must exist on a clock.
    pub fn to_naive_time(self) -> (r: chrono::NaiveTime)
        requires
            is_valid_time(self.hour as int, self.minute as int, self.second as int),
        ensures
            r == naive_time_hms(self.hour, self.minute, self.second),
    {
        naive_time_from_hms(self.hour, self.minute, self.second).unwrap()
    }

    /// The hour, minute and second of a `chrono::NaiveTime`: for the time
    /// that `to_naive_time` makes of a `TimeOnly`, that `TimeOnly` again.
    pub fn from_naive_time(t: chrono::NaiveTime) -> (r: Self)
        ensures
            is_valid_time(r.hour as int, r.minute as int, r.second as int),
            forall|h: u32, m: u32, sec: u32| is_valid_time(h as int, m as int, sec as int)
                && t == #[trigger] naive_time_hms(h, m, sec) ==> r == (TimeOnly { hour: h, minute: m, second: sec }),
    {
        TimeOnly { hour: naive_time_hour(&t), minute: naive_time_minute(&t), second: naive_time_second(&t) }
    }
}

/// Writing a time that exists on a clock and reading it back gives the same
/// time.
pub proof fn lemma_time_text_parses_back(t: TimeOnly)
    requires
        is_valid_time(t.hour as int, t.minute as int, t.second as int),
    ensures
        parse_time(time_text(t)) == Ok::<TimeOnly, Seq<char>>(t),
{
    let h = zero_padded(decimal_digits(t.hour as nat), 2);
    let m = zero_padded(decimal_digits(t.minute as nat), 2);
    let sec = zero_padded(decimal_digits(t.second as nat), 2);
    lemma_padded_digits(t.hour as nat, 2);
    lemma_padded_digits(t.minute as nat, 2);
    lemma_padded_digits(t.second as nat, 2);
    assert(!h.contains(':'));
    assert(!m.contains(':'));
    assert(!sec.contains(':'));
    lemma_split_three(h, m, sec, ':');
    lemma_parse_padded(t.hour as nat, 2, false, 0, u32::MAX as int);
    lemma_parse_padded(t.minute as nat, 2, false, 0, u32::MAX as int);
    lemma_parse_padded(t.second as nat, 2, false, 0, u32::MAX as int);
}

#[verifier::external_type_specification]
#[verifier::external_body]
pub struct ExNaiveTime(chrono::NaiveTime);

/// The time that `chrono::NaiveTime::from_hms_opt(hour, minute, second)`
/// makes, where it makes one.
pub uninterp spec fn naive_time_hms(hour: u32, minute: u32, second: u32) -> chrono::NaiveTime;

/// `chrono::NaiveTime::from_hms_opt`: a time exactly when hour, minute and
/// second are below 24, 60 and 60 (its source rejects the rest); the time is
/// named `naive_time_hms`.
#[verifier::external_body]
fn naive_time_from_hms(hour: u32, minute: u32, second: u32) -> (r: Option<chrono::NaiveTime>)
    ensures
        r is Some <==> is_valid_time(hour as int, minute as int, second as int),
        r matches Some(x) ==> x == naive_time_hms(hour, minute, second),
{
    chrono::NaiveTime::from_hms_opt(hour, minute, second)
}

/// `Timelike::hour`: from 0 to 23, as documented, and the hour of the time it was made from.
#[verifier::external_body]
fn naive_time_hour(t: &chrono::NaiveTime) -> (r: u32)
    ensures
        r < 24,
        forall|h: u32, m: u32, sec: u32| is_valid_time(h as int, m as int, sec as int)
            && *t == #[trigger] naive_time_hms(h, m, sec) ==> r == h,
{
    t.hour()
}

/// `Timelike::minute`: from 0 to 59, as documented, and the minute of the time it was made from.
#[verifier::external_body]
fn naive_time_minute(t: &chrono::NaiveTime) -> (r: u32)
    ensures
        r < 60,
        forall|h: u32, m: u32, sec: u32| is_valid_time(h as int, m as int, sec as int)
            && *t == #[trigger] naive_time_hms(h, m, sec) ==> r == m,
{
    t.minute()
}

/// `Timelike::second`: from 0 to 59, as documented, and the second of the time it was made from.
#[verifier::external_body]
fn naive_time_second(t: &chrono::NaiveTime) -> (r: u32)
    ensures
        r < 60,
        forall|h: u32, m: u32, sec: u32| is_valid_time(h as int, m as int, sec as int)
            && *t == #[trigger] naive_time_hms(h, m, sec) ==> r == sec,
{
    t.second()
}

impl core::str::FromStr for TimeOnly {
    type Err = ApiError;

    /// Reads a time as `TimeOnly::parse` does.
    fn from_str(s: &str) -> (r: Result<Self, Self::Err>)
        ensures
            match r {
                Ok(t) => parse_time(s@) == Ok::<TimeOnly, Seq<char>>(t),
                Err(e) => e.status_code == 0 && parse_time(s@) == Err::<TimeOnly, Seq<char>>(e.message@),
            },
            r matches Ok(t) ==> is_valid_time(t.hour as int, t.minute as int, t.second as int),
    {
        TimeOnly::parse(s)
    }
}

} // verus!
