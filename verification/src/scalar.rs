//! Reading typed values out of the text of a node, shared by the plain-text
//! and form nodes.

use vstd::prelude::*;
use crate::api_error::{api_error_text, ApiError};
use crate::date_only::{parse_date, DateOnly};
use crate::date_time::{chrono_error_text, rfc3339_utc_text, UtcDateTime};
use crate::text::{chars_of, parse_integer, parse_integer_exec, same_text};
use crate::time_only::{parse_time, TimeOnly};
use crate::uuid_value::{is_uuid_text, lemma_uuid_text_injective, parse_uuid, uuid_error_text, uuid_from_text, uuid_text};

verus! {

/// Whether `r` is the outcome that `expected` describes: `None` for no value,
/// `Some(Ok(x))` for the value `x`, `Some(Err(m))` for an error with status
/// code 0 and message `m`.
pub open spec fn outcome_is<T>(r: Result<Option<T>, ApiError>, expected: Option<Result<T, Seq<char>>>) -> bool {
    match expected {
        None => r == Ok::<Option<T>, ApiError>(None),
        Some(Ok(x)) => r == Ok::<Option<T>, ApiError>(Some(x)),
        Some(Err(m)) => r matches Err(e) && e.status_code == 0 && e.message@ == m,
    }
}

/// The characters of the text, if there is one.
pub open spec fn text_of(v: Option<&str>) -> Option<Seq<char>> {
    match v {
        Some(s) => Some(s@),
        None => None,
    }
}

/// `f` applied to the text, if there is one.
pub open spec fn reading<T>(v: Option<Seq<char>>, f: spec_fn(Seq<char>) -> Result<T, Seq<char>>) -> Option<Result<T, Seq<char>>> {
    match v {
        None => None,
        Some(s) => Some(f(s)),
    }
}

/// `str::parse::<bool>`: `true` or `false` exactly.
pub open spec fn bool_reading(s: Seq<char>) -> Result<bool, Seq<char>> {
    if s == "true"@ {
        Ok(true)
    } else if s == "false"@ {
        Ok(false)
    } else {
        Err("Cannot parse bool: provided string was not `true` or `false`"@)
    }
}

/// An `i32` as `str::parse` reads it, or the message naming why not.
pub open spec fn i32_reading(s: Seq<char>) -> Result<i32, Seq<char>> {
    match parse_integer(s, true, i32::MIN as int, i32::MAX as int) {
        Ok(v) => Ok(v as i32),
        Err(e) => Err("Cannot parse i32: "@ + e.spec_text()),
    }
}

/// An `i64` as `str::parse` reads it, or the message naming why not.
pub open spec fn i64_reading(s: Seq<char>) -> Result<i64, Seq<char>> {
    match parse_integer(s, true, i64::MIN as int, i64::MAX as int) {
        Ok(v) => Ok(v as i64),
        Err(e) => Err("Cannot parse i64: "@ + e.spec_text()),
    }
}

/// A date, or the message of the error: the date's own error as it displays.
pub open spec fn date_reading(s: Seq<char>) -> Result<DateOnly, Seq<char>> {
    match parse_date(s) {
        Ok(d) => Ok(d),
        Err(m) => Err("Cannot parse DateOnly: "@ + api_error_text(0, m)),
    }
}

/// A time, or the message of the error: the time's own error as it displays.
pub open spec fn time_reading(s: Seq<char>) -> Result<TimeOnly, Seq<char>> {
    match parse_time(s) {
        Ok(t) => Ok(t),
        Err(m) => Err("Cannot parse TimeOnly: "@ + api_error_text(0, m)),
    }
}

/// An error with status code 0 and the message `prefix` + `detail`.
pub fn error_with(prefix: &str, detail: &str) -> (r: ApiError)
    ensures
        r.status_code == 0,
        r.message@ == prefix@ + detail@,
{
    let mut m = String::from_str(prefix);
    m.append(detail);
    ApiError::new(0, m.as_str())
}

/// Reads `true` or `false`.
pub fn read_bool(v: Option<&str>) -> (r: Result<Option<bool>, ApiError>)
    ensures
        outcome_is(r, reading(text_of(v), |s: Seq<char>| bool_reading(s))),
{
    match v {
        None => Ok(None),
        Some(s) => {
            if same_text(s, "true") {
                Ok(Some(true))
            } else if same_text(s, "false") {
                Ok(Some(false))
            } else {
                Err(ApiError::new(0, "Cannot parse bool: provided string was not `true` or `false`"))
            }
        },
    }
}

/// Reads an `i32` as `str::parse` does.
pub fn read_i32(v: Option<&str>) -> (r: Result<Option<i32>, ApiError>)
    ensures
        outcome_is(r, reading(text_of(v), |s: Seq<char>| i32_reading(s))),
{
    match v {
        None => Ok(None),
        Some(s) => {
            let cs = chars_of(s);
            match parse_integer_exec(cs.as_slice(), true, i32::MIN as i128, i32::MAX as i128) {
                Ok(x) => Ok(Some(x as i32)),
                Err(e) => Err(error_with("Cannot parse i32: ", e.text())),
            }
        },
    }
}

/// Reads an `i64` as `str::parse` does.
pub fn read_i64(v: Option<&str>) -> (r: Result<Option<i64>, ApiError>)
    ensures
        outcome_is(r, reading(text_of(v), |s: Seq<char>| i64_reading(s))),
{
    match v {
        None => Ok(None),
        Some(s) => {
            let cs = chars_of(s);
            match parse_integer_exec(cs.as_slice(), true, i64::MIN as i128, i64::MAX as i128) {
                Ok(x) => Ok(Some(x as i64)),
                Err(e) => Err(error_with("Cannot parse i64: ", e.text())),
            }
        },
    }
}

/// Reads a UUID as `uuid::Uuid::parse_str` does; the message of the error is
/// `Cannot parse UUID: ` followed by the text of the crate's error.
pub fn read_uuid(v: Option<&str>) -> (r: Result<Option<u128>, ApiError>)
    ensures
        v is None ==> r == Ok::<Option<u128>, ApiError>(None),
        v matches Some(s) ==> match r {
            Ok(Some(x)) => uuid_from_text(s@) == Some(x),
            Ok(None) => false,
            Err(e) => uuid_from_text(s@) is None && e.status_code == 0
                && e.message@.take(19) == "Cannot parse UUID: "@,
        },
        forall|x: u128| text_of(v) == Some(#[trigger] uuid_text(x)) ==> r == Ok::<Option<u128>, ApiError>(Some(x)),
{
    match v {
        None => Ok(None),
        Some(s) => match parse_uuid(s) {
            Ok(x) => {
                proof {
                    assert forall|y: u128| text_of(v) == Some(#[trigger] uuid_text(y)) implies x == y by {
                        assert(is_uuid_text(s@));
                        lemma_uuid_text_injective(x, y);
                    }
                }
                Ok(Some(x))
            },
            Err(e) => {
                let t = uuid_error_text(&e);
                let r = error_with("Cannot parse UUID: ", t.as_str());
                proof {
                    reveal_strlit("Cannot parse UUID: ");
                    assert forall|y: u128| text_of(v) != Some(#[trigger] uuid_text(y)) by {
                        if text_of(v) == Some(uuid_text(y)) {
                            assert(is_uuid_text(s@));
                        }
                    }
                }
                assert(r.message@.take(19) =~= "Cannot parse UUID: "@);
                Err(r)
            },
        },
    }
}

/// Reads a `YYYY-MM-DD` date.
pub fn read_date(v: Option<&str>) -> (r: Result<Option<DateOnly>, ApiError>)
    ensures
        outcome_is(r, reading(text_of(v), |s: Seq<char>| date_reading(s))),
{
    match v {
        None => Ok(None),
        Some(s) => match DateOnly::parse(s) {
            Ok(d) => Ok(Some(d)),
            Err(e) => {
                let t = e.to_string();
                Err(error_with("Cannot parse DateOnly: ", t.as_str()))
            },
        },
    }
}

/// Reads an `HH:MM:SS` time.
pub fn read_time(v: Option<&str>) -> (r: Result<Option<TimeOnly>, ApiError>)
    ensures
        outcome_is(r, reading(text_of(v), |s: Seq<char>| time_reading(s))),
{
    match v {
        None => Ok(None),
        Some(s) => match TimeOnly::parse(s) {
            Ok(d) => Ok(Some(d)),
            Err(e) => {
                let t = e.to_string();
                Err(error_with("Cannot parse TimeOnly: ", t.as_str()))
            },
        },
    }
}

/// Reads an RFC 3339 date and time as `DateTime::parse_from_rfc3339` does;
/// the message of the error is `Cannot parse DateTime: ` and chrono's text.
pub fn read_date_time(v: Option<&str>) -> (r: Result<Option<UtcDateTime>, ApiError>)
    ensures
        v is None ==> r matches Ok(None),
        v matches Some(s) ==> match r {
            Ok(Some(t)) => rfc3339_utc_text(s@) == Some(t.spec_text()),
            Ok(None) => false,
            Err(e) => rfc3339_utc_text(s@) is None && e.status_code == 0
                && e.message@.take(23) == "Cannot parse DateTime: "@,
        },
{
    match v {
        None => Ok(None),
        Some(s) => match UtcDateTime::parse_rfc3339(s) {
            Ok(t) => Ok(Some(t)),
            Err(e) => {
                let t = chrono_error_text(&e);
                let r = error_with("Cannot parse DateTime: ", t.as_str());
                proof { reveal_strlit("Cannot parse DateTime: "); }
                assert(r.message@.take(23) =~= "Cannot parse DateTime: "@);
                Err(r)
            },
        },
    }
}

} // verus!
