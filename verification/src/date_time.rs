//! Instants in UTC, held as the RFC 3339 text that `chrono` writes for them;
//! reading and writing that text is `chrono`'s.

use vstd::prelude::*;
use chrono::{DateTime, Utc};

verus! {

#[verifier::external_type_specification]
#[verifier::external_body]
pub struct ExChronoParseError(chrono::ParseError);

/// The RFC 3339 text, in UTC, of the instant that
/// `DateTime::parse_from_rfc3339` reads from `s`, if it accepts `s`.
pub uninterp spec fn rfc3339_utc_text(s: Seq<char>) -> Option<Seq<char>>;

/// The RFC 3339 text of the instant that `str::parse::<DateTime<Utc>>`
/// (relaxed RFC 3339) reads from `s`, if it accepts `s`.
pub uninterp spec fn relaxed_utc_text(s: Seq<char>) -> Option<Seq<char>>;

/// `DateTime::parse_from_rfc3339`, the instant taken to UTC and written with
/// `to_rfc3339`. The result is named `rfc3339_utc_text`; nothing more is
/// claimed of it.
#[verifier::external_body]
fn chrono_parse_rfc3339(s: &str) -> (r: Result<String, chrono::ParseError>)
    ensures
        r is Ok <==> rfc3339_utc_text(s@) is Some,
        r matches Ok(t) ==> rfc3339_utc_text(s@) == Some(t@),
{
    match DateTime::parse_from_rfc3339(s) {
        Ok(dt) => Ok(dt.with_timezone(&Utc).to_rfc3339()),
        Err(e) => Err(e),
    }
}

/// `str::parse::<DateTime<Utc>>`, the instant written with `to_rfc3339`. The
/// result is named `relaxed_utc_text`; nothing more is claimed of it.
#[verifier::external_body]
fn chrono_parse_relaxed(s: &str) -> (r: Result<String, chrono::ParseError>)
    ensures
        r is Ok <==> relaxed_utc_text(s@) is Some,
        r matches Ok(t) ==> relaxed_utc_text(s@) == Some(t@),
{
    match s.parse::<DateTime<Utc>>() {
        Ok(dt) => Ok(dt.to_rfc3339()),
        Err(e) => Err(e),
    }
}

/// The text a `chrono::ParseError` displays; nothing is stated of it.
#[verifier::external_body]
pub(crate) fn chrono_error_text(e: &chrono::ParseError) -> String {
    e.to_string()
}

/// An instant in UTC, held as its RFC 3339 text.
#[derive(Debug)]
pub struct UtcDateTime {
    text: String,
}

impl UtcDateTime {
    /// The RFC 3339 text of the instant.
    pub closed spec fn spec_text(&self) -> Seq<char> {
        self.text@
    }

    /// Reads an RFC 3339 date and time, as `DateTime::parse_from_rfc3339` does.
    pub fn parse_rfc3339(s: &str) -> (r: Result<UtcDateTime, chrono::ParseError>)
        ensures
            r is Ok <==> rfc3339_utc_text(s@) is Some,
            r matches Ok(t) ==> rfc3339_utc_text(s@) == Some(t.spec_text()),
    {
        match chrono_parse_rfc3339(s) {
            Ok(t) => Ok(UtcDateTime { text: t }),
            Err(e) => Err(e),
        }
    }

    /// Reads a date and time as `str::parse::<DateTime<Utc>>` does.
    pub fn parse_relaxed(s: &str) -> (r: Result<UtcDateTime, chrono::ParseError>)
        ensures
            r is Ok <==> relaxed_utc_text(s@) is Some,
            r matches Ok(t) ==> relaxed_utc_text(s@) == Some(t.spec_text()),
    {
        match chrono_parse_relaxed(s) {
            Ok(t) => Ok(UtcDateTime { text: t }),
            Err(e) => Err(e),
        }
    }

    /// The RFC 3339 text of the instant.
    pub fn to_rfc3339(&self) -> (r: String)
        ensures
            r@ == self.spec_text(),
    {
        self.text.clone()
    }
}

} // verus!
