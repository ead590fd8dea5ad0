//! The `text/plain` writer: one value, the last one written.

use vstd::prelude::*;
use crate::api_error::ApiError;
use crate::date_only::{date_fields_in_range, date_text, lemma_date_text_parses_back, DateOnly};
use crate::date_time::UtcDateTime;
use crate::text::{format_int, push_padded_i64, same_text, trim_end, trim_start, utf8_bytes};
use crate::scalar::{bool_reading, date_reading, i32_reading, i64_reading, reading, time_reading};
use crate::text::{decimal_digits, lemma_format_int_reads_back, lemma_padded_digits, lemma_trim_unchanged, zero_padded};
use crate::text_parse_node::{text_content_type, text_value, text_wrong_type_message};
use crate::time_only::{is_valid_time, lemma_time_text_parses_back, time_text, TimeOnly};
use crate::uuid_value::{lemma_uuid_text_shape, uuid_text, uuid_to_text};

verus! {

/// Writes a single plain-text value; each write replaces the value before it.
pub struct TextSerializationWriter {
    value: Option<String>,
}

impl TextSerializationWriter {
    /// The value written last, if any.
    pub closed spec fn spec_value(&self) -> Option<Seq<char>> {
        match self.value {
            Some(s) => Some(s@),
            None => None,
        }
    }

    pub fn new() -> (r: Self)
        ensures
            r.spec_value() is None,
    {
        TextSerializationWriter { value: None }
    }

    fn set(&mut self, text: String)
        ensures
            final(self).spec_value() == Some(text@),
    {
        self.value = Some(text);
    }

    /// Makes `value` the value; the key is not used.
    pub fn write_string_value(&mut self, key: &str, value: &str) -> (r: Result<(), ApiError>)
        ensures
            r is Ok,
            final(self).spec_value() == Some(value@),
    {
        self.set(String::from_str(value));
        Ok(())
    }

    /// Makes `true` or `false` the value.
    pub fn write_bool_value(&mut self, key: &str, value: bool) -> (r: Result<(), ApiError>)
        ensures
            r is Ok,
            final(self).spec_value() == Some(if value { "true"@ } else { "false"@ }),
    {
        let t = if value { "true" } else { "false" };
        self.write_string_value(key, t)
    }

    /// Makes the decimal form of `value` the value.
    pub fn write_i32_value(&mut self, key: &str, value: i32) -> (r: Result<(), ApiError>)
        ensures
            r is Ok,
            final(self).spec_value() == Some(format_int(value as int, 0)),
    {
        self.write_i64_value(key, value as i64)
    }

    /// Makes the decimal form of `value` the value.
    pub fn write_i64_value(&mut self, key: &str, value: i64) -> (r: Result<(), ApiError>)
        ensures
            r is Ok,
            final(self).spec_value() == Some(format_int(value as int, 0)),
    {
        let mut t = String::new();
        push_padded_i64(&mut t, value, 0);
        self.set(t);
        Ok(())
    }

    /// Makes the hyphenated text of the UUID the value.
    pub fn write_uuid_value(&mut self, key: &str, value: u128) -> (r: Result<(), ApiError>)
        ensures
            r is Ok,
            final(self).spec_value() == Some(uuid_text(value)),
    {
        self.set(uuid_to_text(value));
        Ok(())
    }

    /// Makes `YYYY-MM-DD` the value.
    pub fn write_date_only_value(&mut self, key: &str, value: &DateOnly) -> (r: Result<(), ApiError>)
        ensures
            r is Ok,
            final(self).spec_value() == Some(date_text(*value)),
    {
        self.set(value.to_string());
        Ok(())
    }

    /// Makes `HH:MM:SS` the value.
    pub fn write_time_only_value(&mut self, key: &str, value: &TimeOnly) -> (r: Result<(), ApiError>)
        ensures
            r is Ok,
            final(self).spec_value() == Some(time_text(*value)),
    {
        self.set(value.to_string());
        Ok(())
    }

    /// Makes the RFC 3339 text of the instant the value.
    pub fn write_datetime_value(&mut self, key: &str, value: &UtcDateTime) -> (r: Result<(), ApiError>)
        ensures
            r is Ok,
            final(self).spec_value() == Some(value.spec_text()),
    {
        self.set(value.to_rfc3339());
        Ok(())
    }

    /// Plain text holds no objects: always an error, and nothing is written.
    pub fn write_object_value<T: ?Sized>(&mut self, key: &str, value: &T) -> (r: Result<(), ApiError>)
        ensures
            r matches Err(e) && e.status_code == 0 && e.message@ == "Text/plain does not support object serialization"@,
            final(self).spec_value() == old(self).spec_value(),
    {
        Err(ApiError::new(0, "Text/plain does not support object serialization"))
    }

    /// Plain text holds no collections: always an error, and nothing is written.
    pub fn write_collection_of_object_values<T>(&mut self, key: &str, values: &[T]) -> (r: Result<(), ApiError>)
        ensures
            r matches Err(e) && e.status_code == 0 && e.message@ == "Text/plain does not support collections"@,
            final(self).spec_value() == old(self).spec_value(),
    {
        Err(ApiError::new(0, "Text/plain does not support collections"))
    }

    /// Additional data has no place in plain text: it is ignored.
    pub fn write_additional_data<D: ?Sized>(&mut self, data: &D) -> (r: Result<(), ApiError>)
        ensures
            r is Ok,
            final(self).spec_value() == old(self).spec_value(),
    {
        Ok(())
    }

    /// The UTF-8 bytes of the value, or nothing when no value was written.
    pub fn get_serialized_content(&self) -> (r: Result<Vec<u8>, ApiError>)
        ensures
            r matches Ok(b) && b@ == match self.spec_value() {
                Some(v) => vstd::utf8::encode_utf8(v),
                None => Seq::<u8>::empty(),
            },
    {
        match &self.value {
            Some(v) => Ok(utf8_bytes(v.as_str())),
            None => Ok(Vec::new()),
        }
    }
}

/// Makes `TextSerializationWriter`s for `text/plain`.
pub struct TextSerializationWriterFactory;

impl TextSerializationWriterFactory {
    pub fn valid_content_type(&self) -> (r: &'static str)
        ensures
            r@ == text_content_type(),
    {
        "text/plain"
    }

    /// A new writer, if `content_type` is `text/plain`.
    pub fn get_serialization_writer(&self, content_type: &str) -> (r: Result<TextSerializationWriter, ApiError>)
        ensures
            content_type@ == text_content_type() ==> (r matches Ok(w) && w.spec_value() is None),
            content_type@ != text_content_type() ==> (r matches Err(e) && e.status_code == 0
                && e.message@ == text_wrong_type_message(content_type@)),
    {
        if !same_text(content_type, "text/plain") {
            let mut m = String::from_str("Expected text/plain, got ");
            m.append(content_type);
            return Err(ApiError::new(0, m.as_str()));
        }
        Ok(TextSerializationWriter::new())
    }
}

/// Plain-text round trip of text: the bytes the writer makes for `s` are
/// UTF-8, and the node over them holds `s` without its surrounding white
/// space (nothing when that is empty), as a node made from `s` would.
pub proof fn lemma_text_string_round_trip(s: Seq<char>)
    ensures
        vstd::utf8::valid_utf8(vstd::utf8::encode_utf8(s)),
        text_value(vstd::utf8::decode_utf8(vstd::utf8::encode_utf8(s))) == text_value(s),
{
    vstd::utf8::encode_utf8_valid_utf8(s);
    vstd::utf8::encode_utf8_decode_utf8(s);
}

/// Plain-text round trip of integers: the node over the bytes the writer
/// makes for an `i64` reads that `i64` back, and reads it as an `i32` when
/// it fits one.
pub proof fn lemma_text_integer_round_trip(v: i64)
    ensures
        vstd::utf8::valid_utf8(vstd::utf8::encode_utf8(format_int(v as int, 0))),
        reading(text_value(vstd::utf8::decode_utf8(vstd::utf8::encode_utf8(format_int(v as int, 0)))),
            |s: Seq<char>| i64_reading(s)) == Some(Ok::<i64, Seq<char>>(v)),
        i32::MIN <= v <= i32::MAX ==> reading(
            text_value(vstd::utf8::decode_utf8(vstd::utf8::encode_utf8(format_int(v as int, 0)))),
            |s: Seq<char>| i32_reading(s)) == Some(Ok::<i32, Seq<char>>(v as i32)),
{
    let t = format_int(v as int, 0);
    lemma_text_string_round_trip(t);
    lemma_format_int_reads_back(v as int, i64::MIN as int, i64::MAX as int);
    assert(text_value(t) == Some(t));
    if i32::MIN <= v <= i32::MAX {
        lemma_format_int_reads_back(v as int, i32::MIN as int, i32::MAX as int);
    }
}

/// Plain-text round trip of booleans: the node over the bytes the writer
/// makes for `b` reads `b` back.
pub proof fn lemma_text_bool_round_trip(b: bool)
    ensures
        reading(text_value(vstd::utf8::decode_utf8(vstd::utf8::encode_utf8(if b { "true"@ } else { "false"@ }))),
            |s: Seq<char>| bool_reading(s)) == Some(Ok::<bool, Seq<char>>(b)),
{
    let t = if b { "true"@ } else { "false"@ };
    lemma_text_string_round_trip(t);
    reveal_strlit("true");
    reveal_strlit("false");
    assert(trim_start(t) == t);
    assert(trim_end(t) == t);
}

/// Plain-text round trip of UUIDs: the node over the bytes the writer makes
/// for `v` holds the hyphenated text of `v`, which its UUID reading reads
/// back as `v`.
pub proof fn lemma_text_uuid_round_trip(v: u128)
    ensures
        text_value(vstd::utf8::decode_utf8(vstd::utf8::encode_utf8(uuid_text(v)))) == Some(uuid_text(v)),
{
    lemma_text_string_round_trip(uuid_text(v));
    lemma_uuid_text_shape(v);
    lemma_trim_unchanged(uuid_text(v));
}

/// Plain-text round trip of dates: the node over the bytes the writer makes
/// for a date with a year of 0 or more reads that date back.
pub proof fn lemma_text_date_round_trip(d: DateOnly)
    requires
        d.year >= 0,
        date_fields_in_range(d),
    ensures
        reading(text_value(vstd::utf8::decode_utf8(vstd::utf8::encode_utf8(date_text(d)))),
            |s: Seq<char>| date_reading(s)) == Some(Ok::<DateOnly, Seq<char>>(d)),
{
    let t = date_text(d);
    let y = zero_padded(decimal_digits(d.year as nat), 4);
    let dd = zero_padded(decimal_digits(d.day as nat), 2);
    lemma_text_string_round_trip(t);
    lemma_padded_digits(d.year as nat, 4);
    lemma_padded_digits(d.day as nat, 2);
    assert(t[0] == y[0]);
    assert(t.last() == dd[dd.len() - 1]);
    lemma_trim_unchanged(t);
    lemma_date_text_parses_back(d);
}

/// Plain-text round trip of times: the node over the bytes the writer makes
/// for a time reads that time back.
pub proof fn lemma_text_time_round_trip(t: TimeOnly)
    requires
        is_valid_time(t.hour as int, t.minute as int, t.second as int),
    ensures
        reading(text_value(vstd::utf8::decode_utf8(vstd::utf8::encode_utf8(time_text(t)))),
            |s: Seq<char>| time_reading(s)) == Some(Ok::<TimeOnly, Seq<char>>(t)),
{
    let x = time_text(t);
    let h = zero_padded(decimal_digits(t.hour as nat), 2);
    let sec = zero_padded(decimal_digits(t.second as nat), 2);
    lemma_text_string_round_trip(x);
    lemma_padded_digits(t.hour as nat, 2);
    lemma_padded_digits(t.second as nat, 2);
    assert(x[0] == h[0]);
    assert(x.last() == sec[sec.len() - 1]);
    lemma_trim_unchanged(x);
    lemma_time_text_parses_back(t);
}

impl Default for TextSerializationWriter {
    /// A writer with no value.
    fn default() -> (r: Self)
        ensures
            r.spec_value() is None,
    {
        TextSerializationWriter::new()
    }
}

} // verus!
