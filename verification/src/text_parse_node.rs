//! The `text/plain` reader: one value, the trimmed body.

use vstd::prelude::*;
use crate::api_error::ApiError;
use crate::date_only::DateOnly;
use crate::date_time::{rfc3339_utc_text, UtcDateTime};
use crate::scalar::{
    bool_reading, date_reading, i32_reading, i64_reading, outcome_is, read_bool, read_date, read_i32,
    read_date_time, read_i64, read_time, read_uuid, reading, text_of, time_reading,
};
use crate::text::{
    chars_of, lemma_trim_is_unicode_white_space, same_text, str_from_utf8, string_of, trim, trim_chars,
    unicode_white_space, utf8_error_text,
};
use crate::time_only::TimeOnly;
use crate::uuid_value::{uuid_from_text, uuid_text};

verus! {

/// The value a `text/plain` body holds: the text without surrounding white
/// space, or nothing when that is empty.
pub open spec fn text_value(body: Seq<char>) -> Option<Seq<char>> {
    if trim(body).len() == 0 { None } else { Some(trim(body)) }
}

/// A plain-text body's value ignores Unicode white space at either end:
/// appending or prepending a White_Space character (a line end `\r\n`, a
/// tab, a no-break space, ...) gives the same value.
pub proof fn lemma_text_value_ignores_white_space(body: Seq<char>, c: char)
    requires
        unicode_white_space().contains(c),
    ensures
        text_value(body.push(c)) == text_value(body),
        text_value(seq![c] + body) == text_value(body),
{
    lemma_trim_is_unicode_white_space(body, c);
}

/// A node over a single plain-text value.
pub struct TextParseNode {
    value: Option<String>,
}

impl TextParseNode {
    /// The value the node holds.
    pub closed spec fn spec_value(&self) -> Option<Seq<char>> {
        match self.value {
            Some(s) => Some(s@),
            None => None,
        }
    }

    fn value_str(&self) -> (r: Option<&str>)
        ensures
            text_of(r) == self.spec_value(),
    {
        match &self.value {
            Some(s) => Some(s.as_str()),
            None => None,
        }
    }

    /// A node over `value` with its surrounding white space removed; empty
    /// text gives a node without value.
    pub fn new(value: String) -> (r: Self)
        ensures
            r.spec_value() == text_value(value@),
    {
        let cs = chars_of(value.as_str());
        let t = trim_chars(cs.as_slice());
        if t.len() == 0 {
            TextParseNode { value: None }
        } else {
            TextParseNode { value: Some(string_of(t.as_slice())) }
        }
    }

    /// A node over the UTF-8 text of `content`; bytes that are not UTF-8 are
    /// an error with status code 0 and a message starting `Invalid UTF-8: `.
    pub fn from_bytes(content: &[u8]) -> (r: Result<Self, ApiError>)
        ensures
            r is Ok <==> vstd::utf8::valid_utf8(content@),
            r matches Ok(n) ==> n.spec_value() == text_value(vstd::utf8::decode_utf8(content@)),
            r matches Err(e) ==> e.status_code == 0 && e.message@.take(15) == "Invalid UTF-8: "@,
    {
        match str_from_utf8(content) {
            Ok(s) => Ok(TextParseNode::new(String::from_str(s))),
            Err(e) => {
                let t = utf8_error_text(&e);
                let mut m = String::from_str("Invalid UTF-8: ");
                m.append(t.as_str());
                proof { reveal_strlit("Invalid UTF-8: "); }
                assert(m@.take(15) =~= "Invalid UTF-8: "@);
                Err(ApiError::new(0, m.as_str()))
            },
        }
    }

    /// The value as text.
    pub fn get_string_value(&self) -> (r: Result<Option<String>, ApiError>)
        ensures
            r matches Ok(v) && text_of_string(v) == self.spec_value(),
    {
        match &self.value {
            Some(s) => Ok(Some(s.clone())),
            None => Ok(None),
        }
    }

    /// The value read as `true` or `false`.
    pub fn get_bool_value(&self) -> (r: Result<Option<bool>, ApiError>)
        ensures
            outcome_is(r, reading(self.spec_value(), |s: Seq<char>| bool_reading(s))),
    {
        read_bool(self.value_str())
    }

    /// The value read as an `i32`.
    pub fn get_i32_value(&self) -> (r: Result<Option<i32>, ApiError>)
        ensures
            outcome_is(r, reading(self.spec_value(), |s: Seq<char>| i32_reading(s))),
    {
        read_i32(self.value_str())
    }

    /// The value read as an `i64`.
    pub fn get_i64_value(&self) -> (r: Result<Option<i64>, ApiError>)
        ensures
            outcome_is(r, reading(self.spec_value(), |s: Seq<char>| i64_reading(s))),
    {
        read_i64(self.value_str())
    }

    /// The value read as a UUID (its 128-bit value).
    pub fn get_uuid_value(&self) -> (r: Result<Option<u128>, ApiError>)
        ensures
            self.spec_value() is None ==> r == Ok::<Option<u128>, ApiError>(None),
            self.spec_value() matches Some(s) ==> match r {
                Ok(Some(x)) => uuid_from_text(s) == Some(x),
                Ok(None) => false,
                Err(e) => uuid_from_text(s) is None && e.status_code == 0
                    && e.message@.take(19) == "Cannot parse UUID: "@,
            },
            forall|x: u128| self.spec_value() == Some(#[trigger] uuid_text(x)) ==> r == Ok::<Option<u128>, ApiError>(Some(x)),
    {
        read_uuid(self.value_str())
    }

    /// The value read as a `YYYY-MM-DD` date.
    pub fn get_date_only_value(&self) -> (r: Result<Option<DateOnly>, ApiError>)
        ensures
            outcome_is(r, reading(self.spec_value(), |s: Seq<char>| date_reading(s))),
    {
        read_date(self.value_str())
    }

    /// The value read as an `HH:MM:SS` time.
    pub fn get_time_only_value(&self) -> (r: Result<Option<TimeOnly>, ApiError>)
        ensures
            outcome_is(r, reading(self.spec_value(), |s: Seq<char>| time_reading(s))),
    {
        read_time(self.value_str())
    }

    /// The value read as an RFC 3339 date and time.
    pub fn get_datetime_value(&self) -> (r: Result<Option<UtcDateTime>, ApiError>)
        ensures
            self.spec_value() is None ==> r matches Ok(None),
            self.spec_value() matches Some(s) ==> match r {
                Ok(Some(t)) => rfc3339_utc_text(s) == Some(t.spec_text()),
                Ok(None) => false,
                Err(e) => rfc3339_utc_text(s) is None && e.status_code == 0
                    && e.message@.take(23) == "Cannot parse DateTime: "@,
            },
    {
        read_date_time(self.value_str())
    }

    /// The value mapped through `parser`, which turns the text of an enum
    /// member into the member's name.
    pub fn get_enum_value<F: Fn(&str) -> Option<String>>(&self, parser: F) -> (r: Result<Option<String>, ApiError>)
        requires
            forall|s: &str| #[trigger] parser.requires((s,)),
        ensures
            self.spec_value() is None ==> r matches Ok(None),
            self.spec_value() matches Some(v) ==> exists|s: &str| s@ == v && #[trigger] parser.ensures((s,), r->Ok_0),
            r is Ok,
    {
        match &self.value {
            Some(v) => Ok(parser(v.as_str())),
            None => Ok(None),
        }
    }

    /// Plain text holds no objects: always an error.
    pub fn get_object_value<T>(&self) -> (r: Result<Option<T>, ApiError>)
        ensures
            r matches Err(e) && e.status_code == 0 && e.message@ == "Text/plain does not support object deserialization"@,
    {
        Err(ApiError::new(0, "Text/plain does not support object deserialization"))
    }

    /// Plain text holds no collections: always an error.
    pub fn get_collection_of_object_values<T>(&self) -> (r: Result<Vec<T>, ApiError>)
        ensures
            r matches Err(e) && e.status_code == 0 && e.message@ == "Text/plain does not support collections"@,
    {
        Err(ApiError::new(0, "Text/plain does not support collections"))
    }

    /// Plain text holds no collections: always an error.
    pub fn get_collection_of_primitive_values(&self) -> (r: Result<Vec<String>, ApiError>)
        ensures
            r matches Err(e) && e.status_code == 0 && e.message@ == "Text/plain does not support primitive collections"@,
    {
        Err(ApiError::new(0, "Text/plain does not support primitive collections"))
    }

    /// Plain text has no children.
    pub fn get_child_node(&self, key: &str) -> (r: Option<TextParseNode>)
        ensures
            r is None,
    {
        None
    }
}

/// The characters of an optional `String`.
pub open spec fn text_of_string(v: Option<String>) -> Option<Seq<char>> {
    match v {
        Some(s) => Some(s@),
        None => None,
    }
}

/// The content type of plain text.
pub open spec fn text_content_type() -> Seq<char> {
    "text/plain"@
}

/// The message for a content type other than `text/plain`.
pub open spec fn text_wrong_type_message(content_type: Seq<char>) -> Seq<char> {
    "Expected text/plain, got "@ + content_type
}

/// Makes `TextParseNode`s from `text/plain` bodies.
pub struct TextParseNodeFactory;

impl TextParseNodeFactory {
    pub fn valid_content_type(&self) -> (r: &'static str)
        ensures
            r@ == text_content_type(),
    {
        "text/plain"
    }

    /// The node over `content`, if `content_type` is `text/plain`.
    pub fn get_root_parse_node(&self, content_type: &str, content: &[u8]) -> (r: Result<TextParseNode, ApiError>)
        ensures
            content_type@ != text_content_type() ==> (r matches Err(e) && e.status_code == 0
                && e.message@ == text_wrong_type_message(content_type@)),
            content_type@ == text_content_type() ==> (r is Ok <==> vstd::utf8::valid_utf8(content@)),
            r matches Ok(n) ==> content_type@ == text_content_type()
                && n.spec_value() == text_value(vstd::utf8::decode_utf8(content@)),
    {
        if !same_text(content_type, "text/plain") {
            let mut m = String::from_str("Expected text/plain, got ");
            m.append(content_type);
            return Err(ApiError::new(0, m.as_str()));
        }
        TextParseNode::from_bytes(content)
    }
}

} // verus!
