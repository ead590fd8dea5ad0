//! The JSON reader over a parsed value.

use vstd::prelude::*;
use crate::api_error::{api_error_text, ApiError};
use crate::date_only::{parse_date, DateOnly};
use crate::date_time::{chrono_error_text, relaxed_utc_text, UtcDateTime};
use crate::json_codec::{json_document, json_error_text, json_from_slice};
use crate::json_value::{
    members_get, model_as_bool, model_as_i64, model_as_str, model_get, primitive_text, primitive_texts,
    JsonModel, JsonValue,
};
use crate::scalar::{error_with, outcome_is};
use crate::text::same_text;
use crate::time_only::{parse_time, TimeOnly};
use crate::uuid_value::{is_uuid_text, lemma_uuid_text_injective, parse_uuid, uuid_error_text, uuid_from_text, uuid_text};

verus! {

/// A node over a JSON value.
pub struct JsonParseNode {
    value: JsonValue,
}

/// The text of a JSON string value, if the value is one.
pub open spec fn str_reading<T>(m: JsonModel, f: spec_fn(Seq<char>) -> Result<T, Seq<char>>) -> Option<Result<T, Seq<char>>> {
    match model_as_str(m) {
        Some(s) => Some(f(s)),
        None => None,
    }
}

/// A date from a JSON string, or the message `Invalid date: ` and the date's
/// error as it displays.
pub open spec fn json_date_reading(s: Seq<char>) -> Result<DateOnly, Seq<char>> {
    match parse_date(s) {
        Ok(d) => Ok(d),
        Err(m) => Err("Invalid date: "@ + api_error_text(0, m)),
    }
}

/// A time from a JSON string, or the message `Invalid time: ` and the time's
/// error as it displays.
pub open spec fn json_time_reading(s: Seq<char>) -> Result<TimeOnly, Seq<char>> {
    match parse_time(s) {
        Ok(t) => Ok(t),
        Err(m) => Err("Invalid time: "@ + api_error_text(0, m)),
    }
}

impl JsonParseNode {
    /// The value the node holds.
    pub closed spec fn spec_model(&self) -> JsonModel {
        self.value.model()
    }

    pub fn new(value: JsonValue) -> (r: Self)
        ensures
            r.spec_model() == value.model(),
    {
        JsonParseNode { value }
    }

    /// The node over the JSON value that `content` holds, as `serde_json`
    /// reads it; where it reports an error, an error with status code 0 and a
    /// message starting `JSON parse error: `.
    pub fn from_bytes(content: &[u8]) -> (r: Result<Self, ApiError>)
        ensures
            r is Ok <==> json_document(content@) is Some,
            r matches Ok(n) ==> json_document(content@) == Some(n.spec_model()),
            r matches Err(e) ==> e.status_code == 0 && e.message@.take(18) == "JSON parse error: "@,
    {
        match json_from_slice(content) {
            Ok(v) => Ok(JsonParseNode { value: v }),
            Err(e) => {
                let t = json_error_text(&e);
                let r = error_with("JSON parse error: ", t.as_str());
                proof { reveal_strlit("JSON parse error: "); }
                assert(r.message@.take(18) =~= "JSON parse error: "@);
                Err(r)
            },
        }
    }

    /// The value the node holds.
    pub fn value(&self) -> (r: &JsonValue)
        ensures
            r.model() == self.spec_model(),
    {
        &self.value
    }

    fn as_str(&self) -> (r: Option<&str>)
        ensures
            (match r { Some(s) => Some(s@), None => None::<Seq<char>> }) == model_as_str(self.spec_model()),
    {
        match &self.value {
            JsonValue::String(s) => Some(s.as_str()),
            _ => None,
        }
    }

    /// The value if it is a string.
    pub fn get_string_value(&self) -> (r: Result<Option<String>, ApiError>)
        ensures
            r matches Ok(v) && (match v { Some(s) => Some(s@), None => None::<Seq<char>> })
                == model_as_str(self.spec_model()),
    {
        match &self.value {
            JsonValue::String(s) => Ok(Some(s.clone())),
            _ => Ok(None),
        }
    }

    /// The value if it is a boolean.
    pub fn get_bool_value(&self) -> (r: Result<Option<bool>, ApiError>)
        ensures
            r == Ok::<Option<bool>, ApiError>(model_as_bool(self.spec_model())),
    {
        match &self.value {
            JsonValue::Bool(b) => Ok(Some(*b)),
            _ => Ok(None),
        }
    }

    fn as_i64(&self) -> (r: Option<i64>)
        ensures
            r == model_as_i64(self.spec_model()),
    {
        match &self.value {
            JsonValue::Number(crate::json_value::JsonNumber::PosInt(n)) => {
                if *n <= i64::MAX as u64 { Some(*n as i64) } else { None }
            },
            JsonValue::Number(crate::json_value::JsonNumber::NegInt(n)) => Some(*n),
            _ => None,
        }
    }

    /// The value if it is an integer that fits an `i64`.
    pub fn get_i64_value(&self) -> (r: Result<Option<i64>, ApiError>)
        ensures
            r == Ok::<Option<i64>, ApiError>(model_as_i64(self.spec_model())),
    {
        Ok(self.as_i64())
    }

    /// The value if it is an integer that fits an `i32`.
    pub fn get_i32_value(&self) -> (r: Result<Option<i32>, ApiError>)
        ensures
            r == Ok::<Option<i32>, ApiError>(match model_as_i64(self.spec_model()) {
                Some(v) => if i32::MIN <= v <= i32::MAX { Some(v as i32) } else { None },
                None => None,
            }),
    {
        match self.as_i64() {
            Some(v) => {
                if i32::MIN as i64 <= v && v <= i32::MAX as i64 { Ok(Some(v as i32)) } else { Ok(None) }
            },
            None => Ok(None),
        }
    }

    /// The value, if it is a string, read as a UUID (its 128-bit value); the
    /// message of the error is `Invalid UUID: ` and the crate's error text.
    pub fn get_uuid_value(&self) -> (r: Result<Option<u128>, ApiError>)
        ensures
            model_as_str(self.spec_model()) is None ==> r == Ok::<Option<u128>, ApiError>(None),
            model_as_str(self.spec_model()) matches Some(s) ==> match r {
                Ok(Some(x)) => uuid_from_text(s) == Some(x),
                Ok(None) => false,
                Err(e) => uuid_from_text(s) is None && e.status_code == 0
                    && e.message@.take(14) == "Invalid UUID: "@,
            },
            forall|x: u128| model_as_str(self.spec_model()) == Some(#[trigger] uuid_text(x))
                ==> r == Ok::<Option<u128>, ApiError>(Some(x)),
    {
        match self.as_str() {
            None => Ok(None),
            Some(s) => match parse_uuid(s) {
                Ok(x) => {
                    proof {
                        assert forall|y: u128| model_as_str(self.spec_model()) == Some(#[trigger] uuid_text(y)) implies x == y by {
                            assert(is_uuid_text(s@));
                            lemma_uuid_text_injective(x, y);
                        }
                    }
                    Ok(Some(x))
                },
                Err(e) => {
                    let t = uuid_error_text(&e);
                    let r = error_with("Invalid UUID: ", t.as_str());
                    proof {
                        reveal_strlit("Invalid UUID: ");
                        assert forall|y: u128| model_as_str(self.spec_model()) != Some(#[trigger] uuid_text(y)) by {
                            if model_as_str(self.spec_model()) == Some(uuid_text(y)) {
                                assert(is_uuid_text(s@));
                            }
                        }
                    }
                    assert(r.message@.take(14) =~= "Invalid UUID: "@);
                    Err(r)
                },
            },
        }
    }

    /// The value, if it is a string, read as a `YYYY-MM-DD` date.
    pub fn get_date_only_value(&self) -> (r: Result<Option<DateOnly>, ApiError>)
        ensures
            outcome_is(r, str_reading(self.spec_model(), |s: Seq<char>| json_date_reading(s))),
    {
        match self.as_str() {
            None => Ok(None),
            Some(s) => match DateOnly::parse(s) {
                Ok(d) => Ok(Some(d)),
                Err(e) => {
                    let t = e.to_string();
                    Err(error_with("Invalid date: ", t.as_str()))
                },
            },
        }
    }

    /// The value, if it is a string, read as an `HH:MM:SS` time.
    pub fn get_time_only_value(&self) -> (r: Result<Option<TimeOnly>, ApiError>)
        ensures
            outcome_is(r, str_reading(self.spec_model(), |s: Seq<char>| json_time_reading(s))),
    {
        match self.as_str() {
            None => Ok(None),
            Some(s) => match TimeOnly::parse(s) {
                Ok(t) => Ok(Some(t)),
                Err(e) => {
                    let t = e.to_string();
                    Err(error_with("Invalid time: ", t.as_str()))
                },
            },
        }
    }

    /// The value, if it is a string, read as `str::parse::<DateTime<Utc>>`
    /// reads it; the message of the error is `Invalid datetime: ` and
    /// chrono's text.
    pub fn get_datetime_value(&self) -> (r: Result<Option<UtcDateTime>, ApiError>)
        ensures
            model_as_str(self.spec_model()) is None ==> r matches Ok(None),
            model_as_str(self.spec_model()) matches Some(s) ==> match r {
                Ok(Some(t)) => relaxed_utc_text(s) == Some(t.spec_text()),
                Ok(None) => false,
                Err(e) => relaxed_utc_text(s) is None && e.status_code == 0
                    && e.message@.take(18) == "Invalid datetime: "@,
            },
    {
        match self.as_str() {
            None => Ok(None),
            Some(s) => match UtcDateTime::parse_relaxed(s) {
                Ok(t) => Ok(Some(t)),
                Err(e) => {
                    let t = chrono_error_text(&e);
                    let r = error_with("Invalid datetime: ", t.as_str());
                    proof { reveal_strlit("Invalid datetime: "); }
                    assert(r.message@.take(18) =~= "Invalid datetime: "@);
                    Err(r)
                },
            },
        }
    }

    /// The value, if it is a string, mapped through `parser`.
    pub fn get_enum_value<F: Fn(&str) -> Option<String>>(&self, parser: F) -> (r: Result<Option<String>, ApiError>)
        requires
            forall|s: &str| #[trigger] parser.requires((s,)),
        ensures
            model_as_str(self.spec_model()) is None ==> r matches Ok(None),
            model_as_str(self.spec_model()) matches Some(v) ==> exists|s: &str| s@ == v
                && #[trigger] parser.ensures((s,), r->Ok_0),
            r is Ok,
    {
        match self.as_str() {
            Some(s) => Ok(parser(s)),
            None => Ok(None),
        }
    }

    /// The texts of the strings, numbers and booleans of an array, in order;
    /// nothing for a value that is not an array.
    pub fn get_collection_of_primitive_values(&self) -> (r: Result<Vec<String>, ApiError>)
        ensures
            r matches Ok(v) && v.deep_view() == match self.spec_model() {
                JsonModel::Array(items) => primitive_texts(items),
                _ => Seq::<Seq<char>>::empty(),
            },
    {
        let mut out: Vec<String> = Vec::new();
        match &self.value {
            JsonValue::Array(items) => {
                let ghost ms = Seq::new(items@.len(), |i: int| items@[i].model());
                assert(self.spec_model() matches JsonModel::Array(x) && x =~= ms);
                let mut i: usize = 0;
                assert(ms.take(0) =~= Seq::<JsonModel>::empty());
                while i < items.len()
                    invariant
                        i <= items@.len(),
                        ms.len() == items@.len(),
                        forall|j: int| 0 <= j < ms.len() ==> #[trigger] ms[j] == items@[j].model(),
                        out.deep_view() == primitive_texts(ms.take(i as int)),
                    decreases items.len() - i,
                {
                    let ghost before = out.deep_view();
                    assert(ms.take(i as int + 1).drop_last() =~= ms.take(i as int));
                    assert(ms.take(i as int + 1).last() == items@[i as int].model());
                    match &items[i] {
                        JsonValue::String(s) => { out.push(s.clone()); },
                        JsonValue::Number(n) => { out.push(n.to_text()); },
                        JsonValue::Bool(b) => {
                            if *b { out.push(String::from_str("true")); } else { out.push(String::from_str("false")); }
                        },
                        _ => {},
                    }
                    assert(out.deep_view() =~= match primitive_text(items@[i as int].model()) {
                        Some(t) => before.push(t),
                        None => before,
                    });
                    i = i + 1;
                }
                assert(ms.take(i as int) =~= ms);
            },
            _ => {
                assert(out.deep_view() =~= Seq::<Seq<char>>::empty());
            },
        }
        Ok(out)
    }

    /// The node for member `key` of an object (the first, if several);
    /// nothing if the value is not an object or has no such member.
    pub fn get_child_node(&self, key: &str) -> (r: Option<JsonParseNode>)
        ensures
            match model_get(self.spec_model(), key@) {
                Some(m) => r matches Some(n) && n.spec_model() == m,
                None => r is None,
            },
    {
        match &self.value {
            JsonValue::Object(members) => {
                let ghost ms = Seq::new(members@.len(), |i: int| (members@[i].0@, members@[i].1.model()));
                assert(self.spec_model() matches JsonModel::Object(x) && x =~= ms);
                let mut i: usize = 0;
                assert(ms.skip(0) =~= ms);
                while i < members.len()
                    invariant
                        i <= members@.len(),
                        ms.len() == members@.len(),
                        forall|j: int| 0 <= j < ms.len() ==> #[trigger] ms[j] == (members@[j].0@, members@[j].1.model()),
                        members_get(ms, key@) == members_get(ms.skip(i as int), key@),
                        model_get(self.spec_model(), key@) == members_get(ms, key@),
                    decreases members.len() - i,
                {
                    assert(ms.skip(i as int)[0] == ms[i as int]);
                    assert(ms.skip(i as int).drop_first() =~= ms.skip(i as int + 1));
                    if same_text(members[i].0.as_str(), key) {
                        assert(members_get(ms.skip(i as int), key@) == Some(ms[i as int].1));
                        return Some(JsonParseNode { value: members[i].1.copy() });
                    }
                    i = i + 1;
                }
                assert(ms.skip(i as int).len() == 0);
                assert(model_get(self.spec_model(), key@) is None);
                None
            },
            _ => None,
        }
    }

    /// The nodes of the items of an array, in order; nothing for a value that
    /// is not an array.
    pub fn array_item_nodes(&self) -> (r: Vec<JsonParseNode>)
        ensures
            match self.spec_model() {
                JsonModel::Array(items) => r@.len() == items.len()
                    && forall|i: int| 0 <= i < items.len() ==> (#[trigger] r@[i]).spec_model() == items[i],
                _ => r@.len() == 0,
            },
    {
        let mut out: Vec<JsonParseNode> = Vec::new();
        match &self.value {
            JsonValue::Array(items) => {
                let mut i: usize = 0;
                while i < items.len()
                    invariant
                        i <= items@.len(),
                        out@.len() == i,
                        forall|j: int| 0 <= j < i ==> (#[trigger] out@[j]).spec_model() == items@[j].model(),
                    decreases items.len() - i,
                {
                    out.push(JsonParseNode { value: items[i].copy() });
                    i = i + 1;
                }
            },
            _ => {},
        }
        out
    }

    /// The members of an object with the node of each value, in order;
    /// nothing for a value that is not an object.
    pub fn object_member_nodes(&self) -> (r: Option<Vec<(String, JsonParseNode)>>)
        ensures
            match self.spec_model() {
                JsonModel::Object(ms) => r matches Some(v) && v@.len() == ms.len()
                    && forall|i: int| 0 <= i < ms.len() ==> (#[trigger] v@[i]).0@ == ms[i].0
                        && v@[i].1.spec_model() == ms[i].1,
                _ => r is None,
            },
    {
        match &self.value {
            JsonValue::Object(members) => {
                let mut out: Vec<(String, JsonParseNode)> = Vec::new();
                let mut i: usize = 0;
                while i < members.len()
                    invariant
                        i <= members@.len(),
                        out@.len() == i,
                        forall|j: int| 0 <= j < i ==> (#[trigger] out@[j]).0@ == members@[j].0@
                            && out@[j].1.spec_model() == members@[j].1.model(),
                    decreases members.len() - i,
                {
                    out.push((members[i].0.clone(), JsonParseNode { value: members[i].1.copy() }));
                    i = i + 1;
                }
                Some(out)
            },
            _ => None,
        }
    }
}

/// The content type of JSON.
pub open spec fn json_content_type() -> Seq<char> {
    "application/json"@
}

/// The message for a content type other than JSON.
pub open spec fn json_wrong_type_message(content_type: Seq<char>) -> Seq<char> {
    "expected 'application/json', got '"@ + content_type + "'"@
}

/// The error for a content type other than JSON, or nothing for JSON.
pub fn json_content_type_check(content_type: &str) -> (r: Result<(), ApiError>)
    ensures
        content_type@ == json_content_type() ==> r is Ok,
        content_type@ != json_content_type() ==> (r matches Err(e) && e.status_code == 0
            && e.message@ == json_wrong_type_message(content_type@)),
{
    if same_text(content_type, "application/json") {
        Ok(())
    } else {
        let mut m = String::from_str("expected 'application/json', got '");
        m.append(content_type);
        m.append("'");
        Err(ApiError::new(0, m.as_str()))
    }
}

/// Makes `JsonParseNode`s from JSON bodies; reading the bytes is `serde_json`'s.
pub struct JsonParseNodeFactory;

impl JsonParseNodeFactory {
    pub fn valid_content_type(&self) -> (r: &'static str)
        ensures
            r@ == json_content_type(),
    {
        "application/json"
    }

    /// Whether a body of `content_type` can be read: nothing for JSON, else
    /// the error that reading reports.
    pub fn check_content_type(&self, content_type: &str) -> (r: Result<(), ApiError>)
        ensures
            content_type@ == json_content_type() ==> r is Ok,
            content_type@ != json_content_type() ==> (r matches Err(e) && e.status_code == 0
                && e.message@ == json_wrong_type_message(content_type@)),
    {
        json_content_type_check(content_type)
    }

    /// The node over `content`, if `content_type` is JSON and `serde_json`
    /// reads a value from it.
    pub fn get_root_parse_node(&self, content_type: &str, content: &[u8]) -> (r: Result<JsonParseNode, ApiError>)
        ensures
            content_type@ != json_content_type() ==> (r matches Err(e) && e.status_code == 0
                && e.message@ == json_wrong_type_message(content_type@)),
            content_type@ == json_content_type() ==> (r is Ok <==> json_document(content@) is Some),
            r matches Ok(n) ==> content_type@ == json_content_type()
                && json_document(content@) == Some(n.spec_model()),
            r matches Err(e) ==> e.status_code == 0,
    {
        match json_content_type_check(content_type) {
            Ok(()) => JsonParseNode::from_bytes(content),
            Err(e) => Err(e),
        }
    }
}

} // verus!
