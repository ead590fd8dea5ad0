//! The JSON writer: an object built member by member.

use vstd::prelude::*;
use crate::api_error::ApiError;
use crate::date_only::{date_text, DateOnly};
use crate::date_time::UtcDateTime;
use crate::json_codec::{floats_are_numbers, json_bytes, json_error_text, json_to_vec};
use crate::json_parse_node::{json_content_type, json_content_type_check, json_wrong_type_message};
use crate::json_value::{lemma_members_get_distinct, model_as_i64, model_get, JsonModel, JsonNumber, JsonValue, NumberModel};
use crate::string_map::{entries_get, entries_insert, entries_map, entry_keys, has_key, lemma_entries_insert, StringMap};
use crate::time_only::{time_text, TimeOnly};
use crate::uuid_value::{uuid_text, uuid_to_text};

verus! {

/// The JSON number for an integer, as `serde_json` makes it: negative
/// integers one way, the others the other.
pub open spec fn integer_model(v: i64) -> JsonModel {
    if v < 0 {
        JsonModel::Number(NumberModel::NegInt(v))
    } else {
        JsonModel::Number(NumberModel::PosInt(v as u64))
    }
}

/// The members after setting each member of `data` in turn.
pub open spec fn members_with(members: Seq<(Seq<char>, JsonModel)>, data: Seq<(Seq<char>, JsonModel)>) -> Seq<(Seq<char>, JsonModel)>
    decreases data.len(),
{
    if data.len() == 0 {
        members
    } else {
        entries_insert(members_with(members, data.drop_last()), data.last().0, data.last().1)
    }
}

/// Writes a JSON object; writing a key that is there already replaces its
/// value in place.
pub struct JsonSerializationWriter {
    root: StringMap<JsonValue>,
    current_value: Option<JsonValue>,
}

impl JsonSerializationWriter {
    /// The members written so far, in order.
    pub closed spec fn spec_members(&self) -> Seq<(Seq<char>, JsonModel)> {
        self.root.entries()
    }

    /// A value written without a key, which the content would be in place
    /// of the object; no operation sets it.
    pub closed spec fn spec_current(&self) -> Option<JsonModel> {
        match self.current_value {
            Some(v) => Some(v.model()),
            None => None,
        }
    }

    pub fn new() -> (r: Self)
        ensures
            r.spec_members() == Seq::<(Seq<char>, JsonModel)>::empty(),
            r.spec_current() is None,
    {
        JsonSerializationWriter { root: StringMap::new(), current_value: None }
    }

    /// The members' keys are distinct: every writer keeps them so.
    pub fn members_are_distinct(&self)
        ensures
            entry_keys(self.spec_members()).no_duplicates(),
    {
        self.root.keys_are_distinct();
    }

    /// Sets member `key` to `value`.
    pub fn write_value(&mut self, key: &str, value: JsonValue)
        ensures
            final(self).spec_members() == entries_insert(old(self).spec_members(), key@, value.model()),
            final(self).spec_current() == old(self).spec_current(),
    {
        self.root.insert(String::from_str(key), value);
    }

    /// Sets member `key` to the string `value`.
    pub fn write_string_value(&mut self, key: &str, value: &str) -> (r: Result<(), ApiError>)
        ensures
            r is Ok,
            final(self).spec_members() == entries_insert(old(self).spec_members(), key@, JsonModel::Str(value@)),
            final(self).spec_current() == old(self).spec_current(),
    {
        self.write_value(key, JsonValue::String(String::from_str(value)));
        Ok(())
    }

    /// Sets member `key` to the boolean `value`.
    pub fn write_bool_value(&mut self, key: &str, value: bool) -> (r: Result<(), ApiError>)
        ensures
            r is Ok,
            final(self).spec_members() == entries_insert(old(self).spec_members(), key@, JsonModel::Bool(value)),
            final(self).spec_current() == old(self).spec_current(),
    {
        self.write_value(key, JsonValue::Bool(value));
        Ok(())
    }

    /// Sets member `key` to the integer `value`.
    pub fn write_i32_value(&mut self, key: &str, value: i32) -> (r: Result<(), ApiError>)
        ensures
            r is Ok,
            final(self).spec_members() == entries_insert(old(self).spec_members(), key@, integer_model(value as i64)),
            final(self).spec_current() == old(self).spec_current(),
            entries_get(final(self).spec_members(), key@) matches Some(m) && model_as_i64(m) == Some(value as i64),
    {
        self.write_i64_value(key, value as i64)
    }

    /// Sets member `key` to the integer `value`.
    pub fn write_i64_value(&mut self, key: &str, value: i64) -> (r: Result<(), ApiError>)
        ensures
            r is Ok,
            final(self).spec_members() == entries_insert(old(self).spec_members(), key@, integer_model(value)),
            final(self).spec_current() == old(self).spec_current(),
            entries_get(final(self).spec_members(), key@) matches Some(m) && model_as_i64(m) == Some(value),
    {
        self.members_are_distinct();
        proof { lemma_entries_insert(old(self).spec_members(), key@, integer_model(value)); }
        let n = if value < 0 { JsonNumber::NegInt(value) } else { JsonNumber::PosInt(value as u64) };
        self.write_value(key, JsonValue::Number(n));
        proof {
            let ms2 = self.spec_members();
            assert(entries_map(ms2).contains_key(key@));
            assert(entries_map(ms2)[key@] == integer_model(value));
        }
        Ok(())
    }

    /// Sets member `key` to the hyphenated UUID.
    pub fn write_uuid_value(&mut self, key: &str, value: u128) -> (r: Result<(), ApiError>)
        ensures
            r is Ok,
            final(self).spec_members() == entries_insert(old(self).spec_members(), key@, JsonModel::Str(uuid_text(value))),
            final(self).spec_current() == old(self).spec_current(),
    {
        self.write_value(key, JsonValue::String(uuid_to_text(value)));
        Ok(())
    }

    /// Sets member `key` to `YYYY-MM-DD`.
    pub fn write_date_only_value(&mut self, key: &str, value: &DateOnly) -> (r: Result<(), ApiError>)
        ensures
            r is Ok,
            final(self).spec_members() == entries_insert(old(self).spec_members(), key@, JsonModel::Str(date_text(*value))),
            final(self).spec_current() == old(self).spec_current(),
    {
        self.write_value(key, JsonValue::String(value.to_string()));
        Ok(())
    }

    /// Sets member `key` to `HH:MM:SS`.
    pub fn write_time_only_value(&mut self, key: &str, value: &TimeOnly) -> (r: Result<(), ApiError>)
        ensures
            r is Ok,
            final(self).spec_members() == entries_insert(old(self).spec_members(), key@, JsonModel::Str(time_text(*value))),
            final(self).spec_current() == old(self).spec_current(),
    {
        self.write_value(key, JsonValue::String(value.to_string()));
        Ok(())
    }

    /// Sets member `key` to the RFC 3339 text of the instant.
    pub fn write_datetime_value(&mut self, key: &str, value: &UtcDateTime) -> (r: Result<(), ApiError>)
        ensures
            r is Ok,
            final(self).spec_members() == entries_insert(old(self).spec_members(), key@, JsonModel::Str(value.spec_text())),
            final(self).spec_current() == old(self).spec_current(),
    {
        self.write_value(key, JsonValue::String(value.to_rfc3339()));
        Ok(())
    }

    /// The members as an object value.
    pub fn members_object(&self) -> (r: JsonValue)
        ensures
            r.model() == JsonModel::Object(self.spec_members()),
    {
        let n = self.root.len();
        let mut out: Vec<(String, JsonValue)> = Vec::new();
        let mut i: usize = 0;
        while i < n
            invariant
                i <= n,
                n == self.spec_members().len(),
                out@.len() == i,
                forall|j: int| 0 <= j < i ==> (#[trigger] out@[j]).0@ == self.spec_members()[j].0
                    && out@[j].1.model() == self.spec_members()[j].1,
            decreases n - i,
        {
            let k = self.root.key_at(i).clone();
            let v = self.root.value_at(i).copy();
            out.push((k, v));
            i = i + 1;
        }
        let r = JsonValue::Object(out);
        assert(r.model() =~= JsonModel::Object(self.spec_members())) by {
            let a = match r.model() { JsonModel::Object(x) => x, _ => Seq::empty() };
            assert(a =~= self.spec_members());
        }
        r
    }

    /// Sets member `key` to the object that `child` holds: an object is
    /// written into a fresh writer and becomes the member's value.
    pub fn write_object_from(&mut self, key: &str, child: &JsonSerializationWriter)
        ensures
            final(self).spec_members() == entries_insert(old(self).spec_members(), key@,
                JsonModel::Object(child.spec_members())),
            final(self).spec_current() == old(self).spec_current(),
    {
        let v = child.members_object();
        self.write_value(key, v);
    }

    /// Sets member `key` to the array of the objects that `children` hold.
    pub fn write_collection_from(&mut self, key: &str, children: &Vec<JsonSerializationWriter>)
        ensures
            final(self).spec_members() == entries_insert(old(self).spec_members(), key@,
                JsonModel::Array(Seq::new(children@.len(), |i: int| JsonModel::Object(children@[i].spec_members())))),
            final(self).spec_current() == old(self).spec_current(),
    {
        let mut items: Vec<JsonValue> = Vec::new();
        let mut i: usize = 0;
        while i < children.len()
            invariant
                i <= children@.len(),
                items@.len() == i,
                forall|j: int| 0 <= j < i ==> (#[trigger] items@[j]).model() == JsonModel::Object(children@[j].spec_members()),
            decreases children.len() - i,
        {
            items.push(children[i].members_object());
            i = i + 1;
        }
        let v = JsonValue::Array(items);
        assert(v.model() =~= JsonModel::Array(Seq::new(children@.len(), |i: int| JsonModel::Object(children@[i].spec_members())))) by {
            let a = match v.model() { JsonModel::Array(x) => x, _ => Seq::empty() };
            assert(a =~= Seq::new(children@.len(), |i: int| JsonModel::Object(children@[i].spec_members())));
        }
        self.write_value(key, v);
    }

    /// Sets each member of `data` in turn.
    pub fn write_additional_data(&mut self, data: &StringMap<JsonValue>) -> (r: Result<(), ApiError>)
        ensures
            r is Ok,
            final(self).spec_members() == members_with(old(self).spec_members(), data.entries()),
            entries_map(final(self).spec_members()) == entries_map(old(self).spec_members()).union_prefer_right(entries_map(data.entries())),
            final(self).spec_current() == old(self).spec_current(),
    {
        self.members_are_distinct();
        data.keys_are_distinct();
        proof { lemma_additional_data_members(self.spec_members(), data.entries()); }
        let n = data.len();
        let mut i: usize = 0;
        let ghost es = data.entries();
        assert(es.take(0) =~= Seq::<(Seq<char>, JsonModel)>::empty());
        while i < n
            invariant
                i <= n,
                n == es.len(),
                es == data.entries(),
                self.spec_members() == members_with(old(self).spec_members(), es.take(i as int)),
                self.spec_current() == old(self).spec_current(),
            decreases n - i,
        {
            let k = data.key_at(i);
            let v = data.value_at(i).copy();
            assert(es.take(i as int + 1).drop_last() =~= es.take(i as int));
            self.write_value(k.as_str(), v);
            i = i + 1;
        }
        assert(es.take(i as int) =~= es);
        Ok(())
    }

    /// The JSON bytes of the content value, as `serde_json` writes them;
    /// where it reports an error, an error with status code 0 and a message
    /// starting `JSON serialization error: `.
    pub fn get_serialized_content(&self) -> (r: Result<Vec<u8>, ApiError>)
        ensures
            r matches Ok(b) ==> b@ == json_bytes(match self.spec_current() {
                Some(v) => v,
                None => JsonModel::Object(self.spec_members()),
            }),
            r matches Err(e) ==> e.status_code == 0 && e.message@.take(26) == "JSON serialization error: "@,
            r is Ok <==> floats_are_numbers(match self.spec_current() {
                Some(v) => v,
                None => JsonModel::Object(self.spec_members()),
            }),
    {
        let v = self.content_value();
        match json_to_vec(&v) {
            Ok(b) => Ok(b),
            Err(e) => {
                let t = json_error_text(&e);
                let r = crate::scalar::error_with("JSON serialization error: ", t.as_str());
                proof { reveal_strlit("JSON serialization error: "); }
                assert(r.message@.take(26) =~= "JSON serialization error: "@);
                Err(r)
            },
        }
    }

    /// The value the content is made of: the keyless value if one was
    /// written, else the object of the members.
    pub fn content_value(&self) -> (r: JsonValue)
        ensures
            r.model() == match self.spec_current() {
                Some(v) => v,
                None => JsonModel::Object(self.spec_members()),
            },
    {
        match &self.current_value {
            Some(v) => v.copy(),
            None => self.members_object(),
        }
    }
}

/// Makes `JsonSerializationWriter`s for JSON.
pub struct JsonSerializationWriterFactory;

impl JsonSerializationWriterFactory {
    pub fn valid_content_type(&self) -> (r: &'static str)
        ensures
            r@ == json_content_type(),
    {
        "application/json"
    }

    /// A new writer, if `content_type` is JSON.
    pub fn get_serialization_writer(&self, content_type: &str) -> (r: Result<JsonSerializationWriter, ApiError>)
        ensures
            content_type@ == json_content_type() ==> (r matches Ok(w)
                && w.spec_members() == Seq::<(Seq<char>, JsonModel)>::empty() && w.spec_current() is None),
            content_type@ != json_content_type() ==> (r matches Err(e) && e.status_code == 0
                && e.message@ == json_wrong_type_message(content_type@)),
    {
        match json_content_type_check(content_type) {
            Ok(()) => Ok(JsonSerializationWriter::new()),
            Err(e) => Err(e),
        }
    }
}

/// A JSON integer member denotes the integer written: after `key` is set to
/// the number for `v`, the member under `key` reads back through
/// `Value::as_i64` as `v`, so it is negative exactly when `v` is.
pub proof fn lemma_json_integer_write_then_read(ms: Seq<(Seq<char>, JsonModel)>, key: Seq<char>, v: i64)
    requires
        entry_keys(ms).no_duplicates(),
    ensures
        model_get(JsonModel::Object(entries_insert(ms, key, integer_model(v))), key) matches Some(m)
            && model_as_i64(m) == Some(v),
{
    lemma_json_write_then_read(ms, key, integer_model(v), key);
}

/// Additional data overrides the members: with distinct keys on both sides,
/// after the data is written every key of the data is a member holding the
/// data's value for it, whatever kind of value that is, every other member
/// is as it was, and the keys stay distinct.
pub proof fn lemma_additional_data_members(ms: Seq<(Seq<char>, JsonModel)>, data: Seq<(Seq<char>, JsonModel)>)
    requires
        entry_keys(ms).no_duplicates(),
        entry_keys(data).no_duplicates(),
    ensures
        entry_keys(members_with(ms, data)).no_duplicates(),
        entries_map(members_with(ms, data)) == entries_map(ms).union_prefer_right(entries_map(data)),
    decreases data.len(),
{
    if data.len() == 0 {
        assert(entries_map(data) =~= Map::<Seq<char>, JsonModel>::empty());
        assert(entries_map(ms).union_prefer_right(entries_map(data)) =~= entries_map(ms));
    } else {
        let rest = data.drop_last();
        let (k, v) = data.last();
        assert(entry_keys(rest) =~= entry_keys(data).drop_last());
        lemma_additional_data_members(ms, rest);
        lemma_entries_insert(members_with(ms, rest), k, v);
        assert(!has_key(rest, k)) by {
            if has_key(rest, k) {
                let j = choose|j: int| 0 <= j < rest.len() && #[trigger] rest[j].0 == k;
                assert(entry_keys(data)[j] == entry_keys(data)[data.len() - 1]);
            }
        }
        lemma_entries_insert(rest, k, v);
        assert(entries_insert(rest, k, v) =~= data);
        assert(entries_map(ms).union_prefer_right(entries_map(rest)).insert(k, v)
            =~= entries_map(ms).union_prefer_right(entries_map(rest).insert(k, v)));
    }
}

/// JSON write then read: in the object of a writer's members, after `key` is
/// set to `v`, the member under `key` is `v` and every other key has what it
/// had.
pub proof fn lemma_json_write_then_read(ms: Seq<(Seq<char>, JsonModel)>, key: Seq<char>, v: JsonModel, other: Seq<char>)
    requires
        entry_keys(ms).no_duplicates(),
    ensures
        model_get(JsonModel::Object(entries_insert(ms, key, v)), key) == Some(v),
        other != key ==> model_get(JsonModel::Object(entries_insert(ms, key, v)), other)
            == model_get(JsonModel::Object(ms), other),
{
    let ms2 = entries_insert(ms, key, v);
    lemma_entries_insert(ms, key, v);
    lemma_members_get_distinct(ms2, key);
    lemma_members_get_distinct(ms2, other);
    lemma_members_get_distinct(ms, other);
    assert(entries_map(ms2).contains_key(key));
    assert(entries_get(ms2, key) == Some(entries_map(ms2)[key]));
    if other != key {
        assert(entries_map(ms2).contains_key(other) == entries_map(ms).contains_key(other));
        if entries_map(ms).contains_key(other) {
            assert(entries_map(ms2)[other] == entries_map(ms)[other]);
            assert(entries_get(ms2, other) == Some(entries_map(ms2)[other]));
            assert(entries_get(ms, other) == Some(entries_map(ms)[other]));
        }
    }
}

impl Default for JsonSerializationWriter {
    /// A writer with no members.
    fn default() -> (r: Self)
        ensures
            r.spec_members() == Seq::<(Seq<char>, JsonModel)>::empty(),
            r.spec_current() is None,
    {
        JsonSerializationWriter::new()
    }
}

} // verus!
