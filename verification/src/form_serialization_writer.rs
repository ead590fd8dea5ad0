//! The `application/x-www-form-urlencoded` writer.

use vstd::prelude::*;
use crate::api_error::ApiError;
use crate::date_only::{date_text, DateOnly};
use crate::date_time::UtcDateTime;
use crate::form_parse_node::{form_content_type, form_wrong_type_message};
use crate::json_codec::{json_bytes, json_error_text, json_to_vec};
use crate::json_value::{JsonModel, JsonValue};
use crate::string_map::StringMap;
use crate::text::{format_int, push_padded_i64, same_text, str_from_utf8};
use crate::time_only::{time_text, TimeOnly};
use crate::uuid_value::{uuid_text, uuid_to_text};

verus! {

/// Whether the form byte serializer keeps `b` as it is: `*`, `-`, `.`, `_`,
/// ASCII digits and letters.
pub open spec fn form_byte_kept(b: u8) -> bool {
    b == 0x2A || b == 0x2D || b == 0x2E || b == 0x5F || (0x30 <= b && b <= 0x39)
        || (0x41 <= b && b <= 0x5A) || (0x61 <= b && b <= 0x7A)
}

/// The upper-case ASCII hexadecimal digit for `d < 16`.
pub open spec fn upper_hex(d: int) -> u8 {
    if d < 10 { (d + 0x30) as u8 } else { (d + 0x37) as u8 }
}

/// The form byte serializer: kept bytes as they are, a space as `+`, any
/// other byte as `%` and two upper-case hexadecimal digits.
pub open spec fn form_bytes(bs: Seq<u8>) -> Seq<u8>
    decreases bs.len(),
{
    if bs.len() == 0 {
        Seq::empty()
    } else {
        let b = bs[0];
        (if form_byte_kept(b) {
            seq![b]
        } else if b == 0x20 {
            seq![0x2Bu8]
        } else {
            seq![0x25u8, upper_hex(b as int / 16), upper_hex(b as int % 16)]
        }) + form_bytes(bs.drop_first())
    }
}

/// One pair: the encoded UTF-8 name, `=`, the encoded UTF-8 value.
pub open spec fn form_pair(p: (Seq<char>, Seq<char>)) -> Seq<u8> {
    form_bytes(vstd::utf8::encode_utf8(p.0)) + seq![0x3Du8] + form_bytes(vstd::utf8::encode_utf8(p.1))
}

/// The pairs, each encoded, joined by `&`.
pub open spec fn form_body(pairs: Seq<(Seq<char>, Seq<char>)>) -> Seq<u8>
    decreases pairs.len(),
{
    if pairs.len() == 0 {
        Seq::empty()
    } else if pairs.len() == 1 {
        form_pair(pairs[0])
    } else {
        form_body(pairs.drop_last()) + seq![0x26u8] + form_pair(pairs.last())
    }
}

/// The text a JSON value takes in a form: a string as it is, any other value
/// as the UTF-8 text of the JSON that `serde_json` writes for it.
pub open spec fn form_text_of(v: JsonModel) -> Seq<char> {
    match v {
        JsonModel::Str(s) => s,
        _ => vstd::utf8::decode_utf8(json_bytes(v)),
    }
}

/// The pairs that additional data adds: each member, its value as
/// `form_text_of` gives it, in order.
pub open spec fn additional_pairs(es: Seq<(Seq<char>, JsonModel)>) -> Seq<(Seq<char>, Seq<char>)> {
    es.map_values(|e: (Seq<char>, JsonModel)| (e.0, form_text_of(e.1)))
}

/// `url::form_urlencoded::Serializer` over a new `String`, all pairs appended
/// in order, as bytes. Its source appends `&` before every pair but the
/// first, then the byte-serialized UTF-8 name, `=` and the byte-serialized
/// UTF-8 value; `form_body` states exactly that.
#[verifier::external_body]
fn form_serialize(pairs: &Vec<(String, String)>) -> (r: Vec<u8>)
    ensures
        r@ == form_body(pairs@.map_values(|p: (String, String)| (p.0@, p.1@))),
{
    url::form_urlencoded::Serializer::new(String::new()).extend_pairs(pairs).finish().into_bytes()
}

/// Writes name/value pairs as a form body; a name may occur more than once.
pub struct FormSerializationWriter {
    pairs: Vec<(String, String)>,
}

impl FormSerializationWriter {
    /// The pairs written so far, in order.
    pub closed spec fn spec_pairs(&self) -> Seq<(Seq<char>, Seq<char>)> {
        self.pairs@.map_values(|p: (String, String)| (p.0@, p.1@))
    }

    pub fn new() -> (r: Self)
        ensures
            r.spec_pairs() == Seq::<(Seq<char>, Seq<char>)>::empty(),
    {
        let r = FormSerializationWriter { pairs: Vec::new() };
        assert(r.spec_pairs() =~= Seq::<(Seq<char>, Seq<char>)>::empty());
        r
    }

    fn push(&mut self, key: &str, text: String)
        ensures
            final(self).spec_pairs() == old(self).spec_pairs().push((key@, text@)),
    {
        self.pairs.push((String::from_str(key), text));
        assert(self.spec_pairs() =~= old(self).spec_pairs().push((key@, text@)));
    }

    /// Adds the pair `key=value`.
    pub fn write_string_value(&mut self, key: &str, value: &str) -> (r: Result<(), ApiError>)
        ensures
            r is Ok,
            final(self).spec_pairs() == old(self).spec_pairs().push((key@, value@)),
    {
        self.push(key, String::from_str(value));
        Ok(())
    }

    /// Adds `key=true` or `key=false`.
    pub fn write_bool_value(&mut self, key: &str, value: bool) -> (r: Result<(), ApiError>)
        ensures
            r is Ok,
            final(self).spec_pairs() == old(self).spec_pairs().push((key@, if value { "true"@ } else { "false"@ })),
    {
        let t = if value { "true" } else { "false" };
        self.write_string_value(key, t)
    }

    /// Adds the pair of `key` and the decimal form of `value`.
    pub fn write_i32_value(&mut self, key: &str, value: i32) -> (r: Result<(), ApiError>)
        ensures
            r is Ok,
            final(self).spec_pairs() == old(self).spec_pairs().push((key@, format_int(value as int, 0))),
    {
        self.write_i64_value(key, value as i64)
    }

    /// Adds the pair of `key` and the decimal form of `value`.
    pub fn write_i64_value(&mut self, key: &str, value: i64) -> (r: Result<(), ApiError>)
        ensures
            r is Ok,
            final(self).spec_pairs() == old(self).spec_pairs().push((key@, format_int(value as int, 0))),
    {
        let mut t = String::new();
        push_padded_i64(&mut t, value, 0);
        self.push(key, t);
        Ok(())
    }

    /// Adds the pair of `key` and the hyphenated UUID.
    pub fn write_uuid_value(&mut self, key: &str, value: u128) -> (r: Result<(), ApiError>)
        ensures
            r is Ok,
            final(self).spec_pairs() == old(self).spec_pairs().push((key@, uuid_text(value))),
    {
        self.push(key, uuid_to_text(value));
        Ok(())
    }

    /// Adds the pair of `key` and `YYYY-MM-DD`.
    pub fn write_date_only_value(&mut self, key: &str, value: &DateOnly) -> (r: Result<(), ApiError>)
        ensures
            r is Ok,
            final(self).spec_pairs() == old(self).spec_pairs().push((key@, date_text(*value))),
    {
        self.push(key, value.to_string());
        Ok(())
    }

    /// Adds the pair of `key` and `HH:MM:SS`.
    pub fn write_time_only_value(&mut self, key: &str, value: &TimeOnly) -> (r: Result<(), ApiError>)
        ensures
            r is Ok,
            final(self).spec_pairs() == old(self).spec_pairs().push((key@, time_text(*value))),
    {
        self.push(key, value.to_string());
        Ok(())
    }

    /// Adds the pair of `key` and the RFC 3339 text of the instant.
    pub fn write_datetime_value(&mut self, key: &str, value: &UtcDateTime) -> (r: Result<(), ApiError>)
        ensures
            r is Ok,
            final(self).spec_pairs() == old(self).spec_pairs().push((key@, value.spec_text())),
    {
        self.push(key, value.to_rfc3339());
        Ok(())
    }

    /// Adds, after its own, the pairs that `child` holds: an object is
    /// written into a fresh writer and its pairs join the outer ones, its key
    /// unused.
    pub fn append_pairs_of(&mut self, child: FormSerializationWriter)
        ensures
            final(self).spec_pairs() == old(self).spec_pairs() + child.spec_pairs(),
    {
        let mut rest = child.pairs;
        let ghost added = rest@;
        self.pairs.append(&mut rest);
        assert(self.spec_pairs() =~= old(self).spec_pairs() + child.spec_pairs());
    }

    /// Adds a pair for each member of `data`, in order (see
    /// `additional_pairs`). Where `serde_json` reports an error for a value
    /// that is not a string, or writes bytes that are not UTF-8, nothing is
    /// added and the error has status code 0 and a message starting
    /// `JSON serialization error: `.
    pub fn write_additional_data(&mut self, data: &StringMap<JsonValue>) -> (r: Result<(), ApiError>)
        ensures
            r is Ok ==> final(self).spec_pairs() == old(self).spec_pairs() + additional_pairs(data.entries()),
            r matches Err(e) ==> final(self).spec_pairs() == old(self).spec_pairs() && e.status_code == 0
                && e.message@.take(26) == "JSON serialization error: "@,
            (forall|i: int| 0 <= i < data.entries().len() ==> (#[trigger] data.entries()[i]).1 is Str) ==> r is Ok,
    {
        let n = data.len();
        let ghost es = data.entries();
        let mut added: Vec<(String, String)> = Vec::new();
        let mut i: usize = 0;
        while i < n
            invariant
                i <= n,
                n == es.len(),
                es == data.entries(),
                added@.map_values(|p: (String, String)| (p.0@, p.1@)) == additional_pairs(es.take(i as int)),
            decreases n - i,
        {
            let k = data.key_at(i).clone();
            let text = match data.value_at(i) {
                JsonValue::String(s) => s.clone(),
                v => {
                    let bytes = match json_to_vec(v) {
                        Ok(b) => b,
                        Err(e) => {
                            let t = json_error_text(&e);
                            return Err(Self::serialization_error(t.as_str()));
                        },
                    };
                    match str_from_utf8(bytes.as_slice()) {
                        Ok(t) => String::from_str(t),
                        Err(_) => {
                            return Err(Self::serialization_error("the JSON is not UTF-8"));
                        },
                    }
                },
            };
            let ghost before = added@;
            added.push((k, text));
            proof {
                assert(es.take(i as int + 1) =~= es.take(i as int).push(es[i as int]));
                assert(added@.map_values(|p: (String, String)| (p.0@, p.1@))
                    =~= before.map_values(|p: (String, String)| (p.0@, p.1@)).push((es[i as int].0, form_text_of(es[i as int].1))));
            }
            i = i + 1;
        }
        assert(es.take(n as int) =~= es);
        let ghost old_pairs = self.spec_pairs();
        self.pairs.append(&mut added);
        assert(self.spec_pairs() =~= old_pairs + additional_pairs(es));
        Ok(())
    }

    fn serialization_error(detail: &str) -> (r: ApiError)
        ensures
            r.status_code == 0,
            r.message@.take(26) == "JSON serialization error: "@,
    {
        let r = crate::scalar::error_with("JSON serialization error: ", detail);
        proof { reveal_strlit("JSON serialization error: "); }
        assert(r.message@.take(26) =~= "JSON serialization error: "@);
        r
    }

    /// Forms hold no lists of objects: always an error, and nothing is written.
    pub fn write_collection_of_object_values<T>(&mut self, key: &str, values: &[T]) -> (r: Result<(), ApiError>)
        ensures
            r matches Err(e) && e.status_code == 0 && e.message@ == "Form encoding does not support collections"@,
            final(self).spec_pairs() == old(self).spec_pairs(),
    {
        Err(ApiError::new(0, "Form encoding does not support collections"))
    }

    /// The form body: the pairs encoded and joined by `&`.
    pub fn get_serialized_content(&self) -> (r: Result<Vec<u8>, ApiError>)
        ensures
            r matches Ok(b) && b@ == form_body(self.spec_pairs()),
    {
        Ok(form_serialize(&self.pairs))
    }
}

/// Makes `FormSerializationWriter`s for the form type.
pub struct FormSerializationWriterFactory;

impl FormSerializationWriterFactory {
    pub fn valid_content_type(&self) -> (r: &'static str)
        ensures
            r@ == form_content_type(),
    {
        "application/x-www-form-urlencoded"
    }

    /// A new writer, if `content_type` is the form type.
    pub fn get_serialization_writer(&self, content_type: &str) -> (r: Result<FormSerializationWriter, ApiError>)
        ensures
            content_type@ == form_content_type() ==> (r matches Ok(w)
                && w.spec_pairs() == Seq::<(Seq<char>, Seq<char>)>::empty()),
            content_type@ != form_content_type() ==> (r matches Err(e) && e.status_code == 0
                && e.message@ == form_wrong_type_message(content_type@)),
    {
        if !same_text(content_type, "application/x-www-form-urlencoded") {
            let mut m = String::from_str("Expected application/x-www-form-urlencoded, got ");
            m.append(content_type);
            return Err(ApiError::new(0, m.as_str()));
        }
        Ok(FormSerializationWriter::new())
    }
}

impl Default for FormSerializationWriter {
    /// A writer with no pairs.
    fn default() -> (r: Self)
        ensures
            r.spec_pairs() == Seq::<(Seq<char>, Seq<char>)>::empty(),
    {
        FormSerializationWriter::new()
    }
}

} // verus!
