//! The `application/x-www-form-urlencoded` reader.

use vstd::prelude::*;
use crate::api_error::ApiError;
use crate::date_only::DateOnly;
use crate::date_time::{rfc3339_utc_text, UtcDateTime};
use crate::scalar::{
    bool_reading, date_reading, i32_reading, i64_reading, outcome_is, read_bool, read_date, read_i32,
    read_date_time, read_i64, read_time, read_uuid, reading, text_of, time_reading,
};
use crate::case_insensitive_map::lemma_get_is_map;
use crate::string_map::{entries_get, entries_insert, entries_map, entry_keys, has_key, lemma_entries_insert, StringMap};
use crate::text::{same_text, str_from_utf8, utf8_error_text};
use crate::time_only::TimeOnly;
use crate::uuid_value::{uuid_from_text, uuid_text};

verus! {

/// The name/value pairs that `form_urlencoded::parse` reads from `input`,
/// in order.
pub uninterp spec fn form_decoded_pairs(input: Seq<u8>) -> Seq<(Seq<char>, Seq<char>)>;

/// `url::form_urlencoded::parse`, each pair taken as two `String`s. What it
/// yields is named `form_decoded_pairs`: it depends on the bytes alone
/// (split at `&`, empty pieces skipped, split at the first `=`, `+` read as a
/// space, percent-decoding, lossy UTF-8); nothing more is claimed of it.
#[verifier::external_body]
fn form_parse(input: &[u8]) -> (r: Vec<(String, String)>)
    ensures
        r@.len() == form_decoded_pairs(input@).len(),
        forall|i: int| 0 <= i < r@.len() ==> (#[trigger] r@[i]).0@ == form_decoded_pairs(input@)[i].0
            && r@[i].1@ == form_decoded_pairs(input@)[i].1,
{
    url::form_urlencoded::parse(input).into_owned().collect()
}

/// The fields that a list of pairs gives when each pair is set in turn: a
/// later value of a name replaces an earlier one.
pub open spec fn fields_of(pairs: Seq<(Seq<char>, Seq<char>)>) -> Seq<(Seq<char>, Seq<char>)>
    decreases pairs.len(),
{
    if pairs.len() == 0 {
        Seq::empty()
    } else {
        entries_insert(fields_of(pairs.drop_last()), pairs.last().0, pairs.last().1)
    }
}

/// Every decoded pair lands in the fields: a name is a field exactly when
/// some pair has it, whatever its value (an empty one too), and the field's
/// value is that of the last pair with the name; names are not repeated.
pub proof fn lemma_fields_of_pairs(p: Seq<(Seq<char>, Seq<char>)>)
    ensures
        entry_keys(fields_of(p)).no_duplicates(),
        forall|k: Seq<char>| #[trigger] has_key(fields_of(p), k) <==> exists|i: int| 0 <= i < p.len() && #[trigger] p[i].0 == k,
        forall|i: int| 0 <= i < p.len() && (forall|j: int| i < j < p.len() ==> #[trigger] p[j].0 != p[i].0)
            ==> entries_get(fields_of(p), #[trigger] p[i].0) == Some(p[i].1),
    decreases p.len(),
{
    if p.len() == 0 {
        assert(entry_keys(fields_of(p)) =~= Seq::<Seq<char>>::empty());
    } else {
        let q = p.drop_last();
        let (k, v) = p.last();
        let f = fields_of(q);
        let fp = fields_of(p);
        lemma_fields_of_pairs(q);
        lemma_entries_insert(f, k, v);
        assert forall|x: Seq<char>| #[trigger] has_key(fp, x) <==> exists|i: int| 0 <= i < p.len() && #[trigger] p[i].0 == x by {
            assert(entries_map(fp).contains_key(x) == has_key(fp, x));
            assert(entries_map(f).contains_key(x) == has_key(f, x));
            if x == k {
                assert(p[p.len() - 1].0 == x);
            } else {
                if has_key(f, x) {
                    let i = choose|i: int| 0 <= i < q.len() && #[trigger] q[i].0 == x;
                    assert(p[i].0 == x);
                }
                if exists|i: int| 0 <= i < p.len() && #[trigger] p[i].0 == x {
                    let i = choose|i: int| 0 <= i < p.len() && #[trigger] p[i].0 == x;
                    assert(i != p.len() - 1);
                    assert(q[i].0 == x);
                }
            }
        }
        assert forall|i: int| 0 <= i < p.len() && (forall|j: int| i < j < p.len() ==> #[trigger] p[j].0 != p[i].0)
            implies entries_get(fp, #[trigger] p[i].0) == Some(p[i].1) by {
            let x = p[i].0;
            lemma_get_is_map(fp, x);
            lemma_get_is_map(f, x);
            if i < p.len() - 1 {
                assert(p[p.len() - 1].0 != x);
                assert forall|j: int| i < j < q.len() implies #[trigger] q[j].0 != q[i].0 by {
                    assert(p[j].0 != p[i].0);
                }
                assert(q[i] == p[i]);
            }
        }
    }
}

/// A form node: the fields of the form, and the value the node stands for
/// (none for the root of the form).
pub struct FormParseNode {
    fields: StringMap<String>,
    current_value: Option<String>,
}

impl FormParseNode {
    /// The fields, in order.
    pub closed spec fn spec_fields(&self) -> Seq<(Seq<char>, Seq<char>)> {
        self.fields.entries()
    }

    /// The value this node stands for.
    pub closed spec fn spec_value(&self) -> Option<Seq<char>> {
        match self.current_value {
            Some(s) => Some(s@),
            None => None,
        }
    }

    /// A root node over `fields`.
    pub fn new(fields: StringMap<String>) -> (r: Self)
        ensures
            r.spec_fields() == fields.entries(),
            r.spec_value() is None,
    {
        FormParseNode { fields, current_value: None }
    }

    /// The root node over a form body: the body must be UTF-8 (else an error
    /// with status code 0 and a message starting `Invalid UTF-8: `), and its
    /// pairs become the fields, a later value of a name replacing an earlier.
    pub fn from_bytes(content: &[u8]) -> (r: Result<Self, ApiError>)
        ensures
            r is Ok <==> vstd::utf8::valid_utf8(content@),
            r matches Ok(n) ==> n.spec_fields() == fields_of(form_decoded_pairs(content@)) && n.spec_value() is None,
            r matches Err(e) ==> e.status_code == 0 && e.message@.take(15) == "Invalid UTF-8: "@,
    {
        match str_from_utf8(content) {
            Ok(_) => {},
            Err(e) => {
                let t = utf8_error_text(&e);
                let mut m = String::from_str("Invalid UTF-8: ");
                m.append(t.as_str());
                proof { reveal_strlit("Invalid UTF-8: "); }
                assert(m@.take(15) =~= "Invalid UTF-8: "@);
                return Err(ApiError::new(0, m.as_str()));
            },
        }
        let pairs = form_parse(content);
        let ghost decoded = form_decoded_pairs(content@);
        let mut fields: StringMap<String> = StringMap::new();
        let mut i: usize = 0;
        assert(decoded.take(0) =~= Seq::<(Seq<char>, Seq<char>)>::empty());
        while i < pairs.len()
            invariant
                i <= pairs@.len(),
                pairs@.len() == decoded.len(),
                forall|j: int| 0 <= j < pairs@.len() ==> (#[trigger] pairs@[j]).0@ == decoded[j].0
                    && pairs@[j].1@ == decoded[j].1,
                fields.entries() == fields_of(decoded.take(i as int)),
            decreases pairs.len() - i,
        {
            let k = pairs[i].0.clone();
            let v = pairs[i].1.clone();
            assert(decoded.take(i as int + 1).drop_last() =~= decoded.take(i as int));
            fields.insert(k, v);
            i = i + 1;
        }
        assert(decoded.take(i as int) =~= decoded);
        Ok(FormParseNode { fields, current_value: None })
    }

    fn current_str(&self) -> (r: Option<&str>)
        ensures
            text_of(r) == self.spec_value(),
    {
        match &self.current_value {
            Some(s) => Some(s.as_str()),
            None => None,
        }
    }

    /// The fields of the form.
    pub fn fields(&self) -> (r: &StringMap<String>)
        ensures
            r.entries() == self.spec_fields(),
    {
        &self.fields
    }

    /// The value as text.
    pub fn get_string_value(&self) -> (r: Result<Option<String>, ApiError>)
        ensures
            r matches Ok(v) && (match v { Some(s) => Some(s@), None => None::<Seq<char>> }) == self.spec_value(),
    {
        match &self.current_value {
            Some(s) => Ok(Some(s.clone())),
            None => Ok(None),
        }
    }

    /// The value read as `true` or `false`.
    pub fn get_bool_value(&self) -> (r: Result<Option<bool>, ApiError>)
        ensures
            outcome_is(r, reading(self.spec_value(), |s: Seq<char>| bool_reading(s))),
    {
        read_bool(self.current_str())
    }

    /// The value read as an `i32`.
    pub fn get_i32_value(&self) -> (r: Result<Option<i32>, ApiError>)
        ensures
            outcome_is(r, reading(self.spec_value(), |s: Seq<char>| i32_reading(s))),
    {
        read_i32(self.current_str())
    }

    /// The value read as an `i64`.
    pub fn get_i64_value(&self) -> (r: Result<Option<i64>, ApiError>)
        ensures
            outcome_is(r, reading(self.spec_value(), |s: Seq<char>| i64_reading(s))),
    {
        read_i64(self.current_str())
    }

    /// The value read as a UUID (its 128-bit value).
    pub fn get_uuid_value(&self) -> (r: Result<Option<u128>, ApiError>)
        ensures
            self.spec_value() is None ==> r == Ok::<Option<u128>, ApiError>(None),
            self.spec_value() matches Some(s) ==> match r {
                Ok(Some(x)) => uuid_from_text(s) == Some(x),
                Ok(None) => false,
                Err(e) => uuid_from_text(s) is None && e.status_code == 0
                    && e.message@.take(19) == "Cannot parse UUID: "@,
            },
            forall|x: u128| self.spec_value() == Some(#[trigger] uuid_text(x)) ==> r == Ok::<Option<u128>, ApiError>(Some(x)),
    {
        read_uuid(self.current_str())
    }

    /// The value read as a `YYYY-MM-DD` date.
    pub fn get_date_only_value(&self) -> (r: Result<Option<DateOnly>, ApiError>)
        ensures
            outcome_is(r, reading(self.spec_value(), |s: Seq<char>| date_reading(s))),
    {
        read_date(self.current_str())
    }

    /// The value read as an `HH:MM:SS` time.
    pub fn get_time_only_value(&self) -> (r: Result<Option<TimeOnly>, ApiError>)
        ensures
            outcome_is(r, reading(self.spec_value(), |s: Seq<char>| time_reading(s))),
    {
        read_time(self.current_str())
    }

    /// The value read as an RFC 3339 date and time.
    pub fn get_datetime_value(&self) -> (r: Result<Option<UtcDateTime>, ApiError>)
        ensures
            self.spec_value() is None ==> r matches Ok(None),
            self.spec_value() matches Some(s) ==> match r {
                Ok(Some(t)) => rfc3339_utc_text(s) == Some(t.spec_text()),
                Ok(None) => false,
                Err(e) => rfc3339_utc_text(s) is None && e.status_code == 0
                    && e.message@.take(23) == "Cannot parse DateTime: "@,
            },
    {
        read_date_time(self.current_str())
    }

    /// The value mapped through `parser`, which turns the text of an enum
    /// member into the member's name.
    pub fn get_enum_value<F: Fn(&str) -> Option<String>>(&self, parser: F) -> (r: Result<Option<String>, ApiError>)
        requires
            forall|s: &str| #[trigger] parser.requires((s,)),
        ensures
            self.spec_value() is None ==> r matches Ok(None),
            self.spec_value() matches Some(v) ==> exists|s: &str| s@ == v && #[trigger] parser.ensures((s,), r->Ok_0),
            r is Ok,
    {
        match &self.current_value {
            Some(v) => Ok(parser(v.as_str())),
            None => Ok(None),
        }
    }

    /// Forms hold no lists of objects: always an error.
    pub fn get_collection_of_object_values<T>(&self) -> (r: Result<Vec<T>, ApiError>)
        ensures
            r matches Err(e) && e.status_code == 0
                && e.message@ == "Form encoding does not support collections of objects"@,
    {
        Err(ApiError::new(0, "Form encoding does not support collections of objects"))
    }

    /// Forms hold no lists: always an error.
    pub fn get_collection_of_primitive_values(&self) -> (r: Result<Vec<String>, ApiError>)
        ensures
            r matches Err(e) && e.status_code == 0
                && e.message@ == "Form encoding does not support primitive collections"@,
    {
        Err(ApiError::new(0, "Form encoding does not support primitive collections"))
    }

    /// The node for field `key`: the same fields, standing for the field's
    /// value; nothing if the form has no such field.
    pub fn get_child_node(&self, key: &str) -> (r: Option<FormParseNode>)
        ensures
            r is Some == has_key(self.spec_fields(), key@),
            r matches Some(n) ==> n.spec_fields() == self.spec_fields()
                && n.spec_value() == entries_get(self.spec_fields(), key@),
    {
        match self.fields.get(key) {
            Some(v) => Some(FormParseNode { fields: self.fields.copy(), current_value: Some(v.clone()) }),
            None => None,
        }
    }
}

/// The content type of forms.
pub open spec fn form_content_type() -> Seq<char> {
    "application/x-www-form-urlencoded"@
}

/// The message for a content type other than the form type.
pub open spec fn form_wrong_type_message(content_type: Seq<char>) -> Seq<char> {
    "Expected application/x-www-form-urlencoded, got "@ + content_type
}

/// Makes `FormParseNode`s from form bodies.
pub struct FormParseNodeFactory;

impl FormParseNodeFactory {
    pub fn valid_content_type(&self) -> (r: &'static str)
        ensures
            r@ == form_content_type(),
    {
        "application/x-www-form-urlencoded"
    }

    /// The node over `content`, if `content_type` is the form type.
    pub fn get_root_parse_node(&self, content_type: &str, content: &[u8]) -> (r: Result<FormParseNode, ApiError>)
        ensures
            content_type@ != form_content_type() ==> (r matches Err(e) && e.status_code == 0
                && e.message@ == form_wrong_type_message(content_type@)),
            content_type@ == form_content_type() ==> (r is Ok <==> vstd::utf8::valid_utf8(content@)),
            r matches Ok(n) ==> content_type@ == form_content_type()
                && n.spec_fields() == fields_of(form_decoded_pairs(content@)) && n.spec_value() is None,
    {
        if !same_text(content_type, "application/x-www-form-urlencoded") {
            let mut m = String::from_str("Expected application/x-www-form-urlencoded, got ");
            m.append(content_type);
            return Err(ApiError::new(0, m.as_str()));
        }
        FormParseNode::from_bytes(content)
    }
}

} // verus!
