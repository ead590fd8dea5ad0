//! JSON values as plain data, and their mathematical reading.

use vstd::prelude::*;
use crate::string_map::{entries_get, entry_keys, has_key, key_index, lemma_key_index};
use crate::text::{decimal_digits, format_int, push_padded_i64};

verus! {

/// A JSON number as `serde_json::Number` holds it: a non-negative integer, a
/// negative integer, or a float, which is carried as the text it displays.
#[derive(Debug)]
pub enum JsonNumber {
    PosInt(u64),
    NegInt(i64),
    Float(String),
}

/// A JSON value. An object keeps its members in order; a key that occurs
/// twice is read at its first occurrence.
#[derive(Debug)]
pub enum JsonValue {
    Null,
    Bool(bool),
    Number(JsonNumber),
    String(String),
    Array(Vec<JsonValue>),
    Object(Vec<(String, JsonValue)>),
}

/// The reading of a `JsonNumber`.
pub enum NumberModel {
    PosInt(u64),
    NegInt(i64),
    Float(Seq<char>),
}

/// The reading of a `JsonValue`, texts as character sequences.
pub enum JsonModel {
    Null,
    Bool(bool),
    Number(NumberModel),
    Str(Seq<char>),
    Array(Seq<JsonModel>),
    Object(Seq<(Seq<char>, JsonModel)>),
}

impl JsonNumber {
    pub open spec fn model(&self) -> NumberModel {
        match self {
            JsonNumber::PosInt(n) => NumberModel::PosInt(*n),
            JsonNumber::NegInt(n) => NumberModel::NegInt(*n),
            JsonNumber::Float(t) => NumberModel::Float(t@),
        }
    }
}

impl JsonValue {
    pub open spec fn model(&self) -> JsonModel
        decreases self,
    {
        match self {
            JsonValue::Null => JsonModel::Null,
            JsonValue::Bool(b) => JsonModel::Bool(*b),
            JsonValue::Number(n) => JsonModel::Number(n.model()),
            JsonValue::String(s) => JsonModel::Str(s@),
            JsonValue::Array(items) => JsonModel::Array(
                Seq::new(items@.len(), |i: int|
                    if 0 <= i < items@.len() {
                        proof { assert(decreases_to!(self => items@[i])); }
                        items@[i].model()
                    } else {
                        JsonModel::Null
                    }),
            ),
            JsonValue::Object(members) => JsonModel::Object(
                Seq::new(members@.len(), |i: int|
                    if 0 <= i < members@.len() {
                        proof { assert(decreases_to!(self => members@[i].1)); }
                        (members@[i].0@, members@[i].1.model())
                    } else {
                        (Seq::empty(), JsonModel::Null)
                    }),
            ),
        }
    }
}

impl DeepView for JsonValue {
    type V = JsonModel;

    open spec fn deep_view(&self) -> JsonModel {
        self.model()
    }
}

/// The text a number displays: integers in decimal, floats as carried.
pub open spec fn number_text(n: NumberModel) -> Seq<char> {
    match n {
        NumberModel::PosInt(v) => decimal_digits(v as nat),
        NumberModel::NegInt(v) => format_int(v as int, 0),
        NumberModel::Float(t) => t,
    }
}

/// `Value::as_str`.
pub open spec fn model_as_str(m: JsonModel) -> Option<Seq<char>> {
    match m {
        JsonModel::Str(s) => Some(s),
        _ => None,
    }
}

/// `Value::as_bool`.
pub open spec fn model_as_bool(m: JsonModel) -> Option<bool> {
    match m {
        JsonModel::Bool(b) => Some(b),
        _ => None,
    }
}

/// `Value::as_i64`: integers that fit an `i64`.
pub open spec fn model_as_i64(m: JsonModel) -> Option<i64> {
    match m {
        JsonModel::Number(NumberModel::PosInt(v)) => if v <= i64::MAX { Some(v as i64) } else { None },
        JsonModel::Number(NumberModel::NegInt(v)) => Some(v),
        _ => None,
    }
}

/// The member of an object with key `key` (the first, if several), as
/// `Value::get` with a string index gives it; nothing for other values.
pub open spec fn model_get(m: JsonModel, key: Seq<char>) -> Option<JsonModel> {
    match m {
        JsonModel::Object(ms) => members_get(ms, key),
        _ => None,
    }
}

/// The value of the first member with key `key`.
pub open spec fn members_get(ms: Seq<(Seq<char>, JsonModel)>, key: Seq<char>) -> Option<JsonModel>
    decreases ms.len(),
{
    if ms.len() == 0 {
        None
    } else if ms[0].0 == key {
        Some(ms[0].1)
    } else {
        members_get(ms.drop_first(), key)
    }
}

/// With distinct keys, the first member with a key is the entry of that key.
pub proof fn lemma_members_get_distinct(ms: Seq<(Seq<char>, JsonModel)>, key: Seq<char>)
    requires
        entry_keys(ms).no_duplicates(),
    ensures
        members_get(ms, key) == entries_get(ms, key),
    decreases ms.len(),
{
    if ms.len() > 0 {
        if ms[0].0 == key {
            lemma_key_index(ms, 0);
        } else {
            let rest = ms.drop_first();
            assert(entry_keys(rest) =~= entry_keys(ms).drop_first());
            lemma_members_get_distinct(rest, key);
            if has_key(rest, key) {
                let j = key_index(rest, key);
                assert(ms[j + 1] == rest[j]);
                lemma_key_index(ms, j + 1);
            }
            if has_key(ms, key) {
                let j = key_index(ms, key);
                assert(j != 0);
                assert(rest[j - 1] == ms[j]);
            }
        }
    }
}

/// The text of a primitive array item: strings as they are, numbers as they
/// display, booleans as `true` or `false`; other items have none.
pub open spec fn primitive_text(m: JsonModel) -> Option<Seq<char>> {
    match m {
        JsonModel::Str(s) => Some(s),
        JsonModel::Number(n) => Some(number_text(n)),
        JsonModel::Bool(b) => Some(if b { "true"@ } else { "false"@ }),
        _ => None,
    }
}

/// The texts of the primitive items of `items`, in order.
pub open spec fn primitive_texts(items: Seq<JsonModel>) -> Seq<Seq<char>>
    decreases items.len(),
{
    if items.len() == 0 {
        Seq::empty()
    } else {
        let rest = primitive_texts(items.drop_last());
        match primitive_text(items.last()) {
            Some(t) => rest.push(t),
            None => rest,
        }
    }
}

impl JsonNumber {
    pub fn copy(&self) -> (r: JsonNumber)
        ensures
            r.model() == self.model(),
    {
        match self {
            JsonNumber::PosInt(n) => JsonNumber::PosInt(*n),
            JsonNumber::NegInt(n) => JsonNumber::NegInt(*n),
            JsonNumber::Float(t) => JsonNumber::Float(t.clone()),
        }
    }

    /// The text the number displays.
    pub fn to_text(&self) -> (r: String)
        ensures
            r@ == number_text(self.model()),
    {
        match self {
            JsonNumber::PosInt(n) => {
                let mut s = String::new();
                crate::text::push_padded_u64(&mut s, *n, 0);
                s
            },
            JsonNumber::NegInt(n) => {
                let mut s = String::new();
                push_padded_i64(&mut s, *n, 0);
                s
            },
            JsonNumber::Float(t) => t.clone(),
        }
    }
}

impl JsonValue {
    /// A copy with the same reading.
    #[verifier::loop_isolation(false)]
    pub fn copy(&self) -> (r: JsonValue)
        ensures
            r.model() == self.model(),
        decreases self,
    {
        match self {
            JsonValue::Null => JsonValue::Null,
            JsonValue::Bool(b) => JsonValue::Bool(*b),
            JsonValue::Number(n) => JsonValue::Number(n.copy()),
            JsonValue::String(s) => JsonValue::String(s.clone()),
            JsonValue::Array(items) => {
                let mut out: Vec<JsonValue> = Vec::new();
                let mut i: usize = 0;
                while i < items.len()
                    invariant
                        i <= items@.len(),
                        out@.len() == i,
                        forall|j: int| 0 <= j < i ==> (#[trigger] out@[j]).model() == items@[j].model(),
                    decreases items.len() - i,
                {
                    proof { assert(decreases_to!(self => items@[i as int])); }
                    let c = items[i].copy();
                    out.push(c);
                    i = i + 1;
                }
                let r = JsonValue::Array(out);
                assert(r.model() =~= self.model()) by {
                    let a = match r.model() { JsonModel::Array(x) => x, _ => Seq::empty() };
                    let b = match self.model() { JsonModel::Array(x) => x, _ => Seq::empty() };
                    assert(a =~= b);
                }
                r
            },
            JsonValue::Object(members) => {
                let mut out: Vec<(String, JsonValue)> = Vec::new();
                let mut i: usize = 0;
                while i < members.len()
                    invariant
                        i <= members@.len(),
                        out@.len() == i,
                        forall|j: int| 0 <= j < i ==> (#[trigger] out@[j]).0@ == members@[j].0@
                            && out@[j].1.model() == members@[j].1.model(),
                    decreases members.len() - i,
                {
                    let k = members[i].0.clone();
                    proof { assert(decreases_to!(self => members@[i as int].1)); }
                    let c = members[i].1.copy();
                    out.push((k, c));
                    i = i + 1;
                }
                let r = JsonValue::Object(out);
                assert(r.model() =~= self.model()) by {
                    let a = match r.model() { JsonModel::Object(x) => x, _ => Seq::empty() };
                    let b = match self.model() { JsonModel::Object(x) => x, _ => Seq::empty() };
                    assert(a =~= b);
                }
                r
            },
        }
    }
}

} // verus!
