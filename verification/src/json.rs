//! A JSON document model: what the dump files hold, as plain values.
use vstd::prelude::*;
use crate::text::str_eq;
use serde_json::Value;

verus! {

/// A JSON number as `serde_json` keeps it: a non-negative integer, a negative
/// integer, or otherwise a floating-point number held as its bit pattern.
#[derive(Clone, Copy, Debug, PartialEq, Eq, Structural)]
pub enum JsonNumber {
    PosInt(u64),
    NegInt(i64),
    FloatBits(u64),
}

/// A JSON value. Object entries keep the order in which they were read.
#[derive(Debug)]
pub enum JsonValue {
    Null,
    Bool(bool),
    Number(JsonNumber),
    Str(String),
    Array(Vec<JsonValue>),
    Object(Vec<(String, JsonValue)>),
}

/// The mathematical form of a JSON value.
pub enum Json {
    Null,
    Bool(bool),
    Number(JsonNumber),
    Str(Seq<char>),
    Array(Seq<Json>),
    Object(Seq<(Seq<char>, Json)>),
}

impl JsonValue {
    /// The mathematical form of this value.
    pub open spec fn model(&self) -> Json
        decreases self,
    {
        match self {
            JsonValue::Null => Json::Null,
            JsonValue::Bool(b) => Json::Bool(*b),
            JsonValue::Number(n) => Json::Number(*n),
            JsonValue::Str(s) => Json::Str(s@),
            JsonValue::Array(items) => Json::Array(
                Seq::new(
                    items@.len(),
                    |i: int|
                        if 0 <= i < items@.len() {
                            proof {
                                assert(decreases_to!(items => items@));
                                assert(decreases_to!(items@ => items@[i]));
                            }
                            items@[i].model()
                        } else {
                            Json::Null
                        },
                ),
            ),
            JsonValue::Object(entries) => Json::Object(
                Seq::new(
                    entries@.len(),
                    |i: int|
                        if 0 <= i < entries@.len() {
                            proof {
                                assert(decreases_to!(entries => entries@));
                                assert(decreases_to!(entries@ => entries@[i]));
                                assert(decreases_to!(entries@[i] => entries@[i].1));
                            }
                            (entries@[i].0@, entries@[i].1.model())
                        } else {
                            (Seq::empty(), Json::Null)
                        },
                ),
            ),
        }
    }
}

impl View for JsonValue {
    type V = Json;

    open spec fn view(&self) -> Json {
        self.model()
    }
}

/// The value of the first entry named `key`.
pub open spec fn lookup(entries: Seq<(Seq<char>, Json)>, key: Seq<char>) -> Option<Json>
    decreases entries.len(),
{
    if entries.len() == 0 {
        None
    } else if entries[0].0 == key {
        Some(entries[0].1)
    } else {
        lookup(entries.drop_first(), key)
    }
}

impl Json {
    /// The member `key` of an object; nothing for other values.
    pub open spec fn get(self, key: Seq<char>) -> Option<Json> {
        match self {
            Json::Object(entries) => lookup(entries, key),
            _ => None,
        }
    }

    /// The text of a string value.
    pub open spec fn as_str(self) -> Option<Seq<char>> {
        match self {
            Json::Str(s) => Some(s),
            _ => None,
        }
    }

    /// The number of a non-negative integer value.
    pub open spec fn as_u64(self) -> Option<u64> {
        match self {
            Json::Number(JsonNumber::PosInt(n)) => Some(n),
            _ => None,
        }
    }

    /// The items of an array value.
    pub open spec fn as_array(self) -> Option<Seq<Json>> {
        match self {
            Json::Array(items) => Some(items),
            _ => None,
        }
    }

    /// The text of member `key`, if it is a string.
    pub open spec fn str_member(self, key: Seq<char>) -> Option<Seq<char>> {
        match self.get(key) {
            Some(v) => v.as_str(),
            None => None,
        }
    }

    /// The number of member `key`, if it is a non-negative integer.
    pub open spec fn u64_member(self, key: Seq<char>) -> Option<u64> {
        match self.get(key) {
            Some(v) => v.as_u64(),
            None => None,
        }
    }

    /// The items of member `key`, if it is an array.
    pub open spec fn array_member(self, key: Seq<char>) -> Option<Seq<Json>> {
        match self.get(key) {
            Some(v) => v.as_array(),
            None => None,
        }
    }
}

impl JsonValue {
    /// The member `key` of an object, as `serde_json::Value::get` finds it.
    pub fn get(&self, key: &str) -> (found: Option<&JsonValue>)
        ensures
            match found {
                Some(v) => self@.get(key@) == Some(v@),
                None => self@.get(key@) is None,
            },
    {
        match self {
            JsonValue::Object(entries) => {
                let ghost es = self@->Object_0;
                let mut i: usize = 0;
                assert(es.skip(0) =~= es);
                while i < entries.len()
                    invariant
                        es == Seq::new(entries@.len(), |j: int| (entries@[j].0@, entries@[j].1@)),
                        i <= entries@.len(),
                        self@.get(key@) == lookup(es, key@),
                        lookup(es, key@) == lookup(es.skip(i as int), key@),
                    decreases entries@.len() - i,
                {
                    assert(es.skip(i as int).drop_first() =~= es.skip(i + 1));
                    if str_eq(entries[i].0.as_str(), key) {
                        assert(es.skip(i as int)[0] == es[i as int]);
                        return Some(&entries[i].1);
                    }
                    i = i + 1;
                }
                None
            },
            _ => None,
        }
    }

    /// The text of a string value.
    pub fn as_str(&self) -> (text: Option<&String>)
        ensures
            match text {
                Some(s) => self@.as_str() == Some(s@),
                None => self@.as_str() is None,
            },
    {
        match self {
            JsonValue::Str(s) => Some(s),
            _ => None,
        }
    }

    /// The number of a non-negative integer value.
    pub fn as_u64(&self) -> (n: Option<u64>)
        ensures
            n == self@.as_u64(),
    {
        match self {
            JsonValue::Number(JsonNumber::PosInt(n)) => Some(*n),
            _ => None,
        }
    }

    /// The items of an array value.
    pub fn as_array(&self) -> (items: Option<&Vec<JsonValue>>)
        ensures
            match items {
                Some(v) => self@.as_array() == Some(v@.map_values(|x: JsonValue| x@)),
                None => self@.as_array() is None,
            },
    {
        match self {
            JsonValue::Array(items) => {
                assert(self@.as_array()->0 =~= items@.map_values(|x: JsonValue| x@));
                Some(items)
            },
            _ => None,
        }
    }

    /// The text of member `key`, if it is a string.
    pub fn str_member(&self, key: &str) -> (text: Option<&String>)
        ensures
            match text {
                Some(s) => self@.str_member(key@) == Some(s@),
                None => self@.str_member(key@) is None,
            },
    {
        match self.get(key) {
            Some(v) => v.as_str(),
            None => None,
        }
    }

    /// The number of member `key`, if it is a non-negative integer.
    pub fn u64_member(&self, key: &str) -> (n: Option<u64>)
        ensures
            n == self@.u64_member(key@),
    {
        match self.get(key) {
            Some(v) => v.as_u64(),
            None => None,
        }
    }

    /// The items of member `key`, if it is an array.
    pub fn array_member(&self, key: &str) -> (items: Option<&Vec<JsonValue>>)
        ensures
            match items {
                Some(v) => self@.array_member(key@) == Some(v@.map_values(|x: JsonValue| x@)),
                None => self@.array_member(key@) is None,
            },
    {
        match self.get(key) {
            Some(v) => v.as_array(),
            None => None,
        }
    }
}


/// A document as `serde_json` parses it, carried as it is.
#[verifier::external_type_specification]
#[verifier::external_body]
pub struct ExJsonDocument(Value);

/// The document that `serde_json` reads from a text, when the text is JSON.
pub uninterp spec fn parsed_json(text: Seq<char>) -> Option<Json>;

/// The library's model of a document that `serde_json` parsed.
pub uninterp spec fn document_model(v: Value) -> Json;

/// Calls `serde_json::from_str` for a `Value`: it succeeds
/// exactly on JSON texts, and what it reads depends on the text alone, so
/// the document is named.
#[verifier::external_body]
fn parse_document(text: &str) -> (r: Result<Value, serde_json::Error>)
    ensures
        r is Ok <==> parsed_json(text@) is Some,
        r matches Ok(v) ==> parsed_json(text@) == Some(document_model(v)),
{
    serde_json::from_str::<Value>(text)
}

/// Converts a `serde_json` document into the library's model, value for
/// value: each number as a non-negative integer, else a negative one, else
/// the bit pattern of its floating-point value; object members in the order
/// `serde_json` keeps them.
#[verifier::external_body]
fn model_of_document(v: &Value) -> (m: JsonValue)
    ensures
        m@ == document_model(*v),
{
    match v {
        Value::Null => JsonValue::Null,
        Value::Bool(b) => JsonValue::Bool(*b),
        Value::Number(n) => JsonValue::Number(if let Some(u) = n.as_u64() {
            JsonNumber::PosInt(u)
        } else if let Some(i) = n.as_i64() {
            JsonNumber::NegInt(i)
        } else {
            JsonNumber::FloatBits(n.as_f64().map_or(0, |x| x.to_bits()))
        }),
        Value::String(t) => JsonValue::Str(t.clone()),
        Value::Array(a) => JsonValue::Array(a.iter().map(model_of_document).collect()),
        Value::Object(map) => JsonValue::Object(map.iter().map(|(k, x)| (k.clone(), model_of_document(x))).collect()),
    }
}

/// Reads a JSON text into the library's model of it: an error exactly when
/// the text is not JSON.
pub fn parse_json(text: &str) -> (r: Result<JsonValue, serde_json::Error>)
    ensures
        r is Ok <==> parsed_json(text@) is Some,
        r matches Ok(v) ==> parsed_json(text@) == Some(v@),
{
    match parse_document(text) {
        Ok(document) => Ok(model_of_document(&document)),
        Err(e) => Err(e),
    }
}

} // verus!
