//! A JSON document model holding what the notebook logic reads, and the
//! bridge from the bytes of a file to that model through `serde_json`.
use vstd::prelude::*;

verus! {

/// A parsed JSON value.
///
/// Numbers are kept only as a marker: nothing in the notebook logic reads
/// their value, only that the value is not a string, an array or an object.
/// Object entries keep the keys that the parser produced, each once.
#[derive(Debug)]
pub enum Json {
    Null,
    Bool(bool),
    Number,
    Str(String),
    Array(Vec<Json>),
    Object(Vec<(String, Json)>),
}

/// The mathematical value of a [`Json`] document.
pub enum JsonValue {
    Null,
    Bool(bool),
    Number,
    Str(Seq<char>),
    Array(Seq<JsonValue>),
    Object(Seq<(Seq<char>, JsonValue)>),
}

/// The value of a document, element by element.
pub open spec fn json_value(j: Json) -> JsonValue
    decreases j,
{
    match j {
        Json::Null => JsonValue::Null,
        Json::Bool(b) => JsonValue::Bool(b),
        Json::Number => JsonValue::Number,
        Json::Str(s) => JsonValue::Str(s@),
        Json::Array(items) => JsonValue::Array(
            Seq::new(
                items@.len(),
                |i: int|
                    if 0 <= i < items@.len() {
                        json_value(items@[i])
                    } else {
                        JsonValue::Null
                    },
            ),
        ),
        Json::Object(entries) => JsonValue::Object(
            Seq::new(
                entries@.len(),
                |i: int|
                    if 0 <= i < entries@.len() {
                        (entries@[i].0@, json_value(entries@[i].1))
                    } else {
                        (Seq::empty(), JsonValue::Null)
                    },
            ),
        ),
    }
}

impl View for Json {
    type V = JsonValue;

    open spec fn view(&self) -> JsonValue {
        json_value(*self)
    }
}

/// The value stored under `key` in `entries`: the first entry with that key.
pub open spec fn entries_lookup(entries: Seq<(Seq<char>, JsonValue)>, key: Seq<char>) -> Option<
    JsonValue,
>
    decreases entries.len(),
{
    if entries.len() == 0 {
        None
    } else if entries[0].0 == key {
        Some(entries[0].1)
    } else {
        entries_lookup(entries.drop_first(), key)
    }
}

/// What indexing a value by an object key gives: the entry's value for an
/// object holding the key, and nothing for any other value.
pub open spec fn json_get(v: JsonValue, key: Seq<char>) -> Option<JsonValue> {
    match v {
        JsonValue::Object(entries) => entries_lookup(entries, key),
        _ => None,
    }
}

/// The text of a string value.
pub open spec fn json_as_str(v: JsonValue) -> Option<Seq<char>> {
    match v {
        JsonValue::Str(s) => Some(s),
        _ => None,
    }
}

/// The text of an optional value when it is a string.
pub open spec fn opt_as_str(v: Option<JsonValue>) -> Option<Seq<char>> {
    match v {
        Some(JsonValue::Str(s)) => Some(s),
        _ => None,
    }
}

/// The elements of an array value.
pub open spec fn json_as_array(v: JsonValue) -> Option<Seq<JsonValue>> {
    match v {
        JsonValue::Array(items) => Some(items),
        _ => None,
    }
}

/// The values of a sequence of documents.
pub open spec fn json_values(items: Seq<Json>) -> Seq<JsonValue> {
    Seq::new(items.len(), |i: int| json_value(items[i]))
}

/// The entries of a sequence of object entries.
pub open spec fn entry_values(entries: Seq<(String, Json)>) -> Seq<(Seq<char>, JsonValue)> {
    Seq::new(entries.len(), |i: int| (entries[i].0@, json_value(entries[i].1)))
}

/// The value of an array, by its elements.
pub proof fn lemma_array_value(items: Vec<Json>)
    ensures
        json_value(Json::Array(items)) == JsonValue::Array(json_values(items@)),
{
    let v = json_value(Json::Array(items));
    let s = v->Array_0;
    assert(s =~= json_values(items@));
}

/// The value of an object, by its entries.
pub proof fn lemma_object_value(entries: Vec<(String, Json)>)
    ensures
        json_value(Json::Object(entries)) == JsonValue::Object(entry_values(entries@)),
{
    let v = json_value(Json::Object(entries));
    let s = v->Object_0;
    assert(s =~= entry_values(entries@));
}

impl Json {
    /// The value stored under `key`, when `self` is an object that holds it.
    pub fn get(&self, key: &String) -> (res: Option<&Json>)
        ensures
            res is Some <==> json_get(self@, key@) is Some,
            res matches Some(r) ==> json_get(self@, key@) == Some(r@),
    {
        match self {
            Json::Object(entries) => {
                proof {
                    lemma_object_value(*entries);
                }
                let ghost all = entry_values(entries@);
                let mut i: usize = 0;
                assert(all.skip(0) =~= all);
                while i < entries.len()
                    invariant
                        0 <= i <= entries@.len(),
                        all == entry_values(entries@),
                        self@ == JsonValue::Object(all),
                        entries_lookup(all, key@) == entries_lookup(all.skip(i as int), key@),
                    decreases entries@.len() - i,
                {
                    let entry = &entries[i];
                    if entry.0 == *key {
                        proof {
                            assert(all.skip(i as int)[0] == all[i as int]);
                        }
                        return Some(&entry.1);
                    }
                    proof {
                        assert(all.skip(i as int).drop_first() =~= all.skip(i + 1));
                    }
                    i = i + 1;
                }
                None
            },
            _ => None,
        }
    }

    /// The text of `self`, when it is a string.
    pub fn as_str(&self) -> (res: Option<&String>)
        ensures
            res is Some <==> json_as_str(self@) is Some,
            res matches Some(s) ==> json_as_str(self@) == Some(s@),
    {
        match self {
            Json::Str(s) => Some(s),
            _ => None,
        }
    }

    /// The elements of `self`, when it is an array.
    pub fn as_array(&self) -> (res: Option<&Vec<Json>>)
        ensures
            res is Some <==> json_as_array(self@) is Some,
            res matches Some(items) ==> json_as_array(self@) == Some(json_values(items@)),
    {
        match self {
            Json::Array(items) => {
                proof {
                    lemma_array_value(*items);
                }
                Some(items)
            },
            _ => None,
        }
    }
}

/// `serde_json::Value`, the document type that `serde_json` parses into.
#[verifier::external_type_specification]
#[verifier::external_body]
pub struct ExSerdeJsonValue(serde_json::Value);

/// What `serde_json::from_slice::<serde_json::Value>` makes of `bytes`:
/// the document, as a value of this model, or the text of the error it
/// reports (what it met and, for a syntax error, the line and column).
pub uninterp spec fn json_parse_outcome(bytes: Seq<u8>) -> Result<JsonValue, Seq<char>>;

/// Parses `bytes` with `serde_json::from_slice` into a `serde_json::Value`,
/// and carries that value over into [`Json`], or the error over into its
/// text (`to_string`).
///
/// Trusted: the result is the parser's outcome on the bytes, named
/// [`json_parse_outcome`]: its document where it accepts them, the text of
/// its error where it does not.
#[verifier::external_body]
pub(crate) fn parse_json(bytes: &[u8]) -> (res: Result<Json, String>)
    ensures
        match res {
            Ok(j) => json_parse_outcome(bytes@) == Ok::<JsonValue, Seq<char>>(j@),
            Err(report) => json_parse_outcome(bytes@) == Err::<JsonValue, Seq<char>>(report@),
        },
{
    match serde_json::from_slice::<serde_json::Value>(bytes) {
        Ok(value) => Ok(json_from_value(value)),
        Err(e) => Err(e.to_string()),
    }
}

/// Carries a `serde_json::Value` over into [`Json`], variant by variant and
/// element by element, keeping the object entries in the map's order. What
/// it gives is stated by the caller [`parse_json`].
#[verifier::external_body]
fn json_from_value(value: serde_json::Value) -> Json {
    match value {
        serde_json::Value::Null => Json::Null,
        serde_json::Value::Bool(b) => Json::Bool(b),
        serde_json::Value::Number(_) => Json::Number,
        serde_json::Value::String(s) => Json::Str(s),
        serde_json::Value::Array(items) => Json::Array(items.into_iter().map(json_from_value).collect()),
        serde_json::Value::Object(map) => Json::Object(
            map.into_iter().map(|(k, v)| (k, json_from_value(v))).collect(),
        ),
    }
}

} // verus!
