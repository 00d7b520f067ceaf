//! JSON documents as plain trees, read and written through `serde_json`.

use crate::utils::{
    decimal_text, format_decimal, lemma_decimal_text_injective, parse_decimal, same_text,
};
use vstd::prelude::*;
use vstd::string::*;

verus! {

/// A JSON document.
///
/// A number is held as the text that `serde_json` writes for it, so that a
/// document is carried without loss whatever the number is.
#[derive(Debug, PartialEq, Eq)]
pub enum Json {
    /// `null`.
    Null,
    /// `true` or `false`.
    Bool(bool),
    /// A number, as the text that is written for it.
    Number(String),
    /// A string.
    String(String),
    /// An array of documents.
    Array(Vec<Json>),
    /// An object: its fields by name, in the order in which they are held.
    Object(Vec<(String, Json)>),
}

/// The mathematical value of a [`Json`] document, variant by variant.
pub enum JsonValue {
    Null,
    Bool(bool),
    Number(Seq<char>),
    String(Seq<char>),
    Array(Seq<JsonValue>),
    Object(Seq<(Seq<char>, JsonValue)>),
}

/// The mathematical value of a document.
pub open spec fn json_value(json: Json) -> JsonValue
    decreases json,
{
    match json {
        Json::Null => JsonValue::Null,
        Json::Bool(b) => JsonValue::Bool(b),
        Json::Number(text) => JsonValue::Number(text@),
        Json::String(text) => JsonValue::String(text@),
        Json::Array(items) => JsonValue::Array(
            Seq::new(
                items@.len(),
                |i: int|
                    if 0 <= i < items@.len() {
                        json_value(items@[i])
                    } else {
                        JsonValue::Null
                    },
            ),
        ),
        Json::Object(fields) => JsonValue::Object(
            Seq::new(
                fields@.len(),
                |i: int|
                    if 0 <= i < fields@.len() {
                        (fields@[i].0@, json_value(fields@[i].1))
                    } else {
                        (Seq::empty(), JsonValue::Null)
                    },
            ),
        ),
    }
}

impl View for Json {
    type V = JsonValue;

    open spec fn view(&self) -> JsonValue {
        json_value(*self)
    }
}

/// `serde_json`'s own document type, which this module only hands on.
#[verifier::external_type_specification]
#[verifier::external_body]
pub struct ExSerdeValue(serde_json::Value);

/// The document that `serde_json` reads from a text, or `None` where it rejects
/// the text.
pub uninterp spec fn json_of_text(text: Seq<char>) -> Option<JsonValue>;

/// The text that `serde_json` writes for a document, or `None` where one of the
/// document's numbers is not a number to `serde_json`.
pub uninterp spec fn text_of_json(json: JsonValue) -> Option<Seq<char>>;

/// Turns a `serde_json::Value` into a [`Json`], variant by variant; a number
/// goes through `Number::to_string`.
#[verifier::external_body]
fn json_from_serde(value: serde_json::Value) -> Json {
    match value {
        serde_json::Value::Null => Json::Null,
        serde_json::Value::Bool(b) => Json::Bool(b),
        serde_json::Value::Number(n) => Json::Number(n.to_string()),
        serde_json::Value::String(s) => Json::String(s),
        serde_json::Value::Array(items) => Json::Array(
            items.into_iter().map(json_from_serde).collect(),
        ),
        serde_json::Value::Object(fields) => Json::Object(
            fields.into_iter().map(|(k, v)| (k, json_from_serde(v))).collect(),
        ),
    }
}

/// Turns a [`Json`] into a `serde_json::Value`, variant by variant; a number
/// goes through `serde_json::from_str`, whose error ends the conversion.
#[verifier::external_body]
fn json_to_serde(json: &Json) -> Option<serde_json::Value> {
    Some(match json {
        Json::Null => serde_json::Value::Null,
        Json::Bool(b) => serde_json::Value::Bool(*b),
        Json::Number(n) => serde_json::Value::Number(serde_json::from_str(n).ok()?),
        Json::String(s) => serde_json::Value::String(s.clone()),
        Json::Array(items) => serde_json::Value::Array(
            items.iter().map(json_to_serde).collect::<Option<_>>()?,
        ),
        Json::Object(fields) => serde_json::Value::Object(
            fields.iter().map(|(k, v)| Some((k.clone(), json_to_serde(v)?))).collect::<Option<_>>()?,
        ),
    })
}

/// Reads a JSON document from text.
///
/// Calls `serde_json::from_str` for a `serde_json::Value`. The contract only
/// names the outcome: the same text always gives the same document, or is
/// always rejected.
#[verifier::external_body]
fn read_json(text: &str) -> (res: Option<Json>)
    ensures
        match res {
            Some(json) => json_of_text(text@) == Some(json@),
            None => json_of_text(text@) is None,
        },
{
    match serde_json::from_str::<serde_json::Value>(text) {
        Ok(value) => Some(json_from_serde(value)),
        Err(_) => None,
    }
}

/// Writes a JSON document as text.
///
/// Calls `serde_json::to_string` on the `serde_json::Value` of the document.
/// The contract only names the outcome: the same document always gives the same
/// text, or is always refused.
#[verifier::external_body]
fn write_json(json: &Json) -> (res: Option<String>)
    ensures
        match res {
            Some(text) => text_of_json(json@) == Some(text@),
            None => text_of_json(json@) is None,
        },
{
    match json_to_serde(json) {
        Some(value) => serde_json::to_string(&value).ok(),
        None => None,
    }
}

/// The value of the first field of an object that is called `key`.
pub open spec fn lookup(fields: Seq<(Seq<char>, JsonValue)>, key: Seq<char>) -> Option<JsonValue>
    decreases fields.len(),
{
    if fields.len() == 0 {
        None
    } else if fields[0].0 == key {
        Some(fields[0].1)
    } else {
        lookup(fields.drop_first(), key)
    }
}

/// The value of the first field of a document that is called `key`; `None` where
/// the document is no object or has no such field.
pub open spec fn member(json: JsonValue, key: Seq<char>) -> Option<JsonValue> {
    match json {
        JsonValue::Object(fields) => lookup(fields, key),
        _ => None,
    }
}

/// A field found at `at`, with no field of that name in front of it, is the one
/// that `lookup` gives.
pub proof fn lemma_lookup_at(fields: Seq<(Seq<char>, JsonValue)>, key: Seq<char>, at: int)
    requires
        0 <= at < fields.len(),
        fields[at].0 == key,
        forall|j: int| 0 <= j < at ==> fields[j].0 != key,
    ensures
        lookup(fields, key) == Some(fields[at].1),
    decreases fields.len(),
{
    if at > 0 {
        let rest = fields.drop_first();
        assert(rest[at - 1] == fields[at]);
        assert forall|j: int| 0 <= j < at - 1 implies rest[j].0 != key by {
            assert(rest[j] == fields[j + 1]);
        }
        lemma_lookup_at(rest, key, at - 1);
    }
}

/// An object without a field called `key` gives nothing for it.
pub proof fn lemma_lookup_none(fields: Seq<(Seq<char>, JsonValue)>, key: Seq<char>)
    requires
        forall|j: int| 0 <= j < fields.len() ==> fields[j].0 != key,
    ensures
        lookup(fields, key) is None,
    decreases fields.len(),
{
    if fields.len() > 0 {
        let rest = fields.drop_first();
        assert forall|j: int| 0 <= j < rest.len() implies rest[j].0 != key by {
            assert(rest[j] == fields[j + 1]);
        }
        lemma_lookup_none(rest, key);
    }
}

/// Where the value that `lookup` gives for a name stands, or that no member has
/// the name.
pub proof fn lemma_lookup_found(fields: Seq<(Seq<char>, JsonValue)>, key: Seq<char>)
    ensures
        match lookup(fields, key) {
            Some(value) => exists|at: int|
                0 <= at < fields.len() && is_first_of_its_name(fields, at) && #[trigger] fields[at]
                    == (key, value),
            None => forall|j: int| 0 <= j < fields.len() ==> (#[trigger] fields[j]).0 != key,
        },
    decreases fields.len(),
{
    if fields.len() > 0 {
        if fields[0].0 == key {
            assert(is_first_of_its_name(fields, 0));
            assert(fields[0] == (key, fields[0].1));
        } else {
            let rest = fields.drop_first();
            lemma_lookup_found(rest, key);
            match lookup(rest, key) {
                Some(value) => {
                    let at = choose|at: int|
                        0 <= at < rest.len() && is_first_of_its_name(rest, at) && #[trigger] rest[at]
                            == (key, value);
                    assert(fields[at + 1] == rest[at]);
                    assert forall|j: int| 0 <= j < at + 1 implies (#[trigger] fields[j]).0
                        != fields[at + 1].0 by {
                        if j > 0 {
                            assert(fields[j] == rest[j - 1]);
                        }
                    }
                    assert(is_first_of_its_name(fields, at + 1));
                },
                None => {
                    assert forall|j: int| 0 <= j < fields.len() implies (#[trigger] fields[j]).0
                        != key by {
                        if j > 0 {
                            assert(fields[j] == rest[j - 1]);
                        }
                    }
                },
            }
        }
    }
}

/// Whether no member in front of the member at `at` has its name.
pub open spec fn is_first_of_its_name(fields: Seq<(Seq<char>, JsonValue)>, at: int) -> bool {
    forall|j: int| 0 <= j < at ==> (#[trigger] fields[j]).0 != fields[at].0
}

/// Whether the document `a` holds the same as the document `b`, read by name:
/// equal scalars, arrays of the same length whose items hold the same one by
/// one, and objects that have a member of a name together or not at all, and
/// then with values that hold the same. The order of the members of an object
/// does not count, nor does a member behind another of its name.
pub open spec fn same_members(a: JsonValue, b: JsonValue) -> bool
    decreases a,
{
    match a {
        JsonValue::Array(items) => b matches JsonValue::Array(others) && others.len()
            == items.len() && forall|i: int|
            0 <= i < items.len() ==> same_members(#[trigger] items[i], others[i]),
        JsonValue::Object(fields) => b matches JsonValue::Object(others) && (forall|i: int|
            0 <= i < fields.len() && is_first_of_its_name(fields, i) ==> (lookup(
                others,
                (#[trigger] fields[i]).0,
            ) matches Some(value) && same_members(fields[i].1, value))) && (forall|j: int|
            0 <= j < others.len() ==> lookup(fields, (#[trigger] others[j]).0) is Some),
        _ => a == b,
    }
}

/// Every document holds the same as itself.
pub proof fn lemma_same_members_reflexive(a: JsonValue)
    ensures
        same_members(a, a),
    decreases a,
{
    match a {
        JsonValue::Array(items) => {
            assert forall|i: int| 0 <= i < items.len() implies same_members(
                #[trigger] items[i],
                items[i],
            ) by {
                lemma_same_members_reflexive(items[i]);
            }
        },
        JsonValue::Object(fields) => {
            assert forall|i: int| 0 <= i < fields.len() && is_first_of_its_name(
                fields,
                i,
            ) implies (lookup(fields, (#[trigger] fields[i]).0) matches Some(value)
                && same_members(fields[i].1, value)) by {
                lemma_lookup_at(fields, fields[i].0, i);
                lemma_same_members_reflexive(fields[i].1);
            }
            assert forall|j: int| 0 <= j < fields.len() implies lookup(
                fields,
                (#[trigger] fields[j]).0,
            ) is Some by {
                lemma_lookup_found(fields, fields[j].0);
            }
        },
        _ => {},
    }
}

/// Documents that hold the same give, for every name, members that hold the
/// same, or none.
pub proof fn lemma_same_members_member(a: JsonValue, b: JsonValue, key: Seq<char>)
    requires
        same_members(a, b),
    ensures
        match member(a, key) {
            Some(value) => member(b, key) matches Some(other) && same_members(value, other),
            None => member(b, key) is None,
        },
{
    match a {
        JsonValue::Object(fields) => {
            let others = b->Object_0;
            lemma_lookup_found(fields, key);
            lemma_lookup_found(others, key);
            match lookup(fields, key) {
                Some(value) => {
                    let at = choose|at: int|
                        0 <= at < fields.len() && is_first_of_its_name(fields, at)
                            && #[trigger] fields[at] == (key, value);
                    assert(fields[at].0 == key);
                },
                None => {
                    if lookup(others, key) is Some {
                        let value = lookup(others, key)->0;
                        let at = choose|at: int|
                            0 <= at < others.len() && is_first_of_its_name(others, at)
                                && #[trigger] others[at] == (key, value);
                        assert(others[at].0 == key);
                        assert(lookup(fields, others[at].0) is Some);
                    }
                },
            }
        },
        _ => {},
    }
}

/// The JSON number that stands for a natural number.
pub open spec fn number_value(n: nat) -> JsonValue {
    JsonValue::Number(decimal_text(n))
}

/// The natural number up to `max` that a document stands for.
pub open spec fn as_number(json: JsonValue, max: nat) -> Option<nat> {
    match json {
        JsonValue::Number(text) => if exists|n: nat| n <= max && decimal_text(n) == text {
            Some(choose|n: nat| n <= max && decimal_text(n) == text)
        } else {
            None
        },
        _ => None,
    }
}

/// A written number reads back as itself.
pub proof fn lemma_number_round_trip(n: nat, max: nat)
    requires
        n <= max,
    ensures
        as_number(number_value(n), max) == Some(n),
{
    let text = decimal_text(n);
    let m = choose|m: nat| m <= max && decimal_text(m) == text;
    lemma_decimal_text_injective(m, n);
}

impl Json {
    /// Reads a document from JSON text.
    pub fn from_text(text: &str) -> (res: Option<Json>)
        ensures
            match res {
                Some(json) => json_of_text(text@) == Some(json@),
                None => json_of_text(text@) is None,
            },
    {
        read_json(text)
    }

    /// Writes the document as JSON text.
    pub fn to_text(&self) -> (res: Option<String>)
        ensures
            match res {
                Some(text) => text_of_json(self@) == Some(text@),
                None => text_of_json(self@) is None,
            },
    {
        write_json(self)
    }

    /// The number `n` as a document.
    pub fn from_u64(n: u64) -> (res: Json)
        ensures
            res@ == number_value(n as nat),
    {
        Json::Number(format_decimal(n))
    }

    /// The text `s` as a document.
    pub fn from_str(s: &str) -> (res: Json)
        ensures
            res@ == JsonValue::String(s@),
    {
        Json::String(s.to_owned())
    }

    /// The natural number up to `max` that the document stands for.
    pub fn as_u64(&self, max: u64) -> (res: Option<u64>)
        ensures
            res.is_some() == as_number(self@, max as nat).is_some(),
            res matches Some(n) ==> as_number(self@, max as nat) == Some(n as nat),
    {
        match self {
            Json::Number(text) => {
                let res = parse_decimal(text.as_str(), max);
                proof {
                    if let Some(n) = res {
                        let m = choose|m: nat| m <= max && decimal_text(m) == text@;
                        lemma_decimal_text_injective(m, n as nat);
                    }
                }
                res
            },
            _ => None,
        }
    }

    /// The value of the first field called `key`, where the document is an object
    /// that has one.
    pub fn get(&self, key: &str) -> (res: Option<&Json>)
        ensures
            res.is_some() == member(self@, key@).is_some(),
            res matches Some(found) ==> member(self@, key@) == Some(found@),
    {
        match self {
            Json::Object(fields) => {
                let ghost entries = self@->Object_0;
                assert(entries.len() == fields@.len());
                assert(forall|j: int|
                    0 <= j < fields@.len() ==> #[trigger] entries[j] == (
                        fields@[j].0@,
                        fields@[j].1@,
                    ));
                let mut i: usize = 0;
                while i < fields.len()
                    invariant
                        i <= fields.len(),
                        self@ == JsonValue::Object(entries),
                        entries.len() == fields@.len(),
                        forall|j: int|
                            0 <= j < fields@.len() ==> #[trigger] entries[j] == (
                                fields@[j].0@,
                                fields@[j].1@,
                            ),
                        forall|j: int| 0 <= j < i ==> entries[j].0 != key@,
                    decreases fields.len() - i,
                {
                    if same_text(fields[i].0.as_str(), key) {
                        proof {
                            lemma_lookup_at(entries, key@, i as int);
                        }
                        return Some(&fields[i].1);
                    }
                    i += 1;
                }
                proof {
                    lemma_lookup_none(entries, key@);
                }
                None
            },
            _ => None,
        }
    }
}

} // verus!
