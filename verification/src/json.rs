//! JSON documents as trees, and their passage to and from bytes.

use crate::text::str_eq;
use vstd::prelude::*;

verus! {

/// `serde_json::Number`: a number of a document, carried as it is.
#[verifier::external_type_specification]
#[verifier::external_body]
pub struct ExNumber(serde_json::Number);

/// `serde_json::Error`: why bytes were refused, carried as it is.
#[verifier::external_type_specification]
#[verifier::external_body]
pub struct ExSyntaxError(serde_json::Error);

/// `serde_json::Value`: seen only on the way to and from bytes.
#[verifier::external_type_specification]
#[verifier::external_body]
pub struct ExValue(serde_json::Value);

/// A JSON document. The entries of an object keep the order in which they
/// were written.
#[derive(Debug)]
pub enum Json {
    Null,
    Bool(bool),
    Number(serde_json::Number),
    Text(String),
    List(Vec<Json>),
    Object(Vec<(String, Json)>),
}

/// The mathematical value of a [`Json`] document.
pub enum JsonModel {
    Null,
    Bool(bool),
    Number(serde_json::Number),
    Text(Seq<char>),
    List(Seq<JsonModel>),
    Object(Seq<(Seq<char>, JsonModel)>),
}

/// The mathematical value of a document.
pub open spec fn model(document: Json) -> JsonModel
    decreases document,
{
    match document {
        Json::Null => JsonModel::Null,
        Json::Bool(flag) => JsonModel::Bool(flag),
        Json::Number(number) => JsonModel::Number(number),
        Json::Text(text) => JsonModel::Text(text@),
        Json::List(items) => JsonModel::List(
            Seq::new(
                items@.len(),
                |i: int|
                    if 0 <= i < items@.len() {
                        model(items@[i])
                    } else {
                        JsonModel::Null
                    },
            ),
        ),
        Json::Object(entries) => JsonModel::Object(
            Seq::new(
                entries@.len(),
                |i: int|
                    if 0 <= i < entries@.len() {
                        (entries@[i].0@, model(entries@[i].1))
                    } else {
                        (Seq::<char>::empty(), JsonModel::Null)
                    },
            ),
        ),
    }
}

impl View for Json {
    type V = JsonModel;

    open spec fn view(&self) -> JsonModel {
        model(*self)
    }
}

/// The mathematical value of the entries of an object.
pub open spec fn entries_model(entries: Seq<(String, Json)>) -> Seq<(Seq<char>, JsonModel)> {
    Seq::new(entries.len(), |i: int| (entries[i].0@, entries[i].1@))
}

/// The mathematical value of the items of a list.
pub open spec fn items_model(items: Seq<Json>) -> Seq<JsonModel> {
    Seq::new(items.len(), |i: int| items[i]@)
}

/// The view of an object is built from the views of its entries.
pub proof fn lemma_object_view(entries: Vec<(String, Json)>)
    ensures
        Json::Object(entries)@ == JsonModel::Object(entries_model(entries@)),
{
    let held = Json::Object(entries)@->Object_0;
    assert(held.len() == entries@.len());
    assert forall|i: int| 0 <= i < held.len() implies held[i] == entries_model(entries@)[i] by {}
    assert(held =~= entries_model(entries@));
}

/// The view of a list is built from the views of its items.
pub proof fn lemma_list_view(items: Vec<Json>)
    ensures
        Json::List(items)@ == JsonModel::List(items_model(items@)),
{
    let held = Json::List(items)@->List_0;
    assert(held.len() == items@.len());
    assert forall|i: int| 0 <= i < held.len() implies held[i] == items_model(items@)[i] by {}
    assert(held =~= items_model(items@));
}

/// The value of the first entry whose key is `key`, if there is one.
pub open spec fn field(entries: Seq<(Seq<char>, JsonModel)>, key: Seq<char>) -> Option<JsonModel>
    decreases entries.len(),
{
    if entries.len() == 0 {
        None
    } else if entries[0].0 == key {
        Some(entries[0].1)
    } else {
        field(entries.drop_first(), key)
    }
}

/// Entries that come before the first one with the key do not matter.
pub proof fn lemma_field_skip(entries: Seq<(Seq<char>, JsonModel)>, key: Seq<char>, n: int)
    requires
        0 <= n <= entries.len(),
        forall|j: int| 0 <= j < n ==> entries[j].0 != key,
    ensures
        field(entries, key) == field(entries.skip(n), key),
    decreases n,
{
    if n == 0 {
        assert(entries.skip(0) =~= entries);
    } else {
        lemma_field_skip(entries.drop_first(), key, n - 1);
        assert(entries.drop_first().skip(n - 1) =~= entries.skip(n));
    }
}

/// Looks a key up among the entries of an object: the first entry with that
/// key counts.
pub fn find<'a>(entries: &'a Vec<(String, Json)>, key: &str) -> (found: Option<&'a Json>)
    ensures
        match found {
            Some(value) => field(entries_model(entries@), key@) == Some(value@),
            None => field(entries_model(entries@), key@) is None,
        },
{
    let ghost model = entries_model(entries@);
    let mut i: usize = 0;
    while i < entries.len()
        invariant
            i <= entries.len(),
            model == entries_model(entries@),
            forall|j: int| 0 <= j < i ==> model[j].0 != key@,
        decreases entries.len() - i,
    {
        if str_eq(entries[i].0.as_str(), key) {
            proof {
                lemma_field_skip(model, key@, i as int);
            }
            return Some(&entries[i].1);
        }
        i += 1;
    }
    proof {
        lemma_field_skip(model, key@, i as int);
    }
    None
}

/// The document that the bytes spell, where they spell one.
pub uninterp spec fn json_document(bytes: Seq<u8>) -> Option<JsonModel>;

/// The bytes that spell the document, where it can be written.
pub uninterp spec fn json_text(document: JsonModel) -> Option<Seq<u8>>;

/// Turns a `serde_json::Value` into the tree it stands for, variant by
/// variant, keeping the order of items and of entries.
#[verifier::external_body]
fn from_value(value: serde_json::Value) -> Json {
    match value {
        serde_json::Value::Null => Json::Null,
        serde_json::Value::Bool(flag) => Json::Bool(flag),
        serde_json::Value::Number(number) => Json::Number(number),
        serde_json::Value::String(text) => Json::Text(text),
        serde_json::Value::Array(items) => Json::List(items.into_iter().map(from_value).collect()),
        serde_json::Value::Object(map) => Json::Object(
            map.into_iter().map(|(key, value)| (key, from_value(value))).collect(),
        ),
    }
}

/// Turns a tree into the `serde_json::Value` that stands for it, variant by
/// variant, keeping the order of items and of entries.
#[verifier::external_body]
fn to_value(document: &Json) -> serde_json::Value {
    match document {
        Json::Null => serde_json::Value::Null,
        Json::Bool(flag) => serde_json::Value::Bool(*flag),
        Json::Number(number) => serde_json::Value::Number(number.clone()),
        Json::Text(text) => serde_json::Value::String(text.clone()),
        Json::List(items) => serde_json::Value::Array(items.iter().map(to_value).collect()),
        Json::Object(entries) => serde_json::Value::Object(
            entries.iter().map(|entry| (entry.0.clone(), to_value(&entry.1))).collect(),
        ),
    }
}

/// `serde_json::from_slice`, read as a `serde_json::Value`: the same bytes
/// always give the same outcome, a document or a refusal.
#[verifier::external_body]
fn parse(bytes: &[u8]) -> (parsed: Result<Json, serde_json::Error>)
    ensures
        match parsed {
            Ok(document) => json_document(bytes@) == Some(document@),
            Err(_) => json_document(bytes@) is None,
        },
{
    serde_json::from_slice::<serde_json::Value>(bytes).map(from_value)
}

/// `serde_json::to_vec`, given a `serde_json::Value`: the same document
/// always gives the same outcome, its bytes or a refusal.
#[verifier::external_body]
fn render(document: &Json) -> (rendered: Result<Vec<u8>, serde_json::Error>)
    ensures
        match rendered {
            Ok(bytes) => json_text(document@) == Some(bytes@),
            Err(_) => json_text(document@) is None,
        },
{
    serde_json::to_vec(&to_value(document))
}

impl Json {
    /// Reads a document from its bytes.
    pub fn from_slice(bytes: &[u8]) -> (parsed: Result<Json, serde_json::Error>)
        ensures
            match parsed {
                Ok(document) => json_document(bytes@) == Some(document@),
                Err(_) => json_document(bytes@) is None,
            },
    {
        parse(bytes)
    }

    /// Writes the document as bytes.
    pub fn to_vec(&self) -> (rendered: Result<Vec<u8>, serde_json::Error>)
        ensures
            match rendered {
                Ok(bytes) => json_text(self@) == Some(bytes@),
                Err(_) => json_text(self@) is None,
            },
    {
        render(self)
    }
}

} // verus!
