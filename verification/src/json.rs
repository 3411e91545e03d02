//! JSON values, as the connector reads and makes them.

use vstd::prelude::*;

use crate::order::increasing;
use crate::text::same;

verus! {

#[verifier::external_type_specification]
#[verifier::external_body]
pub struct ExValue(serde_json::Value);

#[verifier::external_type_specification]
#[verifier::external_body]
pub struct ExNumber(serde_json::Number);

/// A JSON value.
///
/// An object holds its entries in the order of their keys, each key once: see [`valid`].
#[derive(Debug, PartialEq)]
pub enum Json {
    Null,
    Bool(bool),
    Number(serde_json::Number),
    String(String),
    Array(Vec<Json>),
    Object(Vec<(String, Json)>),
}

/// What a JSON value is, mathematically.
#[verifier::ext_equal]
pub enum JsonModel {
    Null,
    Bool(bool),
    Number(serde_json::Number),
    String(Seq<char>),
    Array(Seq<JsonModel>),
    Object(Seq<(Seq<char>, JsonModel)>),
}

impl Json {
    pub open spec fn model(self) -> JsonModel
        decreases self,
    {
        match self {
            Json::Null => JsonModel::Null,
            Json::Bool(b) => JsonModel::Bool(b),
            Json::Number(n) => JsonModel::Number(n),
            Json::String(s) => JsonModel::String(s@),
            Json::Array(items) => JsonModel::Array(
                Seq::new(
                    items@.len(),
                    |i: int|
                        if 0 <= i < items@.len() {
                            items@[i].model()
                        } else {
                            JsonModel::Null
                        },
                ),
            ),
            Json::Object(entries) => JsonModel::Object(
                Seq::new(
                    entries@.len(),
                    |i: int|
                        if 0 <= i < entries@.len() {
                            (entries@[i].0@, entries@[i].1.model())
                        } else {
                            (Seq::empty(), JsonModel::Null)
                        },
                ),
            ),
        }
    }
}

impl View for Json {
    type V = JsonModel;

    open spec fn view(&self) -> JsonModel {
        self.model()
    }
}

/// The models of a list of values.
pub open spec fn models(list: Seq<Json>) -> Seq<JsonModel> {
    list.map_values(|j: Json| j@)
}

/// The models of a list of borrowed values.
pub open spec fn ref_models(list: Seq<&Json>) -> Seq<JsonModel> {
    list.map_values(|j: &Json| j@)
}

/// The models of a list of rows.
pub open spec fn row_models(rows: Seq<Vec<Json>>) -> Seq<Seq<JsonModel>> {
    rows.map_values(|row: Vec<Json>| models(row@))
}

/// The models of the entries of an object.
pub open spec fn entry_models(entries: Seq<(String, Json)>) -> Seq<(Seq<char>, JsonModel)> {
    entries.map_values(|e: (String, Json)| (e.0@, e.1@))
}

/// The model of what may be there.
pub open spec fn opt_model(value: Option<&Json>) -> Option<JsonModel> {
    match value {
        Some(j) => Some(j@),
        None => None,
    }
}

/// The model of a document that may be there.
pub open spec fn opt_document(document: Option<Json>) -> Option<JsonModel> {
    match document {
        Some(j) => Some(j@),
        None => None,
    }
}

/// The keys of the entries of an object, in order.
pub open spec fn keys(entries: Seq<(Seq<char>, JsonModel)>) -> Seq<Seq<char>> {
    entries.map_values(|e: (Seq<char>, JsonModel)| e.0)
}

/// In every object within `m` the keys come in increasing order.
pub open spec fn valid(m: JsonModel) -> bool
    decreases m,
{
    match m {
        JsonModel::Array(items) => forall|i: int|
            0 <= i < items.len() ==> valid(#[trigger] items[i]),
        JsonModel::Object(entries) => {
            &&& increasing(keys(entries))
            &&& forall|i: int| 0 <= i < entries.len() ==> valid((#[trigger] entries[i]).1)
        },
        _ => true,
    }
}

/// How many entries stand before the first one under `key`: all of them, where there is none.
pub open spec fn key_index(entries: Seq<(Seq<char>, JsonModel)>, key: Seq<char>) -> nat
    decreases entries.len(),
{
    if entries.len() == 0 || entries[0].0 == key {
        0
    } else {
        1 + key_index(entries.skip(1), key)
    }
}

/// The value that `entries` hold under `key`.
pub open spec fn lookup(entries: Seq<(Seq<char>, JsonModel)>, key: Seq<char>) -> Option<JsonModel> {
    let i = key_index(entries, key) as int;
    if 0 <= i < entries.len() {
        Some(entries[i].1)
    } else {
        None
    }
}

/// The value that `m` holds under `key`, where `m` is an object.
pub open spec fn member(m: JsonModel, key: Seq<char>) -> Option<JsonModel> {
    match m {
        JsonModel::Object(entries) => lookup(entries, key),
        _ => None,
    }
}

/// The text of `m`, where `m` is a string.
pub open spec fn string_of_model(m: JsonModel) -> Option<Seq<char>> {
    match m {
        JsonModel::String(s) => Some(s),
        _ => None,
    }
}

/// The first index under `key` holds it, and none before it does.
pub proof fn lemma_key_index(entries: Seq<(Seq<char>, JsonModel)>, key: Seq<char>)
    ensures
        0 <= key_index(entries, key) <= entries.len(),
        key_index(entries, key) < entries.len() ==> entries[key_index(entries, key) as int].0
            == key,
        forall|k: int| 0 <= k < key_index(entries, key) ==> (#[trigger] entries[k]).0 != key,
    decreases entries.len(),
{
    if entries.len() == 0 || entries[0].0 == key {
    } else {
        lemma_key_index(entries.skip(1), key);
        assert forall|k: int| 0 <= k < key_index(entries, key) implies (#[trigger] entries[k]).0
            != key by {
            if k > 0 {
                assert(entries.skip(1)[k - 1] == entries[k]);
            }
        }
    }
}

/// An index under `key`, with none before it, is the first one.
pub proof fn lemma_key_index_is(entries: Seq<(Seq<char>, JsonModel)>, key: Seq<char>, i: int)
    requires
        0 <= i <= entries.len(),
        i < entries.len() ==> entries[i].0 == key,
        forall|k: int| 0 <= k < i ==> (#[trigger] entries[k]).0 != key,
    ensures
        key_index(entries, key) == i,
{
    lemma_key_index(entries, key);
    let p = key_index(entries, key) as int;
    if p < i {
        assert(entries[p].0 != key);
    } else if i < p {
        assert(entries[i].0 != key);
    }
}

/// `Number::clone` gives the same number.
pub assume_specification[ <serde_json::Number as Clone>::clone ](n: &serde_json::Number) -> (res:
    serde_json::Number)
    ensures
        res == *n,
;

impl Clone for Json {
    fn clone(&self) -> (copy: Self)
        ensures
            copy@ == self@,
        decreases self,
    {
        match self {
            Json::Null => Json::Null,
            Json::Bool(b) => Json::Bool(*b),
            Json::Number(n) => Json::Number(n.clone()),
            Json::String(s) => Json::String(s.clone()),
            Json::Array(items) => {
                let mut copies: Vec<Json> = Vec::new();
                let mut i: usize = 0;
                while i < items.len()
                    invariant
                        *self == Json::Array(*items),
                        i <= items@.len(),
                        copies@.len() == i,
                        forall|k: int| 0 <= k < i ==> (#[trigger] copies@[k])@ == items@[k]@,
                    decreases items@.len() - i,
                {
                    proof {
                        assert(decreases_to!(*self => self->Array_0 ));
                        assert(decreases_to!(self->Array_0 => self->Array_0[i as int]));
                    }
                    copies.push(items[i].clone());
                    i = i + 1;
                }
                let copy = Json::Array(copies);
                proof {
                    assert(copy@->Array_0 =~= self@->Array_0);
                }
                copy
            },
            Json::Object(entries) => {
                let mut copies: Vec<(String, Json)> = Vec::new();
                let mut i: usize = 0;
                while i < entries.len()
                    invariant
                        *self == Json::Object(*entries),
                        i <= entries@.len(),
                        copies@.len() == i,
                        forall|k: int|
                            0 <= k < i ==> (#[trigger] copies@[k]).0@ == entries@[k].0@
                                && copies@[k].1@ == entries@[k].1@,
                    decreases entries@.len() - i,
                {
                    let entry = &entries[i];
                    proof {
                        assert(decreases_to!(*self => self->Object_0));
                        assert(decreases_to!(self->Object_0 => self->Object_0[i as int]));
                        assert(decreases_to!(*entry => entry.1));
                    }
                    copies.push((entry.0.clone(), entry.1.clone()));
                    i = i + 1;
                }
                let copy = Json::Object(copies);
                proof {
                    assert(copy@->Object_0 =~= self@->Object_0);
                }
                copy
            },
        }
    }
}

impl Json {
    /// What the value holds under `key`, where it is an object.
    pub fn get(&self, key: &str) -> (value: Option<&Json>)
        ensures
            opt_model(value) == member(self@, key@),
    {
        match self {
            Json::Object(entries) => {
                let mut i: usize = 0;
                while i < entries.len()
                    invariant
                        *self == Json::Object(*entries),
                        i <= entries@.len(),
                        forall|k: int| 0 <= k < i ==> (#[trigger] self@->Object_0[k]).0 != key@,
                    decreases entries@.len() - i,
                {
                    proof {
                        assert(self@->Object_0[i as int].0 == entries@[i as int].0@);
                    }
                    if same(entries[i].0.as_str(), key) {
                        proof {
                            lemma_key_index_is(self@->Object_0, key@, i as int);
                        }
                        return Some(&entries[i].1);
                    }
                    i = i + 1;
                }
                proof {
                    lemma_key_index_is(self@->Object_0, key@, i as int);
                }
                None
            },
            _ => None,
        }
    }

    /// The text of the value, where it is a string.
    pub fn as_str(&self) -> (text: Option<&str>)
        ensures
            text matches Some(t) ==> string_of_model(self@) == Some(t@),
            text is None ==> string_of_model(self@) is None,
    {
        match self {
            Json::String(s) => Some(s.as_str()),
            _ => None,
        }
    }

    /// The JSON boolean.
    pub fn flag(b: bool) -> (json: Json)
        ensures
            json@ == JsonModel::Bool(b),
    {
        Json::Bool(b)
    }

    /// The JSON array of the items.
    pub fn array(items: Vec<Json>) -> (json: Json)
        ensures
            json@ == JsonModel::Array(models(items@)),
    {
        let ghost list = models(items@);
        let json = Json::Array(items);
        proof {
            assert(json@->Array_0 =~= list);
        }
        json
    }

    /// The JSON object of the entries.
    pub fn object(entries: Vec<(String, Json)>) -> (json: Json)
        ensures
            json@ == JsonModel::Object(entry_models(entries@)),
    {
        let ghost list = entry_models(entries@);
        let json = Json::Object(entries);
        proof {
            assert(json@->Object_0 =~= list);
        }
        json
    }

    /// The JSON string of a text.
    pub fn text(s: &str) -> (json: Json)
        ensures
            json@ == JsonModel::String(s@),
    {
        Json::String(s.to_string())
    }
}

/// An entry of an object.
pub fn entry(key: &str, value: Json) -> (result: (String, Json))
    ensures
        result.0@ == key@,
        result.1@ == value@,
{
    (key.to_string(), value)
}

} // verus!
