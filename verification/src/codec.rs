//! The passage between JSON values and `serde_json`: parsing, printing and numbers.

use vstd::prelude::*;

use crate::json::{keys, valid, Json, JsonModel};
use crate::numeral::decimal;
use crate::order::increasing;

verus! {

/// What a `serde_json::Value` holds.
pub uninterp spec fn value_model(value: serde_json::Value) -> JsonModel;

/// What `serde_json::from_str` reads a text as: nothing, where the text is no JSON document.
pub uninterp spec fn json_document(text: Seq<char>) -> Option<JsonModel>;

/// How `serde_json` prints a value.
pub uninterp spec fn json_text(m: JsonModel) -> Seq<char>;

/// The number as `serde_json::Number::as_u64` gives it.
pub uninterp spec fn number_u64(n: serde_json::Number) -> Option<u64>;

/// The number that `serde_json::Number::from` makes of an unsigned integer.
pub uninterp spec fn natural_number(n: u64) -> serde_json::Number;

/// One level of a `serde_json::Value`: its variant, with what the variant holds.
pub enum ValueNode {
    Null,
    Bool(bool),
    Number(serde_json::Number),
    String(String),
    Array(Vec<serde_json::Value>),
    Object(Vec<(String, serde_json::Value)>),
}

impl ValueNode {
    /// What the value of this one level holds.
    pub open spec fn model(self) -> JsonModel {
        match self {
            ValueNode::Null => JsonModel::Null,
            ValueNode::Bool(b) => JsonModel::Bool(b),
            ValueNode::Number(n) => JsonModel::Number(n),
            ValueNode::String(s) => JsonModel::String(s@),
            ValueNode::Array(items) => JsonModel::Array(
                items@.map_values(|v: serde_json::Value| value_model(v)),
            ),
            ValueNode::Object(entries) => JsonModel::Object(
                entries@.map_values(|e: (String, serde_json::Value)| (e.0@, value_model(e.1))),
            ),
        }
    }

    /// The entries of an object come in increasing order of their keys.
    pub open spec fn ordered(self) -> bool {
        self.model() matches JsonModel::Object(entries) ==> increasing(keys(entries))
    }
}

/// The text of the values that have one short form: `null`, the booleans and unsigned integers.
pub open spec fn plain_text(m: JsonModel) -> Option<Seq<char>> {
    match m {
        JsonModel::Null => Some("null"@),
        JsonModel::Bool(true) => Some("true"@),
        JsonModel::Bool(false) => Some("false"@),
        JsonModel::Number(n) => match number_u64(n) {
            Some(u) => Some(decimal(u as nat)),
            None => None,
        },
        _ => None,
    }
}

/// Takes a `serde_json::Value` apart into its variant and what the variant holds.
/// A `serde_json::Map`, built without its feature `preserve_order`, hands its entries out in
/// increasing order of their keys, each key once.
#[verifier::external_body]
fn open_value(value: serde_json::Value) -> (node: ValueNode)
    ensures
        node.model() == value_model(value),
        node.ordered(),
{
    match value {
        serde_json::Value::Null => ValueNode::Null,
        serde_json::Value::Bool(b) => ValueNode::Bool(b),
        serde_json::Value::Number(n) => ValueNode::Number(n),
        serde_json::Value::String(s) => ValueNode::String(s),
        serde_json::Value::Array(items) => ValueNode::Array(items),
        serde_json::Value::Object(map) => ValueNode::Object(map.into_iter().collect()),
    }
}

/// Puts a `serde_json::Value` together from its variant and what the variant holds.
/// A `serde_json::Map` holds the entries that it is collected from, where their keys come in
/// increasing order.
#[verifier::external_body]
fn close_value(node: ValueNode) -> (value: serde_json::Value)
    ensures
        node.ordered() ==> value_model(value) == node.model(),
{
    match node {
        ValueNode::Null => serde_json::Value::Null,
        ValueNode::Bool(b) => serde_json::Value::Bool(b),
        ValueNode::Number(n) => serde_json::Value::Number(n),
        ValueNode::String(s) => serde_json::Value::String(s),
        ValueNode::Array(items) => serde_json::Value::Array(items),
        ValueNode::Object(entries) => serde_json::Value::Object(entries.into_iter().collect()),
    }
}

/// `serde_json::from_str` reads a text as one JSON document, or fails: which of the two, and the
/// document, depend on the text alone.
#[verifier::external_body]
fn read_document(text: &str) -> (value: Option<serde_json::Value>)
    ensures
        value matches Some(v) ==> json_document(text@) == Some(value_model(v)),
        value is None ==> json_document(text@) is None,
{
    serde_json::from_str(text).ok()
}

/// `Value::to_string` prints a value as compact JSON: `null`, `true` and `false` by their names,
/// an unsigned integer by its decimal numeral.
#[verifier::external_body]
fn print_value(value: &serde_json::Value) -> (text: String)
    ensures
        text@ == json_text(value_model(*value)),
        plain_text(value_model(*value)) matches Some(t) ==> text@ == t,
{
    value.to_string()
}

/// `Number::as_u64` gives the number where it is an unsigned integer of 64 bits.
#[verifier::external_body]
pub(crate) fn number_as_u64(n: &serde_json::Number) -> (value: Option<u64>)
    ensures
        value == number_u64(*n),
{
    n.as_u64()
}

/// `Number::from` makes the number of an unsigned integer, which `as_u64` gives back.
#[verifier::external_body]
fn number_from_u64(n: u64) -> (number: serde_json::Number)
    ensures
        number == natural_number(n),
        number_u64(number) == Some(n),
{
    serde_json::Number::from(n)
}

impl Json {
    /// The JSON number of an unsigned integer.
    pub fn natural(n: u64) -> (json: Json)
        ensures
            json@ == JsonModel::Number(natural_number(n)),
            number_u64(natural_number(n)) == Some(n),
    {
        Json::Number(number_from_u64(n))
    }

    /// The value that a `serde_json::Value` holds.
    pub fn from_value(value: serde_json::Value) -> (json: Json)
        ensures
            json@ == value_model(value),
            valid(json@),
        decreases value_model(value),
    {
        let ghost m = value_model(value);
        match open_value(value) {
            ValueNode::Null => Json::Null,
            ValueNode::Bool(b) => Json::Bool(b),
            ValueNode::Number(n) => Json::Number(n),
            ValueNode::String(s) => Json::String(s),
            ValueNode::Array(items) => {
                let ghost values = items@;
                let mut list: Vec<Json> = Vec::new();
                for item in it: items.into_iter()
                    invariant
                        it.seq() == values,
                        m == value_model(value),
                        m == JsonModel::Array(
                            values.map_values(|v: serde_json::Value| value_model(v)),
                        ),
                        list@.len() == it.index(),
                        forall|k: int|
                            0 <= k < it.index() ==> (#[trigger] list@[k])@ == m->Array_0[k]
                                && valid(list@[k]@),
                {
                    proof {
                        assert(decreases_to!(m => m->Array_0));
                        assert(decreases_to!(m->Array_0 => m->Array_0[it.index()]));
                    }
                    list.push(Json::from_value(item));
                }
                let json = Json::Array(list);
                proof {
                    assert(json@->Array_0 =~= m->Array_0);
                }
                json
            },
            ValueNode::Object(entries) => {
                let ghost pairs = entries@;
                let mut list: Vec<(String, Json)> = Vec::new();
                for entry in it: entries.into_iter()
                    invariant
                        it.seq() == pairs,
                        m == value_model(value),
                        m == JsonModel::Object(
                            pairs.map_values(
                                |e: (String, serde_json::Value)| (e.0@, value_model(e.1)),
                            ),
                        ),
                        list@.len() == it.index(),
                        forall|k: int|
                            0 <= k < it.index() ==> (#[trigger] list@[k]).0@ == m->Object_0[k].0
                                && list@[k].1@ == m->Object_0[k].1 && valid(list@[k].1@),
                {
                    proof {
                        assert(decreases_to!(m => m->Object_0));
                        assert(decreases_to!(m->Object_0 => m->Object_0[it.index()]));
                        assert(decreases_to!(m->Object_0[it.index()] => m->Object_0[it.index()].1));
                    }
                    list.push((entry.0, Json::from_value(entry.1)));
                }
                let json = Json::Object(list);
                proof {
                    assert(json@->Object_0 =~= m->Object_0);
                }
                json
            },
        }
    }

    /// The `serde_json::Value` that holds the value.
    pub fn to_value(&self) -> (value: serde_json::Value)
        ensures
            valid(self@) ==> value_model(value) == self@,
        decreases self,
    {
        match self {
            Json::Null => close_value(ValueNode::Null),
            Json::Bool(b) => close_value(ValueNode::Bool(*b)),
            Json::Number(n) => close_value(ValueNode::Number(n.clone())),
            Json::String(s) => close_value(ValueNode::String(s.clone())),
            Json::Array(items) => {
                let mut list: Vec<serde_json::Value> = Vec::new();
                let mut i: usize = 0;
                while i < items.len()
                    invariant
                        *self == Json::Array(*items),
                        i <= items@.len(),
                        list@.len() == i,
                        valid(self@) ==> forall|k: int|
                            0 <= k < i ==> value_model(#[trigger] list@[k]) == self@->Array_0[k],
                    decreases items@.len() - i,
                {
                    proof {
                        assert(decreases_to!(*self => self->Array_0));
                        assert(decreases_to!(self->Array_0 => self->Array_0[i as int]));
                        assert(self@->Array_0[i as int] == items@[i as int]@);
                    }
                    list.push(items[i].to_value());
                    i = i + 1;
                }
                let node = ValueNode::Array(list);
                proof {
                    if valid(self@) {
                        assert(node.model()->Array_0 =~= self@->Array_0);
                    }
                }
                close_value(node)
            },
            Json::Object(entries) => {
                let mut list: Vec<(String, serde_json::Value)> = Vec::new();
                let mut i: usize = 0;
                while i < entries.len()
                    invariant
                        *self == Json::Object(*entries),
                        i <= entries@.len(),
                        list@.len() == i,
                        valid(self@) ==> forall|k: int|
                            0 <= k < i ==> (#[trigger] list@[k]).0@ == self@->Object_0[k].0
                                && value_model(list@[k].1) == self@->Object_0[k].1,
                    decreases entries@.len() - i,
                {
                    let entry = &entries[i];
                    proof {
                        assert(decreases_to!(*self => self->Object_0));
                        assert(decreases_to!(self->Object_0 => self->Object_0[i as int]));
                        assert(decreases_to!(*entry => entry.1));
                        assert(self@->Object_0[i as int] == (entry.0@, entry.1@));
                    }
                    list.push((entry.0.clone(), entry.1.to_value()));
                    i = i + 1;
                }
                let node = ValueNode::Object(list);
                proof {
                    if valid(self@) {
                        assert(node.model()->Object_0 =~= self@->Object_0);
                    }
                }
                close_value(node)
            },
        }
    }

    /// The JSON document that a text holds.
    pub fn parse(text: &str) -> (json: Option<Json>)
        ensures
            json matches Some(j) ==> json_document(text@) == Some(j@) && valid(j@),
            json is None ==> json_document(text@) is None,
    {
        match read_document(text) {
            Some(value) => Some(Json::from_value(value)),
            None => None,
        }
    }

    /// The value as compact JSON.
    pub fn to_text(&self) -> (text: String)
        requires
            valid(self@),
        ensures
            text@ == json_text(self@),
            plain_text(self@) matches Some(t) ==> text@ == t,
    {
        print_value(&self.to_value())
    }
}

} // verus!
