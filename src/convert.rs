use vstd::prelude::*;

use crate::number::{integer_text, signed_decimal};
use crate::outside::{json_node, json_view, toml_node, toml_view};
use crate::value::{distinct, keys_of, CanonicalValue};

verus! {

/// A JSON document as plain values: numbers as serde_json writes them, object entries
/// in their order.
pub enum JsonDoc {
    Null,
    Bool(bool),
    Number(Seq<char>),
    Text(Seq<char>),
    List(Seq<JsonDoc>),
    Table(Seq<(Seq<char>, JsonDoc)>),
}

/// A TOML document as plain values: a float as serde_json writes it (`None` for NaN and
/// the infinities), a datetime as its text, table entries in their order.
pub enum TomlDoc {
    Text(Seq<char>),
    Integer(int),
    Float(Option<Seq<char>>),
    Bool(bool),
    Datetime(Seq<char>),
    List(Seq<TomlDoc>),
    Table(Seq<(Seq<char>, TomlDoc)>),
}

/// `v` is the canonical form of the JSON document `d`: the same scalars, sequences of
/// the same length and mappings with the same keys in the same order.
pub open spec fn matches_json(v: CanonicalValue, d: JsonDoc) -> bool
    decreases v,
{
    match v {
        CanonicalValue::Null => d == JsonDoc::Null,
        CanonicalValue::Bool(b) => d == JsonDoc::Bool(b),
        CanonicalValue::Number(t) => d == JsonDoc::Number(t@),
        CanonicalValue::String(t) => d == JsonDoc::Text(t@),
        CanonicalValue::Array(items) => d matches JsonDoc::List(xs) && xs.len() == items.len()
            && forall|i: int| 0 <= i < items.len() ==> matches_json(#[trigger] items@[i], xs[i]),
        CanonicalValue::Object(es) => d matches JsonDoc::Table(xs) && xs.len() == es.len()
            && forall|i: int|
            0 <= i < es.len() ==> (#[trigger] es@[i]).0@ == xs[i].0 && matches_json(es@[i].1, xs[i].1),
    }
}

/// `v` is the canonical form of the TOML document `d`: integers as decimal text, finite
/// floats as their text, NaN and the infinities as null, datetimes as text, sequences
/// and mappings in their order.
pub open spec fn matches_toml(v: CanonicalValue, d: TomlDoc) -> bool
    decreases v,
{
    match v {
        CanonicalValue::Null => d == TomlDoc::Float(None),
        CanonicalValue::Bool(b) => d == TomlDoc::Bool(b),
        CanonicalValue::Number(t) => (d matches TomlDoc::Integer(n) && t@ == signed_decimal(n))
            || d == TomlDoc::Float(Some(t@)),
        CanonicalValue::String(t) => d == TomlDoc::Text(t@) || d == TomlDoc::Datetime(t@),
        CanonicalValue::Array(items) => d matches TomlDoc::List(xs) && xs.len() == items.len()
            && forall|i: int| 0 <= i < items.len() ==> matches_toml(#[trigger] items@[i], xs[i]),
        CanonicalValue::Object(es) => d matches TomlDoc::Table(xs) && xs.len() == es.len()
            && forall|i: int|
            0 <= i < es.len() ==> (#[trigger] es@[i]).0@ == xs[i].0 && matches_toml(es@[i].1, xs[i].1),
    }
}

/// One node of a serde_json tree, its children still in serde_json's form.
pub enum JsonNode {
    Null,
    Bool(bool),
    Number(String),
    String(String),
    Array(Vec<serde_json::Value>),
    Object(Vec<(String, serde_json::Value)>),
}

/// One node of a TOML tree, its children still in the toml crate's form.
pub enum TomlNode {
    String(String),
    Integer(i64),
    /// The number's text, or `None` for NaN and the infinities.
    Float(Option<String>),
    Bool(bool),
    Datetime(String),
    Array(Vec<toml::Value>),
    Table(Vec<(String, toml::Value)>),
}

/// Rebuilds a serde_json tree as a canonical value, keeping array and object order.
pub fn lift_json(v: serde_json::Value) -> (r: CanonicalValue)
    ensures
        r.wf(),
        matches_json(r, json_view(v)),
    decreases v,
{
    let ghost whole = v;
    match json_node(v) {
        JsonNode::Null => CanonicalValue::Null,
        JsonNode::Bool(b) => CanonicalValue::Bool(b),
        JsonNode::Number(t) => CanonicalValue::Number(t),
        JsonNode::String(t) => CanonicalValue::String(t),
        JsonNode::Array(items) => {
            let ghost orig = items@;
            let ghost n = items@.len();
            let ghost xs = json_view(whole)->List_0;
            let mut items = items;
            let mut reversed: Vec<serde_json::Value> = Vec::new();
            while items.len() > 0
                invariant
                    items.len() + reversed.len() == n,
                    forall|i: int| 0 <= i < items.len() ==> #[trigger] items@[i] == orig[i],
                    forall|i: int| 0 <= i < reversed.len() ==> #[trigger] reversed@[i] == orig[n - 1 - i],
                decreases items.len(),
            {
                let item = items.pop().unwrap();
                reversed.push(item);
            }
            let mut out: Vec<CanonicalValue> = Vec::new();
            while reversed.len() > 0
                invariant
                    whole == v,
                    n == orig.len(),
                    json_view(whole) == JsonDoc::List(xs),
                    xs.len() == n,
                    forall|i: int|
                        0 <= i < n ==> xs[i] == json_view(#[trigger] orig[i]) && decreases_to!(whole => orig[i]),
                    out.len() + reversed.len() == n,
                    forall|i: int| 0 <= i < reversed.len() ==> #[trigger] reversed@[i] == orig[n - 1 - i],
                    forall|j: int| 0 <= j < out.len() ==> (#[trigger] out@[j]).wf() && matches_json(out@[j], xs[j]),
                decreases reversed.len(),
            {
                let ghost j = out.len() as int;
                assert(reversed@[reversed.len() - 1] == orig[j]);
                assert(decreases_to!(whole => orig[j]));
                let item = reversed.pop().unwrap();
                let x = lift_json(item);
                out.push(x);
            }
            let r = CanonicalValue::Array(out);
            assert(matches_json(r, json_view(whole)));
            r
        },
        JsonNode::Object(entries) => {
            let ghost orig = entries@;
            let ghost n = entries@.len();
            let ghost xs = json_view(whole)->Table_0;
            let mut entries = entries;
            let mut reversed: Vec<(String, serde_json::Value)> = Vec::new();
            while entries.len() > 0
                invariant
                    entries.len() + reversed.len() == n,
                    forall|i: int| 0 <= i < entries.len() ==> #[trigger] entries@[i] == orig[i],
                    forall|i: int| 0 <= i < reversed.len() ==> #[trigger] reversed@[i] == orig[n - 1 - i],
                decreases entries.len(),
            {
                let entry = entries.pop().unwrap();
                reversed.push(entry);
            }
            let mut out: Vec<(String, CanonicalValue)> = Vec::new();
            while reversed.len() > 0
                invariant
                    whole == v,
                    n == orig.len(),
                    json_view(whole) == JsonDoc::Table(xs),
                    xs.len() == n,
                    distinct(orig.map_values(|e: (String, serde_json::Value)| e.0@)),
                    forall|i: int|
                        0 <= i < n ==> xs[i].0 == (#[trigger] orig[i]).0@ && xs[i].1 == json_view(orig[i].1)
                            && decreases_to!(whole => orig[i].1),
                    out.len() + reversed.len() == n,
                    forall|i: int| 0 <= i < reversed.len() ==> #[trigger] reversed@[i] == orig[n - 1 - i],
                    forall|j: int|
                        0 <= j < out.len() ==> (#[trigger] out@[j]).1.wf() && out@[j].0@ == orig[j].0@
                            && matches_json(out@[j].1, xs[j].1),
                decreases reversed.len(),
            {
                let ghost j = out.len() as int;
                assert(reversed@[reversed.len() - 1] == orig[j]);
                assert(decreases_to!(whole => orig[j].1));
                let (k, item) = reversed.pop().unwrap();
                let x = lift_json(item);
                out.push((k, x));
            }
            proof {
                let keys = orig.map_values(|e: (String, serde_json::Value)| e.0@);
                assert forall|a: int, b: int| 0 <= a < b < out.len() implies #[trigger] out@[a].0@
                    != #[trigger] out@[b].0@ by {
                    assert(keys[a] == orig[a].0@);
                    assert(keys[b] == orig[b].0@);
                }
            }
            let r = CanonicalValue::Object(out);
            assert(matches_json(r, json_view(whole)));
            r
        },
    }
}

/// Rebuilds a TOML tree as a canonical value, keeping array and table order: integers
/// and finite floats become numbers, NaN and the infinities null, datetimes their text.
pub fn lift_toml(v: toml::Value) -> (r: CanonicalValue)
    ensures
        r.wf(),
        matches_toml(r, toml_view(v)),
    decreases v,
{
    let ghost whole = v;
    match toml_node(v) {
        TomlNode::String(t) => CanonicalValue::String(t),
        TomlNode::Integer(i) => CanonicalValue::Number(integer_text(i)),
        TomlNode::Float(Some(t)) => CanonicalValue::Number(t),
        TomlNode::Float(None) => CanonicalValue::Null,
        TomlNode::Bool(b) => CanonicalValue::Bool(b),
        TomlNode::Datetime(t) => CanonicalValue::String(t),
        TomlNode::Array(items) => {
            let ghost orig = items@;
            let ghost n = items@.len();
            let ghost xs = toml_view(whole)->List_0;
            let mut items = items;
            let mut reversed: Vec<toml::Value> = Vec::new();
            while items.len() > 0
                invariant
                    items.len() + reversed.len() == n,
                    forall|i: int| 0 <= i < items.len() ==> #[trigger] items@[i] == orig[i],
                    forall|i: int| 0 <= i < reversed.len() ==> #[trigger] reversed@[i] == orig[n - 1 - i],
                decreases items.len(),
            {
                let item = items.pop().unwrap();
                reversed.push(item);
            }
            let mut out: Vec<CanonicalValue> = Vec::new();
            while reversed.len() > 0
                invariant
                    whole == v,
                    n == orig.len(),
                    toml_view(whole) == TomlDoc::List(xs),
                    xs.len() == n,
                    forall|i: int|
                        0 <= i < n ==> xs[i] == toml_view(#[trigger] orig[i]) && decreases_to!(whole => orig[i]),
                    out.len() + reversed.len() == n,
                    forall|i: int| 0 <= i < reversed.len() ==> #[trigger] reversed@[i] == orig[n - 1 - i],
                    forall|j: int| 0 <= j < out.len() ==> (#[trigger] out@[j]).wf() && matches_toml(out@[j], xs[j]),
                decreases reversed.len(),
            {
                let ghost j = out.len() as int;
                assert(reversed@[reversed.len() - 1] == orig[j]);
                assert(decreases_to!(whole => orig[j]));
                let item = reversed.pop().unwrap();
                let x = lift_toml(item);
                out.push(x);
            }
            let r = CanonicalValue::Array(out);
            assert(matches_toml(r, toml_view(whole)));
            r
        },
        TomlNode::Table(entries) => {
            let ghost orig = entries@;
            let ghost n = entries@.len();
            let ghost xs = toml_view(whole)->Table_0;
            let mut entries = entries;
            let mut reversed: Vec<(String, toml::Value)> = Vec::new();
            while entries.len() > 0
                invariant
                    entries.len() + reversed.len() == n,
                    forall|i: int| 0 <= i < entries.len() ==> #[trigger] entries@[i] == orig[i],
                    forall|i: int| 0 <= i < reversed.len() ==> #[trigger] reversed@[i] == orig[n - 1 - i],
                decreases entries.len(),
            {
                let entry = entries.pop().unwrap();
                reversed.push(entry);
            }
            let mut out: Vec<(String, CanonicalValue)> = Vec::new();
            while reversed.len() > 0
                invariant
                    whole == v,
                    n == orig.len(),
                    toml_view(whole) == TomlDoc::Table(xs),
                    xs.len() == n,
                    distinct(orig.map_values(|e: (String, toml::Value)| e.0@)),
                    forall|i: int|
                        0 <= i < n ==> xs[i].0 == (#[trigger] orig[i]).0@ && xs[i].1 == toml_view(orig[i].1)
                            && decreases_to!(whole => orig[i].1),
                    out.len() + reversed.len() == n,
                    forall|i: int| 0 <= i < reversed.len() ==> #[trigger] reversed@[i] == orig[n - 1 - i],
                    forall|j: int|
                        0 <= j < out.len() ==> (#[trigger] out@[j]).1.wf() && out@[j].0@ == orig[j].0@
                            && matches_toml(out@[j].1, xs[j].1),
                decreases reversed.len(),
            {
                let ghost j = out.len() as int;
                assert(reversed@[reversed.len() - 1] == orig[j]);
                assert(decreases_to!(whole => orig[j].1));
                let (k, item) = reversed.pop().unwrap();
                let x = lift_toml(item);
                out.push((k, x));
            }
            proof {
                let keys = orig.map_values(|e: (String, toml::Value)| e.0@);
                assert forall|a: int, b: int| 0 <= a < b < out.len() implies #[trigger] out@[a].0@
                    != #[trigger] out@[b].0@ by {
                    assert(keys[a] == orig[a].0@);
                    assert(keys[b] == orig[b].0@);
                }
            }
            let r = CanonicalValue::Object(out);
            assert(matches_toml(r, toml_view(whole)));
            r
        },
    }
}

} // verus!
