//! The calls into outside crates and into the parts of std that have no
//! specification, each with the contract that the library relies on.
use base64::Engine;
use colored::Colorize;
use vstd::prelude::*;

use crate::convert::{JsonDoc, JsonNode, TomlDoc, TomlNode};

verus! {

#[verifier::external_type_specification]
#[verifier::external_body]
pub struct ExJsonValue(serde_json::Value);

#[verifier::external_type_specification]
#[verifier::external_body]
pub struct ExTomlValue(toml::Value);

/// What a serde_json value holds, as a tree of plain values.
pub uninterp spec fn json_view(v: serde_json::Value) -> JsonDoc;

/// What a toml value holds, as a tree of plain values.
pub uninterp spec fn toml_view(v: toml::Value) -> TomlDoc;

/// The tree serde_json reads from the JSON text `s`.
pub uninterp spec fn json_doc(s: Seq<char>) -> JsonDoc;

/// The tree serde_yaml reads, into a serde_json value, from the YAML text `s`.
pub uninterp spec fn yaml_doc(s: Seq<char>) -> JsonDoc;

/// The tree the toml crate reads from the TOML text `s`.
pub uninterp spec fn toml_doc(s: Seq<char>) -> TomlDoc;

/// Whether serde_json accepts `s` as one JSON document.
pub uninterp spec fn json_accepts(s: Seq<char>) -> bool;

/// Whether serde_yaml accepts `s` as a YAML document.
pub uninterp spec fn yaml_accepts(s: Seq<char>) -> bool;

/// Whether the toml crate accepts `s` as a TOML document.
pub uninterp spec fn toml_accepts(s: Seq<char>) -> bool;

/// The text serde_json gives the finite number that `f64::from_str` reads from `s`;
/// `None` where that number is not finite.
pub uninterp spec fn float_text(s: Seq<char>) -> Option<Seq<char>>;

/// The final component of the path `p`, as `Path::file_name` gives it.
pub uninterp spec fn file_name_of(p: Seq<char>) -> Option<Seq<char>>;

/// The standard, padded base64 text of the UTF-8 bytes of `s`.
pub uninterp spec fn base64_of(s: Seq<char>) -> Seq<char>;

/// The bytes that standard, padded base64 text `s` stands for; `None` where it is no
/// such text.
pub uninterp spec fn base64_bytes(s: Seq<char>) -> Option<Seq<u8>>;

/// The text whose UTF-8 encoding is `b`; `None` where `b` is not valid UTF-8.
pub uninterp spec fn utf8_text(b: Seq<u8>) -> Option<Seq<char>>;

/// Relies on serde_json::from_str into serde_json::Value: succeeds exactly on JSON text.
#[verifier::external_body]
pub(crate) fn parse_json_text(s: &str) -> (r: Result<serde_json::Value, String>)
    ensures
        r is Ok <==> json_accepts(s@),
        r matches Ok(t) ==> json_view(t) == json_doc(s@),
{
    serde_json::from_str::<serde_json::Value>(s).map_err(|e| e.to_string())
}

/// Relies on serde_yaml::from_str into serde_json::Value: succeeds exactly on YAML text.
#[verifier::external_body]
pub(crate) fn parse_yaml_text(s: &str) -> (r: Result<serde_json::Value, String>)
    ensures
        r is Ok <==> yaml_accepts(s@),
        r matches Ok(t) ==> json_view(t) == yaml_doc(s@),
{
    serde_yaml::from_str::<serde_json::Value>(s).map_err(|e| e.to_string())
}

/// Relies on toml::from_str into toml::Value: succeeds exactly on TOML text.
#[verifier::external_body]
pub(crate) fn parse_toml_text(s: &str) -> (r: Result<toml::Value, String>)
    ensures
        r is Ok <==> toml_accepts(s@),
        r matches Ok(t) ==> toml_view(t) == toml_doc(s@),
{
    toml::from_str::<toml::Value>(s).map_err(|e| e.to_string())
}

/// Relies on the variants of serde_json::Value: takes one node apart, its number
/// written with serde_json's `Display` and its object entries in their stored order.
/// The node is what the view of `v` holds at its top; each child handed out is part of
/// `v`; an object's keys are distinct, as in serde_json's map.
#[verifier::external_body]
pub(crate) fn json_node(v: serde_json::Value) -> (r: JsonNode)
    ensures
        match r {
            JsonNode::Null => json_view(v) == JsonDoc::Null,
            JsonNode::Bool(b) => json_view(v) == JsonDoc::Bool(b),
            JsonNode::Number(t) => json_view(v) == JsonDoc::Number(t@),
            JsonNode::String(t) => json_view(v) == JsonDoc::Text(t@),
            JsonNode::Array(items) => json_view(v) matches JsonDoc::List(xs) && xs.len()
                == items.len() && forall|i: int|
                0 <= i < items.len() ==> xs[i] == json_view(#[trigger] items@[i]) && decreases_to!(v => items@[i]),
            JsonNode::Object(entries) => json_view(v) matches JsonDoc::Table(xs) && xs.len()
                == entries.len() && forall|i: int|
                0 <= i < entries.len() ==> xs[i].0 == (#[trigger] entries@[i]).0@ && xs[i].1
                    == json_view(entries@[i].1) && decreases_to!(v => entries@[i].1),
        },
        r matches JsonNode::Object(entries) ==> crate::value::distinct(
            entries@.map_values(|e: (String, serde_json::Value)| e.0@),
        ),
{
    match v {
        serde_json::Value::Null => JsonNode::Null,
        serde_json::Value::Bool(b) => JsonNode::Bool(b),
        serde_json::Value::Number(n) => JsonNode::Number(n.to_string()),
        serde_json::Value::String(s) => JsonNode::String(s),
        serde_json::Value::Array(items) => JsonNode::Array(items),
        serde_json::Value::Object(m) => JsonNode::Object(m.into_iter().collect()),
    }
}

/// Relies on the variants of toml::Value: takes one node apart; a float is written as
/// serde_json writes it (`None` where serde_json::Number::from_f64 refuses it), a
/// datetime with its `Display`. The node is what the view of `v` holds at its top; each
/// child handed out is part of `v`; a table's keys are distinct, as in the toml crate's
/// map.
#[verifier::external_body]
pub(crate) fn toml_node(v: toml::Value) -> (r: TomlNode)
    ensures
        match r {
            TomlNode::String(t) => toml_view(v) == TomlDoc::Text(t@),
            TomlNode::Integer(n) => toml_view(v) == TomlDoc::Integer(n as int),
            TomlNode::Float(Some(t)) => toml_view(v) == TomlDoc::Float(Some(t@)),
            TomlNode::Float(None) => toml_view(v) == TomlDoc::Float(None),
            TomlNode::Bool(b) => toml_view(v) == TomlDoc::Bool(b),
            TomlNode::Datetime(t) => toml_view(v) == TomlDoc::Datetime(t@),
            TomlNode::Array(items) => toml_view(v) matches TomlDoc::List(xs) && xs.len()
                == items.len() && forall|i: int|
                0 <= i < items.len() ==> xs[i] == toml_view(#[trigger] items@[i]) && decreases_to!(v => items@[i]),
            TomlNode::Table(entries) => toml_view(v) matches TomlDoc::Table(xs) && xs.len()
                == entries.len() && forall|i: int|
                0 <= i < entries.len() ==> xs[i].0 == (#[trigger] entries@[i]).0@ && xs[i].1
                    == toml_view(entries@[i].1) && decreases_to!(v => entries@[i].1),
        },
        r matches TomlNode::Table(entries) ==> crate::value::distinct(
            entries@.map_values(|e: (String, toml::Value)| e.0@),
        ),
{
    match v {
        toml::Value::String(s) => TomlNode::String(s),
        toml::Value::Integer(i) => TomlNode::Integer(i),
        toml::Value::Float(f) => TomlNode::Float(serde_json::Number::from_f64(f).map(|n| n.to_string())),
        toml::Value::Boolean(b) => TomlNode::Bool(b),
        toml::Value::Datetime(d) => TomlNode::Datetime(d.to_string()),
        toml::Value::Array(items) => TomlNode::Array(items),
        toml::Value::Table(t) => TomlNode::Table(t.into_iter().collect()),
    }
}

/// Relies on `f64::from_str` (which accepts every text of its documented grammar),
/// serde_json::Number::from_f64 (which refuses NaN and the infinities) and the `Display`
/// of serde_json::Number.
#[verifier::external_body]
pub(crate) fn float_number_text(s: &str) -> (r: Option<String>)
    requires
        crate::float::float_literal(s@),
    ensures
        match r {
            Some(t) => float_text(s@) == Some(t@),
            None => float_text(s@) is None,
        },
{
    s.parse().ok().and_then(serde_json::Number::from_f64).map(|n| n.to_string())
}

/// Relies on `Path::file_name`: the last component of the path, if it is a name.
#[verifier::external_body]
pub(crate) fn base_name(p: &str) -> (r: Option<String>)
    ensures
        match r {
            Some(n) => file_name_of(p@) == Some(n@),
            None => file_name_of(p@) is None,
        },
{
    std::path::Path::new(p).file_name().and_then(|n| n.to_str()).map(|n| n.to_string())
}

/// Relies on base64's STANDARD engine, `encode`.
#[verifier::external_body]
pub(crate) fn encode_base64(s: &str) -> (r: String)
    ensures
        r@ == base64_of(s@),
{
    base64::engine::general_purpose::STANDARD.encode(s)
}

/// Relies on base64's STANDARD engine, `decode`.
#[verifier::external_body]
pub(crate) fn decode_base64(s: &str) -> (r: Option<Vec<u8>>)
    ensures
        match r {
            Some(b) => base64_bytes(s@) == Some(b@),
            None => base64_bytes(s@) is None,
        },
{
    base64::engine::general_purpose::STANDARD.decode(s).ok()
}

/// Relies on `String::from_utf8`: succeeds exactly on valid UTF-8.
#[verifier::external_body]
pub(crate) fn text_from_utf8(b: Vec<u8>) -> (r: Option<String>)
    ensures
        match r {
            Some(t) => utf8_text(b@) == Some(t@),
            None => utf8_text(b@) is None,
        },
{
    String::from_utf8(b).ok()
}

/// A style sequence as colored writes it: escape, `[`, digits and `;`, then `m`.
pub open spec fn is_style_code(p: Seq<char>) -> bool {
    &&& p.len() >= 3
    &&& p[0] == '\u{1b}'
    &&& p[1] == '['
    &&& p.last() == 'm'
    &&& forall|i: int| 2 <= i < p.len() - 1 ==> ('0' <= #[trigger] p[i] && p[i] <= '9') || p[i] == ';'
}

/// What the colored crate makes of `s`: the text itself where colouring is off, else
/// the text between a style sequence and the reset sequence.
pub open spec fn painted(s: Seq<char>, r: Seq<char>) -> bool {
    !s.contains('\u{1b}') ==> (r == s || exists|p: Seq<char>|
        is_style_code(p) && r == #[trigger] (p + s) + "\u{1b}[0m"@)
}

/// Relies on colored's `bright_black().bold()`.
#[verifier::external_body]
pub(crate) fn paint_dim(s: &str) -> (r: String)
    ensures
        painted(s@, r@),
{
    s.bright_black().bold().to_string()
}

/// Relies on colored's `white()`.
#[verifier::external_body]
pub(crate) fn paint_white(s: &str) -> (r: String)
    ensures
        painted(s@, r@),
{
    s.white().to_string()
}

/// Relies on colored's `green()`.
#[verifier::external_body]
pub(crate) fn paint_green(s: &str) -> (r: String)
    ensures
        painted(s@, r@),
{
    s.green().to_string()
}

/// Relies on colored's `blue().bold()`.
#[verifier::external_body]
pub(crate) fn paint_key(s: &str) -> (r: String)
    ensures
        painted(s@, r@),
{
    s.blue().bold().to_string()
}

} // verus!
