use vstd::prelude::*;

use crate::convert::{lift_json, lift_toml, matches_json, matches_toml};
use crate::env::{env_document, parse_env_format};
use crate::format::{detect_format, detection, Detection, Format, FormatError};
use crate::outside::{
    json_accepts, json_doc, parse_json_text, toml_doc, yaml_doc, parse_toml_text, parse_yaml_text, toml_accepts, yaml_accepts,
};
use crate::path::PathError;
use crate::value::CanonicalValue;

verus! {

/// Every way in which reading a document or a value out of it can fail.
#[derive(Debug)]
pub enum ConfError {
    /// No format could be chosen.
    Format(FormatError),
    /// The parser of the chosen format refused the content.
    Parse { format: Format, file: String, detail: String },
    /// A path could not be followed.
    Path(PathError),
    /// The text to decode is not base64.
    Base64Decode,
    /// The decoded bytes are not UTF-8 text.
    Utf8,
}

/// The name of a format in messages.
pub fn format_name(f: Format) -> (r: &'static str)
    ensures
        r@ == format_name_spec(f),
{
    match f {
        Format::Json => "JSON",
        Format::Yaml => "YAML",
        Format::Toml => "TOML",
        Format::Env => "ENV",
    }
}

pub open spec fn format_name_spec(f: Format) -> Seq<char> {
    match f {
        Format::Json => "JSON"@,
        Format::Yaml => "YAML"@,
        Format::Toml => "TOML"@,
        Format::Env => "ENV"@,
    }
}

impl ConfError {
    pub open spec fn message_spec(self) -> Seq<char> {
        match self {
            ConfError::Format(e) => e.message_spec(),
            ConfError::Parse { format, file, detail } => "Failed to parse "@ + format_name_spec(
                format,
            ) + ": "@ + file@ + " ("@ + detail@ + ")"@,
            ConfError::Path(e) => e.message_spec(),
            ConfError::Base64Decode => "Failed to decode base64"@,
            ConfError::Utf8 => "Decoded base64 is not valid UTF-8"@,
        }
    }

    /// The human-readable description of the failure.
    pub fn message(&self) -> (r: String)
        ensures
            r@ == self.message_spec(),
    {
        match self {
            ConfError::Format(e) => e.message(),
            ConfError::Parse { format, file, detail } => {
                let mut m = String::from_str("Failed to parse ");
                m.append(format_name(*format));
                m.append(": ");
                m.append(file.as_str());
                m.append(" (");
                m.append(detail.as_str());
                m.append(")");
                m
            },
            ConfError::Path(e) => e.message(),
            ConfError::Base64Decode => String::from_str("Failed to decode base64"),
            ConfError::Utf8 => String::from_str("Decoded base64 is not valid UTF-8"),
        }
    }
}

/// Whether the parser of format `f` accepts `content`; ENV text is always accepted.
pub open spec fn accepted_as(f: Format, content: Seq<char>) -> bool {
    match f {
        Format::Json => json_accepts(content),
        Format::Yaml => yaml_accepts(content),
        Format::Toml => toml_accepts(content),
        Format::Env => true,
    }
}

/// Parses `content` in the format that `detect_format` chooses. A format failure comes
/// back as such; content the chosen parser accepts always parses, and content it refuses
/// is a parse failure naming the format and the file. A JSON, YAML or TOML document
/// becomes the canonical form of the tree its parser reads, keys in document order;
/// ENV text always parses, into exactly the mapping its lines describe.
pub fn parse_content(file_path: &str, content: &str, forced_format: Option<Format>) -> (r: Result<
    CanonicalValue,
    ConfError,
>)
    ensures
        r matches Ok(v) ==> v.wf(),
        r matches Err(ConfError::Parse { file, .. }) ==> file@ == file_path@,
        match detection(file_path@, content@, forced_format) {
            Detection::Chosen(f) => {
                &&& r is Ok <==> accepted_as(f, content@)
                &&& r is Err ==> (r matches Err(ConfError::Parse { format, .. }) && format == f)
                &&& (f == Format::Json && r is Ok) ==> matches_json(r->Ok_0, json_doc(content@))
                &&& (f == Format::Yaml && r is Ok) ==> matches_json(r->Ok_0, yaml_doc(content@))
                &&& (f == Format::Toml && r is Ok) ==> matches_toml(r->Ok_0, toml_doc(content@))
                &&& f == Format::Env ==> (r matches Ok(v) && env_document(v, content@))
            },
            other => r matches Err(ConfError::Format(e)) && e.detection() == other,
        },
{
    let format = match detect_format(file_path, content, forced_format) {
        Ok(f) => f,
        Err(e) => {
            return Err(ConfError::Format(e));
        },
    };
    match format {
        Format::Json => match parse_json_text(content) {
            Ok(tree) => Ok(lift_json(tree)),
            Err(detail) => Err(
                ConfError::Parse { format, file: String::from_str(file_path), detail },
            ),
        },
        Format::Yaml => match parse_yaml_text(content) {
            Ok(tree) => Ok(lift_json(tree)),
            Err(detail) => Err(
                ConfError::Parse { format, file: String::from_str(file_path), detail },
            ),
        },
        Format::Toml => match parse_toml_text(content) {
            Ok(tree) => Ok(lift_toml(tree)),
            Err(detail) => Err(
                ConfError::Parse { format, file: String::from_str(file_path), detail },
            ),
        },
        Format::Env => Ok(parse_env_format(content)),
    }
}

} // verus!
