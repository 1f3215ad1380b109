//! Reads configuration documents in JSON, YAML, TOML or ENV form into one canonical
//! tree, and picks values out of it by dotted paths.
use vstd::prelude::*;

pub mod convert;
pub mod env;
pub mod float;
pub mod format;
pub mod input;
pub mod number;
pub mod outside;
pub mod parse;
pub mod path;
pub mod render;
pub mod text;
pub mod transform;
pub mod value;

pub use env::{looks_like_env_format, parse_env_format};
pub use format::{detect_format, Format, FormatError};
pub use input::{interactive_usage_tutorial, resolve_input, InputError};
pub use parse::{parse_content, ConfError};
pub use path::{resolve_path, PathError};
pub use render::{colorize_json, format_value, format_value_colored, pretty_json};
pub use transform::apply_base64_transform;
pub use value::CanonicalValue;

verus! {

} // verus!
