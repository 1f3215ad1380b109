use vstd::prelude::*;

use crate::env::{looks_like_env, looks_like_env_format};
use crate::outside::{
    base_name, file_name_of, json_accepts, parse_json_text, parse_toml_text, parse_yaml_text,
    toml_accepts, yaml_accepts,
};
use crate::text::{ascii_ci_eq, chars_of, eq_ignore_ascii_case, last_index, rfind_char, string_from};

verus! {

/// The four supported input formats.
#[derive(Clone, Copy, Debug, PartialEq, Eq, Structural)]
pub enum Format {
    Json,
    Yaml,
    Toml,
    Env,
}

/// Why no format could be chosen.
#[derive(Debug)]
pub enum FormatError {
    /// The file has an extension outside json, yaml, yml, toml and env.
    UnsupportedExtension { extension: String },
    /// The file has no extension and its content matched no format.
    Undetermined { file: String },
}

/// The outcome of choosing a format.
pub enum Detection {
    Chosen(Format),
    UnsupportedExtension(Seq<char>),
    Undetermined(Seq<char>),
}

impl FormatError {
    pub open spec fn detection(self) -> Detection {
        match self {
            FormatError::UnsupportedExtension { extension } => Detection::UnsupportedExtension(
                extension@,
            ),
            FormatError::Undetermined { file } => Detection::Undetermined(file@),
        }
    }

    pub open spec fn message_spec(self) -> Seq<char> {
        match self {
            FormatError::UnsupportedExtension { extension } => "Unsupported file extension: ."@
                + extension@ + ". Supported: .json, .yaml, .yml, .toml, .env"@,
            FormatError::Undetermined { file } => "Could not determine file format for '"@
                + file@ + "'. Use a known extension or pass --format."@,
        }
    }

    /// The human-readable description of the failure.
    pub fn message(&self) -> (r: String)
        ensures
            r@ == self.message_spec(),
    {
        match self {
            FormatError::UnsupportedExtension { extension } => {
                let mut m = String::from_str("Unsupported file extension: .");
                m.append(extension.as_str());
                m.append(". Supported: .json, .yaml, .yml, .toml, .env");
                m
            },
            FormatError::Undetermined { file } => {
                let mut m = String::from_str("Could not determine file format for '");
                m.append(file.as_str());
                m.append("'. Use a known extension or pass --format.");
                m
            },
        }
    }
}

/// The extension of a file name, as `Path::extension` documents it: the text after the
/// last `.`, and none where there is no `.` or the only one starts the name.
pub open spec fn extension_of_name(name: Seq<char>) -> Option<Seq<char>> {
    match last_index(name, '.') {
        Some(i) => if i == 0 {
            None
        } else {
            Some(name.skip(i + 1))
        },
        None => None,
    }
}

/// The extension of the last component of a path.
pub open spec fn extension_of_path(file: Seq<char>) -> Option<Seq<char>> {
    match file_name_of(file) {
        Some(n) => extension_of_name(n),
        None => None,
    }
}

/// The format an extension names, in any ASCII case.
pub open spec fn format_of_extension(e: Seq<char>) -> Option<Format> {
    if ascii_ci_eq(e, "json"@) {
        Some(Format::Json)
    } else if ascii_ci_eq(e, "yaml"@) || ascii_ci_eq(e, "yml"@) {
        Some(Format::Yaml)
    } else if ascii_ci_eq(e, "toml"@) {
        Some(Format::Toml)
    } else if ascii_ci_eq(e, "env"@) {
        Some(Format::Env)
    } else {
        None
    }
}

/// A file name that marks ENV content: `.env`, or one starting with `.env.`.
pub open spec fn is_env_file_name(n: Seq<char>) -> bool {
    n == ".env"@ || (n.len() >= 5 && n.take(5) == ".env."@)
}

/// The format that content sniffing finds: ENV first, then JSON, TOML and YAML.
pub open spec fn sniffed(content: Seq<char>) -> Option<Format> {
    if looks_like_env(content) {
        Some(Format::Env)
    } else if json_accepts(content) {
        Some(Format::Json)
    } else if toml_accepts(content) {
        Some(Format::Toml)
    } else if yaml_accepts(content) {
        Some(Format::Yaml)
    } else {
        None
    }
}

/// The format chosen for `content` read from `file`: a forced format, else an ENV file
/// name, else the extension, else what sniffing finds.
pub open spec fn detection(file: Seq<char>, content: Seq<char>, forced: Option<Format>) -> Detection {
    match forced {
        Some(f) => Detection::Chosen(f),
        None => if file_name_of(file) matches Some(n) && is_env_file_name(n) {
            Detection::Chosen(Format::Env)
        } else {
            match extension_of_path(file) {
                Some(e) => match format_of_extension(e) {
                    Some(f) => Detection::Chosen(f),
                    None => Detection::UnsupportedExtension(e),
                },
                None => match sniffed(content) {
                    Some(f) => Detection::Chosen(f),
                    None => Detection::Undetermined(file),
                },
            }
        },
    }
}

/// Whether the file name marks ENV content.
fn env_file_name(n: &Vec<char>) -> (r: bool)
    ensures
        r == is_env_file_name(n@),
{
    proof {
        reveal_strlit(".env");
        reveal_strlit(".env.");
    }
    if n.len() < 4 {
        return false;
    }
    let starts = n[0] == '.' && n[1] == 'e' && n[2] == 'n' && n[3] == 'v';
    if n.len() == 4 {
        assert(starts ==> n@ =~= ".env"@);
        return starts;
    }
    assert(n@ != ".env"@) by {
        assert(n@.len() != ".env"@.len());
    }
    let r = starts && n[4] == '.';
    assert(r ==> n@.take(5) =~= ".env."@);
    assert(n@.take(5) =~= ".env."@ ==> r) by {
        if n@.take(5) =~= ".env."@ {
            assert(n@[0] == n@.take(5)[0]);
            assert(n@[1] == n@.take(5)[1]);
            assert(n@[2] == n@.take(5)[2]);
            assert(n@[3] == n@.take(5)[3]);
            assert(n@[4] == n@.take(5)[4]);
        }
    }
    r
}

/// The extension of a file name.
fn name_extension(n: &Vec<char>) -> (r: Option<String>)
    ensures
        match r {
            Some(e) => extension_of_name(n@) == Some(e@),
            None => extension_of_name(n@) is None,
        },
{
    match rfind_char(n, '.') {
        Some(i) => {
            if i == 0 {
                None
            } else {
                let e = string_from(n, i + 1, n.len());
                assert(e@ =~= n@.skip(i + 1));
                Some(e)
            }
        },
        None => None,
    }
}

/// The format an extension names.
fn extension_format(e: &str) -> (r: Option<Format>)
    ensures
        r == format_of_extension(e@),
{
    if eq_ignore_ascii_case(e, "json") {
        Some(Format::Json)
    } else if eq_ignore_ascii_case(e, "yaml") || eq_ignore_ascii_case(e, "yml") {
        Some(Format::Yaml)
    } else if eq_ignore_ascii_case(e, "toml") {
        Some(Format::Toml)
    } else if eq_ignore_ascii_case(e, "env") {
        Some(Format::Env)
    } else {
        None
    }
}

/// Sniffs the format of content that comes without an extension.
pub fn sniff_format(content: &str) -> (r: Option<Format>)
    ensures
        r == sniffed(content@),
{
    if looks_like_env_format(content) {
        Some(Format::Env)
    } else if parse_json_text(content).is_ok() {
        Some(Format::Json)
    } else if parse_toml_text(content).is_ok() {
        Some(Format::Toml)
    } else if parse_yaml_text(content).is_ok() {
        Some(Format::Yaml)
    } else {
        None
    }
}

/// Chooses the format of `content` read from `file_path`: a forced format wins; then a
/// file named `.env` or `.env.*` is ENV; then a known extension decides, in any case,
/// and an unknown one is refused; without an extension the content is sniffed.
pub fn detect_format(file_path: &str, content: &str, forced_format: Option<Format>) -> (r: Result<
    Format,
    FormatError,
>)
    ensures
        match r {
            Ok(f) => detection(file_path@, content@, forced_format) == Detection::Chosen(f),
            Err(e) => detection(file_path@, content@, forced_format) == e.detection(),
        },
{
    if let Some(f) = forced_format {
        return Ok(f);
    }
    let name = base_name(file_path);
    let ext = match name {
        Some(n) => {
            let cs = chars_of(n.as_str());
            if env_file_name(&cs) {
                return Ok(Format::Env);
            }
            name_extension(&cs)
        },
        None => None,
    };
    match ext {
        Some(e) => match extension_format(e.as_str()) {
            Some(f) => Ok(f),
            None => Err(FormatError::UnsupportedExtension { extension: e }),
        },
        None => match sniff_format(content) {
            Some(f) => Ok(f),
            None => Err(FormatError::Undetermined { file: String::from_str(file_path) }),
        },
    }
}

/// Where the file's name has a known extension, the chosen format does not depend on
/// the content.
pub proof fn lemma_extension_ignores_content(file: Seq<char>, c1: Seq<char>, c2: Seq<char>)
    requires
        extension_of_path(file) matches Some(e) && format_of_extension(e) is Some,
    ensures
        detection(file, c1, None) == detection(file, c2, None),
        detection(file, c1, None) is Chosen,
{
}

/// Content that sniffing takes for ENV has an assignment with a key of ASCII letters,
/// digits and underscores on every non-empty line that is not a `#` comment.
pub proof fn lemma_env_sniff_lines(content: Seq<char>)
    requires
        sniffed(content) == Some(Format::Env),
    ensures
        forall|i: int|
            0 <= i < crate::env::trimmed_lines(content).len() && crate::env::is_setting_line(
                #[trigger] crate::env::trimmed_lines(content)[i],
            ) ==> crate::env::is_env_assignment(crate::env::trimmed_lines(content)[i]),
{
}

} // verus!
