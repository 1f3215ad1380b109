use vstd::prelude::*;

verus! {

/// The help shown when no input is given and standard input is a terminal.
pub fn interactive_usage_tutorial() -> (r: &'static str)
    ensures
        r@ == tutorial_text(),
{
    "No input detected.

Mini tutorial:
  confctl config.yaml clubs.0.name
  confctl config.toml
  cat config.json | confctl user.name
  curl -s https://api.github.com/users | confctl
  curl -s https://api.github.com/users | confctl 0.login --format json

Tip: use '-' to force stdin explicitly:
  curl -s https://api.github.com/users | confctl - 0.login

Run 'confctl --help' for full usage."
}

pub open spec fn tutorial_text() -> Seq<char> {
    "No input detected.

Mini tutorial:
  confctl config.yaml clubs.0.name
  confctl config.toml
  cat config.json | confctl user.name
  curl -s https://api.github.com/users | confctl
  curl -s https://api.github.com/users | confctl 0.login --format json

Tip: use '-' to force stdin explicitly:
  curl -s https://api.github.com/users | confctl - 0.login

Run 'confctl --help' for full usage."@
}

/// There is nothing to read: no file was named and standard input is a terminal.
#[derive(Debug)]
pub enum InputError {
    NoInput,
}

impl InputError {
    /// The message for the user: the usage tutorial.
    pub fn message(&self) -> (r: String)
        ensures
            r@ == tutorial_text(),
    {
        String::from_str(interactive_usage_tutorial())
    }
}

/// Decides what to read and which path to resolve, from the command-line arguments.
/// `-` stands for standard input. A single argument that names no existing file, while
/// input is piped, is taken as the path into standard input.
pub fn resolve_input(
    file: Option<String>,
    path: Option<String>,
    stdin_is_tty: bool,
    file_exists: bool,
) -> (r: Result<(String, Option<String>), InputError>)
    ensures
        match (file, path) {
            (Some(f), Some(p)) => r matches Ok((a, b)) && a == f && b == Some(p),
            (Some(f), None) => if f@ == "-"@ || stdin_is_tty || file_exists {
                r matches Ok((a, b)) && a == f && b is None
            } else {
                r matches Ok((a, b)) && a@ == "-"@ && b == Some(f)
            },
            (None, p) => if stdin_is_tty {
                r is Err
            } else {
                r matches Ok((a, b)) && a@ == "-"@ && b == p
            },
        },
{
    match (file, path) {
        (Some(f), Some(p)) => Ok((f, Some(p))),
        (Some(f), None) => {
            let dash = String::from_str("-");
            if f == dash || stdin_is_tty || file_exists {
                Ok((f, None))
            } else {
                Ok((dash, Some(f)))
            }
        },
        (None, p) => {
            if stdin_is_tty {
                Err(InputError::NoInput)
            } else {
                Ok((String::from_str("-"), p))
            }
        },
    }
}

} // verus!
