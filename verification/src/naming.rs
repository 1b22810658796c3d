//! The two gates on what is handed to a command: the environment name and
//! the text of a path.

use crate::error::{ErrorKind, FondaError, FondaErrorView};
use crate::text::to_chars;
use std::path::Path;
use vstd::prelude::*;

verus! {

/// `std::path::Path`, carried through without looking inside.
#[verifier::external_type_specification]
#[verifier::external_body]
pub struct ExPath(Path);

/// The text of a path: its characters where the path is valid Unicode, and
/// nothing where it is not. It is what `Path::to_str` answers.
pub uninterp spec fn path_text(path: &Path) -> Option<Seq<char>>;

/// Calls `Path::to_str`. Trusted: the answer is the text that `path_text`
/// names, and there is none exactly where `path_text` has none.
#[verifier::external_body]
fn path_to_str<'a>(path: &'a Path) -> (r: Option<&'a str>)
    ensures
        match r {
            Some(s) => path_text(path) == Some(s@),
            None => path_text(path) is None,
        },
{
    path.to_str()
}

/// Whether a character may stand in an environment name.
pub open spec fn is_name_char(c: char) -> bool {
    ||| 'a' <= c <= 'z'
    ||| 'A' <= c <= 'Z'
    ||| '0' <= c <= '9'
    ||| c == '_'
    ||| c == '-'
}

/// Whether a text is an environment name: one character at least, and only
/// ASCII letters, digits, `_` and `-`.
pub open spec fn valid_env_name(name: Seq<char>) -> bool {
    name.len() > 0 && forall|i: int| 0 <= i < name.len() ==> is_name_char(#[trigger] name[i])
}

/// What is said of a name that is refused.
pub open spec fn name_rule() -> Seq<char> {
    "Environment name must only contain alphanumeric characters, underscores, or hyphens"@
}

/// What is said of a path that is no text.
pub open spec fn path_rule() -> Seq<char> {
    "Invalid path encoding"@
}

/// Whether `name` is an environment name.
pub fn is_valid_env_name(name: &str) -> (b: bool)
    ensures
        b == valid_env_name(name@),
{
    let v = to_chars(name);
    if v.len() == 0 {
        return false;
    }
    let mut i: usize = 0;
    while i < v.len()
        invariant
            i <= v.len(),
            v@ == name@,
            forall|j: int| 0 <= j < i ==> is_name_char(#[trigger] name@[j]),
        decreases v.len() - i,
    {
        let c = v[i];
        let ok = ('a' <= c && c <= 'z') || ('A' <= c && c <= 'Z') || ('0' <= c && c <= '9') || c
            == '_' || c == '-';
        if !ok {
            assert(!is_name_char(name@[i as int]));
            return false;
        }
        i = i + 1;
    }
    true
}

/// Accepts an environment name and refuses anything else: the empty text,
/// and any text with a character outside ASCII letters, digits, `_`, `-`.
pub fn validate_env_name(name: &str) -> (r: Result<(), FondaError>)
    ensures
        r is Ok <==> valid_env_name(name@),
        r is Err ==> r->Err_0@ == (FondaErrorView {
            kind: ErrorKind::InvalidEnvironmentName,
            subject: name@,
            detail: name_rule(),
        }),
{
    if is_valid_env_name(name) {
        Ok(())
    } else {
        Err(
            FondaError::new(
                ErrorKind::InvalidEnvironmentName,
                name,
                "Environment name must only contain alphanumeric characters, underscores, or hyphens",
            ),
        )
    }
}

/// The text of a path, for use as the argument of a command. A path that is
/// not valid Unicode has none and is refused.
pub fn sanitize_path<'a>(path: &'a Path) -> (r: Result<&'a str, FondaError>)
    ensures
        match r {
            Ok(s) => path_text(path) == Some(s@),
            Err(e) => path_text(path) is None && e@ == (FondaErrorView {
                kind: ErrorKind::InvalidPathEncoding,
                subject: "path conversion"@,
                detail: path_rule(),
            }),
        },
{
    match path_to_str(path) {
        Some(s) => Ok(s),
        None => Err(
            FondaError::new(
                ErrorKind::InvalidPathEncoding,
                "path conversion",
                "Invalid path encoding",
            ),
        ),
    }
}

} // verus!
