//! The failures of resolution and provisioning.

use vstd::prelude::*;
use vstd::string::StringExecFns;

verus! {

/// What went wrong.
#[derive(Clone, Copy, Debug, PartialEq, Eq, Structural)]
pub enum ErrorKind {
    /// The manifest is missing or cannot be read.
    ConfigNotFound,
    /// The manifest is not a well-formed document with the required fields.
    ManifestSyntax,
    /// A package list was asked for and is not there.
    RequirementsNotFound,
    /// The package list cannot be written.
    RequirementsWrite,
    /// Something already stands where the environment would be created.
    EnvironmentExists,
    /// No interpreter candidate answers.
    InterpreterNotFound,
    /// The preferred creator failed and the fallback creator failed after it.
    EnvironmentCreationFailed,
    /// The installer could not be started or did not exit with success.
    InstallationFailed,
    /// The environment name has a character outside letters, digits, `_`, `-`.
    InvalidEnvironmentName,
    /// A path is not valid Unicode and cannot be handed to a command.
    InvalidPathEncoding,
}

/// A failure with its context: `subject` is the command line, path or name
/// that failed, `detail` what the system or the process said about it.
#[derive(Clone, Debug, PartialEq, Eq)]
pub struct FondaError {
    pub kind: ErrorKind,
    pub subject: String,
    pub detail: String,
}

/// A failure as plain values.
pub struct FondaErrorView {
    pub kind: ErrorKind,
    pub subject: Seq<char>,
    pub detail: Seq<char>,
}

impl View for FondaError {
    type V = FondaErrorView;

    open spec fn view(&self) -> FondaErrorView {
        FondaErrorView { kind: self.kind, subject: self.subject@, detail: self.detail@ }
    }
}

/// The words that introduce a failure of each kind.
pub open spec fn label_of(kind: ErrorKind) -> Seq<char> {
    match kind {
        ErrorKind::ConfigNotFound => "Configuration file not found"@,
        ErrorKind::ManifestSyntax => "YAML parsing error"@,
        ErrorKind::RequirementsNotFound => "Requirements file not found"@,
        ErrorKind::RequirementsWrite => "Failed to write requirements"@,
        ErrorKind::EnvironmentExists => "Environment already exists"@,
        ErrorKind::InterpreterNotFound => "Python not found"@,
        ErrorKind::EnvironmentCreationFailed => "Failed to create virtual environment"@,
        ErrorKind::InstallationFailed => "Failed to install requirements"@,
        ErrorKind::InvalidEnvironmentName => "Invalid environment name"@,
        ErrorKind::InvalidPathEncoding => "Invalid path encoding"@,
    }
}

/// The message of a failure: the label of its kind, then its subject, then
/// its detail where it has one, with `: ` between them.
pub open spec fn message_of(e: FondaErrorView) -> Seq<char> {
    if e.detail.len() == 0 {
        label_of(e.kind) + ": "@ + e.subject
    } else {
        label_of(e.kind) + ": "@ + e.subject + ": "@ + e.detail
    }
}

/// The words that introduce a failure of the given kind.
pub fn label(kind: ErrorKind) -> (s: &'static str)
    ensures
        s@ == label_of(kind),
{
    match kind {
        ErrorKind::ConfigNotFound => "Configuration file not found",
        ErrorKind::ManifestSyntax => "YAML parsing error",
        ErrorKind::RequirementsNotFound => "Requirements file not found",
        ErrorKind::RequirementsWrite => "Failed to write requirements",
        ErrorKind::EnvironmentExists => "Environment already exists",
        ErrorKind::InterpreterNotFound => "Python not found",
        ErrorKind::EnvironmentCreationFailed => "Failed to create virtual environment",
        ErrorKind::InstallationFailed => "Failed to install requirements",
        ErrorKind::InvalidEnvironmentName => "Invalid environment name",
        ErrorKind::InvalidPathEncoding => "Invalid path encoding",
    }
}

impl FondaError {
    /// A failure of the given kind about `subject`, with `detail`.
    pub fn new(kind: ErrorKind, subject: &str, detail: &str) -> (e: FondaError)
        ensures
            e@ == (FondaErrorView { kind, subject: subject@, detail: detail@ }),
    {
        FondaError {
            kind,
            subject: String::from_str(subject),
            detail: String::from_str(detail),
        }
    }

    /// The message to show for this failure.
    pub fn message(&self) -> (s: String)
        ensures
            s@ == message_of(self@),
    {
        let mut s = String::from_str(label(self.kind));
        s.append(": ");
        s.append(self.subject.as_str());
        if self.detail.as_str().unicode_len() > 0 {
            s.append(": ");
            s.append(self.detail.as_str());
        }
        s
    }
}

} // verus!
