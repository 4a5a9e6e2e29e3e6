//! What can go wrong, and the one-line message shown for each.
use vstd::prelude::*;
use crate::text::joined;

verus! {

pub enum Error {
    /// No override applies and no default toolchain is set.
    NoDefaultToolchain,
    /// The stored configuration has another schema version than this program reads.
    MetadataVersionMismatch { found: String },
    /// The resolved toolchain has no installation.
    ToolchainNotInstalled { name: String },
    /// The working directory could not be determined.
    LocatingWorkingDir,
    /// A file or directory operation failed; names what was being handled.
    Filesystem { what: String },
    /// The PATH setting could not be read or written.
    PermissionDenied,
    /// A child process could not be started.
    RunningCommand { name: String },
    /// The user declined a confirmation.
    UserAborted,
}

impl Error {
    /// The text shown to the user for this error.
    pub fn message(&self) -> (r: String)
        ensures
            r@ == match self {
                Error::NoDefaultToolchain => "no default toolchain configured"@,
                Error::MetadataVersionMismatch { found } =>
                    "metadata version mismatch: expected 2, found "@ + found@,
                Error::ToolchainNotInstalled { name } => "toolchain '"@ + name@ + "' is not installed"@,
                Error::LocatingWorkingDir => "could not locate working directory"@,
                Error::Filesystem { what } => "could not update "@ + what@,
                Error::PermissionDenied => "permission denied"@,
                Error::RunningCommand { name } => "could not run command: "@ + name@,
                Error::UserAborted => "aborted by user"@,
            },
    {
        match self {
            Error::NoDefaultToolchain => String::from_str("no default toolchain configured"),
            Error::MetadataVersionMismatch { found } =>
                joined("metadata version mismatch: expected 2, found ", found.as_str()),
            Error::ToolchainNotInstalled { name } => {
                let a = joined("toolchain '", name.as_str());
                joined(a.as_str(), "' is not installed")
            },
            Error::LocatingWorkingDir => String::from_str("could not locate working directory"),
            Error::Filesystem { what } => joined("could not update ", what.as_str()),
            Error::PermissionDenied => String::from_str("permission denied"),
            Error::RunningCommand { name } => joined("could not run command: ", name.as_str()),
            Error::UserAborted => String::from_str("aborted by user"),
        }
    }
}

} // verus!
