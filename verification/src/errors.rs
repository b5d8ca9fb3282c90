use vstd::prelude::*;

verus! {

/// Failure taxonomy of an update attempt. Parsing and selection errors
/// arise inside this library; the network, file-system and execution
/// variants are produced by the surrounding program when a stage that
/// performs I/O fails, and abort the attempt before any swap occurs.
#[derive(Clone, Copy, PartialEq, Eq, Structural, Debug)]
pub enum UpdateError {
    /// A version tag had a non-numeric major, minor or patch segment.
    Parse,
    /// The release feed or the archive download could not be fetched.
    Network,
    /// No eligible release was found in the feed.
    NotFound,
    /// Archive extraction or another file-system step failed.
    Io,
    /// A command batch exited with a non-zero status.
    Execution,
}

impl UpdateError {
    /// A short description, for surfacing the failure to the user.
    pub fn message(self) -> (r: &'static str)
        ensures
            self is Parse ==> r@ == "failed to parse version"@,
            self is Network ==> r@ == "failed to reach the release host"@,
            self is NotFound ==> r@ == "no eligible release found"@,
            self is Io ==> r@ == "archive extraction failed"@,
            self is Execution ==> r@ == "update commands exited with failure"@,
    {
        match self {
            UpdateError::Parse => "failed to parse version",
            UpdateError::Network => "failed to reach the release host",
            UpdateError::NotFound => "no eligible release found",
            UpdateError::Io => "archive extraction failed",
            UpdateError::Execution => "update commands exited with failure",
        }
    }
}

} // verus!
