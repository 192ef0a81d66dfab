//! Failures that the lifecycle engine reports to the command surface.
use vstd::prelude::*;

verus! {

/// A typed failure; the command surface alone turns one into a message.
#[derive(Debug, Clone, PartialEq, Eq)]
pub enum RvmError {
    /// No runtime of that name is supported.
    UnsupportedRuntime(String),
    /// The machine's architecture has no build upstream.
    UnsupportedArchitecture(String),
    /// A specifier matched no release, or no installed version.
    VersionNotFound(String),
    /// The resolved version is already installed.
    VersionAlreadyInstalled(String),
    /// Fetching a release failed.
    DownloadFailed(String),
    /// An archive could not be unpacked.
    ExtractionFailed(String),
    /// A required argument is missing.
    MissingArgument(String),
}

} // verus!
