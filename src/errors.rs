use vstd::prelude::*;

verus! {

/// Failures that the library reports.
#[derive(Debug, Clone, PartialEq, Eq)]
pub enum AppError {
    /// The user's home directory is not known.
    InvalidHomePath,
    /// A path that must exist does not.
    InvalidPath(String),
    /// A mod's `meta.cpp` exists but could not be read.
    MissingMeta(u64),
    /// A path could not be written as text.
    PathConversionError(String),
    /// An input/output operation failed, with its message.
    IoError(String),
    /// Stored settings could not be encoded or decoded, with the message.
    SerdeError(String),
    /// The operating system has no known default locations.
    UnsupportedPlatform,
}

} // verus!
