//! The error taxonomy of the configuration resolver.

use vstd::prelude::*;

verus! {

/// The bounded integer type a numeric flag value was expected to parse into.
#[derive(Debug, Clone, Copy, PartialEq, Eq, Structural)]
pub enum IntKind {
    /// An unsigned 16-bit integer (the `port` flag).
    Unsigned16,
    /// An unsigned 32-bit integer (the `cache` flag).
    Unsigned32,
}

/// Which filesystem lookup failed while resolving a relative path.
#[derive(Debug, Clone, Copy, PartialEq, Eq, Structural)]
pub enum AccessCause {
    /// The current working directory could not be obtained.
    CurrentDirLookup,
    /// Canonicalizing the joined path failed after the existence check
    /// (a removal race, a permission error, or another I/O error).
    Canonicalize,
}

/// A descriptive resolution error, carrying the offending values.
///
/// Every error is surfaced to the immediate caller; none is caught or
/// retried internally.  The caller is expected to print the message and
/// terminate with a non-zero status.
#[derive(Debug, Clone, PartialEq, Eq)]
pub enum ConfigError {
    /// A numeric flag value failed to parse into its target bounded
    /// integer type, either because it is not a digit string or because
    /// it is out of range.  Carries the offending raw value and the
    /// expected type.
    InvalidArgument { value: String, target: IntKind },
    /// The supplied path does not exist at validation time.  Carries the
    /// path's display form.
    PathNotFound { path: String },
    /// The current working directory could not be obtained, or
    /// canonicalization failed for a path that passed the existence
    /// check.  Carries the path and the failing lookup.
    PathAccess { path: String, cause: AccessCause },
    /// The combined `host:port` string is not a syntactically valid
    /// socket address.  Carries the host and port that were combined.
    InvalidAddress { host: String, port: u16 },
}

} // verus!
