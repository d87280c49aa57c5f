//! Error taxonomy: every failure of the pipeline is one of these kinds,
//! and each carries the offending value (target string, file path, tool
//! name) so the caller can report it.

use vstd::prelude::*;

verus! {

/// The kind of a pipeline error, without its payload.
#[derive(Clone, Copy, Debug, PartialEq, Eq, Structural)]
pub enum ErrorKind {
    /// A target triple or executable-header architecture was not recognized.
    UnsupportedTarget,
    /// A configuration file could not be parsed.
    ConfigParse,
    /// A configuration file could not be read, written or created.
    ConfigIo,
    /// A spawned external tool was missing or exited non-zero.
    ExternalToolFailure,
    /// An expected image file was absent, its path was malformed, or
    /// its bytes could not be read as an executable image.
    ArtifactPath,
}

/// A terminal pipeline error: its kind plus the offending value.
#[derive(Debug)]
pub struct Error {
    pub kind: ErrorKind,
    pub value: String,
}

impl Error {
    /// Build an error from its kind and the offending value.
    pub fn new(kind: ErrorKind, value: String) -> (r: Error)
        ensures
            r.kind == kind,
            r.value@ == value@,
    {
        Error { kind, value }
    }

    /// The kind of this error.
    pub fn kind(&self) -> (r: ErrorKind)
        ensures
            r == self.kind,
    {
        self.kind
    }

    /// The offending value this error carries.
    pub fn value(&self) -> (r: &String)
        ensures
            r@ == self.value@,
    {
        &self.value
    }
}

} // verus!
