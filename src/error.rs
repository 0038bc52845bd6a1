use vstd::prelude::*;

verus! {

/// Why a probe could not give an answer.
#[derive(Debug, Clone, Copy, PartialEq, Eq, Structural)]
pub enum Error {
    /// A file that the probe needs could not be opened or read.
    SourceUnavailable,
    /// The label that was looked for is on no line of a readable source.
    NotFound,
    /// A field was found, but its value is not a number of the expected kind.
    MalformedValue,
    /// A process of the ancestry chain has no readable status record (it may
    /// have exited while the chain was walked).
    ProcessStatusUnavailable,
}

} // verus!
