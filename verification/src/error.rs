//! The compilation error taxonomy.
//!
//! Any translation, dependency or backend error aborts the whole run: no
//! partial build artifact is ever produced.

use vstd::prelude::*;

verus! {

/// An error of the input-acquisition stage: the run aborts before any
/// project exists.
#[derive(Debug, Clone, PartialEq, Eq)]
pub enum InputError {
    /// No input file was given where exactly one is needed.
    NoInputFile,
    /// More than one input file was given where exactly one is allowed;
    /// carries the number given.
    TooManyInputFiles(usize),
    /// A library specifier lacks the `:` separating file and contract name;
    /// carries the part before `=`.
    LibraryContractNameMissing(String),
    /// A library specifier lacks the `=` before the address; carries the
    /// part before `=`.
    LibraryAddressMissing(String),
    /// The front-end reported at least one semantic error of its own.
    FrontEndErrors,
    /// Two contracts share one identifier.
    DuplicateContract(String),
}

/// An error of IR normalization: the input's control flow or structure is
/// malformed.
#[derive(Debug, Clone, PartialEq, Eq)]
pub enum TranslationError {
    /// A jump names a tag that no block of the stream defines.
    UnresolvedJumpTarget(u64),
    /// One tag is defined by two blocks of the stream.
    DuplicateTag(u64),
}

/// A fatal compilation error. Every variant aborts the entire run.
#[derive(Debug, Clone, PartialEq, Eq)]
pub enum Error {
    /// Acquiring or shaping the input failed.
    InputAcquisition(InputError),
    /// IR normalization failed.
    Translation(TranslationError),
    /// A factory dependency names a contract identifier absent from the
    /// project.
    UnknownDependency(String),
    /// The code-generation backend failed; carries its opaque message.
    /// Never retried: the backend is deterministic.
    Backend(String),
    /// An output file could not be written; carries the file name.
    Filesystem(String),
}

} // verus!
