//! The error taxonomy: every failure is scoped to one request and
//! carries a symbolic code plus the operation family it occurred in.

use vstd::prelude::*;

verus! {

/// Which of the engine's operation families an error belongs to.
/// Every error is routed through the family of the operation actually
/// being performed.
#[derive(Clone, Copy, PartialEq, Eq, Structural, Debug)]
pub enum Family {
    Generation,
    Encryption,
    Decryption,
}

/// A per-request failure. Validation errors are produced by the engine
/// itself; the storage errors are reported by the caller that executes
/// a plan against real storage.
#[derive(Clone, Copy, PartialEq, Eq, Structural, Debug)]
pub enum OpError {
    /// The input data file does not exist or could not be read.
    MissingInput,
    /// The key file does not exist or could not be read.
    MissingKey,
    /// The request's path has no file name to derive a stem from.
    EmptyFileName,
    /// The operation needs the input's extension and the file name has none.
    MissingExtension,
    /// The key is shorter than the data it must cover.
    KeyTooShort,
    /// An output file could not be created.
    CreateFailed,
    /// An output file could not be written.
    WriteFailed,
    /// An input file could not be deleted.
    DeleteFailed,
    /// An output file could not be moved to its final name.
    RenameFailed,
}

impl Family {
    pub open spec fn name_spec(self) -> Seq<char> {
        match self {
            Family::Generation => "Generation"@,
            Family::Encryption => "Encryption"@,
            Family::Decryption => "Decryption"@,
        }
    }

    /// The family's tag, as it appears in a report line.
    pub fn name(&self) -> (r: &'static str)
        ensures
            r@ == self.name_spec(),
    {
        match self {
            Family::Generation => "Generation",
            Family::Encryption => "Encryption",
            Family::Decryption => "Decryption",
        }
    }
}

impl OpError {
    pub open spec fn code_spec(self) -> Seq<char> {
        match self {
            OpError::MissingInput => "missing-input"@,
            OpError::MissingKey => "missing-key"@,
            OpError::EmptyFileName => "empty-file-name"@,
            OpError::MissingExtension => "missing-extension"@,
            OpError::KeyTooShort => "key-too-short"@,
            OpError::CreateFailed => "create-failed"@,
            OpError::WriteFailed => "write-failed"@,
            OpError::DeleteFailed => "delete-failed"@,
            OpError::RenameFailed => "rename-failed"@,
        }
    }

    /// The error's distinct symbolic code.
    pub fn code(&self) -> (r: &'static str)
        ensures
            r@ == self.code_spec(),
    {
        match self {
            OpError::MissingInput => "missing-input",
            OpError::MissingKey => "missing-key",
            OpError::EmptyFileName => "empty-file-name",
            OpError::MissingExtension => "missing-extension",
            OpError::KeyTooShort => "key-too-short",
            OpError::CreateFailed => "create-failed",
            OpError::WriteFailed => "write-failed",
            OpError::DeleteFailed => "delete-failed",
            OpError::RenameFailed => "rename-failed",
        }
    }
}

} // verus!
