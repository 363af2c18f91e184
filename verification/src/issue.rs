//! What can go wrong: a failure of the file, and the faults that a check of
//! the file's content can find.
use vstd::prelude::*;

verus! {

/// A failure to create, open, read, write or flush the file, with a
/// message that says which.
#[derive(Debug, PartialEq)]
pub enum EnodError {
    IOError(String),
}

/// Whether `r` is the failure whose message is `message`.
pub open spec fn fails_with<T>(r: Result<T, EnodError>, message: Seq<char>) -> bool {
    r matches Err(EnodError::IOError(m)) && m@ == message
}

/// Potential Issue in the DB file
#[derive(Debug, Copy, Clone, PartialEq, Eq, Structural)]
pub enum DbIssue {
    /// If a record is not properly chronologically ordered.
    UnorderedRecord,
    /// If the header is corrupted (cannot be fully read).
    HeaderCorrupted,
    /// If the date of the DB is invalid.
    OriginDateInvalid,
    /// If a record is corrupted (cannot be fully read) with its index.
    RecordCorrupted(u64),
    /// If the number of record in the header doesn't match the amount that
    /// can be read from the physical file.
    MismatchRecordAmount,
    /// Indicate that there is no known issue
    NoIssue,
}

} // verus!
