//! The error that every part of the library can be folded into.

use vstd::prelude::*;
use crate::domain::NoteError;
use crate::shelf::storage::ShelfError;

verus! {

/// `std::io::Error`, carried through as it came: nothing is known of what it
/// holds.
#[verifier::external_type_specification]
#[verifier::external_body]
pub struct ExIoError(std::io::Error);

/// `rusqlite::Error`, carried through as it came: nothing is known of what it
/// holds.
#[verifier::external_type_specification]
#[verifier::external_body]
pub struct ExDbError(rusqlite::Error);

/// `notify::Error`, carried through as it came: nothing is known of what it
/// holds.
#[verifier::external_type_specification]
#[verifier::external_body]
pub struct ExWatchError(notify::Error);

/// A result that fails with [`OraError`].
pub type OraResult<T> = Result<T, OraError>;

/// Every failure that working with notes, shelves, the index or the file
/// watcher can end in.
#[derive(Debug)]
pub enum OraError {
    /// A save found the file already holding the note's content.
    NoChanges,
    /// A note operation failed for another reason.
    Note(NoteError),
    /// A shelf operation failed.
    Shelf(ShelfError),
    /// Reading or writing a file failed outside a note operation.
    Io(std::io::Error),
    /// The index database reported a failure.
    Db(rusqlite::Error),
    /// The index database could not be reached.
    Connection(String),
    /// Anything else, as a message.
    Other(String),
    /// The file watcher reported a failure.
    Watcher(notify::Error),
}

/// What a note error becomes as a library error: an unchanged save keeps its
/// own variant, every other note error is wrapped.
pub open spec fn from_note_error(err: NoteError) -> OraError {
    match err {
        NoteError::NoChanges => OraError::NoChanges,
        NoteError::InvalidPath => OraError::Note(NoteError::InvalidPath),
        NoteError::Io(e) => OraError::Note(NoteError::Io(e)),
    }
}

impl From<NoteError> for OraError {
    fn from(err: NoteError) -> (r: OraError) {
        match err {
            NoteError::NoChanges => OraError::NoChanges,
            NoteError::InvalidPath => OraError::Note(NoteError::InvalidPath),
            NoteError::Io(e) => OraError::Note(NoteError::Io(e)),
        }
    }
}

impl vstd::std_specs::convert::FromSpecImpl<NoteError> for OraError {
    open spec fn obeys_from_spec() -> bool {
        true
    }

    open spec fn from_spec(err: NoteError) -> OraError {
        from_note_error(err)
    }
}

impl From<ShelfError> for OraError {
    fn from(err: ShelfError) -> (r: OraError) {
        OraError::Shelf(err)
    }
}

impl vstd::std_specs::convert::FromSpecImpl<ShelfError> for OraError {
    open spec fn obeys_from_spec() -> bool {
        true
    }

    open spec fn from_spec(err: ShelfError) -> OraError {
        OraError::Shelf(err)
    }
}

impl From<std::io::Error> for OraError {
    fn from(err: std::io::Error) -> (r: OraError) {
        OraError::Io(err)
    }
}

impl vstd::std_specs::convert::FromSpecImpl<std::io::Error> for OraError {
    open spec fn obeys_from_spec() -> bool {
        true
    }

    open spec fn from_spec(err: std::io::Error) -> OraError {
        OraError::Io(err)
    }
}

impl From<rusqlite::Error> for OraError {
    fn from(err: rusqlite::Error) -> (r: OraError) {
        OraError::Db(err)
    }
}

impl vstd::std_specs::convert::FromSpecImpl<rusqlite::Error> for OraError {
    open spec fn obeys_from_spec() -> bool {
        true
    }

    open spec fn from_spec(err: rusqlite::Error) -> OraError {
        OraError::Db(err)
    }
}

impl From<notify::Error> for OraError {
    fn from(err: notify::Error) -> (r: OraError) {
        OraError::Watcher(err)
    }
}

impl vstd::std_specs::convert::FromSpecImpl<notify::Error> for OraError {
    open spec fn obeys_from_spec() -> bool {
        true
    }

    open spec fn from_spec(err: notify::Error) -> OraError {
        OraError::Watcher(err)
    }
}

} // verus!
