//! Errors of the per-file and batch operations.

use vstd::prelude::*;

verus! {

/// `std::io::Error`, carried through the errors here without being looked into.
#[verifier::external_type_specification]
#[verifier::external_body]
pub struct ExIoError(std::io::Error);

/// Relies on `std::io::Error::from`, which builds an error of the kind given, here
/// `InvalidData`: the kind `std::fs::read_to_string` reports for content that is not UTF-8.
#[verifier::external_body]
pub(crate) fn invalid_data_error() -> std::io::Error {
    std::io::Error::from(std::io::ErrorKind::InvalidData)
}

/// Errors that can occur when adding a header.
#[derive(Debug)]
pub enum AddHeaderError {
    /// The file at the path could not be read or written, or is not UTF-8 text.
    IoError(String, std::io::Error),
    /// The file at the path has an extension, and a name, with no known comment syntax.
    UnrecognizedExtension(String),
}

/// Errors that can occur when deleting a header.
#[derive(Debug)]
pub enum DeleteHeaderError {
    /// The file at the path could not be read or written, or is not UTF-8 text.
    IoError(String, std::io::Error),
    /// The file at the path has an extension, and a name, with no known comment syntax.
    UnrecognizedExtension(String),
}

/// `walkdir::Error`, carried through the errors here without being looked into.
#[verifier::external_type_specification]
#[verifier::external_body]
pub struct ExWalkdirError(walkdir::Error);

/// Errors that can occur when checking for headers recursively.
#[derive(Debug)]
pub enum CheckHeadersRecursivelyError {
    /// The file at the path could not be opened or read.
    IoError(String, std::io::Error),
    /// The directory tree could not be walked.
    WalkdirError(walkdir::Error),
}

/// Errors that can occur when adding a header recursively.
#[derive(Debug)]
pub enum AddHeadersRecursivelyError {
    /// The file at the path could not be read or written, or is not UTF-8 text.
    IoError(String, std::io::Error),
    /// The directory tree could not be walked.
    WalkdirError(walkdir::Error),
    /// A file with no known comment syntax was met at the path.
    UnrecognizedExtension(String),
}

/// Errors that can occur when deleting a header recursively.
#[derive(Debug)]
pub enum DeleteHeadersRecursivelyError {
    /// The file at the path could not be read or written, or is not UTF-8 text.
    IoError(String, std::io::Error),
    /// The directory tree could not be walked.
    WalkdirError(walkdir::Error),
    /// A file with no known comment syntax was met at the path.
    UnrecognizedExtension(String),
}

impl From<AddHeaderError> for AddHeadersRecursivelyError {
    fn from(value: AddHeaderError) -> (r: Self) {
        match value {
            AddHeaderError::IoError(p, e) => AddHeadersRecursivelyError::IoError(p, e),
            AddHeaderError::UnrecognizedExtension(p) => {
                AddHeadersRecursivelyError::UnrecognizedExtension(p)
            },
        }
    }
}

impl vstd::std_specs::convert::FromSpecImpl<AddHeaderError> for AddHeadersRecursivelyError {
    open spec fn obeys_from_spec() -> bool {
        true
    }

    open spec fn from_spec(value: AddHeaderError) -> Self {
        match value {
            AddHeaderError::IoError(p, e) => AddHeadersRecursivelyError::IoError(p, e),
            AddHeaderError::UnrecognizedExtension(p) => {
                AddHeadersRecursivelyError::UnrecognizedExtension(p)
            },
        }
    }
}

impl From<DeleteHeaderError> for DeleteHeadersRecursivelyError {
    fn from(value: DeleteHeaderError) -> (r: Self) {
        match value {
            DeleteHeaderError::IoError(p, e) => DeleteHeadersRecursivelyError::IoError(p, e),
            DeleteHeaderError::UnrecognizedExtension(p) => {
                DeleteHeadersRecursivelyError::UnrecognizedExtension(p)
            },
        }
    }
}

impl vstd::std_specs::convert::FromSpecImpl<DeleteHeaderError> for DeleteHeadersRecursivelyError {
    open spec fn obeys_from_spec() -> bool {
        true
    }

    open spec fn from_spec(value: DeleteHeaderError) -> Self {
        match value {
            DeleteHeaderError::IoError(p, e) => DeleteHeadersRecursivelyError::IoError(p, e),
            DeleteHeaderError::UnrecognizedExtension(p) => {
                DeleteHeadersRecursivelyError::UnrecognizedExtension(p)
            },
        }
    }
}

impl From<walkdir::Error> for CheckHeadersRecursivelyError {
    fn from(value: walkdir::Error) -> (r: Self) {
        CheckHeadersRecursivelyError::WalkdirError(value)
    }
}

impl vstd::std_specs::convert::FromSpecImpl<walkdir::Error> for CheckHeadersRecursivelyError {
    open spec fn obeys_from_spec() -> bool {
        true
    }

    open spec fn from_spec(value: walkdir::Error) -> Self {
        CheckHeadersRecursivelyError::WalkdirError(value)
    }
}

impl From<walkdir::Error> for AddHeadersRecursivelyError {
    fn from(value: walkdir::Error) -> (r: Self) {
        AddHeadersRecursivelyError::WalkdirError(value)
    }
}

impl vstd::std_specs::convert::FromSpecImpl<walkdir::Error> for AddHeadersRecursivelyError {
    open spec fn obeys_from_spec() -> bool {
        true
    }

    open spec fn from_spec(value: walkdir::Error) -> Self {
        AddHeadersRecursivelyError::WalkdirError(value)
    }
}

impl From<walkdir::Error> for DeleteHeadersRecursivelyError {
    fn from(value: walkdir::Error) -> (r: Self) {
        DeleteHeadersRecursivelyError::WalkdirError(value)
    }
}

impl vstd::std_specs::convert::FromSpecImpl<walkdir::Error> for DeleteHeadersRecursivelyError {
    open spec fn obeys_from_spec() -> bool {
        true
    }

    open spec fn from_spec(value: walkdir::Error) -> Self {
        DeleteHeadersRecursivelyError::WalkdirError(value)
    }
}

} // verus!
