//! The errors of the store and of what runs around it.

use vstd::prelude::*;
use vstd::string::*;

verus! {

/// What can go wrong in the store or around it. Failures of the file system,
/// of the JSON codec and of the signal handler carry the detail as text.
#[derive(Debug, Clone, PartialEq)]
pub enum DatabaseError {
    Io(String),
    Json(String),
    KeyNotFound(String),
    InvalidResourceType(String),
    LockError,
    CtrlC(String),
}

/// An error as contracts see it.
pub ghost enum ErrorView {
    Io(Seq<char>),
    Json(Seq<char>),
    KeyNotFound(Seq<char>),
    InvalidResourceType(Seq<char>),
    LockError,
    CtrlC(Seq<char>),
}

impl View for DatabaseError {
    type V = ErrorView;

    open spec fn view(&self) -> ErrorView {
        match self {
            DatabaseError::Io(detail) => ErrorView::Io(detail@),
            DatabaseError::Json(detail) => ErrorView::Json(detail@),
            DatabaseError::KeyNotFound(key) => ErrorView::KeyNotFound(key@),
            DatabaseError::InvalidResourceType(key) => ErrorView::InvalidResourceType(key@),
            DatabaseError::LockError => ErrorView::LockError,
            DatabaseError::CtrlC(detail) => ErrorView::CtrlC(detail@),
        }
    }
}

/// The text that describes an error.
pub open spec fn message_of(error: ErrorView) -> Seq<char> {
    match error {
        ErrorView::Io(detail) => "IO error: "@ + detail,
        ErrorView::Json(detail) => "JSON error: "@ + detail,
        ErrorView::KeyNotFound(key) => "Key not found: "@ + key,
        ErrorView::InvalidResourceType(key) => "Invalid resource type: "@ + key,
        ErrorView::LockError => "Lock error"@,
        ErrorView::CtrlC(detail) => "Ctrl-C error: "@ + detail,
    }
}

impl DatabaseError {
    /// The text that describes this error.
    pub fn message(&self) -> (r: String)
        ensures
            r@ == message_of(self@),
    {
        match self {
            DatabaseError::Io(detail) => String::from_str("IO error: ").concat(detail.as_str()),
            DatabaseError::Json(detail) => String::from_str("JSON error: ").concat(detail.as_str()),
            DatabaseError::KeyNotFound(key) => String::from_str("Key not found: ").concat(
                key.as_str(),
            ),
            DatabaseError::InvalidResourceType(key) => String::from_str(
                "Invalid resource type: ",
            ).concat(key.as_str()),
            DatabaseError::LockError => String::from_str("Lock error"),
            DatabaseError::CtrlC(detail) => String::from_str("Ctrl-C error: ").concat(
                detail.as_str(),
            ),
        }
    }
}

} // verus!
