//! What can go wrong.

use vstd::prelude::*;

verus! {

/// The kinds of failure.
#[derive(Clone, Copy, Debug, PartialEq, Eq, Structural)]
pub enum ErrorKind {
    /// No project has the id.
    ProjectNotFound,
    /// A project with the id exists.
    ProjectAlreadyExists,
    /// The id cannot name a project.
    InvalidProjectId,
    /// Nothing is at the path.
    PathNotFound,
    /// What is at the path is no directory.
    NotADirectory,
    /// No known language is in the directory.
    NoLanguageDetected,
    /// The operation does not exist for the project.
    OperationNotAvailable,
    /// The request points at something it cannot act on.
    InvalidTarget,
    /// A position lies outside its file.
    PositionOutOfRange,
    /// Two edits touch the same text.
    OverlappingEdits,
    /// A language backend failed.
    Backend,
    /// A configuration file could not be read.
    ConfigRead,
    /// A configuration file could not be written.
    ConfigWrite,
    /// Input or output failed.
    Io,
}

/// A failure: its kind, and what it concerns.
#[derive(Clone, Debug)]
pub struct Error {
    /// The kind.
    pub kind: ErrorKind,
    /// What the failure concerns.
    pub detail: String,
}

/// What a failure is.
#[verifier::ext_equal]
pub struct ErrorView {
    /// The kind.
    pub kind: ErrorKind,
    /// What the failure concerns.
    pub detail: Seq<char>,
}

impl View for Error {
    type V = ErrorView;

    open spec fn view(&self) -> ErrorView {
        ErrorView { kind: self.kind, detail: self.detail@ }
    }
}

impl Error {
    /// A failure of a kind.
    pub fn new(kind: ErrorKind, detail: String) -> (r: Error)
        ensures
            r@ == (ErrorView { kind, detail: detail@ }),
    {
        Error { kind, detail }
    }

    /// Whether the caller can put the failure right by asking otherwise; the
    /// others are the server's own.
    pub fn is_callers(&self) -> (r: bool)
        ensures
            r == callers_fault(self.kind),
    {
        match self.kind {
            ErrorKind::Backend
            | ErrorKind::ConfigRead
            | ErrorKind::ConfigWrite
            | ErrorKind::Io => false,
            _ => true,
        }
    }
}

/// The kinds of failure that come from what was asked.
pub open spec fn callers_fault(kind: ErrorKind) -> bool {
    match kind {
        ErrorKind::Backend | ErrorKind::ConfigRead | ErrorKind::ConfigWrite | ErrorKind::Io => false,
        _ => true,
    }
}

/// What the result of something that can fail is.
pub open spec fn outcome<T: View>(r: Result<T, Error>) -> Result<T::V, ErrorView> {
    match r {
        Ok(v) => Ok(v@),
        Err(e) => Err(e@),
    }
}

} // verus!
