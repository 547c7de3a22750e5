//! The failures that the quiz operations report.

use vstd::prelude::*;

verus! {

/// What went wrong.
#[derive(Clone, Copy, Debug, PartialEq, Eq, Structural)]
pub enum ErrorKind {
    /// The remote source could not be reached.
    Network,
    /// A quiz file is absent, here or at the remote source.
    NotFound,
    /// The remote source answered in a shape that is not the expected one.
    RemoteProtocol,
    /// The local file system refused to read, write or create.
    Io,
    /// A quiz document is no valid list of questions.
    Parse,
}

/// A failure: its kind and a message for the user.
#[derive(Clone, Debug, PartialEq, Eq)]
pub struct QuizError {
    kind: ErrorKind,
    message: String,
}

/// A failure by its values.
pub struct ErrorView {
    pub kind: ErrorKind,
    pub message: Seq<char>,
}

/// The failure `kind` with the message `message`.
pub open spec fn failure(kind: ErrorKind, message: Seq<char>) -> ErrorView {
    ErrorView { kind, message }
}

impl View for QuizError {
    type V = ErrorView;

    closed spec fn view(&self) -> ErrorView {
        ErrorView { kind: self.kind, message: self.message@ }
    }
}

impl QuizError {
    pub fn new(kind: ErrorKind, message: String) -> (e: QuizError)
        ensures
            e@ == (ErrorView { kind, message: message@ }),
    {
        QuizError { kind, message }
    }

    pub fn kind(&self) -> (kind: ErrorKind)
        ensures
            kind == self@.kind,
    {
        self.kind
    }

    pub fn message(&self) -> (message: &String)
        ensures
            message@ == self@.message,
    {
        &self.message
    }
}

} // verus!
