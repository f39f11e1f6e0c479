//! The two ways in which a gateway operation fails.

use vstd::prelude::*;

verus! {

/// What went wrong.
#[derive(Clone, Copy, Debug, PartialEq, Eq, Structural)]
pub enum Kind {
    /// The gateway was not reached, or answered with a status other than 200.
    Request,
    /// The answer was reached but its envelope or its payload was not as
    /// expected. The two are not told apart.
    Parse,
}

/// A failure, with the HTTP status and the raw body where they are known.
#[derive(Debug)]
pub struct Error {
    pub kind: Kind,
    pub status: Option<u16>,
    pub detail: Option<String>,
}

/// The mathematical content of an [`Error`].
pub struct ErrorView {
    pub kind: Kind,
    pub status: Option<u16>,
    pub detail: Option<Seq<char>>,
}

impl View for Error {
    type V = ErrorView;

    open spec fn view(&self) -> ErrorView {
        ErrorView {
            kind: self.kind,
            status: self.status,
            detail: match self.detail {
                Some(text) => Some(text@),
                None => None,
            },
        }
    }
}

/// The error of the given kind that carries no diagnostics.
pub open spec fn bare(kind: Kind) -> ErrorView {
    ErrorView { kind, status: None, detail: None }
}

impl Error {
    /// An error of the given kind without diagnostics.
    pub fn new(kind: Kind) -> (e: Error)
        ensures
            e@ == bare(kind),
    {
        Error { kind, status: None, detail: None }
    }

    /// An error of the given kind with the status and body that came with it.
    pub fn with_detail(kind: Kind, status: Option<u16>, detail: Option<String>) -> (e: Error)
        ensures
            e.kind == kind,
            e.status == status,
            e.detail == detail,
    {
        Error { kind, status, detail }
    }

    /// The kind of the failure.
    pub fn kind(&self) -> (k: Kind)
        ensures
            k == self.kind,
    {
        self.kind
    }

    /// The HTTP status that the gateway answered with, if it answered.
    pub fn status(&self) -> (s: Option<u16>)
        ensures
            s == self.status,
    {
        self.status
    }
}

} // verus!
