//! Error type shared by every component: a category and a message.
use vstd::prelude::*;

verus! {

/// Category of an [`Error`].
#[derive(Clone, Copy, Debug, PartialEq, Eq, Structural)]
pub enum ErrorKind {
    /// Structural problems in configuration or expressions.
    Serialization,
    /// A message could not be routed (no route, filtered out).
    Routing,
    /// A processor reported a failure.
    Processor,
    /// Runtime construction or wiring failed.
    Runtime,
    /// Anything else (I/O, transport).
    Other,
}

/// Failure of a library operation.
#[derive(Debug)]
pub enum Error {
    Serialization(String),
    Routing(String),
    Processor(String),
    Runtime(String),
    Other(String),
}

/// What an [`Error`] says: its category and its message.
pub struct ErrorView {
    pub kind: ErrorKind,
    pub message: Seq<char>,
}

pub open spec fn err_view(kind: ErrorKind, message: Seq<char>) -> ErrorView {
    ErrorView { kind, message }
}

impl View for Error {
    type V = ErrorView;

    open spec fn view(&self) -> ErrorView {
        match self {
            Error::Serialization(m) => err_view(ErrorKind::Serialization, m@),
            Error::Routing(m) => err_view(ErrorKind::Routing, m@),
            Error::Processor(m) => err_view(ErrorKind::Processor, m@),
            Error::Runtime(m) => err_view(ErrorKind::Runtime, m@),
            Error::Other(m) => err_view(ErrorKind::Other, m@),
        }
    }
}

/// Result type of the library.
pub type Result<T> = core::result::Result<T, Error>;

impl Error {
    pub fn serialization(message: String) -> (e: Error)
        ensures
            e@ == err_view(ErrorKind::Serialization, message@),
    {
        Error::Serialization(message)
    }

    pub fn routing(message: String) -> (e: Error)
        ensures
            e@ == err_view(ErrorKind::Routing, message@),
    {
        Error::Routing(message)
    }

    pub fn runtime(message: String) -> (e: Error)
        ensures
            e@ == err_view(ErrorKind::Runtime, message@),
    {
        Error::Runtime(message)
    }

    pub fn other(message: String) -> (e: Error)
        ensures
            e@ == err_view(ErrorKind::Other, message@),
    {
        Error::Other(message)
    }

    /// The category of this error.
    pub fn kind(&self) -> (k: ErrorKind)
        ensures
            k == self@.kind,
    {
        match self {
            Error::Serialization(_) => ErrorKind::Serialization,
            Error::Routing(_) => ErrorKind::Routing,
            Error::Processor(_) => ErrorKind::Processor,
            Error::Runtime(_) => ErrorKind::Runtime,
            Error::Other(_) => ErrorKind::Other,
        }
    }

    /// The message of this error.
    pub fn message(&self) -> (m: &str)
        ensures
            m@ == self@.message,
    {
        match self {
            Error::Serialization(m) => m.as_str(),
            Error::Routing(m) => m.as_str(),
            Error::Processor(m) => m.as_str(),
            Error::Runtime(m) => m.as_str(),
            Error::Other(m) => m.as_str(),
        }
    }
}

} // verus!
