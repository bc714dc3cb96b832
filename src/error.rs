use vstd::prelude::*;

verus! {

/// The kinds of failure that a byte source can report.
#[derive(Clone, Copy, Debug, PartialEq, Eq, Structural)]
pub enum IoErrorKind {
    /// The read was interrupted before anything happened; it may be retried.
    Interrupted,
    /// The resource that was asked for does not exist.
    NotFound,
    /// The source itself met the end of its data too early.
    UnexpectedEof,
    /// Any other failure of the underlying resource.
    Other,
}

/// A failure reported by a byte source.
#[derive(Clone, Debug)]
pub struct IoError {
    pub kind: IoErrorKind,
    pub message: String,
}

impl IoError {
    /// Builds an error of the given kind with a human-readable message.
    pub fn new(kind: IoErrorKind, message: String) -> (r: IoError)
        ensures
            r.kind == kind,
            r.message@ == message@,
    {
        IoError { kind, message }
    }

    /// The kind of this failure.
    pub fn kind(&self) -> (r: IoErrorKind)
        ensures
            r == self.kind,
    {
        self.kind
    }
}

/// The failures of the reading layer.
#[derive(Clone, Debug)]
pub enum Error {
    /// A failure of the underlying source, passed on unchanged.
    Io(IoError),
    /// The stream ended after part of an exact read had been consumed.
    UnexpectedEof,
    /// A resource that was required to exist was reported absent.
    NotFound,
}

impl Error {
    /// Whether this is a failure of the underlying source.
    pub open spec fn is_io(self) -> bool {
        self is Io
    }

    /// A short human-readable description of the failure.
    pub fn description(&self) -> (r: String)
        ensures
            match self {
                Error::Io(e) => r@ == e.message@,
                Error::UnexpectedEof => r@ == "unexpected EOF"@,
                Error::NotFound => r@ == "not found"@,
            },
    {
        match self {
            Error::Io(e) => e.message.clone(),
            Error::UnexpectedEof => "unexpected EOF".to_string(),
            Error::NotFound => "not found".to_string(),
        }
    }
}

} // verus!
