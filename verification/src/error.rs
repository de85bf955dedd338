use vstd::prelude::*;

verus! {

/// Why an operation on the store, the engine or the server failed.
#[derive(Debug, Clone, PartialEq, Eq)]
pub enum Error {
    /// An object, a reference, a path or a repository is absent.
    NotFound,
    /// A verified insert computed another digest than the caller expected.
    HashMismatch { expected: String, actual: String },
    /// The store could not be reached.
    ConnectionFailure,
    /// The local object database is malformed, or a staging operation was
    /// used outside the lifecycle of its staging set.
    ProtocolFailure,
}

/// The text of an error, as an error line or a plain-text body carries it.
pub open spec fn error_text(e: Error) -> Seq<char> {
    match e {
        Error::NotFound => "Object not found."@,
        Error::HashMismatch { expected, actual } => "Expected hash to be "@ + expected@
            + ", but encoded the object into a hash of "@ + actual@,
        Error::ConnectionFailure => "Store unreachable."@,
        Error::ProtocolFailure => "Malformed state."@,
    }
}

impl Error {
    /// A one-line description of the error.
    pub fn message(&self) -> (text: String)
        ensures
            text@ == error_text(*self),
    {
        match self {
            Error::NotFound => String::from_str("Object not found."),
            Error::HashMismatch { expected, actual } => {
                let mut text = String::from_str("Expected hash to be ");
                text.append(expected.as_str());
                text.append(", but encoded the object into a hash of ");
                text.append(actual.as_str());
                text
            },
            Error::ConnectionFailure => String::from_str("Store unreachable."),
            Error::ProtocolFailure => String::from_str("Malformed state."),
        }
    }
}

} // verus!
