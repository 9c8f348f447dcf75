//! Error kinds for persistence operations.

use vstd::prelude::*;
use vstd::string::StringExecFns;

verus! {

/// Result type for persistence operations.
pub type PersistResult<T> = Result<T, PersistError>;

/// Errors that can occur during persistence operations.
#[derive(Debug, Clone)]
pub enum PersistError {
    /// Failed to read or write a file; carries a message.
    IoError(String),
    /// Failed to encode or decode; carries a message.
    SerializationError(String),
    /// A requested type has no stored data.
    ResourceNotFound(String),
}

impl PersistError {
    /// The wording of each error, as a single line.
    pub open spec fn message_spec(&self) -> Seq<char> {
        match self {
            PersistError::IoError(m) => "IO error: "@ + m@,
            PersistError::SerializationError(m) => "Serialization error: "@ + m@,
            PersistError::ResourceNotFound(m) => "Resource not found: "@ + m@,
        }
    }

    /// Renders the error as a human-readable message.
    pub fn message(&self) -> (r: String)
        ensures
            r@ == self.message_spec(),
    {
        match self {
            PersistError::IoError(m) => {
                let mut s = String::from_str("IO error: ");
                s.append(m.as_str());
                s
            },
            PersistError::SerializationError(m) => {
                let mut s = String::from_str("Serialization error: ");
                s.append(m.as_str());
                s
            },
            PersistError::ResourceNotFound(m) => {
                let mut s = String::from_str("Resource not found: ");
                s.append(m.as_str());
                s
            },
        }
    }
}

} // verus!
