//! Error kinds of the storage layer.

use vstd::prelude::*;
use vstd::string::StringExecFns;

verus! {

/// Why a storage operation did not produce a result.
#[derive(Debug, Clone, Copy, PartialEq, Eq, Structural)]
pub enum StorageError {
    /// The key is absent, or its row was found without a blob and removed.
    NotFound,
    /// A disk read or write failed.
    IoError,
    /// The index could not be created or migrated.
    SchemaError,
    /// A `Set-Cookie` text has no `name=value` pair.
    ParseError,
    /// The request URL has no host.
    NoHost,
}

impl StorageError {
    /// A short description for logs and messages.
    pub fn message(&self) -> (s: String)
        ensures
            s@ == match *self {
                StorageError::NotFound => "not found"@,
                StorageError::IoError => "I/O error"@,
                StorageError::SchemaError => "schema error"@,
                StorageError::ParseError => "Invalid Set-Cookie format"@,
                StorageError::NoHost => "URL has no host"@,
            },
    {
        match self {
            StorageError::NotFound => String::from_str("not found"),
            StorageError::IoError => String::from_str("I/O error"),
            StorageError::SchemaError => String::from_str("schema error"),
            StorageError::ParseError => String::from_str("Invalid Set-Cookie format"),
            StorageError::NoHost => String::from_str("URL has no host"),
        }
    }
}

} // verus!
