//! Errors of the core operations.

use vstd::prelude::*;

verus! {

/// Why a core operation was refused.
#[derive(Debug)]
pub enum Error {
    /// A hosting operation was refused (e.g. a stale election epoch)
    Hosting(String),
    /// The role does not allow the operation
    PermissionDenied(String),
    /// The requested record does not exist
    NotFound(String),
    /// The operation is not valid in the current state
    InvalidOperation(String),
    /// Reading or writing a file failed
    Io(std::io::Error),
    /// The database refused an operation (its message)
    Database(String),
    /// A record could not be encoded or decoded (the encoder's message)
    Serialization(String),
}

} // verus!
