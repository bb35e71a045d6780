use vstd::prelude::*;

verus! {

/// `std::io::Error`, the error of a failed file operation.
#[verifier::external_type_specification]
#[verifier::external_body]
pub struct ExIoError(std::io::Error);

/// Errors of Castor operations.
#[derive(Debug)]
pub enum CastorError {
    /// The configuration could not be used.
    Config(String),
    /// A file operation failed.
    Io(std::io::Error),
    /// A JSON document could not be read.
    Serialization(serde_json::Error),
    /// A path that an operation needs does not exist.
    PathNotFound(String),
    /// The audit log is inconsistent.
    Audit(String),
    /// A move or copy failed.
    Execution(String),
    /// No soft delete of the session is on record.
    BatchNotFound(String),
}

} // verus!
