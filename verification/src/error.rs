use vstd::prelude::*;

verus! {

/// The errors that the library's checks report, each with its message.
#[derive(Debug, Clone)]
pub enum AppError {
    Validation(String),
    BadRequest(String),
    Conflict(String),
    NotFound(String),
    Authorization(String),
    /// A database call failed; the message is the database's.
    Database(String),
    Internal(String),
}

} // verus!
