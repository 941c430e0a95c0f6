//! Errors of the first central-repository database.

use vstd::prelude::*;

verus! {

/// Why a database transaction failed.
#[derive(Clone, Copy, Debug, PartialEq, Eq, Structural)]
pub enum DatabaseError {
    DatabaseLocked,
    Other,
}

/// The kind of a database error.
#[derive(Clone, Copy, Debug, PartialEq, Eq, Structural)]
pub enum ErrorKind {
    DatabaseTransactionError(DatabaseError),
    Query,
    R2D2,
    Connection,
}

/// The text that describes a transaction failure.
pub open spec fn database_error_text(e: DatabaseError) -> Seq<char> {
    match e {
        DatabaseError::DatabaseLocked => "Database is being locked to process another database transaction"@,
        DatabaseError::Other => "An error occurred"@,
    }
}

/// The text that describes an error kind.
pub open spec fn kind_text(k: ErrorKind) -> Seq<char> {
    match k {
        ErrorKind::DatabaseTransactionError(e) => "An error occurred while processing a database transaction : "@ + database_error_text(e),
        ErrorKind::Query => "An error occurred while processing a database query"@,
        ErrorKind::R2D2 => "An error occurred while connecting database"@,
        ErrorKind::Connection => "diesel connection error"@,
    }
}

impl DatabaseError {
    /// The text that describes the failure.
    pub fn to_text(&self) -> (r: &'static str)
        ensures
            r@ == database_error_text(*self),
    {
        match self {
            DatabaseError::DatabaseLocked => "Database is being locked to process another database transaction",
            DatabaseError::Other => "An error occurred",
        }
    }
}

impl ErrorKind {
    /// The text that describes the error.
    pub fn to_text(&self) -> (r: String)
        ensures
            r@ == kind_text(*self),
    {
        match self {
            ErrorKind::DatabaseTransactionError(e) => {
                let mut r = String::from_str("An error occurred while processing a database transaction : ");
                r.append(e.to_text());
                r
            },
            ErrorKind::Query => String::from_str("An error occurred while processing a database query"),
            ErrorKind::R2D2 => String::from_str("An error occurred while connecting database"),
            ErrorKind::Connection => String::from_str("diesel connection error"),
        }
    }
}

} // verus!
