//! Errors of the reviewd database.

use vstd::prelude::*;

verus! {

/// Why a database transaction failed.
#[derive(Clone, Copy, Debug, PartialEq, Eq, Structural)]
pub enum DatabaseError {
    RecordNotExist,
    Other,
}

/// The kind of a database error.
#[derive(Clone, Copy, Debug, PartialEq, Eq, Structural)]
pub enum ErrorKind {
    DatabaseTransactionError(DatabaseError),
    Connection,
    Migration,
    Query,
    R2D2,
    SerdeJson,
}

/// The text that describes a transaction failure.
pub open spec fn database_error_text(e: DatabaseError) -> Seq<char> {
    match e {
        DatabaseError::RecordNotExist => "Record does not exist in database"@,
        DatabaseError::Other => "An error occurred"@,
    }
}

/// The text that describes an error kind.
pub open spec fn kind_text(k: ErrorKind) -> Seq<char> {
    match k {
        ErrorKind::DatabaseTransactionError(e) => "An error occurred while processing a database transaction : "@ + database_error_text(e),
        ErrorKind::Connection => "diesel connection error"@,
        ErrorKind::Migration => "A migration error"@,
        ErrorKind::Query => "An error occurred while processing a database query"@,
        ErrorKind::R2D2 => "An error occurred while connecting database"@,
        ErrorKind::SerdeJson => "An error occurred while deserializing data in JSON format"@,
    }
}

impl DatabaseError {
    /// The text that describes the failure.
    pub fn to_text(&self) -> (r: &'static str)
        ensures
            r@ == database_error_text(*self),
    {
        match self {
            DatabaseError::RecordNotExist => "Record does not exist in database",
            DatabaseError::Other => "An error occurred",
        }
    }
}

impl ErrorKind {
    /// The text that describes the error.
    pub fn to_text(&self) -> (r: String)
        ensures
            r@ == kind_text(*self),
    {
        match self {
            ErrorKind::DatabaseTransactionError(e) => {
                let mut r = String::from_str("An error occurred while processing a database transaction : ");
                r.append(e.to_text());
                r
            },
            ErrorKind::Connection => String::from_str("diesel connection error"),
            ErrorKind::Migration => String::from_str("A migration error"),
            ErrorKind::Query => String::from_str("An error occurred while processing a database query"),
            ErrorKind::R2D2 => String::from_str("An error occurred while connecting database"),
            ErrorKind::SerdeJson => String::from_str("An error occurred while deserializing data in JSON format"),
        }
    }
}

} // verus!
