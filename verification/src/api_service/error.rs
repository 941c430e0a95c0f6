//! Errors of the first REview API service.

use vstd::prelude::*;

verus! {

/// The kind of an API service error.
#[derive(Clone, Copy, Debug, PartialEq, Eq, Structural)]
pub enum ErrorKind {
    Hyper,
    DB,
    SerdeJson,
}

/// The text that describes an error kind.
pub open spec fn kind_text(k: ErrorKind) -> Seq<char> {
    match k {
        ErrorKind::Hyper => "An error occurred on HTTP server"@,
        ErrorKind::DB => "An error occurred on database"@,
        ErrorKind::SerdeJson => "An error occurred while deserializing data in JSON format"@,
    }
}

impl ErrorKind {
    /// The text that describes the error.
    pub fn to_text(&self) -> (r: &'static str)
        ensures
            r@ == kind_text(*self),
    {
        match self {
            ErrorKind::Hyper => "An error occurred on HTTP server",
            ErrorKind::DB => "An error occurred on database",
            ErrorKind::SerdeJson => "An error occurred while deserializing data in JSON format",
        }
    }
}

} // verus!
