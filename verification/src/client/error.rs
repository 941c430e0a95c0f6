//! Why the HTTP client mode could not start.

use vstd::prelude::*;

verus! {

/// What went wrong while starting the client mode.
#[derive(Clone, Copy, Debug, PartialEq, Eq, Structural)]
pub enum InitializeErrorReason {
    UnexpectedResponse,
    Reqwest,
    EmptyCluster,
}

/// The kind of a client error.
#[derive(Clone, Copy, Debug, PartialEq, Eq, Structural)]
pub enum ErrorKind {
    Initialize(InitializeErrorReason),
}

/// The text that describes a reason.
pub open spec fn reason_text(r: InitializeErrorReason) -> Seq<char> {
    match r {
        InitializeErrorReason::UnexpectedResponse => "Unexpected response from server. Cannot deserialize the received data from REviewd"@,
        InitializeErrorReason::Reqwest => "An error occurs while sending an http request to REviewd"@,
        InitializeErrorReason::EmptyCluster => "Cluster with pending review status was not found"@,
    }
}

/// The text that describes an error kind.
pub open spec fn kind_text(k: ErrorKind) -> Seq<char> {
    match k {
        ErrorKind::Initialize(r) => "REview http client mode could not start up successfully: "@ + reason_text(r),
    }
}

impl InitializeErrorReason {
    /// The text that describes the reason.
    pub fn to_text(&self) -> (r: &'static str)
        ensures
            r@ == reason_text(*self),
    {
        match self {
            InitializeErrorReason::UnexpectedResponse => "Unexpected response from server. Cannot deserialize the received data from REviewd",
            InitializeErrorReason::Reqwest => "An error occurs while sending an http request to REviewd",
            InitializeErrorReason::EmptyCluster => "Cluster with pending review status was not found",
        }
    }
}

impl ErrorKind {
    /// The text that describes the error.
    pub fn to_text(&self) -> (r: String)
        ensures
            r@ == kind_text(*self),
    {
        match self {
            ErrorKind::Initialize(reason) => {
                let mut r = String::from_str("REview http client mode could not start up successfully: ");
                r.append(reason.to_text());
                r
            },
        }
    }
}

} // verus!
