//! Why the REview service could not start.

use vstd::prelude::*;

verus! {

/// What went wrong while starting up.
#[derive(Clone, Copy, Debug, PartialEq, Eq, Structural)]
pub enum InitializeErrorReason {
    BuildServer,
    ClientMode,
    ClientUrl,
    MissingDatabaseURL,
    MissingDockerHostIp,
    MissingEtcdAddr,
    MissingKafkaUrl,
    MissingReviewdAddr,
    REviewd,
    REviewdUrl,
    ServerRun,
}

/// The kind of a start-up error.
#[derive(Clone, Copy, Debug, PartialEq, Eq, Structural)]
pub enum ErrorKind {
    Initialize(InitializeErrorReason),
}

/// The text that describes a reason.
pub open spec fn reason_text(r: InitializeErrorReason) -> Seq<char> {
    match r {
        InitializeErrorReason::BuildServer => "Could not build server"@,
        InitializeErrorReason::ClientMode => "Could not create the cluster view for REview client mode"@,
        InitializeErrorReason::ClientUrl => "Invalid url format. Please specify a url in the form of http://<hostname>:<port number>"@,
        InitializeErrorReason::MissingDatabaseURL => "DATABASE_URL is not set"@,
        InitializeErrorReason::MissingEtcdAddr => "ETCD_ADDR is not set"@,
        InitializeErrorReason::MissingReviewdAddr => "REVIEWD_ADDR is not set"@,
        InitializeErrorReason::MissingDockerHostIp => "DOCKER_HOST_IP is not set"@,
        InitializeErrorReason::MissingKafkaUrl => "KAFKA_URL is not set"@,
        InitializeErrorReason::REviewd => "Could not initialize REviewd"@,
        InitializeErrorReason::REviewdUrl => "IP address and/or port number for reviewd is bad/illegal format"@,
        InitializeErrorReason::ServerRun => "Could not run server"@,
    }
}

/// The text that describes an error kind.
pub open spec fn kind_text(k: ErrorKind) -> Seq<char> {
    match k {
        ErrorKind::Initialize(r) => "REview could not start up successfully: "@ + reason_text(r),
    }
}

impl InitializeErrorReason {
    /// The text that describes the reason.
    pub fn to_text(&self) -> (r: &'static str)
        ensures
            r@ == reason_text(*self),
    {
        match self {
            InitializeErrorReason::BuildServer => "Could not build server",
            InitializeErrorReason::ClientMode => "Could not create the cluster view for REview client mode",
            InitializeErrorReason::ClientUrl => "Invalid url format. Please specify a url in the form of http://<hostname>:<port number>",
            InitializeErrorReason::MissingDatabaseURL => "DATABASE_URL is not set",
            InitializeErrorReason::MissingEtcdAddr => "ETCD_ADDR is not set",
            InitializeErrorReason::MissingReviewdAddr => "REVIEWD_ADDR is not set",
            InitializeErrorReason::MissingDockerHostIp => "DOCKER_HOST_IP is not set",
            InitializeErrorReason::MissingKafkaUrl => "KAFKA_URL is not set",
            InitializeErrorReason::REviewd => "Could not initialize REviewd",
            InitializeErrorReason::REviewdUrl => "IP address and/or port number for reviewd is bad/illegal format",
            InitializeErrorReason::ServerRun => "Could not run server",
        }
    }
}

impl ErrorKind {
    /// The text that describes the error.
    pub fn to_text(&self) -> (r: String)
        ensures
            r@ == kind_text(*self),
    {
        match self {
            ErrorKind::Initialize(reason) => {
                let mut r = String::from_str("REview could not start up successfully: ");
                r.append(reason.to_text());
                r
            },
        }
    }
}

} // verus!
