use review::api_service::error::ErrorKind as ApiErrorKind;
use review::client::error::{ErrorKind as ClientErrorKind, InitializeErrorReason as ClientReason};
use review::db::error::{DatabaseError as DbError, ErrorKind as DbErrorKind};
use review::error::{ErrorKind, InitializeErrorReason};
use review::reviewd::database::error::{DatabaseError, ErrorKind as ReviewdErrorKind};

#[test]
fn service_start_up_errors() {
    assert_eq!(InitializeErrorReason::MissingDatabaseURL.to_text(), "DATABASE_URL is not set");
    assert_eq!(
        ErrorKind::Initialize(InitializeErrorReason::ServerRun).to_text(),
        "REview could not start up successfully: Could not run server"
    );
    assert_eq!(
        ErrorKind::Initialize(InitializeErrorReason::REviewdUrl).to_text(),
        "REview could not start up successfully: IP address and/or port number for reviewd is bad/illegal format"
    );
}

#[test]
fn client_errors() {
    assert_eq!(ClientReason::EmptyCluster.to_text(), "Cluster with pending review status was not found");
    assert_eq!(
        ClientErrorKind::Initialize(ClientReason::Reqwest).to_text(),
        "REview http client mode could not start up successfully: An error occurs while sending an http request to REviewd"
    );
}

#[test]
fn database_errors() {
    assert_eq!(DbError::DatabaseLocked.to_text(), "Database is being locked to process another database transaction");
    assert_eq!(
        DbErrorKind::DatabaseTransactionError(DbError::Other).to_text(),
        "An error occurred while processing a database transaction : An error occurred"
    );
    assert_eq!(DbErrorKind::R2D2.to_text(), "An error occurred while connecting database");
    assert_eq!(DatabaseError::RecordNotExist.to_text(), "Record does not exist in database");
    assert_eq!(
        ReviewdErrorKind::DatabaseTransactionError(DatabaseError::RecordNotExist).to_text(),
        "An error occurred while processing a database transaction : Record does not exist in database"
    );
    assert_eq!(ReviewdErrorKind::Migration.to_text(), "A migration error");
    assert_eq!(ApiErrorKind::DB.to_text(), "An error occurred on database");
}
