use review::daemon::api_service::{active_status_id, ApiService, DaemonRoute};
use review::web::Method;

fn route(m: Method, p: &str, q: Option<&str>) -> String {
    format!("{:?}", match ApiService::route(m, p, q) {
        DaemonRoute::EventsByStatus(i) => ("status", i, 0),
        DaemonRoute::SignaturesByQualifier(i) => ("qualifier", i, 0),
        DaemonRoute::UpdateQualifier { event_id, qualifier_id } => ("update", event_id, qualifier_id),
        DaemonRoute::Actions => ("actions", 0, 0),
        DaemonRoute::Categories => ("categories", 0, 0),
        DaemonRoute::Events => ("events", 0, 0),
        DaemonRoute::Priorities => ("priorities", 0, 0),
        DaemonRoute::Statuses => ("statuses", 0, 0),
        DaemonRoute::NotFound => ("not found", 0, 0),
    })
}

#[test]
fn daemon_routes_with_query() {
    assert_eq!(route(Method::Get, "/event", Some("status_id=3")), "(\"status\", 3, 0)");
    assert_eq!(route(Method::Get, "/event", Some("status_id=x&qualifier_id=2")), "(\"not found\", 0, 0)");
    assert_eq!(route(Method::Get, "/event", Some("qualifier_id=2")), "(\"qualifier\", 2, 0)");
    assert_eq!(route(Method::Get, "/event", Some("status_id=1&status_id=4")), "(\"status\", 4, 0)");
    assert_eq!(route(Method::Get, "/event", Some("other=1")), "(\"not found\", 0, 0)");
    assert_eq!(route(Method::Put, "/event", Some("event_id=7&qualifier_id=2")), "(\"update\", 7, 2)");
    assert_eq!(route(Method::Put, "/event", Some("event_id=7")), "(\"not found\", 0, 0)");
    assert_eq!(route(Method::Put, "/event", Some("event_id=7&qualifier_id=b")), "(\"not found\", 0, 0)");
    assert_eq!(route(Method::Get, "/status", Some("a=1")), "(\"not found\", 0, 0)");
}

#[test]
fn daemon_routes_without_query() {
    assert_eq!(route(Method::Get, "/action", None), "(\"actions\", 0, 0)");
    assert_eq!(route(Method::Get, "/qualifier", None), "(\"actions\", 0, 0)");
    assert_eq!(route(Method::Get, "/category", None), "(\"categories\", 0, 0)");
    assert_eq!(route(Method::Get, "/event", None), "(\"events\", 0, 0)");
    assert_eq!(route(Method::Get, "/priority", None), "(\"priorities\", 0, 0)");
    assert_eq!(route(Method::Get, "/status", None), "(\"statuses\", 0, 0)");
    assert_eq!(route(Method::Post, "/status", None), "(\"not found\", 0, 0)");
    assert_eq!(route(Method::Get, "/nothing", None), "(\"not found\", 0, 0)");
}

#[test]
fn daemon_replies() {
    let r = ApiService::build_http_404_response();
    assert_eq!((r.status, r.json, r.body.as_str()), (404, false, "Not Found"));
    let r = ApiService::build_http_500_response();
    assert_eq!((r.status, r.json, r.body.as_str()), (500, false, "Internal Server Error"));
    let r = ApiService::updated_response();
    assert_eq!((r.status, r.body.as_str()), (200, "Database has been updated"));
    let r = ApiService::json_response("[]".to_string());
    assert_eq!((r.status, r.json, r.body.as_str()), (200, true, "[]"));
    let r = ApiService::error_handler("no db");
    assert_eq!((r.status, r.json, r.body.as_str()), (500, true, "{\"message\":\"no db\"}"));
    assert_eq!(ApiService::new("db.sqlite").database_url, "db.sqlite");
}

#[test]
fn active_status() {
    let s = vec![(Some(1), "pending".to_string()), (Some(2), "active".to_string()), (Some(3), "active".to_string())];
    assert_eq!(active_status_id(&s), Some(2));
    assert_eq!(active_status_id(&vec![(None, "active".to_string()), (Some(3), "active".to_string())]), None);
    assert_eq!(active_status_id(&vec![(Some(1), "done".to_string())]), None);
}
