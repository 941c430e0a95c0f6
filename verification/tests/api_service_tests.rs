use review::api_service::service::{
    single_param, segment_after, ApiService, ClusterResponse, DbFailure, NewQualifier, Route, SearchPlan, Select, SelectCluster,
    UpdateOutcome,
};
use review::filter::Filter;
use review::web::Method;

fn pairs(v: &[(&str, &str)]) -> Vec<(String, String)> {
    v.iter().map(|(a, b)| (a.to_string(), b.to_string())).collect()
}

#[test]
fn new_service_keeps_addresses() {
    let s = ApiService::new("postgres://db", "10.0.0.1:8000", "http://etcd/v3/kv/put");
    assert_eq!(s.docker_host_addr, "10.0.0.1:8000");
    assert_eq!(s.etcd_url, "http://etcd/v3/kv/put");
}

#[test]
fn routes_without_query() {
    assert!(matches!(ApiService::route(Method::Post, "/api/cluster", None), Route::AddClusters));
    assert!(matches!(ApiService::route(Method::Put, "/api/cluster/qualifier", None), Route::UpdateQualifiers));
    assert!(matches!(ApiService::route(Method::Get, "/api/status", None), Route::GetStatuses));
    match ApiService::route(Method::Get, "/api/outlier/my%20source", None) {
        Route::GetOutliersOf(d) => assert_eq!(d, "my source"),
        _ => panic!("wrong route"),
    }
    match ApiService::route(Method::Put, "/api/category/old", None) {
        Route::UpdateCategory(c) => assert_eq!(c, "old"),
        _ => panic!("wrong route"),
    }
    assert!(matches!(ApiService::route(Method::Get, "/api/outlier/a/b", None), Route::NotFound));
    assert!(matches!(ApiService::route(Method::Other, "/api/cluster", None), Route::NotFound));
}

#[test]
fn routes_with_query() {
    match ApiService::route(Method::Post, "/api/category", Some("category=new%20one")) {
        Route::AddCategory(c) => assert_eq!(c, "new one"),
        _ => panic!("wrong route"),
    }
    assert!(matches!(ApiService::route(Method::Post, "/api/category", Some("category=a&x=b")), Route::BadRequest));
    match ApiService::route(Method::Put, "/api/etcd/suspicious_tokens", Some("etcd_key=k")) {
        Route::PutSuspiciousTokens(k) => assert_eq!(k, "k"),
        _ => panic!("wrong route"),
    }
    match ApiService::route(Method::Put, "/api/cluster/c7", Some("data_source=ds")) {
        Route::UpdateCluster(c, d) => {
            assert_eq!(c, "c7");
            assert_eq!(d, "ds");
        }
        _ => panic!("wrong route"),
    }
    match ApiService::route(Method::Get, "/api/cluster/search", Some("filter=x&limit=3")) {
        Route::ClusterSearch(p) => assert_eq!(p, pairs(&[("filter", "x"), ("limit", "3")])),
        _ => panic!("wrong route"),
    }
    assert!(matches!(ApiService::route(Method::Get, "/api/nothing", Some("a=b")), Route::NotFound));
}

#[test]
fn single_param_and_segments() {
    assert_eq!(single_param(&pairs(&[("a", "1")]), "a"), Some("1".to_string()));
    assert_eq!(single_param(&pairs(&[("a", "1"), ("b", "2")]), "a"), None);
    assert_eq!(single_param(&pairs(&[("b", "1")]), "a"), None);
    assert_eq!(segment_after("/api/cluster/x%2Fy", "/api/cluster/"), Some("x/y".to_string()));
    assert_eq!(segment_after("/api/other/x", "/api/cluster/"), None);
}

fn filter_of(ids: &[&str]) -> Filter {
    Filter {
        category: None,
        data_source: None,
        status: None,
        qualifier: None,
        cluster_id: Some(ids.iter().map(|s| s.to_string()).collect()),
        detector_id: None,
    }
}

fn all_true() -> SelectCluster {
    SelectCluster {
        cluster_id: true,
        detector_id: true,
        qualifier: true,
        status: true,
        category: true,
        signature: true,
        data_source: true,
        size: true,
        examples: true,
        last_modification_time: true,
    }
}

fn selecting_size() -> Select {
    Select {
        cluster_id: None,
        detector_id: Some(false),
        qualifier: None,
        status: None,
        category: None,
        signature: None,
        data_source: None,
        size: Some(true),
        examples: None,
        last_modification_time: None,
    }
}

#[test]
fn response_type_builder_selects_true_flags() {
    let s = selecting_size().response_type_builder();
    assert!(s.size);
    assert!(!s.detector_id);
    assert!(!s.cluster_id);
}

#[test]
fn search_plans() {
    let p = ApiService::cluster_search_plan(&pairs(&[("filter", "f")]), Some(filter_of(&["a"])), None);
    match p {
        SearchPlan::Query { where_clause, limit, select } => {
            assert_eq!(where_clause, Some("cluster_id='a'".to_string()));
            assert_eq!(limit, None);
            assert_eq!(select, all_true());
        }
        _ => panic!("wrong plan"),
    }
    let p = ApiService::cluster_search_plan(&pairs(&[("filter", "f"), ("limit", "5")]), Some(filter_of(&[])), None);
    match p {
        SearchPlan::Query { where_clause, limit, .. } => {
            assert_eq!(where_clause, None);
            assert_eq!(limit, Some(5));
        }
        _ => panic!("wrong plan"),
    }
    let p = ApiService::cluster_search_plan(&pairs(&[("filter", "f"), ("limit", "x")]), Some(filter_of(&["a"])), None);
    assert!(matches!(p, SearchPlan::NotFound));
    let p = ApiService::cluster_search_plan(&pairs(&[("filter", "f"), ("select", "s")]), Some(filter_of(&["a"])), Some(selecting_size()));
    match p {
        SearchPlan::Query { select, .. } => assert!(select.size && !select.cluster_id),
        _ => panic!("wrong plan"),
    }
    let p = ApiService::cluster_search_plan(&pairs(&[("filter", "f"), ("select", "s")]), Some(filter_of(&["a"])), None);
    assert!(matches!(p, SearchPlan::BadRequest));
    let p = ApiService::cluster_search_plan(&pairs(&[("filter", "f")]), None, None);
    assert!(matches!(p, SearchPlan::BadRequest));
    let p = ApiService::cluster_search_plan(&pairs(&[("filter", "f"), ("other", "o")]), Some(filter_of(&["a"])), None);
    assert!(matches!(p, SearchPlan::NotFound));
}

#[test]
fn error_replies() {
    let r = ApiService::build_http_404_response();
    assert_eq!(r.status, 404);
    assert_eq!(r.body, "{\"message\":\"Not found\"}");
    assert_eq!(ApiService::build_http_400_response().body, "{\"message\":\"Invalid request\"}");
    assert_eq!(ApiService::build_http_500_response().status, 500);
    let r = ApiService::error_handler("bad \"thing\"");
    assert_eq!(r.status, 500);
    assert_eq!(r.body, "{\"message\":\"bad \\\"thing\\\"\"}");
}

#[test]
fn db_error_replies() {
    let r = ApiService::db_error_handler(Some("error: database is locked"), None);
    assert_eq!(r.status, 503);
    assert_eq!(r.body, "{\"message\":\"Service temporarily unavailable\"}");
    assert_eq!(ApiService::db_error_handler(Some("other"), Some(DbFailure::DatabaseLocked)).status, 500);
    assert_eq!(ApiService::db_error_handler(None, Some(DbFailure::DatabaseLocked)).status, 503);
    let r = ApiService::db_error_handler(None, Some(DbFailure::RecordNotExist));
    assert_eq!(r.status, 400);
    assert_eq!(r.body, "{\"message\":\"The specified record does not exist in database\"}");
    assert_eq!(ApiService::db_error_handler(None, None).status, 500);
    assert_eq!(ApiService::busy_or_server_error(Some(DbFailure::DatabaseLocked)).status, 503);
    assert_eq!(ApiService::busy_or_server_error(Some(DbFailure::Other)).status, 500);
}

#[test]
fn update_outcomes() {
    match ApiService::update_cluster_outcome(Ok((1, true))) {
        UpdateOutcome::Updated { announce, reply } => {
            assert!(announce);
            assert_eq!((reply.status, reply.body.as_str()), (200, "Cluster has been successfully updated"));
        }
        _ => panic!("expected an update"),
    }
    assert!(matches!(ApiService::update_cluster_outcome(Ok((1, false))), UpdateOutcome::Updated { announce: false, .. }));
    match ApiService::update_cluster_outcome(Ok((0, false))) {
        UpdateOutcome::Failed(r) => assert_eq!(r.status, 400),
        _ => panic!("should fail"),
    }
    match ApiService::update_cluster_outcome(Err(Some(DbFailure::Other))) {
        UpdateOutcome::Failed(r) => {
            assert_eq!(r.status, 400);
            assert_eq!(r.body, "{\"message\":\"Please make sure that the values in your request are correct\"}");
        }
        _ => panic!("should fail"),
    }
    match ApiService::update_cluster_outcome(Err(None)) {
        UpdateOutcome::Failed(r) => assert_eq!(r.status, 500),
        _ => panic!("should fail"),
    }
}

#[test]
fn bytes_to_string_maps_each_byte() {
    assert_eq!(ApiService::bytes_to_string(&[104, 105, 0xe9]), "hi\u{e9}");
    assert_eq!(ApiService::bytes_to_string(&[]), "");
}

fn response() -> ClusterResponse {
    ClusterResponse {
        cluster_id: None,
        detector_id: None,
        qualifier: None,
        status: None,
        category: None,
        signature: None,
        data_source: None,
        size: None,
        examples: None,
        last_modification_time: None,
    }
}

#[test]
fn cluster_response_json() {
    let mut a = response();
    a.cluster_id = Some("c\"1".to_string());
    a.detector_id = Some(-3);
    a.size = Some(12);
    a.examples = Some(None);
    let mut b = response();
    b.status = Some("done".to_string());
    b.examples = Some(Some("[1,2]".to_string()));
    b.last_modification_time = Some("2020-01-01".to_string());
    let json = ApiService::build_cluster_response(&vec![a, b]);
    assert_eq!(
        json,
        "[{\"cluster_id\":\"c\\\"1\",\"detector_id\":-3,\"size\":12,\"examples\":-},{\"status\":\"done\",\"examples\":[1,2],\"last_modification_time\":\"2020-01-01\"}]"
    );
    assert_eq!(ApiService::build_cluster_response(&Vec::new()), "[]");
}

#[test]
fn process_outlier_reads_stored_values() {
    let ids = rmp_serde::encode::to_vec(&vec![4u64, 5]).unwrap();
    let o = ApiService::process_outlier(b"raw", "ds".to_string(), &Some("17".to_string()), &Some(ids));
    assert_eq!(o.outlier, "raw");
    assert_eq!(o.data_source, "ds");
    assert_eq!(o.size, 17);
    assert_eq!(o.event_ids, vec![4, 5]);
    let o = ApiService::process_outlier(b"", "ds".to_string(), &Some("x".to_string()), &Some(vec![0xc1]));
    assert_eq!(o.size, 0);
    assert!(o.event_ids.is_empty());
}

fn q(c: &str, d: &str, q: &str) -> NewQualifier {
    NewQualifier { cluster_id: c.to_string(), data_source: d.to_string(), qualifier: q.to_string() }
}

#[test]
fn qualifier_updates() {
    let u = vec![q("c1", "d1", "benign"), q("c2", "d2", "suspicious"), q("c3", "d1", "benign")];
    let sql = ApiService::qualifier_update_query(&vec![q("c1", "d1", "benign")], "T");
    assert_eq!(
        sql,
        "UPDATE clusters SET qualifier_id = (SELECT qualifier_id FROM qualifier WHERE qualifier = 'benign'), last_modification_time = 'T' WHERE cluster_id = 'c1' and data_source = 'd1';"
    );
    assert_eq!(ApiService::benign_updates(&u), vec!["d1".to_string(), "d1".to_string()]);
    assert_eq!(ApiService::qualifier_update_query(&Vec::new(), "T"), "");
}

#[test]
fn etcd_messages() {
    assert_eq!(ApiService::updated_message("key"), "key has been updated.");
    let ok = ApiService::etcd_update_reply("key", Ok(()));
    assert_eq!((ok.status, ok.body.as_str()), (200, "key has been updated."));
    let failed = ApiService::etcd_update_reply("key", Err("connection refused".to_string()));
    assert_eq!(failed.status, 500);
    assert_eq!(failed.body, "{\"message\":\"An error occurs while updating etcd value: connection refused\"}");
    assert_eq!(
        ApiService::suspicious_tokens_body("k", b"ab"),
        "{\"key\": \"aw==\", \"value\": \"YWI=\"}"
    );
}

#[test]
fn cluster_listing_has_one_object_per_row() {
    let rows: Vec<ClusterResponse> = (0..3)
        .map(|i| {
            let mut r = response();
            r.cluster_id = Some(format!("c{}", i));
            r.size = Some(i);
            r
        })
        .collect();
    let json = ApiService::build_cluster_response(&rows);
    assert_eq!(json, "[{\"cluster_id\":\"c0\",\"size\":0},{\"cluster_id\":\"c1\",\"size\":1},{\"cluster_id\":\"c2\",\"size\":2}]");
    assert_eq!(ApiService::build_cluster_response(&vec![response()]), "[{}]");
}
