use review::database::cluster::{
    assoc_lookup, choose_orderby, cluster_schema, default_columns, orderby_column, orderby_table, select_columns, select_table,
    update_cluster_accepted, update_cluster_succeeded, Layout,
};
use review::database::event::{build_events, events_request, events_request_message, events_to_add, ids_after, unique_events, Event, EventsRequest};
use review::database::event_id::{max_event_id_message, max_event_id_update, MaxEventIdUpdate};
use review::database::outlier::{outlier_columns, outlier_orderby, outlier_where_clause, OUTLIER_SCHEMA};
use review::database::raw_event::{latest_event_ids, owner_of_event, raw_event_id_of};

fn requested(v: &[(&str, bool)]) -> Option<Vec<(String, bool)>> {
    Some(v.iter().map(|(n, b)| (n.to_string(), *b)).collect())
}

#[test]
fn select_table_has_raw_event_only_in_reviewd() {
    assert_eq!(select_table(Layout::Review).len(), 11);
    assert_eq!(select_table(Layout::Reviewd).len(), 12);
    assert_eq!(assoc_lookup(&select_table(Layout::Reviewd), "raw_event"), Some("raw_event.data as raw_event"));
    assert_eq!(assoc_lookup(&select_table(Layout::Review), "raw_event"), None);
    assert_eq!(assoc_lookup(&orderby_table(Layout::Review), "status"), Some("status.description"));
}

#[test]
fn select_columns_follow_the_request() {
    let cols = select_columns(Layout::Review, &requested(&[("Size", true), ("status", true), ("category", false), ("nope", true)]));
    assert_eq!(cols, vec!["cluster.size", "status.description as status"]);
}

#[test]
fn select_columns_fall_back_to_defaults() {
    assert_eq!(select_columns(Layout::Review, &None), default_columns(Layout::Review));
    assert_eq!(select_columns(Layout::Reviewd, &requested(&[("size", false)])), default_columns(Layout::Reviewd));
    assert_eq!(default_columns(Layout::Review).len(), 11);
    assert_eq!(default_columns(Layout::Reviewd)[10], "raw_event.data as raw_event");
}

#[test]
fn orderby_by_lowercase_name() {
    assert_eq!(orderby_column(Layout::Review, Some("SIZE")), Some("cluster.size"));
    assert_eq!(orderby_column(Layout::Review, Some("unknown")), None);
    assert_eq!(orderby_column(Layout::Review, None), None);
    assert_eq!(choose_orderby(&vec![("a", "x"), ("a", "y")], Some("A")), Some("x"));
}

#[test]
fn cluster_schema_joins() {
    assert!(cluster_schema(Layout::Reviewd).ends_with("INNER JOIN raw_event ON cluster.raw_event_id = raw_event.id)"));
    assert!(cluster_schema(Layout::Review).starts_with("((((cluster INNER JOIN status"));
}

#[test]
fn update_cluster_checks() {
    assert!(update_cluster_accepted(true, false, true, false));
    assert!(!update_cluster_accepted(false, true, true, true));
    assert!(!update_cluster_accepted(true, false, false, false));
    assert!(update_cluster_succeeded(1));
    assert!(!update_cluster_succeeded(0));
    assert!(!update_cluster_succeeded(2));
}

#[test]
fn outlier_listing() {
    assert_eq!(outlier_columns(&None).len(), 4);
    assert_eq!(outlier_columns(&requested(&[("id", true)])), vec!["outlier.id"]);
    assert_eq!(outlier_orderby(Some("Size")), Some("outlier.size"));
    assert_eq!(outlier_orderby(Some("id")), None);
    assert!(OUTLIER_SCHEMA.starts_with("(outlier INNER JOIN"));
}

#[test]
fn outlier_where_clause_joins_string_entries() {
    let e = vec![Some("a".to_string()), None, Some("b".to_string())];
    assert_eq!(
        outlier_where_clause(&e),
        "Outlier.data_source_id = (SELECT id FROM data_source WHERE topic_name = 'a') or Outlier.data_source_id = (SELECT id FROM data_source WHERE topic_name = 'b')"
    );
    let first_missing = vec![None, Some("b".to_string())];
    assert_eq!(outlier_where_clause(&first_missing), " or Outlier.data_source_id = (SELECT id FROM data_source WHERE topic_name = 'b')");
    assert_eq!(outlier_where_clause(&Vec::new()), "");
}

fn ids(v: &[Event]) -> Vec<(u64, i32)> {
    v.iter().map(|e| (e.message_id, e.data_source_id)).collect()
}

#[test]
fn build_events_keeps_order() {
    let e = build_events(&[3, 1, 3], 7);
    assert_eq!(ids(&e), vec![(3, 7), (1, 7), (3, 7)]);
    assert!(e.iter().all(|e| e.raw_event.is_none()));
}

#[test]
fn unique_events_sorts_and_keeps_first_of_each_id() {
    let events = vec![
        Event { message_id: 5, data_source_id: 1, raw_event: None },
        Event { message_id: 2, data_source_id: 1, raw_event: None },
        Event { message_id: 5, data_source_id: 2, raw_event: Some(vec![1]) },
        Event { message_id: 1, data_source_id: 3, raw_event: None },
    ];
    let r = unique_events(events);
    assert_eq!(ids(&r), vec![(1, 3), (2, 1), (5, 1)]);
}

#[test]
fn events_to_add_across_batches() {
    let r = events_to_add(&vec![(1, vec![9, 4]), (2, vec![4, 7])]);
    assert_eq!(ids(&r), vec![(4, 1), (7, 2), (9, 1)]);
    assert!(events_to_add(&Vec::new()).is_empty());
}

#[test]
fn events_request_decisions() {
    assert_eq!(events_request(true, Some(100)), EventsRequest::Fetch);
    assert_eq!(events_request(true, Some(101)), EventsRequest::TooMany);
    assert_eq!(events_request(false, Some(1)), EventsRequest::Missing);
    assert_eq!(events_request(true, None), EventsRequest::Missing);
    assert_eq!(events_request_message(EventsRequest::TooMany), "The number of message_id must be less than or equal to 100.");
    assert_eq!(events_request_message(EventsRequest::Missing), "Missing required query parameters.");
}

#[test]
fn ids_after_keeps_larger_ids_in_order() {
    assert_eq!(ids_after(&vec![5, 1, 9, 3, 10], 4), vec![5, 9, 10]);
    assert!(ids_after(&vec![1, 2], 2).is_empty());
}

#[test]
fn max_event_id_requests() {
    assert_eq!(max_event_id_message(25), "{\"max_event_id_num\": 25 }");
    assert_eq!(max_event_id_update(10, Some("5")), MaxEventIdUpdate::Change { value: 5, shrink: true });
    assert_eq!(max_event_id_update(10, Some("20")), MaxEventIdUpdate::Change { value: 20, shrink: false });
    assert_eq!(max_event_id_update(10, Some("10")), MaxEventIdUpdate::Change { value: 10, shrink: false });
    assert_eq!(max_event_id_update(10, Some("-1")), MaxEventIdUpdate::BadRequest);
    assert_eq!(max_event_id_update(10, None), MaxEventIdUpdate::BadRequest);
}

#[test]
fn max_event_id_set_then_get() {
    for n in [0usize, 1, 25, 1000] {
        match max_event_id_update(30, Some(&n.to_string())) {
            MaxEventIdUpdate::Change { value, shrink } => {
                assert_eq!(value, n);
                assert_eq!(shrink, n < 30);
            }
            MaxEventIdUpdate::BadRequest => panic!("refused {}", n),
        }
    }
}

#[test]
fn latest_event_ids_of_rows_with_ids() {
    let rows = vec![(1, Some(vec![3, 9, 4])), (2, None), (3, Some(Vec::new())), (4, Some(vec![1]))];
    assert_eq!(latest_event_ids(&rows), vec![(1, 9), (4, 1)]);
}

#[test]
fn owner_of_event_prefers_clusters() {
    let clusters = vec![(10, 5), (11, 6)];
    let outliers = vec![(20, 6), (21, 7)];
    assert_eq!(owner_of_event(6, &clusters, &outliers), Some((11, true)));
    assert_eq!(owner_of_event(7, &clusters, &outliers), Some((21, false)));
    assert_eq!(owner_of_event(8, &clusters, &outliers), None);
}

#[test]
fn raw_event_id_takes_the_last_match() {
    let raws = vec![(1, "a".to_string()), (2, "b".to_string()), (3, "a".to_string())];
    assert_eq!(raw_event_id_of(&raws, "a"), Some(3));
    assert_eq!(raw_event_id_of(&raws, "b"), Some(2));
    assert_eq!(raw_event_id_of(&raws, "c"), None);
}

#[test]
fn unique_events_twice_is_once() {
    let events = vec![
        Event { message_id: 5, data_source_id: 1, raw_event: None },
        Event { message_id: 2, data_source_id: 1, raw_event: Some(vec![7]) },
        Event { message_id: 5, data_source_id: 2, raw_event: None },
    ];
    let once = unique_events(events);
    let once_view: Vec<(u64, i32, Option<Vec<u8>>)> = once.iter().map(|e| (e.message_id, e.data_source_id, e.raw_event.clone())).collect();
    let twice = unique_events(once);
    let twice_view: Vec<(u64, i32, Option<Vec<u8>>)> = twice.iter().map(|e| (e.message_id, e.data_source_id, e.raw_event.clone())).collect();
    assert_eq!(once_view, twice_view);
}

use review::database::raw_event::RawEventIntake;

#[test]
fn raw_event_intake_stops_after_the_limit() {
    let clusters = vec![(1, 100u64)];
    let outliers = vec![(7, 200u64)];
    let mut intake = RawEventIntake::new(3);
    assert!(intake.take(100, Some(b"c msg"), &clusters, &outliers));
    assert!(intake.take(150, Some(b"other"), &clusters, &outliers));
    assert!(!intake.take(200, Some(b"o msg"), &clusters, &outliers));
    assert_eq!(intake.event_count, 3);
    let u: Vec<(i32, &str, bool)> = intake.updates.iter().map(|u| (u.owner_id, u.data.as_str(), u.is_cluster)).collect();
    assert_eq!(u, vec![(1, "c msg", true), (7, "o msg", false)]);
    let mut one = RawEventIntake::new(0);
    assert!(!one.take(100, None, &clusters, &outliers));
    assert!(one.updates.is_empty());
}
