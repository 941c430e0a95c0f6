use review::reviewd::database::cluster::{
    benign_data_sources, cluster_change, find_stored, is_benign, new_cluster_row, replacement_row, reviewed_status_id, updated_cluster_size,
    ClusterUpdate, QualifierUpdate, StoredCluster, MAX_CLUSTER_SIZE,
};

#[test]
fn cluster_changes() {
    assert!(cluster_change(None, None, None, 3).is_none());
    let c = cluster_change(None, None, Some(4), 3).unwrap();
    assert_eq!((c.cluster_id, c.category_id, c.qualifier_id, c.status_id), (None, None, Some(4), Some(3)));
    let c = cluster_change(Some("n".to_string()), Some(2), None, 3).unwrap();
    assert_eq!((c.cluster_id, c.category_id, c.qualifier_id, c.status_id), (Some("n".to_string()), Some(2), None, None));
    assert_eq!(reviewed_status_id(Some(5)), 5);
    assert_eq!(reviewed_status_id(None), 1);
}

#[test]
fn benign_checks() {
    assert!(is_benign(&Some("benign".to_string())));
    assert!(!is_benign(&Some("Benign".to_string())));
    assert!(!is_benign(&None));
}

#[test]
fn cluster_sizes() {
    assert_eq!(updated_cluster_size(10, Some(5)), 15);
    assert_eq!(updated_cluster_size(10, None), 10);
    assert_eq!(updated_cluster_size(MAX_CLUSTER_SIZE - 1, Some(1)), 1);
    assert_eq!(updated_cluster_size(MAX_CLUSTER_SIZE - 2, Some(1)), MAX_CLUSTER_SIZE - 1);
}

fn stored(id: Option<&str>) -> StoredCluster {
    StoredCluster {
        cluster_id: id.map(|s| s.to_string()),
        signature: "old sig".to_string(),
        event_ids: Some(vec![1, 2]),
        raw_event_id: 8,
        size: 10,
        category_id: 3,
        qualifier_id: 4,
        status_id: 5,
    }
}

fn update(sig: Option<&str>, ids: Option<Vec<u64>>, size: Option<usize>) -> ClusterUpdate {
    ClusterUpdate {
        cluster_id: "c1".to_string(),
        detector_id: 2,
        signature: sig.map(|s| s.to_string()),
        data_source: "ds".to_string(),
        data_source_type: "log".to_string(),
        size,
        event_ids: ids,
    }
}

#[test]
fn find_stored_takes_the_first_match() {
    let s = vec![stored(None), stored(Some("a")), stored(Some("b")), stored(Some("a"))];
    assert_eq!(find_stored(&s, "a"), Some(1));
    assert_eq!(find_stored(&s, "b"), Some(2));
    assert_eq!(find_stored(&s, "z"), None);
}

#[test]
fn new_rows_get_defaults() {
    let r = new_cluster_row(&update(None, Some(vec![9]), None), 7, 1).unwrap();
    assert_eq!(
        (r.cluster_id.as_str(), r.category_id, r.qualifier_id, r.status_id, r.signature.as_str(), r.size, r.raw_event_id, r.touched),
        ("c1", 1, 2, 2, "-", 1, 1, false)
    );
    assert_eq!(r.event_ids, Some(vec![9]));
    assert!(new_cluster_row(&update(None, None, None), 0, 1).is_none());
    assert!(new_cluster_row(&update(None, None, None), 7, 0).is_none());
}

#[test]
fn replacement_rows_keep_the_review_columns() {
    let r = replacement_row(&update(Some("new sig"), Some(vec![3]), Some(4)), &stored(Some("c1")), 7).unwrap();
    assert_eq!(
        (r.category_id, r.qualifier_id, r.status_id, r.raw_event_id, r.signature.as_str(), r.size, r.data_source_id, r.touched),
        (3, 4, 5, 8, "new sig", 14, 7, true)
    );
    assert_eq!(r.event_ids, Some(vec![1, 2, 3]));
    let r = replacement_row(&update(None, Some(vec![3]), None), &stored(Some("c1")), 7).unwrap();
    assert_eq!((r.signature.as_str(), r.size), ("old sig", 10));
    assert!(replacement_row(&update(None, None, Some(1)), &stored(Some("c1")), 7).is_none());
    assert!(replacement_row(&update(None, Some(vec![1]), Some(1)), &stored(Some("c1")), 0).is_none());
}

#[test]
fn benign_data_sources_once_each() {
    let u = |d: &str, q: &str| QualifierUpdate { cluster_id: "c".to_string(), data_source: d.to_string(), qualifier: q.to_string() };
    let r = benign_data_sources(&vec![u("a", "benign"), u("b", "suspicious"), u("a", "benign"), u("c", "benign")]);
    assert_eq!(r, vec!["a".to_string(), "c".to_string()]);
}
