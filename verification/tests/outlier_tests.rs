use review::database::event::NoRawEventScan;
use review::database::indicator::{deletion_status, indicator_deletion, indicator_orderby, indicator_where_clause, IndicatorDeletion};
use review::reviewd::database::outlier::{
    clusters_to_relink, deleted_outlier_links, find_outlier, new_outlier_row, outlier_size, updated_outlier_row, OutlierUpdate, StoredOutlier,
};

fn enc(v: &[u64]) -> Vec<u8> {
    rmp_serde::encode::to_vec(&v.to_vec()).unwrap()
}

fn dec(b: &[u8]) -> Vec<u64> {
    rmp_serde::decode::from_slice(b).unwrap()
}

fn update(raw: &str, ids: Vec<u64>) -> OutlierUpdate {
    OutlierUpdate { outlier: raw.as_bytes().to_vec(), data_source: "ds".to_string(), data_source_type: "log".to_string(), event_ids: ids }
}

fn stored(raw: &str, ids: &[u64], raw_id: Option<i32>, size: Option<&str>) -> StoredOutlier {
    StoredOutlier { raw_event: raw.as_bytes().to_vec(), event_ids: enc(ids), raw_event_id: raw_id, size: size.map(|s| s.to_string()) }
}

#[test]
fn outlier_sizes() {
    assert_eq!(outlier_size(&Some("10".to_string()), 3), "13");
    assert_eq!(outlier_size(&Some("x".to_string()), 3), "3");
    assert_eq!(outlier_size(&None, 3), "3");
    assert_eq!(outlier_size(&Some(usize::MAX.to_string()), 3), "3");
}

#[test]
fn new_outlier_rows() {
    let r = new_outlier_row(&update("raw", vec![4, 5]), Some(2)).unwrap();
    assert_eq!((r.raw_event.as_slice(), r.data_source_id, r.raw_event_id, r.size.as_deref()), (&b"raw"[..], 2, None, Some("2")));
    assert_eq!(dec(&r.event_ids), vec![4, 5]);
    assert!(new_outlier_row(&update("raw", vec![]), None).is_none());
}

#[test]
fn updated_rows_merge_with_stored() {
    let s = stored("raw", &[1, 2], Some(9), Some("2"));
    let r = updated_outlier_row(&update("raw", vec![3]), Some(&s), 4).unwrap();
    assert_eq!((r.raw_event_id, r.size.as_deref(), r.data_source_id), (Some(9), Some("3"), 4));
    assert_eq!(dec(&r.event_ids), vec![1, 2, 3]);
    let many: Vec<u64> = (100..130).collect();
    let r = updated_outlier_row(&update("new", many), None, 4).unwrap();
    assert_eq!((r.raw_event_id, r.size.as_deref()), (None, Some("30")));
    assert_eq!(dec(&r.event_ids), (105..130).collect::<Vec<u64>>());
    assert!(updated_outlier_row(&update("raw", vec![3]), Some(&s), 0).is_none());
    let bad = StoredOutlier { raw_event: b"raw".to_vec(), event_ids: vec![0xc1], raw_event_id: None, size: None };
    let r = updated_outlier_row(&update("raw", vec![7]), Some(&bad), 1).unwrap();
    assert_eq!(dec(&r.event_ids), vec![7]);
}

#[test]
fn deleted_outliers_hand_on_raw_events() {
    let s = vec![stored("a", &[1, 2], Some(10), None), stored("b", &[3], None, None), stored("c", &[4, 5], Some(12), None)];
    assert_eq!(find_outlier(&s, &b"c".to_vec()), Some(2));
    assert_eq!(find_outlier(&s, &b"z".to_vec()), None);
    let links = deleted_outlier_links(&vec!["c".to_string(), "b".to_string(), "a".to_string(), "z".to_string()], &s);
    assert_eq!(links, vec![(vec![4, 5], 12), (vec![1, 2], 10)]);
    let clusters = vec![(100, vec![9, 5]), (101, vec![1]), (102, vec![4])];
    assert_eq!(clusters_to_relink(&links, &clusters), vec![(102, 12), (101, 10)]);
    assert!(clusters_to_relink(&vec![(vec![77], 1)], &clusters).is_empty());
}

#[test]
fn scan_for_messages_without_raw_events() {
    let mut scan = NoRawEventScan::new(&vec![30, 10, 20, 40]);
    assert_eq!(scan.next_id(), Some(10));
    assert!(scan.advance(Some((25, 0, 100))));
    assert_eq!(scan.remaining, vec![30, 40]);
    assert_eq!(scan.next_id(), Some(30));
    assert!(!scan.advance(Some((40, 1, 200))));
    assert!(scan.remaining.is_empty());
    assert_eq!(scan.metadata, vec![(0, 100), (1, 200)]);
    let mut scan = NoRawEventScan::new(&vec![5]);
    assert!(!scan.advance(None));
    assert_eq!(scan.remaining, vec![5]);
    assert_eq!(NoRawEventScan::new(&Vec::new()).next_id(), None);
}

#[test]
fn indicators() {
    let e = vec![Some("a".to_string()), None, Some("b".to_string())];
    assert_eq!(indicator_where_clause(&e), "indicator.name = 'a' or indicator.name = 'b'");
    assert_eq!(indicator_orderby(Some("Token")), Some("indicator.token"));
    assert_eq!(indicator_orderby(Some("x")), None);
    assert_eq!(indicator_deletion(Some("TRUE"), false), IndicatorDeletion::All);
    assert_eq!(indicator_deletion(Some("true"), true), IndicatorDeletion::BadRequest);
    assert_eq!(indicator_deletion(None, false), IndicatorDeletion::BadRequest);
    assert_eq!(indicator_deletion(Some("no"), true), IndicatorDeletion::Named);
    assert_eq!(deletion_status(0), 400);
    assert_eq!(deletion_status(3), 200);
}
