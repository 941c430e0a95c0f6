use review::db::clusters::{merge_cluster_examples as merge_encoded, new_cluster_row, replacement_cluster_row, updated_size, StoredClusterRow};
use review::reviewd::database::cluster::ClusterUpdate;
use review::examples::{merge_cluster_examples, sort_ids, MAX_EXAMPLE_NUM};

#[test]
fn sort_ids_sorts_with_repetitions() {
    assert_eq!(sort_ids(&vec![5, 1, 4, 1, 3]), vec![1, 1, 3, 4, 5]);
    assert!(sort_ids(&Vec::new()).is_empty());
}

#[test]
fn merging_no_new_ids_keeps_current() {
    assert_eq!(merge_cluster_examples(Some(vec![3, 1]), None), Some(vec![3, 1]));
    assert_eq!(merge_cluster_examples(None, None), None);
}

#[test]
fn merging_few_ids_appends() {
    assert_eq!(merge_cluster_examples(Some(vec![3, 1]), Some(vec![2])), Some(vec![3, 1, 2]));
    assert_eq!(merge_cluster_examples(None, Some(vec![2])), Some(vec![2]));
}

#[test]
fn merging_many_ids_keeps_the_largest_sorted() {
    let current: Vec<u64> = (0..20).rev().collect();
    let new: Vec<u64> = (100..110).collect();
    let r = merge_cluster_examples(Some(current), Some(new)).unwrap();
    assert_eq!(r.len(), MAX_EXAMPLE_NUM);
    let expected: Vec<u64> = (5..20).chain(100..110).collect();
    assert_eq!(r, expected);
}

#[test]
fn merged_examples_never_exceed_the_limit() {
    for n in [0usize, 1, 24, 25, 26, 60] {
        let r = merge_cluster_examples(Some((0..n as u64).collect()), Some(vec![7; 3])).unwrap();
        assert!(r.len() <= MAX_EXAMPLE_NUM);
    }
}

fn decode(b: &[u8]) -> Vec<u64> {
    rmp_serde::decode::from_slice(b).unwrap()
}

#[test]
fn encoded_merge_appends_to_decoded_examples() {
    let current = rmp_serde::encode::to_vec(&vec![1u64, 2]).unwrap();
    let r = merge_encoded(Some(current), Some(vec![3])).unwrap();
    assert_eq!(decode(&r), vec![1, 2, 3]);
}

#[test]
fn encoded_merge_with_many_new_ids_takes_them_alone() {
    let current = rmp_serde::encode::to_vec(&vec![1u64, 2]).unwrap();
    let new: Vec<u64> = (50..75).collect();
    let r = merge_encoded(Some(current), Some(new.clone())).unwrap();
    assert_eq!(decode(&r), new);
}

#[test]
fn encoded_merge_edge_cases() {
    assert_eq!(merge_encoded(None, Some(vec![1])), None);
    assert_eq!(merge_encoded(Some(vec![9, 9]), None), Some(vec![9, 9]));
    let junk = vec![0xc1u8];
    assert_eq!(merge_encoded(Some(junk.clone()), Some(vec![1])), Some(junk));
}

#[test]
fn updated_size_adds_to_a_numeric_size() {
    assert_eq!(updated_size(&"10".to_string(), Some(5)), "15");
    assert_eq!(updated_size(&"10".to_string(), None), "10");
    assert_eq!(updated_size(&"ten".to_string(), Some(5)), "ten");
    assert_eq!(updated_size(&usize::MAX.to_string(), Some(5)), "5");
}

use review::db::clusters::{select_clusters_query, shown_size};

#[test]
fn cluster_listing_query_and_sizes() {
    let base = "SELECT * FROM clusters INNER JOIN category ON clusters.category_id = category.category_id INNER JOIN qualifier ON clusters.qualifier_id = qualifier.qualifier_id INNER JOIN status ON clusters.status_id = status.status_id INNER JOIN data_source ON clusters.data_source_id = data_source.data_source_id";
    assert_eq!(select_clusters_query(&None, None), format!("{};", base));
    assert_eq!(select_clusters_query(&Some("a = 1".to_string()), Some(5)), format!("{} WHERE a = 1 LIMIT 5;", base));
    assert_eq!(shown_size("12"), 12);
    assert_eq!(shown_size("x"), 0);
}

fn cluster_update(sig: Option<&str>, ids: Option<Vec<u64>>, size: Option<usize>) -> ClusterUpdate {
    ClusterUpdate {
        cluster_id: "c9".to_string(),
        detector_id: 3,
        signature: sig.map(|s| s.to_string()),
        data_source: "ds".to_string(),
        data_source_type: "log".to_string(),
        size,
        event_ids: ids,
    }
}

#[test]
fn new_cluster_row_takes_the_defaults() {
    let row = new_cluster_row(&cluster_update(None, Some(vec![4, 5]), None), 7).unwrap();
    assert_eq!(row.cluster_id, "c9");
    assert_eq!((row.category_id, row.qualifier_id, row.status_id), (1, 2, 2));
    assert_eq!(row.detector_id, 3);
    assert_eq!(row.raw_event_id, None);
    assert_eq!(row.signature, "-");
    assert_eq!(row.size, "1");
    assert_eq!(row.data_source_id, 7);
    assert_eq!(row.event_ids, Some(rmp_serde::encode::to_vec(&vec![4u64, 5]).unwrap()));
    let row = new_cluster_row(&cluster_update(Some("sig"), None, Some(12)), 7).unwrap();
    assert_eq!((row.signature.as_str(), row.size.as_str(), row.event_ids), ("sig", "12", None));
    assert!(new_cluster_row(&cluster_update(None, None, None), 0).is_none());
}

#[test]
fn replacement_cluster_row_keeps_the_review() {
    let stored = StoredClusterRow {
        cluster_id: Some("c9".to_string()),
        signature: "old".to_string(),
        event_ids: Some(rmp_serde::encode::to_vec(&vec![1u64, 2]).unwrap()),
        raw_event_id: Some(11),
        size: "5".to_string(),
        category_id: 4,
        qualifier_id: 1,
        status_id: 3,
    };
    let row = replacement_cluster_row(&cluster_update(None, Some(vec![3]), Some(2)), &stored, 7).unwrap();
    assert_eq!((row.category_id, row.qualifier_id, row.status_id, row.raw_event_id), (4, 1, 3, Some(11)));
    assert_eq!(row.signature, "old");
    assert_eq!(row.size, "7");
    assert_eq!(decode(&row.event_ids.unwrap()), vec![1, 2, 3]);
    let row = replacement_cluster_row(&cluster_update(Some("new"), Some(vec![3]), None), &stored, 7).unwrap();
    assert_eq!((row.signature.as_str(), row.size.as_str()), ("new", "5"));
    assert!(replacement_cluster_row(&cluster_update(None, None, Some(2)), &stored, 7).is_none());
    assert!(replacement_cluster_row(&cluster_update(None, Some(vec![3]), Some(2)), &stored, 0).is_none());
}

#[test]
fn encoded_merge_draws_only_on_current_and_new_ids() {
    let current = rmp_serde::encode::to_vec(&(0..20u64).collect::<Vec<_>>()).unwrap();
    let r = decode(&merge_encoded(Some(current), Some(vec![100, 101, 102, 103, 104, 105, 106])).unwrap());
    assert!(r.len() <= MAX_EXAMPLE_NUM);
    assert!(r.iter().all(|x| *x < 20 || (100..107).contains(x)));
}

use review::api_service::service::SelectCluster;
use review::db::clusters::{selected_clusters, JoinedClusterRow};

#[test]
fn selected_clusters_hold_only_the_selected_columns() {
    let row = JoinedClusterRow {
        cluster_id: Some("c1".to_string()),
        detector_id: 4,
        qualifier: "benign".to_string(),
        status: "done".to_string(),
        category: "cat".to_string(),
        signature: "sig".to_string(),
        data_source: "ds".to_string(),
        size: "x".to_string(),
        event_ids: Some(rmp_serde::encode::to_vec(&vec![5u64]).unwrap()),
        raw_event: None,
        last_modification_time: Some(9),
    };
    let select = SelectCluster {
        cluster_id: true,
        detector_id: false,
        qualifier: true,
        status: false,
        category: false,
        signature: false,
        data_source: false,
        size: true,
        examples: true,
        last_modification_time: false,
    };
    let r = selected_clusters(&vec![row], select);
    assert_eq!(r.len(), 1);
    assert_eq!(r[0].cluster_id.as_deref(), Some("c1"));
    assert_eq!(r[0].detector_id, None);
    assert_eq!(r[0].qualifier.as_deref(), Some("benign"));
    assert_eq!((r[0].status.clone(), r[0].category.clone(), r[0].signature.clone(), r[0].data_source.clone()), (None, None, None, None));
    assert_eq!(r[0].size, Some(0));
    let e = r[0].examples.as_ref().unwrap();
    assert_eq!((e.raw_event.as_str(), e.event_ids.clone()), ("-", vec![5]));
    assert_eq!(r[0].last_modification_time, None);
}
