use std::collections::HashMap;

use review::cli;
use review::client::models::{check_pending, example_text, indent, pending_clusters_address, qualifier_update_address, qualifier_updates, qualifiers_address, update_message, Cluster as ClientCluster, UpdateSend};
use review::cluster::Cluster;
use review::db::models::Example;
use review::event::{eventor_options, event_field, qualifier_choices, save_message, table_column, table_query, Event, EventField};

fn cluster(name: &str, sig: &str, q: &str) -> Cluster {
    Cluster { name: name.to_string(), signature: sig.to_string(), size: 3, suspicious: q.to_string(), examples: vec!["e1".to_string()] }
}

#[test]
fn benign_rules_of_benign_clusters() {
    let c = vec![cluster("a", "sig a", "Benign"), cluster("b", "sig b", "Suspicious"), cluster("c", "sig c", "Benign")];
    assert_eq!(Cluster::benign_rules(&c), "sig a\nsig c\n");
    assert_eq!(Cluster::benign_rules(&Vec::new()), "");
}

#[test]
fn cluster_properties_show_ten_ids() {
    let c = cluster("n", "s", "None");
    let ids: Vec<u64> = (1..=12).collect();
    let text = Cluster::get_cluster_properties(&c, Some(&ids));
    let expected = format!(
        "cluster name: n\nsignature: s\nqualifier: None\nsize: 3\nexamples: {:#?}\nIDs: {:#?}\n\n",
        vec!["e1".to_string()],
        (1..=10).collect::<Vec<u64>>()
    );
    assert_eq!(text, expected);
    let text = Cluster::get_cluster_properties(&c, None);
    assert!(text.ends_with("\nIDs: No information\n\n"));
    assert_eq!(Cluster::shown_ids(&vec![1, 2]), vec![1, 2]);
}

#[test]
fn cluster_qualifier_choice() {
    let mut c = cluster("n", "s", "None");
    c.save_qualifier(2);
    assert_eq!(c.suspicious, "Benign");
    c.save_qualifier(9);
    assert_eq!(c.suspicious, "None");
}

fn event(id: i64, q: i64) -> Event {
    Event {
        event_id: id,
        description: None,
        cluster_id: Some("c".to_string()),
        rules: None,
        category_id: 1,
        detector_id: 4,
        examples: None,
        priority_id: 2,
        qualifier_id: q,
        status_id: 1,
        signature: "sig".to_string(),
        is_updated: false,
    }
}

#[test]
fn event_properties_name_the_ids() {
    let p: HashMap<i64, String> = [(2, "high".to_string())].into_iter().collect();
    let q: HashMap<i64, String> = [(3, "benign".to_string())].into_iter().collect();
    let c: HashMap<i64, String> = [(1, "net".to_string())].into_iter().collect();
    let e = event(-5, 3);
    assert_eq!(
        e.get_event_properties(&p, &q, &c),
        "event_id: -5\ncluster_id: c\nrules: -\ndescription: -\ncategory_id: net\ndetector_id: 4\nexamples: -\npriority_id: high\nqualifier_id: benign\nsignature: sig\n\n"
    );
    assert_eq!(e.list_name(), "-");
}

#[test]
fn event_edits_and_statements() {
    let mut e = event(7, 3);
    e.save_qualifier(3);
    assert!(!e.is_updated);
    assert_eq!(save_message(&vec![event(1, 1), e]), "Nothing to save!");
    let mut e = event(7, 3);
    e.save_qualifier(4);
    assert!(e.is_updated);
    assert_eq!(e.qualifier_id, 4);
    assert_eq!(save_message(&vec![event(1, 1), e]), "Saved!");
    let e = event(7, 4);
    assert_eq!(e.activation_statement(2), "update events set status_id = 2, qualifier_id = 4 where event_id = 7;");
    assert_eq!(e.ready_statement(5), "insert into ready_table (action_id, event_id, detector_id) Values(5, 7, 4);");
    assert_eq!(Event::events_query(3), "select * from events where status_id = 3;");
    assert_eq!(table_query("Status"), "select * from Status;");
    assert_eq!(eventor_options("c.db", "r.db"), ("--central_db c.db".to_string(), "--rcvg_db r.db".to_string()));
}

#[test]
fn columns_by_name() {
    assert_eq!(table_column("STATUS_ID", "Status"), Some(true));
    assert_eq!(table_column("status", "Status"), Some(false));
    assert_eq!(table_column("other", "Status"), None);
    assert_eq!(event_field("Event_ID"), Some(EventField::EventId));
    assert_eq!(event_field("signature"), Some(EventField::Signature));
    assert_eq!(event_field("unknown"), None);
}

#[test]
fn qualifier_choices_in_id_order() {
    let q: HashMap<i64, String> = [(2, "b".to_string()), (1, "a".to_string())].into_iter().collect();
    assert_eq!(qualifier_choices(&q), vec![("a".to_string(), 1), ("b".to_string(), 2)]);
}

#[test]
fn cli_examples_are_padded_and_capped() {
    let s = |v: &[&str]| v.iter().map(|x| x.to_string()).collect::<Vec<_>>();
    assert_eq!(cli::shown_examples(s(&["a"]), 5), s(&["a", "<undecodable>", "<undecodable>"]));
    assert_eq!(cli::shown_examples(s(&[]), 2), s(&["<undecodable>", "<undecodable>"]));
    assert_eq!(cli::shown_examples(s(&["a"]), 1), s(&["a"]));
    assert_eq!(cli::shown_examples(s(&["a", "b", "c", "d"]), 9), s(&["a", "b", "c"]));
    assert_eq!(cli::shown_examples(s(&["a", "b", "c"]), 9), s(&["a", "b", "c"]));
    assert!(cli::shown_examples(Vec::new(), 0).is_empty());
}

#[test]
fn cli_example_text_cuts_long_events() {
    assert_eq!(cli::example_text(b"short"), Some("short".to_string()));
    assert_eq!(cli::example_text(&[0xff, 0xfe]), None);
    let long = vec![b'x'; 600];
    assert_eq!(cli::example_text(&long), Some("x".repeat(500)));
    assert_eq!(cli::signature_text(Some(b"sig")), "sig");
    assert_eq!(cli::signature_text(Some(&[0xc0])), "");
    assert_eq!(cli::signature_text(None), "");
}

#[test]
fn cli_clusters() {
    let events: Vec<u64> = (0..12).collect();
    let c = cli::Cluster::new(4, "sig".to_string(), &events, vec!["e".to_string()]);
    assert_eq!((c.cluster_id, c.size, c.suspicious.as_str()), (4, 12, "unknown"));
    assert_eq!(c.event_ids, (0..10).collect::<Vec<u64>>());
    assert_eq!(c.examples, vec!["e".to_string(), "<undecodable>".to_string(), "<undecodable>".to_string()]);
    assert_eq!(
        cli::Cluster::get_cluster_properties(&c),
        format!(
            "cluster id: 4\nsignature: sig\nqualifier: unknown\nsize: 12\nexamples: {:#?}\nevent IDs: {:#?}\n\n",
            c.examples, c.event_ids
        )
    );
}

#[test]
fn cli_size_order_is_stable_and_descending() {
    assert_eq!(cli::size_order(&vec![3, 9, 3, 1, 9]), vec![1, 4, 0, 2, 3]);
    assert!(cli::size_order(&Vec::new()).is_empty());
}

#[test]
fn cli_old_events() {
    let few: Vec<u64> = vec![5, 1, 3];
    assert_eq!(cli::kept_events(&few), few);
    let many: Vec<u64> = (0..40).rev().collect();
    assert_eq!(cli::kept_events(&many), (15..40).collect::<Vec<u64>>());
    assert_eq!(cli::events_to_keep(&vec![vec![9, 2], vec![4], vec![]]), vec![2, 4, 9]);
}

#[test]
fn cli_addresses_and_reports() {
    assert_eq!(cli::api_address("http://h/", "/api/category"), "http://h/api/category");
    assert_eq!(cli::events_by_status_address("http://h", "/api", 3), "http://h/api/event?status_id=3");
    assert_eq!(cli::event_update_address("http://h//", "/api", 7, 2), "http://h/api/event?event_id=7&qualifier_id=2");
    assert_eq!(cli::events_by_status_address("http://h/", "", 1), "http://h/event?status_id=1");
    assert_eq!(cli::update_report(&vec![], &vec![]), "Your changes have been successfully saved.");
    assert_eq!(cli::update_report(&vec![1, 2], &vec![3]), "Failed to update the following event_id:\n\n[1, 2]");
    assert_eq!(
        cli::update_report(&vec![], &vec![3]),
        "Failed to send update requests of the following event_id to backend server:\n\n[3]"
    );
}

#[test]
fn cli_event_edits() {
    let mut e = cli::Event {
        event_id: 8,
        description: None,
        cluster_id: None,
        rules: Some("r".to_string()),
        category_id: 1,
        detector_id: 2,
        examples: None,
        priority_id: 1,
        qualifier_id: 1,
        status_id: 1,
        signature: "s".to_string(),
    };
    let mut updated: HashMap<u32, u32> = HashMap::new();
    e.save_qualifier(1, &mut updated);
    assert!(updated.is_empty());
    e.save_qualifier(2, &mut updated);
    assert_eq!(updated.get(&8), Some(&2));
    assert_eq!(e.list_name(), "r");
    let names: HashMap<u32, String> = [(1, "one".to_string()), (2, "two".to_string())].into_iter().collect();
    assert!(e.get_event_properties(&names, &names, &names).starts_with("event_id: 8\ncluster_id: -\nrules: r\n"));
}

#[test]
fn client_models() {
    assert_eq!(
        pending_clusters_address("http://h/"),
        "http://h/api/cluster/search?filter={\"status\":[\"pending review\"]}"
    );
    assert_eq!(qualifiers_address("http://h"), "http://h/api/qualifier");
    assert_eq!(qualifier_update_address("http://h"), "http://h/api/cluster/qualifier");
    assert!(check_pending(0).is_err());
    assert!(check_pending(2).is_ok());
    assert_eq!(update_message(UpdateSend::NothingToSend), "There are no updated clusters");
    assert_eq!(update_message(UpdateSend::Answered { success: false }), "Failed to update the qualifiers for some reason.");
    assert_eq!(update_message(UpdateSend::NotSent), "Failed to send the update request to REviewd");
}

fn client_cluster(id: &str, q: &str) -> ClientCluster {
    ClientCluster {
        cluster_id: id.to_string(),
        detector_id: 1,
        qualifier: q.to_string(),
        status: "pending review".to_string(),
        category: "c".to_string(),
        signature: "s".to_string(),
        data_source: "ds".to_string(),
        size: 2,
        score: None,
        examples: Example { raw_event: "r".to_string(), event_ids: vec![1] },
        last_modification_time: None,
    }
}

#[test]
fn client_qualifier_updates() {
    let mut c = client_cluster("c1", "unknown");
    assert!(!c.save_qualifier("unknown"));
    assert!(c.save_qualifier("benign"));
    let clusters = vec![client_cluster("c0", "x"), c];
    let u = qualifier_updates(&vec![("c1".to_string(), 1)], &clusters);
    assert_eq!((u[0].cluster_id.as_str(), u[0].data_source.as_str(), u[0].qualifier.as_str()), ("c1", "ds", "benign"));
    let text = clusters[1].get_cluster_properties();
    assert!(text.starts_with("cluster_id: c1\ndetector_id: 1\nqualifier: benign\n"));
    assert!(text.ends_with("last_modification_time: -"));
    let example = Example { raw_event: "r".to_string(), event_ids: vec![1] };
    assert!(text.contains(&format!("score: -\nsize: 2\nexample: {:#?}\nlast_modification_time: -", example)));
}

#[test]
fn example_text_matches_pretty_debug() {
    for (raw, ids) in [
        ("r", vec![1u64]),
        ("", vec![]),
        ("say \"hi\"\nnext\tline", vec![3, 18446744073709551615, 0]),
    ] {
        let e = Example { raw_event: raw.to_string(), event_ids: ids };
        assert_eq!(example_text(&e), format!("{:#?}", e));
    }
    assert_eq!(indent("[\n    1,\n]"), "[\n        1,\n    ]");
    assert_eq!(indent("[]"), "[]");
}

#[test]
fn review_status_is_found_in_any_case() {
    let statuses = vec![(1u32, "pending review".to_string()), (3, "ReViEw".to_string()), (4, "review".to_string())];
    assert_eq!(cli::review_status_id(&statuses), Some(3));
    assert_eq!(cli::review_status_id(&vec![(1, "done".to_string())]), None);
    assert_eq!(cli::review_status_id(&Vec::new()), None);
}

#[test]
fn review_events_refuses_an_empty_list() {
    assert_eq!(cli::review_events(Vec::new()).err().unwrap(), "Event with review status was not found.");
    let e = cli::Event {
        event_id: 1,
        description: None,
        cluster_id: None,
        rules: None,
        category_id: 1,
        detector_id: 1,
        examples: None,
        priority_id: 1,
        qualifier_id: 1,
        status_id: 1,
        signature: "s".to_string(),
    };
    assert_eq!(cli::review_events(vec![e]).unwrap().len(), 1);
}

#[test]
fn feedback_sets_one_qualifier_then_writes_rules() {
    let mut clusters: Vec<cli::Cluster> = (0..3).map(|i| cli::Cluster::new(i, format!("sig{}", i), &vec![1], Vec::new())).collect();
    cli::save_cluster_qualifier(&mut clusters, 2, 2);
    cli::save_cluster_qualifier(&mut clusters, 0, 2);
    cli::save_cluster_qualifier(&mut clusters, 1, 1);
    assert_eq!(cli::Cluster::benign_rules(&clusters), "sig0\nsig2\n");
    cli::save_cluster_qualifier(&mut clusters, 0, 3);
    assert_eq!(clusters[0].suspicious, "None");
    assert_eq!(clusters[1].suspicious, "Suspicious");
    assert_eq!(cli::Cluster::benign_rules(&clusters), "sig2\n");
}
