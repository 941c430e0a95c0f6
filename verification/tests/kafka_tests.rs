use review::kafka_consumer::fetch::{
    bytes_to_string, event_url, events_with_raw_text, first_offsets, kafka_metadata_url, message_metadata, no_raw_events_url, put_chunks,
    MetadataBatch, ReadMessage, PUT_CHUNK_SIZE,
};
use review::kafka_consumer::KafkaConfig;

#[test]
fn config_defaults() {
    let c = KafkaConfig::new("k:9092".to_string(), "r:8080".to_string(), None, None);
    assert_eq!(c.interval_seconds(), 900);
    assert_eq!(c.offset_limit(), 1000);
    let c = KafkaConfig::new("k:9092".to_string(), "r:8080".to_string(), Some(60), Some(5));
    assert_eq!(c.interval_seconds(), 60);
    assert_eq!(c.offset_limit(), 5);
    assert_eq!(c.kafka_url, "k:9092");
    assert_eq!(c.data_source_url(), "http://r:8080/api/data_source");
}

#[test]
fn urls() {
    assert_eq!(kafka_metadata_url("h:1"), "http://h:1/api/kafka_metadata");
    assert_eq!(no_raw_events_url("h:1", -4), "http://h:1/api/event/no_raw_events?data_source_id=-4");
    assert_eq!(event_url("h:1"), "http://h:1/api/event");
}

#[test]
fn metadata_of_a_message() {
    let m = message_metadata(3, 1, 77, &vec![10, 20, 15]);
    assert_eq!((m.data_source_id, m.partition, m.offsets, m.first_message_id, m.last_message_id), (3, 1, 77, 10, 15));
}

#[test]
fn batch_absorbs_decoded_messages() {
    let mut b = MetadataBatch::new();
    assert!(!b.is_full(1));
    let messages = vec![
        ReadMessage { offset: 1, entry_times: Some(vec![5]) },
        ReadMessage { offset: 2, entry_times: None },
        ReadMessage { offset: 3, entry_times: Some(vec![7, 8]) },
    ];
    assert!(b.absorb(9, 0, &messages));
    assert_eq!(b.offset_count, 2);
    let v: Vec<(i64, u64, u64)> = b.metadata.iter().map(|m| (m.offsets, m.first_message_id, m.last_message_id)).collect();
    assert_eq!(v, vec![(1, 5, 5), (3, 7, 8)]);
    assert!(!b.absorb(9, 0, &vec![ReadMessage { offset: 4, entry_times: None }]));
    assert_eq!(b.offset_count, 2);
    assert!(b.is_full(2));
    assert!(!b.is_full(3));
}

#[test]
fn first_offsets_cuts_to_the_limit() {
    let m = vec![(0, 1), (0, 2), (1, 3)];
    assert_eq!(first_offsets(m.clone(), 2), vec![(0, 1), (0, 2)]);
    assert_eq!(first_offsets(m.clone(), 3), m);
    assert_eq!(first_offsets(m.clone(), 10), m);
    assert!(first_offsets(m, 0).is_empty());
}

#[test]
fn bytes_to_string_is_latin1() {
    assert_eq!(bytes_to_string(b"abc"), "abc");
    assert_eq!(bytes_to_string(&[0xff, 0x41]), "\u{ff}A");
}

#[test]
fn events_take_the_last_entry_of_each_time() {
    let entries = vec![(5, b"old".to_vec()), (6, b"six".to_vec()), (5, b"new".to_vec())];
    let events = events_with_raw_text(&vec![5, 7, 6], &entries, 2);
    let v: Vec<(u64, Option<String>, i32)> = events.into_iter().map(|e| (e.message_id, e.raw_event, e.data_source_id)).collect();
    assert_eq!(v, vec![(5, Some("new".to_string()), 2), (6, Some("six".to_string()), 2)]);
}

#[test]
fn put_chunks_of_forty() {
    assert!(put_chunks(0).is_empty());
    assert_eq!(put_chunks(1), vec![(0, 1)]);
    assert_eq!(put_chunks(40), vec![(0, 40)]);
    assert_eq!(put_chunks(95), vec![(0, 40), (40, 80), (80, 95)]);
    assert_eq!(PUT_CHUNK_SIZE, 40);
}

#[test]
fn put_chunks_closed_form() {
    for n in [0usize, 1, 39, 40, 41, 80, 81, 1000] {
        let c = put_chunks(n);
        assert_eq!(c.len(), (n + 39) / 40);
        for (k, &(a, b)) in c.iter().enumerate() {
            assert_eq!((a, b), (40 * k, (40 * k + 40).min(n)));
        }
    }
}
