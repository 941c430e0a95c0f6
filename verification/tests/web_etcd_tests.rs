use review::etcd::{benign_signatures_key, benign_signatures_url, etcd_request_body, etcd_request_body_bytes};
use review::web::{keys_are, lookup, message_body};

fn pairs(v: &[(&str, &str)]) -> Vec<(String, String)> {
    v.iter().map(|(a, b)| (a.to_string(), b.to_string())).collect()
}

#[test]
fn etcd_key_and_url() {
    assert_eq!(benign_signatures_key("ds"), "benign_signatures_ds");
    assert_eq!(
        benign_signatures_url("1.2.3.4:8080", "ds"),
        "http://1.2.3.4:8080/api/cluster/search?filter={\"qualifier\": [\"benign\"], \"data_source\":[\"ds\"]}"
    );
}

#[test]
fn etcd_bodies_are_base64() {
    assert_eq!(etcd_request_body("key", "value"), "{\"key\": \"a2V5\", \"value\": \"dmFsdWU=\"}");
    assert_eq!(etcd_request_body_bytes("", &[0xff]), "{\"key\": \"\", \"value\": \"/w==\"}");
}

#[test]
fn message_bodies_are_json() {
    assert_eq!(message_body("ok"), "{\"message\":\"ok\"}");
    assert_eq!(message_body("a\nb"), "{\"message\":\"a\\nb\"}");
    let v: serde_json::Value = serde_json::from_str(&message_body("x \"y\"")).unwrap();
    assert_eq!(v["message"], "x \"y\"");
}

#[test]
fn lookup_takes_the_last_value() {
    let p = pairs(&[("a", "1"), ("b", "2"), ("a", "3")]);
    assert_eq!(lookup(&p, "a"), Some("3".to_string()));
    assert_eq!(lookup(&p, "b"), Some("2".to_string()));
    assert_eq!(lookup(&p, "c"), None);
}

#[test]
fn keys_are_compares_name_sets() {
    let p = pairs(&[("filter", "x"), ("limit", "1"), ("filter", "y")]);
    assert!(keys_are(&p, &vec!["filter", "limit"]));
    assert!(keys_are(&p, &vec!["limit", "filter"]));
    assert!(!keys_are(&p, &vec!["filter"]));
    assert!(!keys_are(&p, &vec!["filter", "limit", "select"]));
    assert!(keys_are(&Vec::new(), &Vec::new()));
}
