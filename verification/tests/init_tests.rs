use review::init::review_address;

#[test]
fn review_address_parses_ip_and_port() {
    let a = review_address("127.0.0.1:8080").unwrap();
    assert_eq!(a.port(), 8080);
    assert!(review_address("[::1]:9000").is_ok());
}

#[test]
fn review_address_refuses_other_text() {
    assert_eq!(review_address("localhost:80").unwrap_err(), "invalid IP address/port for review: localhost:80");
    assert_eq!(review_address("127.0.0.1").unwrap_err(), "invalid IP address/port for review: 127.0.0.1");
    assert_eq!(review_address("").unwrap_err(), "invalid IP address/port for review: ");
}
