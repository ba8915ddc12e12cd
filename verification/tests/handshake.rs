use traffic_proxy::handshake::{build_handshake, open_handshake, Handshake, HandshakeError};
use traffic_proxy::headers::Header;

fn header(name: &str, value: &str) -> Header {
    Header { name: name.to_string(), value: value.as_bytes().to_vec() }
}

fn key_of(handshake: &Handshake) -> Vec<Vec<u8>> {
    handshake
        .headers
        .iter()
        .filter(|h| h.name.eq_ignore_ascii_case("sec-websocket-key"))
        .map(|h| h.value.clone())
        .collect()
}

#[test]
fn upgrade_request_rewrites_host_and_replaces_the_key() {
    let inbound = vec![
        header("host", "127.0.0.1:3000"),
        header("upgrade", "websocket"),
        header("sec-websocket-key", "K1"),
        header("sec-websocket-version", "13"),
    ];
    let out = build_handshake("wss://up/ws".to_string(), true, "up", "K2", &inbound).unwrap();
    assert_eq!(out.uri, "wss://up/ws");
    assert_eq!(
        out.headers,
        vec![
            header("host", "up"),
            header("upgrade", "websocket"),
            header("sec-websocket-version", "13"),
            header("sec-websocket-key", "K2"),
        ]
    );
}

#[test]
fn inbound_key_is_dropped_whatever_its_case_and_number() {
    let inbound = vec![
        header("Sec-WebSocket-Key", "K1"),
        header("cookie", "a=1"),
        header("SEC-WEBSOCKET-KEY", "K1b"),
    ];
    let out = build_handshake("wss://up/".to_string(), true, "up", "fresh", &inbound).unwrap();
    assert_eq!(out.headers, vec![header("cookie", "a=1"), header("sec-websocket-key", "fresh")]);
}

#[test]
fn request_without_key_gets_one() {
    let out = build_handshake("wss://up/".to_string(), true, "up", "fresh", &Vec::new()).unwrap();
    assert_eq!(out.headers, vec![header("sec-websocket-key", "fresh")]);
}

#[test]
fn repeated_fields_are_all_copied() {
    let inbound = vec![header("cookie", "a=1"), header("cookie", "b=2")];
    let out = build_handshake("wss://up/".to_string(), true, "up", "k", &inbound).unwrap();
    assert_eq!(
        out.headers,
        vec![header("cookie", "a=1"), header("cookie", "b=2"), header("sec-websocket-key", "k")]
    );
}

#[test]
fn upgrade_with_repeated_host_fields_carries_one() {
    let inbound = vec![
        header("host", "a.local"),
        header("origin", "http://a.local"),
        header("Host", "b.local"),
        header("sec-websocket-key", "K1"),
    ];
    let out = build_handshake("wss://up/".to_string(), true, "up", "k", &inbound).unwrap();
    assert_eq!(
        out.headers,
        vec![
            header("host", "up"),
            header("origin", "http://a.local"),
            header("sec-websocket-key", "k"),
        ]
    );
}

#[test]
fn upgrade_without_host_gets_none() {
    let inbound = vec![header("origin", "http://a.local")];
    let out = build_handshake("wss://up/".to_string(), true, "up", "k", &inbound).unwrap();
    assert_eq!(
        out.headers,
        vec![header("origin", "http://a.local"), header("sec-websocket-key", "k")]
    );
}

#[test]
fn malformed_address_fails_the_upgrade() {
    assert_eq!(
        build_handshake("x".to_string(), false, "up", "k", &Vec::new()),
        Err(HandshakeError::MalformedUri)
    );
    assert_eq!(
        open_handshake("bad host", "/ws", None, &Vec::new()),
        Err(HandshakeError::MalformedUri)
    );
}

#[test]
fn host_that_cannot_be_a_header_fails_the_upgrade_only_with_a_host_field() {
    let with_host = vec![header("host", "p")];
    assert_eq!(
        build_handshake("wss://x/".to_string(), true, "u\u{0}p", "k", &with_host),
        Err(HandshakeError::InvalidHost)
    );
    assert!(build_handshake("wss://x/".to_string(), true, "u\u{0}p", "k", &Vec::new()).is_ok());
}

#[test]
fn key_that_cannot_be_a_header_fails_the_upgrade() {
    assert_eq!(
        build_handshake("wss://x/".to_string(), true, "up", "k\n", &Vec::new()),
        Err(HandshakeError::InvalidKey)
    );
}

#[test]
fn failures_come_in_order() {
    let with_host = vec![header("host", "p")];
    assert_eq!(
        build_handshake("x".to_string(), false, "u\u{0}p", "k\n", &with_host),
        Err(HandshakeError::MalformedUri)
    );
    assert_eq!(
        build_handshake("x".to_string(), true, "u\u{0}p", "k\n", &with_host),
        Err(HandshakeError::InvalidHost)
    );
}

#[test]
fn opened_handshake_targets_the_upstream_over_wss() {
    let inbound = vec![header("host", "proxy.local"), header("origin", "http://proxy.local")];
    let out = open_handshake("upstream.example", "/app/eventsSocket", Some("token=1"), &inbound).unwrap();
    assert_eq!(out.uri, "wss://upstream.example/app/eventsSocket?token=1");
    assert_eq!(out.headers.len(), 3);
    assert_eq!(out.headers[0], header("host", "upstream.example"));
    assert_eq!(out.headers[1], header("origin", "http://proxy.local"));
    assert_eq!(out.headers[2].name, "sec-websocket-key");
}

#[test]
fn opened_handshake_carries_a_key_of_its_own() {
    let inbound = vec![header("sec-websocket-key", "K1")];
    let out = open_handshake("up", "/ws", None, &inbound).unwrap();
    let keys = key_of(&out);
    assert_eq!(keys.len(), 1);
    assert_ne!(keys[0], b"K1".to_vec());
}

#[test]
fn generated_key_is_sixteen_bytes_in_base64() {
    let out = open_handshake("up", "/ws", None, &Vec::new()).unwrap();
    let keys = key_of(&out);
    assert_eq!(keys.len(), 1);
    let key = &keys[0];
    assert_eq!(key.len(), 24);
    assert!(key
        .iter()
        .all(|b| b.is_ascii_alphanumeric() || *b == b'+' || *b == b'/' || *b == b'='));
    assert_eq!(&key[22..], b"==");
}

#[test]
fn generated_keys_differ() {
    let a = open_handshake("up", "/ws", None, &Vec::new()).unwrap();
    let b = open_handshake("up", "/ws", None, &Vec::new()).unwrap();
    assert_ne!(key_of(&a), key_of(&b));
}
