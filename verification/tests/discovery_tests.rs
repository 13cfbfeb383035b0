use server_h264::discovery::{handle_discovery_request, DISCOVERY_PORT};

#[test]
fn probe_earns_port_reply() {
    let reply = handle_discovery_request(b"CAMSTREAM_DISCOVER", 8554).expect("a reply");
    assert_eq!(reply, b"CAMSTREAM_SERVER:8554".to_vec());
}

#[test]
fn ports_render_in_decimal() {
    assert_eq!(handle_discovery_request(b"CAMSTREAM_DISCOVER", 0).unwrap(),
        b"CAMSTREAM_SERVER:0".to_vec());
    assert_eq!(handle_discovery_request(b"CAMSTREAM_DISCOVER", 65535).unwrap(),
        b"CAMSTREAM_SERVER:65535".to_vec());
    assert_eq!(handle_discovery_request(b"CAMSTREAM_DISCOVER", 80).unwrap(),
        b"CAMSTREAM_SERVER:80".to_vec());
}

#[test]
fn other_datagrams_are_ignored() {
    assert!(handle_discovery_request(b"", 8554).is_none());
    assert!(handle_discovery_request(b"CAMSTREAM_DISCOVE", 8554).is_none());
    assert!(handle_discovery_request(b"CAMSTREAM_DISCOVER!", 8554).is_none());
    assert!(handle_discovery_request(b"camstream_discover", 8554).is_none());
    assert!(handle_discovery_request(b"CAMSTREAM_SERVER:1", 8554).is_none());
}

#[test]
fn discovery_port_is_fixed() {
    assert_eq!(DISCOVERY_PORT, 8555);
}
