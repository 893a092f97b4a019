use netlab::proxy::{
    build_forward_uri, format_http_target, forward_parts, has_port, header_value_text,
    is_https_scheme, normalize_connect_authority, ForwardError, ProxyConfig,
};

#[test]
fn ports_in_authorities() {
    assert!(has_port("example.com:8080"));
    assert!(!has_port("example.com"));
    assert!(has_port("[::1]:443"));
    assert!(!has_port("[::1]"));
    assert!(!has_port("[::1"));
}

#[test]
fn connect_authority_gets_port_443() {
    assert_eq!(normalize_connect_authority("example.com"), "example.com:443");
    assert_eq!(normalize_connect_authority("example.com:8443"), "example.com:8443");
    assert_eq!(normalize_connect_authority("[::1]"), "[::1]:443");
    let once = normalize_connect_authority("host");
    assert_eq!(normalize_connect_authority(&once), once);
}

#[test]
fn http_targets_get_port_80() {
    assert_eq!(format_http_target(Some("example.com")), "example.com:80");
    assert_eq!(format_http_target(Some("example.com:81")), "example.com:81");
    assert_eq!(format_http_target(None), "unknown:80");
}

#[test]
fn schemes_and_header_text() {
    assert!(is_https_scheme("HTTPS"));
    assert!(is_https_scheme("https"));
    assert!(!is_https_scheme("http"));
    assert!(!is_https_scheme("httpss"));
    assert_eq!(header_value_text(b"example.com\t1"), Some("example.com\t1".to_string()));
    assert_eq!(header_value_text(&[b'a', 0x7f]), None);
    assert_eq!(header_value_text(&[0xc3, 0xa9]), None);
}

#[test]
fn forward_parts_choose_authority_and_path() {
    let parts = forward_parts(Some("http"), Some("a.example:8080"), Some(b"ignored"), Some("/x?y=1"));
    assert_eq!(parts, Ok(("a.example:8080".to_string(), "/x?y=1".to_string())));
    let from_host = forward_parts(None, None, Some(b"b.example"), None);
    assert_eq!(from_host, Ok(("b.example".to_string(), "/".to_string())));
    assert_eq!(forward_parts(Some("HTTPS"), Some("a"), None, None), Err(ForwardError::HttpsNeedsConnect));
    assert_eq!(forward_parts(None, None, Some(&[0x01]), None), Err(ForwardError::InvalidHostHeader));
    assert_eq!(forward_parts(None, None, None, Some("/")), Err(ForwardError::MissingHost));
    assert_eq!(ForwardError::MissingHost.message(), "missing host");
}

#[test]
fn forward_uri_is_built_with_http() {
    let uri = build_forward_uri(None, Some("example.com:8080"), None, Some("/path?q=1")).unwrap();
    assert_eq!(uri.to_string(), "http://example.com:8080/path?q=1");
    let from_host = build_forward_uri(Some("http"), None, Some(b"example.org"), None).unwrap();
    assert_eq!(from_host.to_string(), "http://example.org/");
    match build_forward_uri(None, Some("bad host"), None, None) {
        Err(e) => assert_eq!(e, ForwardError::InvalidTargetUri),
        Ok(u) => panic!("accepted {u}"),
    }
}

#[test]
fn proxy_config_addresses() {
    let config = ProxyConfig {
        listen_host: "0.0.0.0".to_string(),
        listen_port: 8899,
        report_interval_ms: 500,
        client_idle_ttl_ms: 300_000,
    };
    assert_eq!(config.listen_addr(), "0.0.0.0:8899");
    assert_eq!(config.report_period_ms(), 500);
}
