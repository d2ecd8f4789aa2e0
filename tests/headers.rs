use rustunnel::headers::{filter_headers, is_hop_by_hop_header, Header};

fn header(name: &str, value: &str) -> Header {
    Header { name: name.to_string(), value: value.as_bytes().to_vec() }
}

#[test]
fn hop_by_hop_names_are_recognised() {
    for name in [
        "connection",
        "keep-alive",
        "proxy-authenticate",
        "proxy-authorization",
        "te",
        "trailers",
        "transfer-encoding",
        "upgrade",
    ] {
        assert!(is_hop_by_hop_header(name), "{}", name);
    }
}

#[test]
fn hop_by_hop_match_ignores_case() {
    assert!(is_hop_by_hop_header("Connection"));
    assert!(is_hop_by_hop_header("KEEP-ALIVE"));
    assert!(is_hop_by_hop_header("Transfer-Encoding"));
}

#[test]
fn end_to_end_headers_are_not_hop_by_hop() {
    assert!(!is_hop_by_hop_header("content-type"));
    assert!(!is_hop_by_hop_header("x-custom"));
    assert!(!is_hop_by_hop_header("connections"));
    assert!(!is_hop_by_hop_header("t"));
    assert!(!is_hop_by_hop_header(""));
}

#[test]
fn filter_drops_connection_and_keeps_duplicates() {
    let headers = vec![
        header("Connection", "keep-alive"),
        header("X-Custom", "a"),
        header("keep-alive", "timeout=5"),
        header("X-Custom", "b"),
        header("Content-Type", "text/plain"),
    ];
    let kept = filter_headers(&headers);
    assert_eq!(
        kept,
        vec![
            header("X-Custom", "a"),
            header("X-Custom", "b"),
            header("Content-Type", "text/plain"),
        ]
    );
}

#[test]
fn filter_of_empty_list_is_empty() {
    assert!(filter_headers(&Vec::new()).is_empty());
}
