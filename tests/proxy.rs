use rustunnel::headers::Header;
use rustunnel::proxy::{route_request, relay_response, InboundRequest, ProxyResponse, UpstreamOutcome};
use rustunnel::registry::{CreateTunnelRequest, Registry, TunnelError};

fn header(name: &str, value: &str) -> Header {
    Header { name: name.to_string(), value: value.as_bytes().to_vec() }
}

fn demo_registry() -> Registry {
    let mut reg = Registry::new();
    let req = CreateTunnelRequest {
        target_url: "http://localhost:9000".to_string(),
        subdomain: Some("demo".to_string()),
    };
    reg.register(req).unwrap();
    reg
}

fn inbound(host: Option<&str>, path: &str) -> InboundRequest {
    InboundRequest {
        host: host.map(|h| h.to_string()),
        path: path.to_string(),
        method: "GET".to_string(),
        headers: vec![header("Connection", "keep-alive"), header("X-Custom", "a"), header("X-Custom", "b")],
        body: b"payload".to_vec(),
    }
}

#[test]
fn registered_subdomain_is_forwarded_to_target() {
    let reg = demo_registry();
    let out = route_request(&reg, inbound(Some("demo.rustunnel.example.com"), "/x")).unwrap();
    assert_eq!(out.url, "http://localhost:9000/x");
    assert_eq!(out.method, "GET");
    assert_eq!(out.headers, vec![header("X-Custom", "a"), header("X-Custom", "b")]);
    assert_eq!(out.body, b"payload".to_vec());
}

#[test]
fn port_and_query_are_handled() {
    let reg = demo_registry();
    let out = route_request(&reg, inbound(Some("demo.rustunnel.example.com:8000"), "/x?y=1")).unwrap();
    assert_eq!(out.url, "http://localhost:9000/x?y=1");
}

#[test]
fn unregistered_host_is_not_found() {
    let reg = demo_registry();
    assert!(matches!(
        route_request(&reg, inbound(Some("other.rustunnel.example.com"), "/x")),
        Err(TunnelError::NotFound)
    ));
}

#[test]
fn missing_or_reserved_host_is_not_found() {
    let reg = demo_registry();
    assert!(matches!(route_request(&reg, inbound(None, "/")), Err(TunnelError::NotFound)));
    assert!(matches!(
        route_request(&reg, inbound(Some("www.rustunnel.example.com"), "/")),
        Err(TunnelError::NotFound)
    ));
    assert!(matches!(
        route_request(&reg, inbound(Some("localhost:8000"), "/")),
        Err(TunnelError::NotFound)
    ));
}

#[test]
fn upstream_response_is_relayed() {
    let up = ProxyResponse {
        status: 418,
        headers: vec![header("Transfer-Encoding", "chunked"), header("X-Custom", "a"), header("X-Custom", "b")],
        body: b"teapot".to_vec(),
    };
    let relayed = relay_response(UpstreamOutcome::Responded(up)).unwrap();
    assert_eq!(relayed.status, 418);
    assert_eq!(relayed.headers, vec![header("X-Custom", "a"), header("X-Custom", "b")]);
    assert_eq!(relayed.body, b"teapot".to_vec());
}

#[test]
fn failed_upstream_is_unavailable() {
    assert!(matches!(relay_response(UpstreamOutcome::Failed), Err(TunnelError::UpstreamUnavailable)));
}

#[test]
fn query_is_appended_to_path() {
    assert_eq!(rustunnel::proxy::path_with_query("/x", "y=1&z=2"), "/x?y=1&z=2");
    assert_eq!(rustunnel::proxy::path_with_query("/x", ""), "/x");
}
