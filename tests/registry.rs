use rustunnel::registry::{
    public_url, registration_url, CreateTunnelRequest, Registry, Tunnel, TunnelError,
};

fn tunnel(target: &str) -> Tunnel {
    Tunnel { target_url: target.to_string() }
}

fn is_token(s: &str) -> bool {
    s.len() == 36 && s.chars().all(|c| c == '-' || c.is_ascii_digit() || ('a'..='f').contains(&c))
}

#[test]
fn insert_then_lookup() {
    let mut reg = Registry::new();
    assert_eq!(reg.lookup(&"demo".to_string()).map(|t| t.target_url), None);
    assert_eq!(reg.insert("demo".to_string(), tunnel("http://localhost:9000")), Ok(()));
    assert_eq!(
        reg.lookup(&"demo".to_string()).map(|t| t.target_url),
        Some("http://localhost:9000".to_string())
    );
    assert_eq!(reg.lookup(&"Demo".to_string()).map(|t| t.target_url), None);
}

#[test]
fn same_subdomain_inserted_many_times_succeeds_once() {
    let mut reg = Registry::new();
    let mut ok = 0;
    let mut conflicts = 0;
    for i in 0..8 {
        match reg.insert("shared".to_string(), tunnel(&format!("http://localhost:{}", 9000 + i))) {
            Ok(()) => ok += 1,
            Err(TunnelError::Conflict) => conflicts += 1,
            Err(e) => panic!("unexpected {:?}", e),
        }
    }
    assert_eq!(ok, 1);
    assert_eq!(conflicts, 7);
    assert_eq!(
        reg.lookup(&"shared".to_string()).map(|t| t.target_url),
        Some("http://localhost:9000".to_string())
    );
}

#[test]
fn public_url_is_under_base_domain() {
    assert_eq!(public_url("demo"), "https://demo.rustunnel.example.com");
}

#[test]
fn registration_url_appends_api_path() {
    assert_eq!(registration_url("http://localhost:8000"), "http://localhost:8000/api/tunnels");
}

#[test]
fn create_tunnel_with_requested_subdomain() {
    let mut reg = Registry::new();
    let req = CreateTunnelRequest {
        target_url: "http://localhost:9000".to_string(),
        subdomain: Some("demo".to_string()),
    };
    let resp = reg.create_tunnel(req, "unused".to_string(), "id-1".to_string()).unwrap();
    assert_eq!(resp.id, "id-1");
    assert_eq!(resp.subdomain, "demo");
    assert_eq!(resp.public_url, "https://demo.rustunnel.example.com");
    assert_eq!(resp.target_url, "http://localhost:9000");
    assert_eq!(reg.lookup(&"unused".to_string()).map(|t| t.target_url), None);
}

#[test]
fn create_tunnel_without_subdomain_uses_generated() {
    let mut reg = Registry::new();
    let req = CreateTunnelRequest { target_url: "http://localhost:1".to_string(), subdomain: None };
    let resp = reg.create_tunnel(req, "gen".to_string(), "id-2".to_string()).unwrap();
    assert_eq!(resp.subdomain, "gen");
    assert_eq!(resp.public_url, "https://gen.rustunnel.example.com");
}

#[test]
fn taken_subdomain_is_a_conflict() {
    let mut reg = Registry::new();
    let first = CreateTunnelRequest {
        target_url: "http://localhost:9000".to_string(),
        subdomain: Some("demo".to_string()),
    };
    assert!(reg.register(first).is_ok());
    let second = CreateTunnelRequest {
        target_url: "http://localhost:9999".to_string(),
        subdomain: Some("demo".to_string()),
    };
    assert!(matches!(reg.register(second), Err(TunnelError::Conflict)));
    assert_eq!(
        reg.lookup(&"demo".to_string()).map(|t| t.target_url),
        Some("http://localhost:9000".to_string())
    );
}

#[test]
fn generated_subdomains_are_distinct_tokens() {
    let mut reg = Registry::new();
    let a = reg
        .register(CreateTunnelRequest { target_url: "http://a".to_string(), subdomain: None })
        .unwrap();
    let b = reg
        .register(CreateTunnelRequest { target_url: "http://b".to_string(), subdomain: None })
        .unwrap();
    assert_ne!(a.subdomain, b.subdomain);
    assert!(is_token(&a.subdomain));
    assert!(is_token(&b.subdomain));
    assert!(is_token(&a.id));
    assert_ne!(a.id, a.subdomain);
    assert_eq!(a.public_url, format!("https://{}.rustunnel.example.com", a.subdomain));
}
