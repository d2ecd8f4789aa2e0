//! The decisions of the reverse proxy: which tunnel an inbound request goes
//! to, what is sent to that tunnel's target, and what is relayed back. The
//! network calls themselves are made by the caller.

use vstd::prelude::*;
use crate::headers::{Header, filter_headers, header_views, relayed_headers};
use crate::host::{
    extract_authority, extract_subdomain, is_reserved_label, lemma_first_label_routes,
    lemma_port_is_ignored, route_key,
};
use crate::registry::{
    Registry, TunnelError, base_domain, inserted, lemma_base_domain_has_no_port,
};

verus! {

/// A request that arrived at the proxy.
#[derive(Debug)]
pub struct InboundRequest {
    /// The `Host` value, port included, if the request had one.
    pub host: Option<String>,
    /// The path with its query string.
    pub path: String,
    pub method: String,
    pub headers: Vec<Header>,
    pub body: Vec<u8>,
}

/// The request to send to a tunnel's target.
#[derive(Debug)]
pub struct OutboundRequest {
    pub url: String,
    pub method: String,
    pub headers: Vec<Header>,
    pub body: Vec<u8>,
}

/// A response, as received from a target or as relayed to the caller.
#[derive(Debug)]
pub struct ProxyResponse {
    pub status: u16,
    pub headers: Vec<Header>,
    pub body: Vec<u8>,
}

/// How the call to a target ended.
#[derive(Debug)]
pub enum UpstreamOutcome {
    /// The target answered.
    Responded(ProxyResponse),
    /// No answer came (connection refused, timeout, name resolution, ...).
    Failed,
}

/// The view of an optional host value.
pub open spec fn host_view(host: Option<String>) -> Option<Seq<char>> {
    match host {
        Some(h) => Some(h@),
        None => None,
    }
}

/// Where a request for `host` and `path` is forwarded, given the tunnels `reg`:
/// the tunnel's target followed by the path; `None` when no tunnel matches.
pub open spec fn forward_url(
    reg: Map<Seq<char>, Seq<char>>,
    host: Option<Seq<char>>,
    path: Seq<char>,
) -> Option<Seq<char>> {
    match route_key(host) {
        Some(sub) => if reg.contains_key(sub) {
            Some(reg[sub] + path)
        } else {
            None
        },
        None => None,
    }
}

/// Once a tunnel is registered under a free subdomain, a request to that
/// subdomain's public host, with or without a port, is forwarded to the
/// tunnel's target followed by the request's path.
pub proof fn lemma_registered_tunnel_receives(
    m: Map<Seq<char>, Seq<char>>,
    subdomain: Seq<char>,
    target: Seq<char>,
    path: Seq<char>,
    port: Seq<char>,
)
    requires
        !m.contains_key(subdomain),
        !subdomain.contains('.'),
        !subdomain.contains(':'),
        !is_reserved_label(subdomain),
    ensures
        forward_url(inserted(m, subdomain, target), Some(subdomain + seq!['.'] + base_domain()), path)
            == Some(target + path),
        forward_url(
            inserted(m, subdomain, target),
            Some(subdomain + seq!['.'] + base_domain() + seq![':'] + port),
            path,
        ) == Some(target + path),
{
    let h = subdomain + seq!['.'] + base_domain();
    lemma_base_domain_has_no_port();
    lemma_first_label_routes(subdomain, base_domain());
    assert(!h.contains(':')) by {
        if h.contains(':') {
            let i = choose|i: int| 0 <= i < h.len() && h[i] == ':';
            if i < subdomain.len() {
                assert(subdomain[i] == h[i]);
            } else {
                assert(base_domain()[i - subdomain.len() - 1] == h[i]);
            }
        }
    }
    lemma_port_is_ignored(h, port);
}

/// A request whose host matches no registered tunnel is not forwarded.
pub proof fn lemma_unmatched_host_not_forwarded(
    m: Map<Seq<char>, Seq<char>>,
    host: Option<Seq<char>>,
    path: Seq<char>,
)
    requires
        route_key(host) is None || !m.contains_key(route_key(host)->0),
    ensures
        forward_url(m, host, path) is None,
{
}

/// The request target that is forwarded: the path, then `?` and the query
/// string when there is one.
pub fn path_with_query(path: &str, query: &str) -> (r: String)
    ensures
        r@ == if query@.len() == 0 {
            path@
        } else {
            path@ + "?"@ + query@
        },
{
    let mut target = String::from_str(path);
    if query.unicode_len() > 0 {
        target.append("?");
        target.append(query);
    }
    target
}

/// Decides where an inbound request goes. With no tunnel for its host it is
/// `NotFound` and nothing is to be sent; otherwise the request to send has
/// the target's address followed by the path, the same method, the headers
/// without the hop-by-hop ones, and the same body bytes.
pub fn route_request(registry: &Registry, request: InboundRequest) -> (r: Result<OutboundRequest, TunnelError>)
    requires
        registry.wf(),
    ensures
        r is Ok <==> forward_url(registry@, host_view(request.host), request.path@) is Some,
        r is Err ==> r == Err::<OutboundRequest, TunnelError>(TunnelError::NotFound),
        r is Ok ==> {
            &&& r->Ok_0.url@ == forward_url(registry@, host_view(request.host), request.path@)->0
            &&& r->Ok_0.method@ == request.method@
            &&& header_views(r->Ok_0.headers@) == relayed_headers(header_views(request.headers@))
            &&& r->Ok_0.body@ == request.body@
        },
{
    let authority = match extract_authority(request.host) {
        Some(a) => a,
        None => return Err(TunnelError::NotFound),
    };
    let subdomain = match extract_subdomain(authority.as_str()) {
        Some(s) => s,
        None => return Err(TunnelError::NotFound),
    };
    let tunnel = match registry.lookup(&subdomain) {
        Some(t) => t,
        None => return Err(TunnelError::NotFound),
    };
    let mut url = tunnel.target_url;
    url.append(request.path.as_str());
    let headers = filter_headers(&request.headers);
    Ok(OutboundRequest { url, method: request.method, headers, body: request.body })
}

/// What is relayed once the target's call has ended: its status and body as
/// they came, its headers without the hop-by-hop ones; `UpstreamUnavailable`
/// when it failed. No retry is made.
pub fn relay_response(outcome: UpstreamOutcome) -> (r: Result<ProxyResponse, TunnelError>)
    ensures
        outcome is Failed <==> r is Err,
        r is Err ==> r == Err::<ProxyResponse, TunnelError>(TunnelError::UpstreamUnavailable),
        outcome is Responded ==> {
            let up = outcome->Responded_0;
            &&& r is Ok
            &&& r->Ok_0.status == up.status
            &&& header_views(r->Ok_0.headers@) == relayed_headers(header_views(up.headers@))
            &&& r->Ok_0.body@ == up.body@
        },
{
    match outcome {
        UpstreamOutcome::Responded(up) => {
            let headers = filter_headers(&up.headers);
            Ok(ProxyResponse { status: up.status, headers, body: up.body })
        },
        UpstreamOutcome::Failed => Err(TunnelError::UpstreamUnavailable),
    }
}

} // verus!
