//! Subdomain tunnels: a registry of tunnels keyed by subdomain, the rules that
//! route an inbound host to a tunnel, and the header filter applied when a
//! request and its response are relayed.

pub mod host;
pub mod headers;
pub mod registry;
pub mod proxy;
