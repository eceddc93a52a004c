//! Verified core of a network edge: PROXY protocol decoding, trusted-proxy
//! evaluation, request context derivation, certificate selection, request
//! forwarding rules and the shutdown state machine.
//!
//! Nothing here reads from a socket, waits or spawns. Where a decision
//! depends on something that happens outside, the function takes what
//! happened as a value and says what is to be done next.

pub mod arbiter;
pub mod backend;
pub mod brands;
pub mod cidr;
pub mod config;
pub mod error;
pub mod extract;
pub mod forward;
pub mod forwarded;
pub mod headers;
pub mod net;
pub mod net_text;
pub mod proxy_protocol;
pub mod text;
pub mod tls;
