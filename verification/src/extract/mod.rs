//! Who sent a request, to which host, and by which scheme.
//!
//! Each of the three answers is taken from what was seen on the
//! connection itself, unless the peer is a trusted proxy: then what the
//! proxy says in forwarding headers, or said in a PROXY protocol header,
//! goes first.

pub mod client_ip;
pub mod host;
pub mod scheme;
pub mod trusted_proxy;

use vstd::prelude::*;

use crate::net::SocketAddress;
use crate::proxy_protocol::header::Header;
use trusted_proxy::TrustedProxy;

verus! {

/// The status of the response to a request that lacks what was looked for.
pub const BAD_REQUEST: u16 = 400;

/// Why nothing was extracted: the status and the text of the response.
#[derive(Debug)]
pub struct Rejection(pub u16, pub &'static str);

/// What decoding the start of the connection gave.
#[derive(Debug)]
pub struct ProxyProtocolState {
    pub header: Option<Header>,
}

/// What the TLS handshake of the connection gave: the certificates that
/// the peer presented, in DER, its own first.
#[derive(Debug)]
pub struct TlsState {
    pub peer_certificates: Option<Vec<Vec<u8>>>,
}

/// What is kept for the time of one request: the facts about the
/// connection that the request came on, and what was derived from them.
#[derive(Debug)]
pub struct Extensions {
    /// The address of the peer of the transport connection.
    pub connect_info: Option<SocketAddress>,
    pub proxy_protocol: Option<ProxyProtocolState>,
    /// Present where the connection carries TLS.
    pub tls: Option<TlsState>,
    /// Whether the peer is a trusted proxy, once that was worked out.
    pub trusted_proxy: Option<TrustedProxy>,
}

} // verus!
