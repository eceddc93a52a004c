//! The address of the client that sent a request.

use vstd::prelude::*;

use super::trusted_proxy::{peer_ip, spec_from_request_parts, TrustedProxy};
use super::{Extensions, Rejection, BAD_REQUEST};
use crate::cidr::Cidr;
use crate::config::all_wf;
use crate::forwarded::{forwarded_for_ip, read_forwarded};
use crate::headers::{first_text, header_entries, header_text};
use crate::net::IpAddress;

verus! {

/// The address of the client.
#[derive(Clone, Copy, Debug, PartialEq, Eq, Structural)]
pub struct ClientIP(pub IpAddress);

/// What `client_ip::rightmost_x_forwarded_for` makes of a header map: the
/// last address in the last `X-Forwarded-For` header, or nothing.
pub uninterp spec fn rightmost_x_forwarded_for(entries: Map<Seq<char>, Seq<Seq<u8>>>) -> Option<
    IpAddress,
>;

/// What `client_ip::x_real_ip` makes of a header map: the address in the
/// one `X-Real-IP` header, or nothing.
pub uninterp spec fn x_real_ip(entries: Map<Seq<char>, Seq<Seq<u8>>>) -> Option<IpAddress>;

/// Calls `client_ip::rightmost_x_forwarded_for` and hands the address out
/// as a plain value; every error of the call gives `None`. A map without
/// the header is one of the errors.
#[verifier::external_body]
fn read_x_forwarded_for(headers: &http::HeaderMap<http::HeaderValue>) -> (r: Option<IpAddress>)
    ensures
        r == rightmost_x_forwarded_for(header_entries(*headers)),
        !header_entries(*headers).contains_key("x-forwarded-for"@) ==> r is None,
{
    match client_ip::rightmost_x_forwarded_for(headers) {
        Ok(core::net::IpAddr::V4(a)) => Some(IpAddress::V4(a.into())),
        Ok(core::net::IpAddr::V6(a)) => Some(IpAddress::V6(a.into())),
        Err(_) => None,
    }
}

/// Calls `client_ip::x_real_ip` and hands the address out as a plain
/// value; every error of the call gives `None`. A map without the header
/// is one of the errors.
#[verifier::external_body]
fn read_x_real_ip(headers: &http::HeaderMap<http::HeaderValue>) -> (r: Option<IpAddress>)
    ensures
        r == x_real_ip(header_entries(*headers)),
        !header_entries(*headers).contains_key("x-real-ip"@) ==> r is None,
{
    match client_ip::x_real_ip(headers) {
        Ok(core::net::IpAddr::V4(a)) => Some(IpAddress::V4(a.into())),
        Ok(core::net::IpAddr::V6(a)) => Some(IpAddress::V6(a.into())),
        Err(_) => None,
    }
}

/// The source address that a PROXY protocol header gave for the
/// connection.
pub open spec fn proxied_source(extensions: Extensions) -> Option<IpAddress> {
    match extensions.proxy_protocol {
        Some(state) => match state.header {
            Some(header) => match header.0 {
                Some(address) => Some(address.source.ip),
                None => None,
            },
            None => None,
        },
        None => None,
    }
}

/// The client's address. From a trusted proxy the first of these that is
/// there: the last address in `X-Forwarded-For`, the address in
/// `X-Real-IP`, the first address in `Forwarded`, the source address of
/// the PROXY protocol header. Else, and from any other peer, the address
/// of the peer itself.
pub open spec fn spec_client_ip(
    trusted: bool,
    x_forwarded_for: Option<IpAddress>,
    x_real_ip: Option<IpAddress>,
    forwarded: Option<IpAddress>,
    proxied: Option<IpAddress>,
    peer: Option<IpAddress>,
) -> Option<IpAddress> {
    if trusted && x_forwarded_for is Some {
        x_forwarded_for
    } else if trusted && x_real_ip is Some {
        x_real_ip
    } else if trusted && forwarded is Some {
        forwarded
    } else if trusted && proxied is Some {
        proxied
    } else {
        peer
    }
}

/// The client's address as the headers and the storage of a request give
/// it to a peer that is or is not trusted.
pub open spec fn client_ip_of(
    entries: Map<Seq<char>, Seq<Seq<u8>>>,
    extensions: Extensions,
    trusted: bool,
) -> Option<IpAddress> {
    spec_client_ip(
        trusted,
        rightmost_x_forwarded_for(entries),
        x_real_ip(entries),
        forwarded_for_ip(first_text(entries, "forwarded"@)),
        proxied_source(extensions),
        peer_ip(extensions),
    )
}

/// Whether the headers hold none of those that name the client:
/// `X-Forwarded-For`, `X-Real-IP` and `Forwarded`.
pub open spec fn names_no_client(entries: Map<Seq<char>, Seq<Seq<u8>>>) -> bool {
    &&& !entries.contains_key("x-forwarded-for"@)
    &&& !entries.contains_key("x-real-ip"@)
    &&& !entries.contains_key("forwarded"@)
}

/// The client's address as the connection alone gives it: to a trusted
/// peer the source address of the PROXY protocol header where there is
/// one, else the address of the peer.
pub open spec fn connection_ip(extensions: Extensions, trusted: bool) -> Option<IpAddress> {
    if trusted && proxied_source(extensions) is Some {
        proxied_source(extensions)
    } else {
        peer_ip(extensions)
    }
}

impl ClientIP {
    /// Picks the client's address among what the sources gave.
    pub fn pick(
        trusted: TrustedProxy,
        x_forwarded_for: Option<IpAddress>,
        x_real_ip: Option<IpAddress>,
        forwarded: Option<IpAddress>,
        proxied: Option<IpAddress>,
        peer: Option<IpAddress>,
    ) -> (r: Option<ClientIP>)
        ensures
            match r {
                Some(c) => spec_client_ip(
                    trusted.0,
                    x_forwarded_for,
                    x_real_ip,
                    forwarded,
                    proxied,
                    peer,
                ) == Some(c.0),
                None => spec_client_ip(
                    trusted.0,
                    x_forwarded_for,
                    x_real_ip,
                    forwarded,
                    proxied,
                    peer,
                ) is None,
            },
            !trusted.0 ==> r == match peer {
                Some(ip) => Some(ClientIP(ip)),
                None => None,
            },
    {
        let found = if trusted.0 && x_forwarded_for.is_some() {
            x_forwarded_for
        } else if trusted.0 && x_real_ip.is_some() {
            x_real_ip
        } else if trusted.0 && forwarded.is_some() {
            forwarded
        } else if trusted.0 && proxied.is_some() {
            proxied
        } else {
            peer
        };
        match found {
            Some(ip) => Some(ClientIP(ip)),
            None => None,
        }
    }

    /// Works out the client's address, if any source gives one.
    ///
    /// The trust in the peer is taken from the request's storage, or
    /// worked out and stored there. What an untrusted peer says in headers
    /// is not read. A request without any header that names the client
    /// has the address that the connection gives.
    pub fn optional_from_request_parts(
        headers: &http::HeaderMap<http::HeaderValue>,
        extensions: &mut Extensions,
        cidrs: &[Cidr],
    ) -> (r: Option<ClientIP>)
        requires
            all_wf(cidrs@),
        ensures
            *final(extensions) == spec_from_request_parts(*old(extensions), cidrs@).1,
            match r {
                Some(c) => client_ip_of(
                    header_entries(*headers),
                    *old(extensions),
                    spec_from_request_parts(*old(extensions), cidrs@).0.0,
                ) == Some(c.0),
                None => client_ip_of(
                    header_entries(*headers),
                    *old(extensions),
                    spec_from_request_parts(*old(extensions), cidrs@).0.0,
                ) is None,
            },
            !spec_from_request_parts(*old(extensions), cidrs@).0.0 ==> r == match peer_ip(
                *old(extensions),
            ) {
                Some(ip) => Some(ClientIP(ip)),
                None => None,
            },
            names_no_client(header_entries(*headers)) ==> r == match connection_ip(
                *old(extensions),
                spec_from_request_parts(*old(extensions), cidrs@).0.0,
            ) {
                Some(ip) => Some(ClientIP(ip)),
                None => None,
            },
    {
        proof {
            reveal_strlit("x-forwarded-for");
            reveal_strlit("x-real-ip");
        }
        let trusted = TrustedProxy::from_request_parts(extensions, cidrs);
        let peer = match extensions.connect_info {
            Some(addr) => Some(addr.ip),
            None => None,
        };
        if !trusted.0 {
            return ClientIP::pick(trusted, None, None, None, None, peer);
        }
        let x_forwarded_for = read_x_forwarded_for(headers);
        let x_real_ip = read_x_real_ip(headers);
        proof {
            reveal_strlit("forwarded");
        }
        let forwarded = read_forwarded(header_text(headers, "forwarded")).for_ip;
        let proxied = match &extensions.proxy_protocol {
            Some(state) => match &state.header {
                Some(header) => match header.proxied_address() {
                    Some(address) => Some(address.source.ip),
                    None => None,
                },
                None => None,
            },
            None => None,
        };
        ClientIP::pick(trusted, x_forwarded_for, x_real_ip, forwarded, proxied, peer)
    }

    /// Works out the client's address, and refuses the request where no
    /// source gives one.
    pub fn from_request_parts(
        headers: &http::HeaderMap<http::HeaderValue>,
        extensions: &mut Extensions,
        cidrs: &[Cidr],
    ) -> (r: Result<ClientIP, Rejection>)
        requires
            all_wf(cidrs@),
        ensures
            *final(extensions) == spec_from_request_parts(*old(extensions), cidrs@).1,
            match r {
                Ok(c) => client_ip_of(
                    header_entries(*headers),
                    *old(extensions),
                    spec_from_request_parts(*old(extensions), cidrs@).0.0,
                ) == Some(c.0),
                Err(e) => {
                    &&& client_ip_of(
                        header_entries(*headers),
                        *old(extensions),
                        spec_from_request_parts(*old(extensions), cidrs@).0.0,
                    ) is None
                    &&& e.0 == BAD_REQUEST
                    &&& e.1@ == "No client IP found in request"@
                },
            },
    {
        match ClientIP::optional_from_request_parts(headers, extensions, cidrs) {
            Some(c) => Ok(c),
            None => Err(Rejection(BAD_REQUEST, "No client IP found in request")),
        }
    }
}

} // verus!
