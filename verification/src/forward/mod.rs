//! How a request is sent on to the backend.
//!
//! What the client says of itself in forwarding headers never reaches the
//! backend: those headers are taken out, and written again from what was
//! worked out about the client. While the backend is not ready a stand-in
//! response is given. A request for a WebSocket upgrade is answered here,
//! and the upgraded connection is relayed.

pub mod client_cert;
pub mod startup;
pub mod websocket;

use vstd::prelude::*;

use crate::extract::client_ip::ClientIP;
use crate::extract::host::Host;
use crate::extract::scheme::Scheme;
use crate::extract::trusted_proxy::TrustedProxy;
use crate::extract::TlsState;
use crate::headers::{
    first_text, header_count, header_entries, header_insert, header_remove, header_text,
    is_header_name, is_value, is_value_byte, value_from_bytes, HEADER_ROOM,
};
use crate::net::IpAddress;
use crate::net_text::{display_text, is_address_byte, lemma_ipv4_round_trip};
use crate::text::{ascii, ascii_bytes};
use client_cert::{chain_view, client_cert_header, client_cert_value};
use startup::{spec_startup_response, startup_response, StartupResponse};
use websocket::{
    handle_websocket_upgrade, is_websocket_upgrade, spec_handshake, spec_is_websocket_upgrade,
    Handshake,
};

verus! {

/// Who sent a request, to which host and by which scheme.
#[derive(Debug)]
pub struct ClientIdentity {
    pub ip: ClientIP,
    pub host: Host,
    pub scheme: Scheme,
}

/// Why a request could not be made ready for the backend.
#[derive(Clone, Copy, Debug, PartialEq, Eq, Structural)]
pub enum ForwardError {
    /// The text of the client's address holds a byte that no header value
    /// may hold.
    InvalidClientIp,
    /// The host holds a byte that no header value may hold.
    InvalidHost,
    /// The scheme holds a byte that no header value may hold.
    InvalidScheme,
    /// The header map took no further header.
    HeadersFull,
}

/// What to do with a request.
#[derive(Debug)]
pub enum Forwarding {
    /// Answer in the backend's place: it is not ready.
    Starting(StartupResponse),
    /// Answer the request for an upgrade, and relay if it was accepted.
    Upgrade(Handshake),
    /// Send the request to the backend.
    Forward,
}

/// The headers without those that say where a request came from, which
/// are never passed on as the client sent them.
pub open spec fn strip_forwarding(entries: Map<Seq<char>, Seq<Seq<u8>>>) -> Map<
    Seq<char>,
    Seq<Seq<u8>>,
> {
    entries.remove("forwarded"@).remove("host"@).remove("x-forwarded-for"@).remove(
        "x-forwarded-host"@,
    ).remove("x-forwarded-proto"@).remove("x-forwarded-scheme"@).remove("x-real-ip"@)
}

/// The headers without those in which proxies pass on the certificate of
/// a client.
pub open spec fn strip_client_cert(entries: Map<Seq<char>, Seq<Seq<u8>>>) -> Map<
    Seq<char>,
    Seq<Seq<u8>>,
> {
    entries.remove("ssl-client-cert"@).remove("x-forwarded-tls-client-cert"@).remove(
        "x-forwarded-client-cert"@,
    )
}

/// The headers as they go to the backend: stripped of what the client
/// said of its origin, and of what anyone but a trusted proxy said of a
/// client certificate, and then told who the client is.
pub open spec fn spec_rewrite(
    entries: Map<Seq<char>, Seq<Seq<u8>>>,
    ip: Seq<u8>,
    host: Seq<u8>,
    scheme: Seq<u8>,
    trusted: bool,
) -> Map<Seq<char>, Seq<Seq<u8>>> {
    let stripped = if trusted {
        strip_forwarding(entries)
    } else {
        strip_client_cert(strip_forwarding(entries))
    };
    stripped.insert("x-forwarded-for"@, seq![ip]).insert("host"@, seq![host]).insert(
        "x-forwarded-proto"@,
        seq![scheme],
    )
}

/// The certificates that the client presented, where the connection
/// carries TLS and the client presented any.
pub open spec fn peer_chain(tls: Option<TlsState>) -> Option<Seq<Seq<u8>>> {
    match tls {
        Some(state) => match state.peer_certificates {
            Some(certs) => Some(chain_view(certs@)),
            None => None,
        },
        None => None,
    }
}

/// The headers with the certificates of the client, which are passed on
/// for a trusted peer that presented some.
pub open spec fn with_client_cert(
    entries: Map<Seq<char>, Seq<Seq<u8>>>,
    trusted: bool,
    chain: Option<Seq<Seq<u8>>>,
) -> Map<Seq<char>, Seq<Seq<u8>>> {
    if trusted && chain is Some {
        entries.insert("x-forwarded-client-cert"@, seq![client_cert_value(chain.unwrap())])
    } else {
        entries
    }
}

/// The `Accept` header as text, empty where there is none.
pub open spec fn accept_of(entries: Map<Seq<char>, Seq<Seq<u8>>>) -> Seq<u8> {
    match first_text(entries, "accept"@) {
        Some(v) => v,
        None => Seq::empty(),
    }
}

/// Why a header was not set.
enum SetError {
    Invalid,
    Full,
}

/// Puts `value` in the place of every value under `name`.
fn set_header(
    headers: &mut http::HeaderMap<http::HeaderValue>,
    name: &'static str,
    value: &[u8],
) -> (r: Result<(), SetError>)
    requires
        is_header_name(name@),
    ensures
        match r {
            Ok(_) => {
                &&& header_entries(*final(headers)) == header_entries(*old(headers)).insert(
                    name@,
                    seq![value@],
                )
                &&& header_count(*final(headers)) <= header_count(*old(headers)) + 1
                &&& is_value(value@)
            },
            Err(SetError::Invalid) => {
                &&& !is_value(value@)
                &&& header_entries(*final(headers)) == header_entries(*old(headers))
                &&& header_count(*final(headers)) == header_count(*old(headers))
            },
            Err(SetError::Full) => {
                &&& is_value(value@)
                &&& header_entries(*final(headers)) == header_entries(*old(headers))
                &&& header_count(*final(headers)) == header_count(*old(headers))
                &&& header_count(*old(headers)) >= HEADER_ROOM
            },
        },
{
    match value_from_bytes(value) {
        Some(v) => {
            if header_insert(headers, name, v) {
                Ok(())
            } else {
                Err(SetError::Full)
            }
        },
        None => Err(SetError::Invalid),
    }
}

/// Takes out the headers in which a client says where it comes from.
fn remove_forwarding(headers: &mut http::HeaderMap<http::HeaderValue>)
    ensures
        header_entries(*final(headers)) == strip_forwarding(header_entries(*old(headers))),
        header_count(*final(headers)) <= header_count(*old(headers)),
{
    proof {
        reveal_strlit("forwarded");
        reveal_strlit("host");
        reveal_strlit("x-forwarded-for");
        reveal_strlit("x-forwarded-host");
        reveal_strlit("x-forwarded-proto");
        reveal_strlit("x-forwarded-scheme");
        reveal_strlit("x-real-ip");
    }
    header_remove(headers, "forwarded");
    header_remove(headers, "host");
    header_remove(headers, "x-forwarded-for");
    header_remove(headers, "x-forwarded-host");
    header_remove(headers, "x-forwarded-proto");
    header_remove(headers, "x-forwarded-scheme");
    header_remove(headers, "x-real-ip");
}

/// Takes out the headers in which proxies pass on the certificate of a
/// client.
fn remove_client_cert(headers: &mut http::HeaderMap<http::HeaderValue>)
    ensures
        header_entries(*final(headers)) == strip_client_cert(header_entries(*old(headers))),
        header_count(*final(headers)) <= header_count(*old(headers)),
{
    proof {
        reveal_strlit("ssl-client-cert");
        reveal_strlit("x-forwarded-tls-client-cert");
        reveal_strlit("x-forwarded-client-cert");
    }
    header_remove(headers, "ssl-client-cert");
    header_remove(headers, "x-forwarded-tls-client-cert");
    header_remove(headers, "x-forwarded-client-cert");
}

/// Whether every part of an identity can stand in a header: the text of
/// the address, the host and the scheme.
pub open spec fn identity_fits(identity: ClientIdentity) -> bool {
    &&& is_value(display_text(identity.ip.0))
    &&& is_value(identity.host.0@)
    &&& is_value(identity.scheme.0@)
}

/// The text of an IPv4 address can stand in a header.
pub proof fn lemma_ipv4_display_is_value(a: u32)
    ensures
        is_value(display_text(IpAddress::V4(a))),
{
    lemma_ipv4_round_trip(a);
    let text = display_text(IpAddress::V4(a));
    assert forall|i: int| 0 <= i < text.len() implies is_value_byte(#[trigger] text[i]) by {
        assert(is_address_byte(text[i]));
    }
}

/// Rewrites the headers of a request for the backend: the forwarding
/// headers of the client go, and `X-Forwarded-For`, `Host` and
/// `X-Forwarded-Proto` are set from `identity`. The headers that carry a
/// client certificate go too unless the peer is trusted.
///
/// Fails where a part of the identity cannot stand in a header, before
/// anything is changed, or where the map takes no further header, which
/// it does while there is room for three. After a failure the request is
/// not sent on, and nothing is said of the headers.
pub fn rewrite_headers(
    headers: &mut http::HeaderMap<http::HeaderValue>,
    identity: &ClientIdentity,
    trusted: TrustedProxy,
) -> (r: Result<(), ForwardError>)
    ensures
        match r {
            Ok(_) => {
                &&& header_entries(*final(headers)) == spec_rewrite(
                    header_entries(*old(headers)),
                    display_text(identity.ip.0),
                    identity.host.0@,
                    identity.scheme.0@,
                    trusted.0,
                )
                &&& identity_fits(*identity)
                &&& header_count(*final(headers)) <= header_count(*old(headers)) + 3
            },
            Err(ForwardError::InvalidClientIp) => !is_value(display_text(identity.ip.0)),
            Err(ForwardError::InvalidHost) => is_value(display_text(identity.ip.0)) && !is_value(
                identity.host.0@,
            ),
            Err(ForwardError::InvalidScheme) => is_value(display_text(identity.ip.0)) && is_value(
                identity.host.0@,
            ) && !is_value(identity.scheme.0@),
            Err(ForwardError::HeadersFull) => identity_fits(*identity) && header_count(
                *old(headers),
            ) + 3 > HEADER_ROOM,
        },
        identity_fits(*identity) && header_count(*old(headers)) + 3 <= HEADER_ROOM ==> r is Ok,
{
    proof {
        reveal_strlit("x-forwarded-for");
        reveal_strlit("host");
        reveal_strlit("x-forwarded-proto");
    }
    let ip = identity.ip.0.to_display();
    if value_from_bytes(ip.as_slice()).is_none() {
        return Err(ForwardError::InvalidClientIp);
    }
    if value_from_bytes(identity.host.0.as_slice()).is_none() {
        return Err(ForwardError::InvalidHost);
    }
    if value_from_bytes(identity.scheme.0.as_slice()).is_none() {
        return Err(ForwardError::InvalidScheme);
    }
    remove_forwarding(headers);
    if !trusted.0 {
        remove_client_cert(headers);
    }
    match set_header(headers, "x-forwarded-for", ip.as_slice()) {
        Ok(_) => {},
        Err(_) => {
            return Err(ForwardError::HeadersFull);
        },
    }
    match set_header(headers, "host", identity.host.0.as_slice()) {
        Ok(_) => {},
        Err(_) => {
            return Err(ForwardError::HeadersFull);
        },
    }
    match set_header(headers, "x-forwarded-proto", identity.scheme.0.as_slice()) {
        Ok(_) => {},
        Err(_) => {
            return Err(ForwardError::HeadersFull);
        },
    }
    Ok(())
}

/// Adds the header that tells the backend of the certificates of the
/// client, for a trusted peer that presented some. The result tells
/// whether the headers are as they should be. They are where there is
/// nothing to add, and where the map has room; a map without room may
/// refuse the header, and is then unchanged.
pub fn inject_client_cert(
    headers: &mut http::HeaderMap<http::HeaderValue>,
    trusted: TrustedProxy,
    tls: Option<&TlsState>,
) -> (r: bool)
    ensures
        r ==> header_entries(*final(headers)) == with_client_cert(
            header_entries(*old(headers)),
            trusted.0,
            peer_chain(
                match tls {
                    Some(t) => Some(*t),
                    None => None,
                },
            ),
        ),
        !r ==> header_entries(*final(headers)) == header_entries(*old(headers)),
        !trusted.0 || peer_chain(
            match tls {
                Some(t) => Some(*t),
                None => None,
            },
        ) is None ==> r,
        header_count(*old(headers)) < HEADER_ROOM ==> r,
        header_count(*final(headers)) <= header_count(*old(headers)) + 1,
{
    proof {
        reveal_strlit("x-forwarded-client-cert");
    }
    if !trusted.0 {
        return true;
    }
    let certs = match tls {
        Some(state) => match &state.peer_certificates {
            Some(certs) => certs,
            None => {
                return true;
            },
        },
        None => {
            return true;
        },
    };
    let value = client_cert_header(certs.as_slice());
    set_header(headers, "x-forwarded-client-cert", value.as_slice()).is_ok()
}

/// Decides what to do with a request, and makes its headers ready.
///
/// While the backend is not ready the request is answered in its place,
/// in the form that its `Accept` header asks for, and its headers are
/// left alone. Else the headers are rewritten. A request for a WebSocket
/// upgrade is then answered; any other gets the client's certificates
/// added and is sent on.
///
/// With a ready backend the request is answered or sent on whenever
/// every part of the identity can stand in a header and the map has room
/// for four more names; it fails whenever a part of the identity cannot.
pub fn forward_request(
    headers: &mut http::HeaderMap<http::HeaderValue>,
    backend_ready: bool,
    identity: &ClientIdentity,
    trusted: TrustedProxy,
    tls: Option<&TlsState>,
) -> (r: Result<Forwarding, ForwardError>)
    ensures
        !backend_ready ==> header_entries(*final(headers)) == header_entries(*old(headers)) && (
        match r {
            Ok(Forwarding::Starting(response)) => response == spec_startup_response(
                accept_of(header_entries(*old(headers))),
            ),
            _ => false,
        }),
        backend_ready ==> ({
            let rewritten = spec_rewrite(
                header_entries(*old(headers)),
                display_text(identity.ip.0),
                identity.host.0@,
                identity.scheme.0@,
                trusted.0,
            );
            match r {
                Ok(Forwarding::Starting(_)) => false,
                Ok(Forwarding::Upgrade(handshake)) => {
                    &&& spec_is_websocket_upgrade(rewritten)
                    &&& handshake@ == spec_handshake(rewritten)
                    &&& header_entries(*final(headers)) == rewritten
                },
                Ok(Forwarding::Forward) => {
                    &&& !spec_is_websocket_upgrade(rewritten)
                    &&& header_entries(*final(headers)) == with_client_cert(
                        rewritten,
                        trusted.0,
                        peer_chain(
                            match tls {
                                Some(t) => Some(*t),
                                None => None,
                            },
                        ),
                    )
                },
                Err(ForwardError::InvalidClientIp) => !is_value(display_text(identity.ip.0)),
                Err(ForwardError::InvalidHost) => is_value(display_text(identity.ip.0))
                    && !is_value(identity.host.0@),
                Err(ForwardError::InvalidScheme) => is_value(display_text(identity.ip.0))
                    && is_value(identity.host.0@) && !is_value(identity.scheme.0@),
                Err(ForwardError::HeadersFull) => identity_fits(*identity) && header_count(
                    *old(headers),
                ) + 4 > HEADER_ROOM,
            }
        }),
        backend_ready && r is Ok ==> identity_fits(*identity),
        backend_ready && identity_fits(*identity) && header_count(*old(headers)) + 4
            <= HEADER_ROOM ==> r is Ok,
{
    if !backend_ready {
        proof {
            reveal_strlit("accept");
        }
        let response = match header_text(headers, "accept") {
            Some(accept) => startup_response(accept),
            None => {
                let none: Vec<u8> = Vec::new();
                assert(none@ =~= Seq::<u8>::empty());
                startup_response(none.as_slice())
            },
        };
        return Ok(Forwarding::Starting(response));
    }
    match rewrite_headers(headers, identity, trusted) {
        Ok(_) => {},
        Err(e) => {
            return Err(e);
        },
    }
    if is_websocket_upgrade(headers) {
        return Ok(Forwarding::Upgrade(handle_websocket_upgrade(headers)));
    }
    if inject_client_cert(headers, trusted, tls) {
        Ok(Forwarding::Forward)
    } else {
        Err(ForwardError::HeadersFull)
    }
}

/// Marks a response as one of this server: the `Server` header goes, and
/// `X-Powered-By` says `authentik`. The result tells whether the map took
/// the header, which it does while it has room; it is unchanged but for
/// `Server` where it did not.
pub fn powered_by(headers: &mut http::HeaderMap<http::HeaderValue>) -> (r: bool)
    ensures
        r ==> header_entries(*final(headers)) == header_entries(*old(headers)).remove(
            "server"@,
        ).insert("x-powered-by"@, seq![ascii("authentik"@)]),
        !r ==> header_entries(*final(headers)) == header_entries(*old(headers)).remove("server"@),
        header_count(*old(headers)) < HEADER_ROOM ==> r,
{
    proof {
        reveal_strlit("server");
        reveal_strlit("x-powered-by");
        reveal_strlit("authentik");
    }
    header_remove(headers, "server");
    let value = ascii_bytes("authentik");
    set_header(headers, "x-powered-by", value.as_slice()).is_ok()
}

/// Whether a header says where a request came from: the headers that are
/// never passed on as the client sent them.
pub open spec fn is_forwarding_name(name: Seq<char>) -> bool {
    name == "forwarded"@ || name == "host"@ || name == "x-forwarded-for"@ || name
        == "x-forwarded-host"@ || name == "x-forwarded-proto"@ || name == "x-forwarded-scheme"@
        || name == "x-real-ip"@
}

/// Whether a header passes on the certificate of a client.
pub open spec fn is_client_cert_name(name: Seq<char>) -> bool {
    name == "ssl-client-cert"@ || name == "x-forwarded-tls-client-cert"@ || name
        == "x-forwarded-client-cert"@
}

/// The values under a name, where the map holds the name.
pub open spec fn values_of(entries: Map<Seq<char>, Seq<Seq<u8>>>, name: Seq<char>) -> Option<
    Seq<Seq<u8>>,
> {
    if entries.contains_key(name) {
        Some(entries[name])
    } else {
        None
    }
}

/// What the backend is told of a request's origin. `X-Forwarded-For`,
/// `Host` and `X-Forwarded-Proto` hold what was worked out about the
/// client, whatever the client sent; `Forwarded`, `X-Forwarded-Host`,
/// `X-Forwarded-Scheme` and `X-Real-IP` are gone; what an untrusted peer
/// said of a client certificate is gone; every other header is as it
/// came.
pub proof fn lemma_rewritten_headers(
    entries: Map<Seq<char>, Seq<Seq<u8>>>,
    ip: Seq<u8>,
    host: Seq<u8>,
    scheme: Seq<u8>,
    trusted: bool,
)
    ensures
        ({
            let sent = spec_rewrite(entries, ip, host, scheme, trusted);
            &&& values_of(sent, "x-forwarded-for"@) == Some(seq![ip])
            &&& values_of(sent, "host"@) == Some(seq![host])
            &&& values_of(sent, "x-forwarded-proto"@) == Some(seq![scheme])
            &&& !sent.contains_key("forwarded"@)
            &&& !sent.contains_key("x-forwarded-host"@)
            &&& !sent.contains_key("x-forwarded-scheme"@)
            &&& !sent.contains_key("x-real-ip"@)
            &&& !trusted ==> forall|name: Seq<char>|
                is_client_cert_name(name) ==> !sent.contains_key(name)
            &&& forall|name: Seq<char>|
                !is_forwarding_name(name) && (trusted || !is_client_cert_name(name)) ==> (
                sent.contains_key(name) == entries.contains_key(name)) && (sent.contains_key(name)
                    ==> sent[name] == entries[name])
        }),
{
    reveal_strlit("forwarded");
    reveal_strlit("host");
    reveal_strlit("x-forwarded-for");
    reveal_strlit("x-forwarded-host");
    reveal_strlit("x-forwarded-proto");
    reveal_strlit("x-forwarded-scheme");
    reveal_strlit("x-real-ip");
    reveal_strlit("ssl-client-cert");
    reveal_strlit("x-forwarded-tls-client-cert");
    reveal_strlit("x-forwarded-client-cert");
    assert("forwarded"@.len() == 9 && "x-real-ip"@.len() == 9 && "host"@.len() == 4);
    assert("x-forwarded-for"@.len() == 15 && "ssl-client-cert"@.len() == 15);
    assert("x-forwarded-host"@.len() == 16 && "x-forwarded-proto"@.len() == 17);
    assert("x-forwarded-scheme"@.len() == 18 && "x-forwarded-client-cert"@.len() == 23);
    assert("x-forwarded-tls-client-cert"@.len() == 27);
    assert("forwarded"@[0] != "x-real-ip"@[0]);
    assert("x-forwarded-for"@[0] != "ssl-client-cert"@[0]);
}

/// The target of a request at the backend: the backend's address, by
/// plain HTTP or, for an upgraded connection, plain WebSocket, and the
/// path and the query of the request as they came.
pub open spec fn spec_backend_target(path_and_query: Seq<u8>, websocket: bool) -> Seq<u8> {
    if websocket {
        ascii("ws://localhost:8000"@) + path_and_query
    } else {
        ascii("http://localhost:8000"@) + path_and_query
    }
}

/// Writes the target of a request at the backend.
pub fn backend_target(path_and_query: &[u8], websocket: bool) -> (r: Vec<u8>)
    ensures
        r@ == spec_backend_target(path_and_query@, websocket),
{
    proof {
        reveal_strlit("ws://localhost:8000");
        reveal_strlit("http://localhost:8000");
    }
    let mut target = if websocket {
        ascii_bytes("ws://localhost:8000")
    } else {
        ascii_bytes("http://localhost:8000")
    };
    target.extend_from_slice(path_and_query);
    target
}

} // verus!
