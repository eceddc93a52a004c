//! WebSocket upgrades: how one is recognised and answered, and how the
//! messages of an upgraded connection are passed between the client and
//! the backend.

use vstd::prelude::*;

use crate::extract::BAD_REQUEST;
use crate::headers::{first_text, header_contains, header_entries, header_text};
use crate::text::{ascii, ascii_bytes, eq_ignore_case, list_contains, list_has, lower};

verus! {

/// The status of the response that accepts an upgrade.
pub const SWITCHING_PROTOCOLS: u16 = 101;

/// Whether the headers of a request ask for an upgrade to WebSocket:
/// `Upgrade` is `websocket`, `Connection` lists `upgrade`, both but for
/// the case of letters, and `Sec-WebSocket-Key` and
/// `Sec-WebSocket-Version` are there.
pub open spec fn spec_is_websocket_upgrade(entries: Map<Seq<char>, Seq<Seq<u8>>>) -> bool {
    &&& match first_text(entries, "upgrade"@) {
        Some(v) => lower(v) == lower(ascii("websocket"@)),
        None => false,
    }
    &&& match first_text(entries, "connection"@) {
        Some(v) => list_has(v, 0, ascii("upgrade"@)),
        None => false,
    }
    &&& entries.contains_key("sec-websocket-key"@)
    &&& entries.contains_key("sec-websocket-version"@)
}

/// Says whether the headers of a request ask for an upgrade to WebSocket.
pub fn is_websocket_upgrade(headers: &http::HeaderMap<http::HeaderValue>) -> (r: bool)
    ensures
        r == spec_is_websocket_upgrade(header_entries(*headers)),
{
    proof {
        reveal_strlit("upgrade");
        reveal_strlit("connection");
        reveal_strlit("websocket");
        reveal_strlit("sec-websocket-key");
        reveal_strlit("sec-websocket-version");
    }
    let has_upgrade = match header_text(headers, "upgrade") {
        Some(v) => {
            let word = ascii_bytes("websocket");
            eq_ignore_case(v, word.as_slice())
        },
        None => false,
    };
    let has_connection = match header_text(headers, "connection") {
        Some(v) => {
            let word = ascii_bytes("upgrade");
            list_contains(v, word.as_slice())
        },
        None => false,
    };
    let has_websocket_key = header_contains(headers, "sec-websocket-key");
    let has_websocket_version = header_contains(headers, "sec-websocket-version");
    has_upgrade && has_connection && has_websocket_key && has_websocket_version
}

/// What `tungstenite::handshake::derive_accept_key` makes of the key of a
/// request: the value of `Sec-WebSocket-Accept` that answers it.
pub uninterp spec fn accept_key(key: Seq<u8>) -> Seq<u8>;

/// Calls `tungstenite::handshake::derive_accept_key` and hands the text
/// out as bytes.
#[verifier::external_body]
fn derive_accept_key(key: &[u8]) -> (r: Vec<u8>)
    ensures
        r@ == accept_key(key@),
{
    tungstenite::handshake::derive_accept_key(key).into_bytes()
}

/// The answer to a request for an upgrade.
#[derive(Debug)]
pub enum Handshake {
    /// The request is refused with this status and an empty body, and
    /// nothing is done about the backend.
    Rejected(u16),
    /// The request is answered with `SWITCHING_PROTOCOLS`, `Upgrade:
    /// websocket`, `Connection: upgrade` and this value of
    /// `Sec-WebSocket-Accept`; the connection is then relayed.
    Accepted { accept: Vec<u8> },
}

/// The mathematical content of a `Handshake`.
pub enum HandshakeView {
    Rejected(u16),
    Accepted { accept: Seq<u8> },
}

impl View for Handshake {
    type V = HandshakeView;

    open spec fn view(&self) -> HandshakeView {
        match *self {
            Handshake::Rejected(status) => HandshakeView::Rejected(status),
            Handshake::Accepted { accept } => HandshakeView::Accepted { accept: accept@ },
        }
    }
}

/// The answer to a request for an upgrade: a request without a key that
/// can be read as text is refused with `BAD_REQUEST`, any other is
/// accepted with the value that answers its key.
pub open spec fn spec_handshake(entries: Map<Seq<char>, Seq<Seq<u8>>>) -> HandshakeView {
    match first_text(entries, "sec-websocket-key"@) {
        Some(key) => HandshakeView::Accepted { accept: accept_key(key) },
        None => HandshakeView::Rejected(BAD_REQUEST),
    }
}

impl Handshake {
    /// The answer to a request for an upgrade, from the value that
    /// answers its key: a request that has none is refused with
    /// `BAD_REQUEST`.
    pub fn answer(accept: Option<Vec<u8>>) -> (r: Handshake)
        ensures
            r@ == match accept {
                Some(a) => HandshakeView::Accepted { accept: a@ },
                None => HandshakeView::Rejected(BAD_REQUEST),
            },
    {
        match accept {
            Some(accept) => Handshake::Accepted { accept },
            None => Handshake::Rejected(BAD_REQUEST),
        }
    }
}

/// Answers a request for an upgrade. The answer depends on the request
/// alone: a request that is refused never reaches the backend.
pub fn handle_websocket_upgrade(headers: &http::HeaderMap<http::HeaderValue>) -> (r: Handshake)
    ensures
        r@ == spec_handshake(header_entries(*headers)),
        !header_entries(*headers).contains_key("sec-websocket-key"@) ==> r@
            == HandshakeView::Rejected(BAD_REQUEST),
{
    proof {
        reveal_strlit("sec-websocket-key");
    }
    let accept = match header_text(headers, "sec-websocket-key") {
        Some(key) => Some(derive_accept_key(key)),
        None => None,
    };
    Handshake::answer(accept)
}

/// The kind of a WebSocket message.
#[derive(Clone, Copy, Debug, PartialEq, Eq, Structural)]
pub enum MessageKind {
    Text,
    Binary,
    Ping,
    Pong,
    Close,
    /// A raw frame, which a reader never hands out.
    Frame,
}

/// What one side of an upgraded connection gave.
#[derive(Clone, Copy, Debug, PartialEq, Eq, Structural)]
pub enum RelayEvent {
    Message(MessageKind),
    /// The side has ended without a close message.
    Ended,
}

/// What to do with it.
#[derive(Clone, Copy, Debug, PartialEq, Eq, Structural)]
pub enum RelayAction {
    /// Send the message to the other side and go on.
    Forward,
    /// Drop the message and go on.
    Skip,
    /// Send a close message to the other side, tell the relay that the
    /// connection is closed, and stop.
    Close,
    /// Stop.
    Stop,
}

/// One direction of the relay: from one side of an upgraded connection
/// to the other.
#[derive(Clone, Copy, Debug, PartialEq, Eq, Structural)]
pub struct Relay {
    /// Whether this direction has closed the other side.
    pub closed: bool,
}

/// What an event does to a direction of the relay, and has the caller do.
/// Data, pings and pongs are passed on. A close message, or the end of
/// the side, closes the other side, once.
pub open spec fn spec_relay(relay: Relay, event: RelayEvent) -> (Relay, RelayAction) {
    match event {
        RelayEvent::Message(MessageKind::Frame) => (relay, RelayAction::Skip),
        RelayEvent::Message(MessageKind::Close) | RelayEvent::Ended => if relay.closed {
            (relay, RelayAction::Stop)
        } else {
            (Relay { closed: true }, RelayAction::Close)
        },
        RelayEvent::Message(_) => if relay.closed {
            (relay, RelayAction::Skip)
        } else {
            (relay, RelayAction::Forward)
        },
    }
}

impl Relay {
    /// A direction that has closed nothing.
    pub fn new() -> (r: Relay)
        ensures
            !r.closed,
    {
        Relay { closed: false }
    }

    /// Takes in what the side gave and says what to do with it.
    pub fn on_event(&mut self, event: RelayEvent) -> (r: RelayAction)
        ensures
            (*final(self), r) == spec_relay(*old(self), event),
            old(self).closed ==> final(self).closed,
            r == RelayAction::Close ==> final(self).closed && !old(self).closed,
    {
        match event {
            RelayEvent::Message(MessageKind::Frame) => RelayAction::Skip,
            RelayEvent::Message(MessageKind::Close) | RelayEvent::Ended => {
                if self.closed {
                    RelayAction::Stop
                } else {
                    self.closed = true;
                    RelayAction::Close
                }
            },
            RelayEvent::Message(_) => {
                if self.closed {
                    RelayAction::Skip
                } else {
                    RelayAction::Forward
                }
            },
        }
    }
}

} // verus!
