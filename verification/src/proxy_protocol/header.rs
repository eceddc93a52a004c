//! What a decoded PROXY protocol header holds.

use vstd::prelude::*;

use crate::net::SocketAddress;

verus! {

/// Why a buffer did not decode.
#[derive(Clone, Copy, Debug, PartialEq, Eq, Structural)]
pub enum Error {
    /// The buffer ends before the header does: more bytes may complete it.
    BufferTooShort,
    /// The buffer does not start with a well-formed header.
    Invalid,
}

/// The transport that the proxied connection uses.
#[derive(Clone, Copy, Debug, PartialEq, Eq, Structural)]
pub enum Protocol {
    Stream,
    Datagram,
}

/// The endpoints of the proxied connection.
#[derive(Clone, Copy, Debug, PartialEq, Eq, Structural)]
pub struct Address {
    pub protocol: Protocol,
    pub source: SocketAddress,
    pub destination: SocketAddress,
}

/// A decoded header: the proxied address, if the sender gave one, and the
/// bytes of the extension fields that followed it.
#[derive(Clone, Debug)]
pub struct Header(pub Option<Address>, pub Vec<u8>);

/// The mathematical content of a `Header`.
pub struct HeaderView {
    pub address: Option<Address>,
    pub tlvs: Seq<u8>,
}

impl View for Header {
    type V = HeaderView;

    open spec fn view(&self) -> HeaderView {
        HeaderView { address: self.0, tlvs: self.1@ }
    }
}

} // verus!
