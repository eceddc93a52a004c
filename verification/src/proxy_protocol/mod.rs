//! The PROXY protocol: a prefix that a load balancer puts before the bytes
//! of a connection, naming the endpoints of the connection it relays.
//!
//! A connection is not known to use the protocol. Its first bytes are
//! gathered until they decode as a header, or can no longer become one; in
//! the second case every byte gathered belongs to the connection itself.
//! `ProxyProtocolStream` then hands out what was gathered beyond the header
//! before anything is read from the transport again.

pub mod header;
pub mod stream;
pub mod utils;
pub mod v1;
pub mod v1_text;
pub mod v2;

use vstd::prelude::*;

use header::{Address, Error, Header, HeaderView};
use v2::{be16, be32};

verus! {

/// The first byte of a version 1 header, `P`.
pub const V1_FIRST_BYTE: u8 = 0x50;

/// The first byte of a version 2 header, a carriage return.
pub const V2_FIRST_BYTE: u8 = 0x0d;

/// The kind of the extension field that tells of TLS on the proxied
/// connection.
pub const TLV_KIND_SSL: u8 = 0x20;

/// The header of either version that `buf` starts with, and its length.
pub open spec fn spec_parse(buf: Seq<u8>) -> Result<(HeaderView, int), Error> {
    if buf.len() == 0 {
        Err(Error::BufferTooShort)
    } else if buf[0] == V1_FIRST_BYTE {
        v1::spec_decode(buf)
    } else if buf[0] == V2_FIRST_BYTE {
        v2::spec_decode(buf)
    } else {
        Err(Error::Invalid)
    }
}

/// What the TLS extension field holds: the client's flags and the result
/// of the verification of its certificate.
#[derive(Clone, Copy, Debug, PartialEq, Eq, Structural)]
pub struct SslInfo {
    pub client: u8,
    pub verify: u32,
}

/// The first field of the given kind with at least `min_len` bytes of
/// value, among the well-formed fields from `pos` on: where its value
/// starts, and the value's length. A field is a byte of kind, a big-endian
/// 16-bit length and a value of that length; the search ends at the first
/// one that the bytes left cannot hold.
pub open spec fn spec_find_tlv(tlvs: Seq<u8>, pos: int, kind: u8, min_len: int) -> Option<
    (int, int),
>
    decreases tlvs.len() - pos,
{
    if pos < 0 || pos + 3 > tlvs.len() {
        None
    } else {
        let len = be16(tlvs[pos + 1], tlvs[pos + 2]);
        if pos + 3 + len > tlvs.len() {
            None
        } else if tlvs[pos] == kind && len >= min_len {
            Some((pos + 3, len))
        } else {
            spec_find_tlv(tlvs, pos + 3 + len, kind, min_len)
        }
    }
}

/// What the extension fields say of TLS on the proxied connection.
pub open spec fn spec_ssl(tlvs: Seq<u8>) -> Option<SslInfo> {
    match spec_find_tlv(tlvs, 0, TLV_KIND_SSL, 5) {
        Some((start, _)) => Some(
            SslInfo { client: tlvs[start], verify: be32(tlvs, start + 1) as u32 },
        ),
        None => None,
    }
}

fn find_tlv(tlvs: &[u8], kind: u8, min_len: usize) -> (r: Option<(usize, usize)>)
    ensures
        match r {
            Some((start, len)) => {
                &&& spec_find_tlv(tlvs@, 0, kind, min_len as int) == Some(
                    (start as int, len as int),
                )
                &&& start + len <= tlvs.len()
                &&& len >= min_len
            },
            None => spec_find_tlv(tlvs@, 0, kind, min_len as int) is None,
        },
{
    let mut pos: usize = 0;
    while tlvs.len() - pos >= 3
        invariant
            pos <= tlvs.len(),
            spec_find_tlv(tlvs@, 0, kind, min_len as int) == spec_find_tlv(
                tlvs@,
                pos as int,
                kind,
                min_len as int,
            ),
        decreases tlvs.len() - pos,
    {
        let len: usize = tlvs[pos + 1] as usize * 0x100 + tlvs[pos + 2] as usize;
        if tlvs.len() - pos - 3 < len {
            return None;
        }
        if tlvs[pos] == kind && len >= min_len {
            return Some((pos + 3, len));
        }
        pos = pos + 3 + len;
    }
    None
}

impl Header {
    /// Decodes the header of either version that `buf` starts with.
    ///
    /// Returns the header and the number of bytes it takes;
    /// `Error::BufferTooShort` where more bytes may still complete a
    /// header; `Error::Invalid` where `buf` does not start with one.
    pub fn parse(buf: &[u8]) -> (r: Result<(Header, usize), Error>)
        ensures
            match r {
                Ok((h, n)) => spec_parse(buf@) == Ok::<_, Error>((h@, n as int)) && 0 < n
                    <= buf.len(),
                Err(e) => spec_parse(buf@) == Err::<(HeaderView, int), _>(e),
            },
    {
        if buf.len() == 0 {
            Err(Error::BufferTooShort)
        } else if buf[0] == V1_FIRST_BYTE {
            v1::decode(buf)
        } else if buf[0] == V2_FIRST_BYTE {
            v2::decode(buf)
        } else {
            Err(Error::Invalid)
        }
    }

    /// The endpoints of the proxied connection. `None` stands for a local
    /// or unknown connection, of which the header says nothing.
    pub fn proxied_address(&self) -> (r: Option<&Address>)
        ensures
            match r {
                Some(a) => self@.address == Some(*a),
                None => self@.address is None,
            },
    {
        self.0.as_ref()
    }

    /// The bytes of the extension fields.
    pub fn tlv_bytes(&self) -> (r: &[u8])
        ensures
            r@ == self@.tlvs,
    {
        self.1.as_slice()
    }

    /// What the extension fields say of TLS on the proxied connection:
    /// the first TLS field that is long enough to hold its fixed part.
    pub fn ssl(&self) -> (r: Option<SslInfo>)
        ensures
            r == spec_ssl(self@.tlvs),
    {
        let tlvs = self.1.as_slice();
        match find_tlv(tlvs, TLV_KIND_SSL, 5) {
            Some((start, _)) => {
                let verify = tlvs[start + 1] as u32 * 0x100_0000 + tlvs[start + 2] as u32 * 0x1_0000
                    + tlvs[start + 3] as u32 * 0x100 + tlvs[start + 4] as u32;
                Some(SslInfo { client: tlvs[start], verify })
            },
            None => None,
        }
    }
}

/// The largest number of bytes that a header can take: the fixed part of
/// a version 2 header and the most that its length field can count.
pub const MAX_HEADER_LENGTH: usize = 65551;

/// Gathering the start of a connection comes to an end: once the buffer
/// holds as many bytes as the longest header takes, it decodes or is
/// refused, and no more bytes are asked for.
pub proof fn lemma_gathering_ends(buf: Seq<u8>)
    requires
        buf.len() >= MAX_HEADER_LENGTH,
    ensures
        spec_parse(buf) != Err::<(HeaderView, int), _>(Error::BufferTooShort),
{
}

} // verus!
