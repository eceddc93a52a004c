//! Version 2 of the PROXY protocol: a binary header.
//!
//! Twelve bytes of signature, one byte of version and command, one byte of
//! address family and transport, a big-endian 16-bit length, and then that
//! many bytes: the addresses, followed by extension fields.

use vstd::prelude::*;

use super::header::{Address, Error, Header, HeaderView, Protocol};
use crate::net::{AddressFamily, IpAddress, SocketAddress};
use crate::text::has_at;

verus! {

/// The length of the fixed part of a header.
pub const MIN_LENGTH: usize = 16;

/// The length of the two addresses of a Unix-domain socket pair.
pub const AF_UNIX_ADDRS_LEN: usize = 216;

/// The signature that every header starts with: `\r\n\r\n\0\r\nQUIT\n`.
pub open spec fn magic() -> Seq<u8> {
    seq![
        0x0du8,
        0x0au8,
        0x0du8,
        0x0au8,
        0x00u8,
        0x0du8,
        0x0au8,
        0x51u8,
        0x55u8,
        0x49u8,
        0x54u8,
        0x0au8,
    ]
}

/// The number that two bytes spell, the first one high.
pub open spec fn be16(hi: u8, lo: u8) -> int {
    hi * 0x100 + lo
}

/// The number that the four bytes at `pos` spell in network order.
pub open spec fn be32(buf: Seq<u8>, pos: int) -> int {
    buf[pos] * 0x100_0000 + buf[pos + 1] * 0x1_0000 + buf[pos + 2] * 0x100 + buf[pos + 3]
}

/// The number that the eight bytes at `pos` spell in network order.
pub open spec fn be64(buf: Seq<u8>, pos: int) -> int {
    be32(buf, pos) * 0x1_0000_0000 + be32(buf, pos + 4)
}

/// The number that the sixteen bytes at `pos` spell in network order.
pub open spec fn be128(buf: Seq<u8>, pos: int) -> int {
    be64(buf, pos) * 0x1_0000_0000_0000_0000 + be64(buf, pos + 8)
}

/// The number of bytes that an address of the family takes.
pub open spec fn address_len(family: AddressFamily) -> int {
    match family {
        AddressFamily::Ipv4 => 4,
        AddressFamily::Ipv6 => 16,
    }
}

/// The address of the family that stands at `pos`.
pub open spec fn spec_ip_at(family: AddressFamily, buf: Seq<u8>, pos: int) -> IpAddress {
    match family {
        AddressFamily::Ipv4 => IpAddress::V4(be32(buf, pos) as u32),
        AddressFamily::Ipv6 => IpAddress::V6(be128(buf, pos) as u128),
    }
}

/// The address block of the family that stands at `pos`: source address,
/// destination address, source port, destination port.
pub open spec fn spec_address_at(
    family: AddressFamily,
    protocol: Protocol,
    buf: Seq<u8>,
    pos: int,
) -> Address {
    let n = address_len(family);
    Address {
        protocol,
        source: SocketAddress {
            ip: spec_ip_at(family, buf, pos),
            port: be16(buf[pos + 2 * n], buf[pos + 2 * n + 1]) as u16,
        },
        destination: SocketAddress {
            ip: spec_ip_at(family, buf, pos + n),
            port: be16(buf[pos + 2 * n + 2], buf[pos + 2 * n + 3]) as u16,
        },
    }
}

/// Reads the address block at `pos`, of which the header says that `rest`
/// bytes are left: the block, the position after it and what is then left.
/// A block that the header's length cuts short is invalid.
pub open spec fn spec_parse_addrs(
    family: AddressFamily,
    protocol: Protocol,
    buf: Seq<u8>,
    pos: int,
    rest: int,
) -> Result<(Address, int, int), Error> {
    let need = 2 * address_len(family) + 4;
    if rest < need {
        Err(Error::Invalid)
    } else if buf.len() < pos + need {
        Err(Error::BufferTooShort)
    } else {
        Ok((spec_address_at(family, protocol, buf, pos), pos + need, rest - need))
    }
}

/// What the family byte and the bytes after the fixed part say of the
/// addresses: the block, if the family is one that is read, and the number
/// of bytes that the addresses take.
pub open spec fn spec_addresses(buf: Seq<u8>, rest: int) -> Result<(Option<Address>, int), Error> {
    let family = buf[13];
    if family == 0x00 {
        Ok((None, 0))
    } else if family == 0x11 || family == 0x12 || family == 0x21 || family == 0x22 {
        let af = if family == 0x11 || family == 0x12 {
            AddressFamily::Ipv4
        } else {
            AddressFamily::Ipv6
        };
        let protocol = if family == 0x11 || family == 0x21 {
            Protocol::Stream
        } else {
            Protocol::Datagram
        };
        match spec_parse_addrs(af, protocol, buf, 16, rest) {
            Err(e) => Err(e),
            Ok((a, pos, _)) => Ok((Some(a), pos - 16)),
        }
    } else if family == 0x31 || family == 0x32 {
        if rest < AF_UNIX_ADDRS_LEN {
            Err(Error::Invalid)
        } else {
            Ok((None, AF_UNIX_ADDRS_LEN as int))
        }
    } else {
        Err(Error::Invalid)
    }
}

/// The header that `buf` starts with, and its length.
///
/// The command is `0x20`, local, or `0x21`, proxy. A local header gives
/// no address whatever its address block holds. The bytes between the
/// addresses and the end that the length field sets are the extension
/// fields, kept as they are.
pub open spec fn spec_decode(buf: Seq<u8>) -> Result<(HeaderView, int), Error> {
    if buf.len() < MIN_LENGTH {
        Err(Error::BufferTooShort)
    } else if !has_at(buf, 0, magic()) {
        Err(Error::Invalid)
    } else if buf[12] != 0x20 && buf[12] != 0x21 {
        Err(Error::Invalid)
    } else {
        let rest = be16(buf[14], buf[15]);
        if buf.len() < 16 + rest {
            Err(Error::BufferTooShort)
        } else {
            match spec_addresses(buf, rest) {
                Err(e) => Err(e),
                Ok((addr, used)) => Ok(
                    (
                        HeaderView {
                            address: if buf[12] == 0x20 {
                                None
                            } else {
                                addr
                            },
                            tlvs: buf.subrange(16 + used, 16 + rest),
                        },
                        16 + rest,
                    ),
                ),
            }
        }
    }
}

fn read_be16(buf: &[u8], pos: usize) -> (r: u16)
    requires
        pos + 2 <= buf.len(),
    ensures
        r == be16(buf@[pos as int], buf@[pos + 1]),
{
    buf[pos] as u16 * 0x100 + buf[pos + 1] as u16
}

fn read_be32(buf: &[u8], pos: usize) -> (r: u32)
    requires
        pos + 4 <= buf.len(),
    ensures
        r == be32(buf@, pos as int),
{
    buf[pos] as u32 * 0x100_0000 + buf[pos + 1] as u32 * 0x1_0000 + buf[pos + 2] as u32 * 0x100
        + buf[pos + 3] as u32
}

fn read_be128(buf: &[u8], pos: usize) -> (r: u128)
    requires
        pos + 16 <= buf.len(),
    ensures
        r == be128(buf@, pos as int),
{
    let a = read_be32(buf, pos) as u128;
    let b = read_be32(buf, pos + 4) as u128;
    let c = read_be32(buf, pos + 8) as u128;
    let d = read_be32(buf, pos + 12) as u128;
    (a * 0x1_0000_0000 + b) * 0x1_0000_0000_0000_0000 + (c * 0x1_0000_0000 + d)
}

fn read_ip(family: AddressFamily, buf: &[u8], pos: usize) -> (r: IpAddress)
    requires
        pos + address_len(family) <= buf.len(),
    ensures
        r == spec_ip_at(family, buf@, pos as int),
{
    match family {
        AddressFamily::Ipv4 => IpAddress::V4(read_be32(buf, pos)),
        AddressFamily::Ipv6 => IpAddress::V6(read_be128(buf, pos)),
    }
}

/// Reads the address block at `pos` and moves `pos` past it, taking its
/// length off `rest`, the number of bytes that the header says are left.
pub fn parse_addrs(
    buf: &[u8],
    pos: &mut usize,
    rest: &mut usize,
    family: AddressFamily,
    protocol: Protocol,
) -> (r: Result<Address, Error>)
    requires
        *old(pos) <= buf.len(),
    ensures
        match r {
            Ok(a) => {
                &&& spec_parse_addrs(
                    family,
                    protocol,
                    buf@,
                    *old(pos) as int,
                    *old(rest) as int,
                ) == Ok::<_, Error>((a, *final(pos) as int, *final(rest) as int))
                &&& *final(pos) <= buf.len()
            },
            Err(e) => {
                &&& spec_parse_addrs(
                    family,
                    protocol,
                    buf@,
                    *old(pos) as int,
                    *old(rest) as int,
                ) == Err::<(Address, int, int), _>(e)
                &&& *final(pos) == *old(pos)
                &&& *final(rest) == *old(rest)
            },
        },
{
    let n: usize = match family {
        AddressFamily::Ipv4 => 4,
        AddressFamily::Ipv6 => 16,
    };
    let need: usize = 2 * n + 4;
    if *rest < need {
        return Err(Error::Invalid);
    }
    if buf.len() - *pos < need {
        return Err(Error::BufferTooShort);
    }
    let at: usize = *pos;
    let addr = Address {
        protocol,
        source: SocketAddress { ip: read_ip(family, buf, at), port: read_be16(buf, at + 2 * n) },
        destination: SocketAddress {
            ip: read_ip(family, buf, at + n),
            port: read_be16(buf, at + 2 * n + 2),
        },
    };
    *rest = *rest - need;
    *pos = at + need;
    Ok(addr)
}

fn starts_with_magic(buf: &[u8]) -> (r: bool)
    requires
        buf.len() >= 12,
    ensures
        r == has_at(buf@, 0, magic()),
{
    let r = buf[0] == 0x0d && buf[1] == 0x0a && buf[2] == 0x0d && buf[3] == 0x0a && buf[4] == 0x00
        && buf[5] == 0x0d && buf[6] == 0x0a && buf[7] == 0x51 && buf[8] == 0x55 && buf[9] == 0x49
        && buf[10] == 0x54 && buf[11] == 0x0a;
    proof {
        let s = buf@.subrange(0, 12);
        if r {
            assert(s =~= magic());
        } else {
            assert(s[0] == buf@[0] && s[1] == buf@[1] && s[2] == buf@[2] && s[3] == buf@[3] && s[4]
                == buf@[4] && s[5] == buf@[5] && s[6] == buf@[6] && s[7] == buf@[7] && s[8]
                == buf@[8] && s[9] == buf@[9] && s[10] == buf@[10] && s[11] == buf@[11]);
        }
    }
    r
}

/// Reads the addresses that the family byte announces.
fn decode_addresses(buf: &[u8], rest: usize) -> (r: Result<(Option<Address>, usize), Error>)
    requires
        buf.len() >= 16 + rest,
    ensures
        match r {
            Ok((a, used)) => spec_addresses(buf@, rest as int) == Ok::<_, Error>((a, used as int))
                && used <= rest,
            Err(e) => spec_addresses(buf@, rest as int) == Err::<(Option<Address>, int), _>(e),
        },
{
    let family = buf[13];
    if family == 0x00 {
        Ok((None, 0))
    } else if family == 0x11 || family == 0x12 || family == 0x21 || family == 0x22 {
        let af = if family == 0x11 || family == 0x12 {
            AddressFamily::Ipv4
        } else {
            AddressFamily::Ipv6
        };
        let protocol = if family == 0x11 || family == 0x21 {
            Protocol::Stream
        } else {
            Protocol::Datagram
        };
        let mut pos: usize = 16;
        let mut left: usize = rest;
        match parse_addrs(buf, &mut pos, &mut left, af, protocol) {
            Ok(a) => Ok((Some(a), pos - 16)),
            Err(e) => Err(e),
        }
    } else if family == 0x31 || family == 0x32 {
        if rest < AF_UNIX_ADDRS_LEN {
            Err(Error::Invalid)
        } else {
            Ok((None, AF_UNIX_ADDRS_LEN))
        }
    } else {
        Err(Error::Invalid)
    }
}

/// Decodes the version 2 header that `buf` starts with.
///
/// Returns the header and the number of bytes it takes.
pub fn decode(buf: &[u8]) -> (r: Result<(Header, usize), Error>)
    ensures
        match r {
            Ok((h, n)) => spec_decode(buf@) == Ok::<_, Error>((h@, n as int)) && MIN_LENGTH <= n
                <= buf.len(),
            Err(e) => spec_decode(buf@) == Err::<(HeaderView, int), _>(e),
        },
{
    if buf.len() < MIN_LENGTH {
        return Err(Error::BufferTooShort);
    }
    if !starts_with_magic(buf) {
        return Err(Error::Invalid);
    }
    let is_local = if buf[12] == 0x20 {
        true
    } else if buf[12] == 0x21 {
        false
    } else {
        return Err(Error::Invalid);
    };
    let rest: usize = read_be16(buf, 14) as usize;
    if buf.len() - 16 < rest {
        return Err(Error::BufferTooShort);
    }
    let (addr_info, used) = match decode_addresses(buf, rest) {
        Ok(found) => found,
        Err(e) => {
            return Err(e);
        },
    };
    let tlv_data = vstd::slice::slice_to_vec(&buf[16 + used..16 + rest]);
    let header = if is_local {
        Header(None, tlv_data)
    } else {
        Header(addr_info, tlv_data)
    };
    Ok((header, 16 + rest))
}

/// A header whose family byte is zero gives no address, keeps all the bytes
/// that its length field counts as extension fields, and ends after them.
pub proof fn lemma_unspecified_family(buf: Seq<u8>)
    requires
        buf.len() >= MIN_LENGTH,
        has_at(buf, 0, magic()),
        buf[12] == 0x20 || buf[12] == 0x21,
        buf[13] == 0x00,
        buf.len() >= 16 + be16(buf[14], buf[15]),
    ensures
        spec_decode(buf) == Ok::<_, Error>(
            (
                HeaderView {
                    address: None,
                    tlvs: buf.subrange(16, 16 + be16(buf[14], buf[15])),
                },
                16 + be16(buf[14], buf[15]),
            ),
        ),
{
}

} // verus!
