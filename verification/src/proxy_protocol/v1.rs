//! Version 1 of the PROXY protocol: one line of text.
//!
//! ```text
//! PROXY TCP4 <source> <destination> <source port> <destination port>\r\n
//! PROXY TCP6 <source> <destination> <source port> <destination port>\r\n
//! PROXY UNKNOWN ... \r\n
//! ```

use vstd::prelude::*;

use super::header::{Address, Error, Header, HeaderView, Protocol};
use super::utils::read_until;
use crate::net::{parse_ip, spec_ip, AddressFamily, IpAddress, SocketAddress};
use crate::text::{
    find_from, has_at, lemma_find_from_is, lemma_find_from_none, parse_unsigned, spec_unsigned,
    CR, LF, SPACE,
};

verus! {

/// A header this long that has not ended yet will not be waited for.
pub const MAX_LENGTH: usize = 107;

/// The length of the shortest header, `PROXY UNKNOWN\r\n`.
pub const MIN_LENGTH: usize = 15;

/// `PROXY`
pub open spec fn greeting() -> Seq<u8> {
    seq![0x50u8, 0x52u8, 0x4fu8, 0x58u8, 0x59u8]
}

/// `UNKNOWN`
pub open spec fn unknown_word() -> Seq<u8> {
    seq![0x55u8, 0x4eu8, 0x4bu8, 0x4eu8, 0x4fu8, 0x57u8, 0x4eu8]
}

/// `TCP4 `
pub open spec fn tcp4_word() -> Seq<u8> {
    seq![0x54u8, 0x43u8, 0x50u8, 0x34u8, 0x20u8]
}

/// `TCP6 `
pub open spec fn tcp6_word() -> Seq<u8> {
    seq![0x54u8, 0x43u8, 0x50u8, 0x36u8, 0x20u8]
}

/// An address that ends at the next space: the address, and the position
/// after the space.
pub open spec fn spec_parse_addr(family: AddressFamily, buf: Seq<u8>, pos: int) -> Result<
    (IpAddress, int),
    Error,
> {
    match find_from(buf, pos, SPACE) {
        None => Err(Error::BufferTooShort),
        Some(i) => match spec_ip(family, buf.subrange(pos, i)) {
            Some(a) => Ok((a, i + 1)),
            None => Err(Error::Invalid),
        },
    }
}

/// A port that ends at the next `delim`: the port, and the position after
/// the delimiter.
pub open spec fn spec_parse_port(buf: Seq<u8>, pos: int, delim: u8) -> Result<(u16, int), Error> {
    match find_from(buf, pos, delim) {
        None => Err(Error::BufferTooShort),
        Some(i) => match spec_unsigned(buf.subrange(pos, i), 0xffff) {
            Some(p) => Ok((p as u16, i + 1)),
            None => Err(Error::Invalid),
        },
    }
}

/// The four fields after the family: source and destination address, then
/// source and destination port, the last one ended by a carriage return.
#[verifier::opaque]
pub open spec fn spec_parse_addrs(family: AddressFamily, buf: Seq<u8>, pos: int) -> Result<
    (Address, int),
    Error,
> {
    match spec_parse_addr(family, buf, pos) {
        Err(e) => Err(e),
        Ok((src, p1)) => match spec_parse_addr(family, buf, p1) {
            Err(e) => Err(e),
            Ok((dst, p2)) => match spec_parse_port(buf, p2, SPACE) {
                Err(e) => Err(e),
                Ok((src_port, p3)) => match spec_parse_port(buf, p3, CR) {
                    Err(e) => Err(e),
                    Ok((dst_port, p4)) => Ok(
                        (
                            Address {
                                protocol: Protocol::Stream,
                                source: SocketAddress { ip: src, port: src_port },
                                destination: SocketAddress { ip: dst, port: dst_port },
                            },
                            p4,
                        ),
                    ),
                },
            },
        },
    }
}

/// What follows `PROXY `, up to and including the carriage return.
#[verifier::opaque]
pub open spec fn spec_decode_body(buf: Seq<u8>) -> Result<(Option<Address>, int), Error> {
    if has_at(buf, 6, unknown_word()) {
        match find_from(buf, 6, CR) {
            None => Err(Error::BufferTooShort),
            Some(i) => Ok((None, i + 1)),
        }
    } else if has_at(buf, 6, tcp4_word()) {
        match spec_parse_addrs(AddressFamily::Ipv4, buf, 11) {
            Ok((a, p)) => Ok((Some(a), p)),
            Err(e) => Err(e),
        }
    } else if has_at(buf, 6, tcp6_word()) {
        match spec_parse_addrs(AddressFamily::Ipv6, buf, 11) {
            Ok((a, p)) => Ok((Some(a), p)),
            Err(e) => Err(e),
        }
    } else {
        Err(Error::Invalid)
    }
}

/// The header that `buf` starts with, and its length, with no limit on
/// that length.
pub open spec fn spec_decode_inner(buf: Seq<u8>) -> Result<(Option<Address>, int), Error> {
    if buf.len() < MIN_LENGTH {
        Err(Error::BufferTooShort)
    } else if !has_at(buf, 0, greeting()) || buf[5] != SPACE {
        Err(Error::Invalid)
    } else {
        match spec_decode_body(buf) {
            Err(e) => Err(e),
            Ok((addr, pos)) => if pos >= buf.len() {
                Err(Error::BufferTooShort)
            } else if buf[pos] == LF {
                Ok((addr, pos + 1))
            } else {
                Err(Error::Invalid)
            },
        }
    }
}

/// The header that `buf` starts with, and its length. A header is at most
/// `MAX_LENGTH` bytes long: a line that ends later is invalid, and so is a
/// buffer of `MAX_LENGTH` bytes or more in which the line has not ended.
pub open spec fn spec_decode(buf: Seq<u8>) -> Result<(HeaderView, int), Error> {
    match spec_decode_inner(buf) {
        Err(Error::BufferTooShort) => if buf.len() >= MAX_LENGTH {
            Err(Error::Invalid)
        } else {
            Err(Error::BufferTooShort)
        },
        Err(e) => Err(e),
        Ok((addr, n)) => if n > MAX_LENGTH {
            Err(Error::Invalid)
        } else {
            Ok((HeaderView { address: addr, tlvs: Seq::empty() }, n))
        },
    }
}

/// Reads the field that starts at `pos` and ends at the next `delim`.
fn read_field<'a>(buf: &'a [u8], pos: usize, delim: u8) -> (r: Option<&'a [u8]>)
    requires
        pos <= buf.len(),
    ensures
        match r {
            Some(s) => {
                &&& find_from(buf@, pos as int, delim) == Some(pos + s@.len())
                &&& pos + s@.len() < buf@.len()
                &&& s@ == buf@.subrange(pos as int, pos + s@.len())
            },
            None => find_from(buf@, pos as int, delim) is None,
        },
{
    let rest = &buf[pos..buf.len()];
    match read_until(rest, delim) {
        Some(s) => {
            proof {
                assert forall|j: int| pos <= j < pos + s@.len() implies buf@[j] != delim by {
                    assert(buf@[j] == rest@[j - pos]);
                    assert(rest@[j - pos] == s@[j - pos]);
                }
                assert(buf@[pos + s@.len()] == rest@[s@.len() as int]);
                lemma_find_from_is(buf@, pos as int, delim, pos + s@.len());
                assert(s@ =~= buf@.subrange(pos as int, pos + s@.len()));
            }
            Some(s)
        },
        None => {
            proof {
                assert forall|j: int| pos <= j < buf@.len() implies buf@[j] != delim by {
                    assert(buf@[j] == rest@[j - pos]);
                }
                lemma_find_from_none(buf@, pos as int, delim);
            }
            None
        },
    }
}

/// Reads the address that starts at `pos` and moves `pos` past the space
/// that ends it.
pub fn parse_addr(buf: &[u8], pos: &mut usize, family: AddressFamily) -> (r: Result<
    IpAddress,
    Error,
>)
    requires
        *old(pos) <= buf.len(),
    ensures
        match r {
            Ok(a) => {
                &&& spec_parse_addr(family, buf@, *old(pos) as int) == Ok::<_, Error>(
                    (a, *final(pos) as int),
                )
                &&& *old(pos) < *final(pos) <= buf.len()
            },
            Err(e) => {
                &&& spec_parse_addr(family, buf@, *old(pos) as int) == Err::<(IpAddress, int), _>(e)
                &&& *final(pos) == *old(pos)
            },
        },
{
    let address = match read_field(buf, *pos, SPACE) {
        Some(s) => s,
        None => {
            return Err(Error::BufferTooShort);
        },
    };
    match parse_ip(family, address) {
        Some(a) => {
            *pos = *pos + address.len() + 1;
            Ok(a)
        },
        None => Err(Error::Invalid),
    }
}

/// Reads the port that starts at `pos` and moves `pos` past the `delim`
/// that ends it.
pub fn parse_port(buf: &[u8], pos: &mut usize, delim: u8) -> (r: Result<u16, Error>)
    requires
        *old(pos) <= buf.len(),
    ensures
        match r {
            Ok(p) => {
                &&& spec_parse_port(buf@, *old(pos) as int, delim) == Ok::<_, Error>(
                    (p, *final(pos) as int),
                )
                &&& *old(pos) < *final(pos) <= buf.len()
            },
            Err(e) => {
                &&& spec_parse_port(buf@, *old(pos) as int, delim) == Err::<(u16, int), _>(e)
                &&& *final(pos) == *old(pos)
            },
        },
{
    let port = match read_field(buf, *pos, delim) {
        Some(s) => s,
        None => {
            return Err(Error::BufferTooShort);
        },
    };
    match parse_unsigned(port, 0xffff) {
        Some(p) => {
            *pos = *pos + port.len() + 1;
            Ok(p as u16)
        },
        None => Err(Error::Invalid),
    }
}

/// Reads the two addresses and the two ports that start at `pos` and moves
/// `pos` past the carriage return that ends them.
pub fn parse_addrs(buf: &[u8], pos: &mut usize, family: AddressFamily) -> (r: Result<
    Address,
    Error,
>)
    requires
        *old(pos) <= buf.len(),
    ensures
        match r {
            Ok(a) => {
                &&& spec_parse_addrs(family, buf@, *old(pos) as int) == Ok::<_, Error>(
                    (a, *final(pos) as int),
                )
                &&& *old(pos) < *final(pos) <= buf.len()
            },
            Err(e) => spec_parse_addrs(family, buf@, *old(pos) as int) == Err::<(Address, int), _>(
                e,
            ),
        },
{
    reveal(spec_parse_addrs);
    let src_addr = match parse_addr(buf, pos, family) {
        Ok(a) => a,
        Err(e) => {
            return Err(e);
        },
    };
    let dst_addr = match parse_addr(buf, pos, family) {
        Ok(a) => a,
        Err(e) => {
            return Err(e);
        },
    };
    let src_port = match parse_port(buf, pos, SPACE) {
        Ok(p) => p,
        Err(e) => {
            return Err(e);
        },
    };
    let dst_port = match parse_port(buf, pos, CR) {
        Ok(p) => p,
        Err(e) => {
            return Err(e);
        },
    };
    Ok(
        Address {
            protocol: Protocol::Stream,
            source: SocketAddress { ip: src_addr, port: src_port },
            destination: SocketAddress { ip: dst_addr, port: dst_port },
        },
    )
}

fn starts_with_greeting(buf: &[u8]) -> (r: bool)
    requires
        buf.len() >= 6,
    ensures
        r == (has_at(buf@, 0, greeting()) && buf@[5] == SPACE),
{
    let r = buf[0] == 0x50 && buf[1] == 0x52 && buf[2] == 0x4f && buf[3] == 0x58 && buf[4] == 0x59;
    proof {
        if r {
            assert(buf@.subrange(0, 5) =~= greeting());
        } else {
            let s = buf@.subrange(0, 5);
            assert(s[0] == buf@[0] && s[1] == buf@[1] && s[2] == buf@[2] && s[3] == buf@[3] && s[4]
                == buf@[4]);
        }
    }
    r && buf[5] == SPACE
}

fn has_unknown(buf: &[u8]) -> (r: bool)
    requires
        buf.len() >= 13,
    ensures
        r == has_at(buf@, 6, unknown_word()),
{
    let r = buf[6] == 0x55 && buf[7] == 0x4e && buf[8] == 0x4b && buf[9] == 0x4e && buf[10] == 0x4f
        && buf[11] == 0x57 && buf[12] == 0x4e;
    proof {
        let s = buf@.subrange(6, 13);
        if r {
            assert(s =~= unknown_word());
        } else {
            assert(s[0] == buf@[6] && s[1] == buf@[7] && s[2] == buf@[8] && s[3] == buf@[9] && s[4]
                == buf@[10] && s[5] == buf@[11] && s[6] == buf@[12]);
        }
    }
    r
}

fn has_tcp4(buf: &[u8]) -> (r: bool)
    requires
        buf.len() >= 11,
    ensures
        r == has_at(buf@, 6, tcp4_word()),
{
    let r = buf[6] == 0x54 && buf[7] == 0x43 && buf[8] == 0x50 && buf[9] == 0x34 && buf[10]
        == 0x20;
    proof {
        let s = buf@.subrange(6, 11);
        if r {
            assert(s =~= tcp4_word());
        } else {
            assert(s[0] == buf@[6] && s[1] == buf@[7] && s[2] == buf@[8] && s[3] == buf@[9] && s[4]
                == buf@[10]);
        }
    }
    r
}

fn has_tcp6(buf: &[u8]) -> (r: bool)
    requires
        buf.len() >= 11,
    ensures
        r == has_at(buf@, 6, tcp6_word()),
{
    let r = buf[6] == 0x54 && buf[7] == 0x43 && buf[8] == 0x50 && buf[9] == 0x36 && buf[10]
        == 0x20;
    proof {
        let s = buf@.subrange(6, 11);
        if r {
            assert(s =~= tcp6_word());
        } else {
            assert(s[0] == buf@[6] && s[1] == buf@[7] && s[2] == buf@[8] && s[3] == buf@[9] && s[4]
                == buf@[10]);
        }
    }
    r
}

/// Decodes what follows `PROXY `, up to and including the carriage return.
fn decode_body(buf: &[u8]) -> (r: Result<(Option<Address>, usize), Error>)
    requires
        buf.len() >= MIN_LENGTH,
    ensures
        match r {
            Ok((a, p)) => spec_decode_body(buf@) == Ok::<_, Error>((a, p as int)) && 6 < p
                <= buf.len(),
            Err(e) => spec_decode_body(buf@) == Err::<(Option<Address>, int), _>(e),
        },
{
    reveal(spec_decode_body);
    if has_unknown(buf) {
        match read_field(buf, 6, CR) {
            Some(rest) => Ok((None, 6 + rest.len() + 1)),
            None => Err(Error::BufferTooShort),
        }
    } else if has_tcp4(buf) {
        let mut pos: usize = 11;
        match parse_addrs(buf, &mut pos, AddressFamily::Ipv4) {
            Ok(a) => Ok((Some(a), pos)),
            Err(e) => Err(e),
        }
    } else if has_tcp6(buf) {
        let mut pos: usize = 11;
        match parse_addrs(buf, &mut pos, AddressFamily::Ipv6) {
            Ok(a) => Ok((Some(a), pos)),
            Err(e) => Err(e),
        }
    } else {
        Err(Error::Invalid)
    }
}

/// Decodes the header that `buf` starts with, whatever its length.
pub fn decode_inner(buf: &[u8]) -> (r: Result<(Header, usize), Error>)
    ensures
        match r {
            Ok((h, n)) => {
                &&& spec_decode_inner(buf@) == Ok::<_, Error>((h@.address, n as int))
                &&& h@.tlvs == Seq::<u8>::empty()
                &&& 0 < n <= buf.len()
            },
            Err(e) => spec_decode_inner(buf@) == Err::<(Option<Address>, int), _>(e),
        },
{
    if buf.len() < MIN_LENGTH {
        return Err(Error::BufferTooShort);
    }
    if !starts_with_greeting(buf) {
        return Err(Error::Invalid);
    }
    let (addrs, pos) = match decode_body(buf) {
        Ok(found) => found,
        Err(e) => {
            return Err(e);
        },
    };
    if pos >= buf.len() {
        return Err(Error::BufferTooShort);
    }
    if buf[pos] != LF {
        return Err(Error::Invalid);
    }
    Ok((Header(addrs, Vec::new()), pos + 1))
}

/// Decodes the version 1 header that `buf` starts with.
///
/// Returns the header and the number of bytes it takes, which are at most
/// `MAX_LENGTH`. The format is delimited, so a sender could hold the line
/// open for ever: a line that has not ended within `MAX_LENGTH` bytes is
/// refused, whether or not its end has come by then.
pub fn decode(buf: &[u8]) -> (r: Result<(Header, usize), Error>)
    ensures
        match r {
            Ok((h, n)) => spec_decode(buf@) == Ok::<_, Error>((h@, n as int)) && 0 < n <= buf.len()
                && n <= MAX_LENGTH,
            Err(e) => spec_decode(buf@) == Err::<(HeaderView, int), _>(e),
        },
{
    match decode_inner(buf) {
        Err(Error::BufferTooShort) => {
            if buf.len() >= MAX_LENGTH {
                Err(Error::Invalid)
            } else {
                Err(Error::BufferTooShort)
            }
        },
        Err(e) => Err(e),
        Ok((h, n)) => {
            if n > MAX_LENGTH {
                return Err(Error::Invalid);
            }
            proof {
                assert(h@ == HeaderView { address: h@.address, tlvs: Seq::<u8>::empty() });
            }
            Ok((h, n))
        },
    }
}

} // verus!
