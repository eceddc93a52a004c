//! The text of a version 1 header, and what the decoder makes of it.

use vstd::prelude::*;

use super::header::{Address, Error, HeaderView, Protocol};
use super::spec_parse;
use super::v1::{
    greeting, spec_decode, spec_decode_body, spec_parse_addr, spec_parse_addrs, spec_parse_port,
    tcp4_word, tcp6_word, unknown_word, MAX_LENGTH,
};
use crate::net::{AddressFamily, IpAddress};
use crate::net_text::{family_of, ip_text, is_address_byte, lemma_ip_round_trip};
use crate::text::{
    agrees, decimal_text, has_at, is_digit, lemma_decimal_text, lemma_field_in_buffer,
    lemma_find_after_field, lemma_find_in_cut_field, lemma_starts_with_field,
    lemma_starts_with_self, lemma_starts_with_start, lemma_unsigned_round_trip, starts_with,
    with_field, CR, LF, SPACE,
};

verus! {

/// Whether version 1 can carry the address: a stream between two
/// endpoints of one family.
pub open spec fn is_v1_address(addr: Address) -> bool {
    addr.protocol == Protocol::Stream && family_of(addr.source.ip) == family_of(
        addr.destination.ip,
    )
}

/// The word that names the family, with the space after it.
pub open spec fn family_word(family: AddressFamily) -> Seq<u8> {
    match family {
        AddressFamily::Ipv4 => tcp4_word(),
        AddressFamily::Ipv6 => tcp6_word(),
    }
}

/// `PROXY`, a space, and the word that names the family.
pub open spec fn line_start(family: AddressFamily) -> Seq<u8> {
    greeting() + seq![SPACE] + family_word(family)
}

/// The version 1 header that announces `addr`:
/// `PROXY`, the family, both addresses, both ports, each followed by a
/// space, but the last port by a carriage return and a line feed.
pub open spec fn encode(addr: Address) -> Seq<u8> {
    with_address(line_start(family_of(addr.source.ip)), addr) + seq![LF]
}

/// Reading an address where its text and a space stand, as far as the
/// buffer goes: the address once the space is there, and a call for more
/// bytes before.
proof fn lemma_addr_step(buf: Seq<u8>, pos: int, ip: IpAddress)
    requires
        0 <= pos <= buf.len(),
        forall|j: int|
            0 <= j < ip_text(ip).len() && pos + j < buf.len() ==> buf[pos + j] == ip_text(ip)[j],
        pos + ip_text(ip).len() < buf.len() ==> buf[pos + ip_text(ip).len()] == SPACE,
    ensures
        spec_parse_addr(family_of(ip), buf, pos) == if pos + ip_text(ip).len() < buf.len() {
            Ok::<_, Error>((ip, pos + ip_text(ip).len() + 1))
        } else {
            Err::<(IpAddress, int), _>(Error::BufferTooShort)
        },
{
    let t = ip_text(ip);
    lemma_ip_round_trip(ip);
    assert forall|j: int| 0 <= j < t.len() implies t[j] != SPACE by {
        assert(is_address_byte(t[j]));
    }
    if pos + t.len() < buf.len() {
        lemma_find_after_field(buf, pos, t, SPACE);
    } else {
        lemma_find_in_cut_field(buf, pos, t, SPACE);
    }
}

/// Reading a port where its text and the delimiter stand, as far as the
/// buffer goes.
proof fn lemma_port_step(buf: Seq<u8>, pos: int, port: u16, delim: u8)
    requires
        0 <= pos <= buf.len(),
        delim == SPACE || delim == CR,
        forall|j: int|
            0 <= j < decimal_text(port as nat).len() && pos + j < buf.len() ==> buf[pos + j]
                == decimal_text(port as nat)[j],
        pos + decimal_text(port as nat).len() < buf.len() ==> buf[pos + decimal_text(
            port as nat,
        ).len()] == delim,
    ensures
        spec_parse_port(buf, pos, delim) == if pos + decimal_text(port as nat).len() < buf.len() {
            Ok::<_, Error>((port, pos + decimal_text(port as nat).len() + 1))
        } else {
            Err::<(u16, int), _>(Error::BufferTooShort)
        },
{
    let t = decimal_text(port as nat);
    lemma_decimal_text(port as nat);
    lemma_unsigned_round_trip(port as nat, 0xffff);
    assert forall|j: int| 0 <= j < t.len() implies t[j] != delim by {
        assert(is_digit(t[j]));
    }
    if pos + t.len() < buf.len() {
        lemma_find_after_field(buf, pos, t, delim);
    } else {
        lemma_find_in_cut_field(buf, pos, t, delim);
    }
}

/// `pre`, then the four fields of `addr`, each with the delimiter that
/// ends it.
#[verifier::opaque]
pub open spec fn with_address(pre: Seq<u8>, addr: Address) -> Seq<u8> {
    with_field(
        with_field(
            with_field(
                with_field(pre, ip_text(addr.source.ip), SPACE),
                ip_text(addr.destination.ip),
                SPACE,
            ),
            decimal_text(addr.source.port as nat),
            SPACE,
        ),
        decimal_text(addr.destination.port as nat),
        CR,
    )
}

/// The four fields are at most 92 bytes long, delimiters included.
proof fn lemma_with_address_len(pre: Seq<u8>, addr: Address)
    ensures
        pre.len() + 8 <= with_address(pre, addr).len() <= pre.len() + 92,
        starts_with(with_address(pre, addr), pre),
{
    reveal(with_address);
    let e1 = with_field(pre, ip_text(addr.source.ip), SPACE);
    let e2 = with_field(e1, ip_text(addr.destination.ip), SPACE);
    let e3 = with_field(e2, decimal_text(addr.source.port as nat), SPACE);
    let e4 = with_field(e3, decimal_text(addr.destination.port as nat), CR);
    assert(starts_with(e4, e4));
    lemma_starts_with_field(e4, e3, decimal_text(addr.destination.port as nat), CR);
    lemma_starts_with_field(e3, e2, decimal_text(addr.source.port as nat), SPACE);
    lemma_starts_with_field(e2, e1, ip_text(addr.destination.ip), SPACE);
    lemma_starts_with_field(e1, pre, ip_text(addr.source.ip), SPACE);
    lemma_starts_with_start(e2, e1, pre);
    lemma_starts_with_start(e3, e2, pre);
    lemma_starts_with_start(e4, e3, pre);
    lemma_ip_round_trip(addr.source.ip);
    lemma_ip_round_trip(addr.destination.ip);
    lemma_decimal_text(addr.source.port as nat);
    lemma_decimal_text(addr.destination.port as nat);
}

/// Reading the four fields of `addr` where they stand in a line, from a
/// buffer that agrees with the line: the address once the last delimiter
/// is there, and a call for more bytes before.
proof fn lemma_addrs_in_buffer(buf: Seq<u8>, line: Seq<u8>, pre: Seq<u8>, addr: Address)
    requires
        is_v1_address(addr),
        agrees(buf, line),
        pre.len() <= buf.len(),
        starts_with(line, with_address(pre, addr)),
    ensures
        spec_parse_addrs(family_of(addr.source.ip), buf, pre.len() as int) == if with_address(
            pre,
            addr,
        ).len() <= buf.len() {
            Ok::<_, Error>((addr, with_address(pre, addr).len() as int))
        } else {
            Err::<(Address, int), _>(Error::BufferTooShort)
        },
{
    reveal(with_address);
    reveal(spec_parse_addrs);
    let src = ip_text(addr.source.ip);
    let dst = ip_text(addr.destination.ip);
    let sp = decimal_text(addr.source.port as nat);
    let dp = decimal_text(addr.destination.port as nat);
    let e1 = with_field(pre, src, SPACE);
    let e2 = with_field(e1, dst, SPACE);
    let e3 = with_field(e2, sp, SPACE);
    let p0: int = pre.len() as int;
    let p1: int = e1.len() as int;
    let p2: int = e2.len() as int;
    let p3: int = e3.len() as int;
    lemma_starts_with_field(line, e3, dp, CR);
    lemma_starts_with_field(line, e2, sp, SPACE);
    lemma_starts_with_field(line, e1, dst, SPACE);
    lemma_field_in_buffer(buf, line, pre, src, SPACE);
    lemma_addr_step(buf, p0, addr.source.ip);
    if p1 <= buf.len() {
        lemma_field_in_buffer(buf, line, e1, dst, SPACE);
        lemma_addr_step(buf, p1, addr.destination.ip);
        if p2 <= buf.len() {
            lemma_field_in_buffer(buf, line, e2, sp, SPACE);
            lemma_port_step(buf, p2, addr.source.port, SPACE);
            if p3 <= buf.len() {
                lemma_field_in_buffer(buf, line, e3, dp, CR);
                lemma_port_step(buf, p3, addr.destination.port, CR);
            }
        }
    }
}

/// Where the buffer agrees with a line that starts with `PROXY `: whether
/// the family word that follows is the one of `family`, and that the word
/// is never `UNKNOWN`.
proof fn lemma_family_word(buf: Seq<u8>, line: Seq<u8>, family: AddressFamily)
    requires
        buf.len() >= 15,
        agrees(buf, line),
        starts_with(line, line_start(family)),
        line.len() >= 11,
    ensures
        has_at(buf, 0, greeting()),
        buf[5] == SPACE,
        !has_at(buf, 6, unknown_word()),
        has_at(buf, 6, tcp4_word()) == (family == AddressFamily::Ipv4),
        has_at(buf, 6, tcp6_word()) == (family == AddressFamily::Ipv6),
{
    let start = line_start(family);
    assert(start.len() == 11);
    assert forall|j: int| 0 <= j < 11 implies buf[j] == start[j] by {
        assert(line[j] == start[j]);
    }
    assert(forall|j: int| 0 <= j < 5 ==> start[j] == greeting()[j]);
    assert(start[5] == SPACE);
    assert(forall|j: int| 0 <= j < 5 ==> start[6 + j] == family_word(family)[j]);
    assert(buf.subrange(0, 5) =~= greeting());
    let word = buf.subrange(6, 11);
    assert(word =~= family_word(family));
    assert(buf.subrange(6, 13)[0] == buf[6]);
    assert(word[3] == buf[9]);
}

/// What stands after `PROXY ` in a buffer that agrees with the header of
/// `addr`.
proof fn lemma_body_of_encoded(addr: Address, buf: Seq<u8>)
    requires
        is_v1_address(addr),
        agrees(buf, encode(addr)),
        buf.len() >= 15,
    ensures
        has_at(buf, 0, greeting()),
        buf[5] == SPACE,
        spec_decode_body(buf) == if encode(addr).len() - 1 <= buf.len() {
            Ok::<_, Error>((Some(addr), encode(addr).len() - 1))
        } else {
            Err::<(Option<Address>, int), _>(Error::BufferTooShort)
        },
{
    let line = encode(addr);
    let family = family_of(addr.source.ip);
    let pre = line_start(family);
    let fields = with_address(pre, addr);
    assert(pre.len() == 11);
    lemma_with_address_len(pre, addr);
    lemma_starts_with_self(fields, seq![LF]);
    lemma_starts_with_start(line, fields, pre);
    lemma_family_word(buf, line, family);
    lemma_addrs_in_buffer(buf, line, pre, addr);
    lemma_body_from_fields(buf, family);
}

/// What stands after `PROXY ` where the family word is that of `family`:
/// what reading the four fields gives.
proof fn lemma_body_from_fields(buf: Seq<u8>, family: AddressFamily)
    requires
        !has_at(buf, 6, unknown_word()),
        has_at(buf, 6, tcp4_word()) == (family == AddressFamily::Ipv4),
        has_at(buf, 6, tcp6_word()) == (family == AddressFamily::Ipv6),
    ensures
        spec_decode_body(buf) == match spec_parse_addrs(family, buf, 11) {
            Ok((a, p)) => Ok::<_, Error>((Some(a), p)),
            Err(e) => Err::<(Option<Address>, int), _>(e),
        },
{
    reveal(spec_decode_body);
}

/// What the decoder makes of a buffer that holds the header of `addr`, or
/// the start of it: the address and the header's length once the header is
/// whole, whatever follows it, and a call for more bytes before. The
/// header is shorter than the limit at which the decoder gives up.
pub proof fn lemma_decode_encoded(addr: Address, buf: Seq<u8>)
    requires
        is_v1_address(addr),
        agrees(buf, encode(addr)),
    ensures
        encode(addr).len() < MAX_LENGTH,
        spec_decode(buf) == if buf.len() >= encode(addr).len() {
            Ok::<_, Error>(
                (HeaderView { address: Some(addr), tlvs: Seq::empty() }, encode(addr).len() as int),
            )
        } else {
            Err::<(HeaderView, int), _>(Error::BufferTooShort)
        },
{
    let line = encode(addr);
    let pre = line_start(family_of(addr.source.ip));
    assert(pre.len() == 11);
    lemma_with_address_len(pre, addr);
    assert(line.len() == with_address(pre, addr).len() + 1);
    assert(line[line.len() - 1] == LF);
    if buf.len() >= 15 {
        lemma_body_of_encoded(addr, buf);
    }
}

/// Decoding the header of an address gives the address back, and counts
/// the whole header as taken.
pub proof fn lemma_decode_encode(addr: Address)
    requires
        is_v1_address(addr),
    ensures
        spec_decode(encode(addr)) == Ok::<_, Error>(
            (HeaderView { address: Some(addr), tlvs: Seq::empty() }, encode(addr).len() as int),
        ),
{
    lemma_decode_encoded(addr, encode(addr));
}

/// A header that was cut short never decodes: the decoder asks for more.
pub proof fn lemma_decode_truncated(addr: Address, len: int)
    requires
        is_v1_address(addr),
        0 <= len < encode(addr).len(),
    ensures
        spec_decode(encode(addr).subrange(0, len)) == Err::<(HeaderView, int), _>(
            Error::BufferTooShort,
        ),
{
    lemma_decode_encoded(addr, encode(addr).subrange(0, len));
}

/// A buffer that has reached the limit is never waited on: it either
/// holds a header or is refused. No header is longer than the limit.
pub proof fn lemma_long_line_is_settled(buf: Seq<u8>)
    ensures
        buf.len() >= MAX_LENGTH ==> spec_decode(buf) != Err::<(HeaderView, int), _>(
            Error::BufferTooShort,
        ),
        spec_decode(buf) is Ok ==> spec_decode(buf).unwrap().1 <= MAX_LENGTH,
{
}

/// The decoder of either version gives the address of a version 1 header
/// back, and asks for more of one that was cut short.
pub proof fn lemma_parse_encoded(addr: Address, buf: Seq<u8>)
    requires
        is_v1_address(addr),
        agrees(buf, encode(addr)),
    ensures
        spec_parse(buf) == if buf.len() >= encode(addr).len() {
            Ok::<_, Error>(
                (HeaderView { address: Some(addr), tlvs: Seq::empty() }, encode(addr).len() as int),
            )
        } else {
            Err::<(HeaderView, int), _>(Error::BufferTooShort)
        },
{
    lemma_decode_encoded(addr, buf);
    let pre = line_start(family_of(addr.source.ip));
    lemma_with_address_len(pre, addr);
    lemma_starts_with_self(with_address(pre, addr), seq![LF]);
    lemma_starts_with_start(encode(addr), with_address(pre, addr), pre);
    assert(pre[0] == 0x50);
    if buf.len() > 0 {
        assert(buf[0] == encode(addr)[0]);
    }
}

} // verus!
