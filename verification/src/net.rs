//! Network addresses as plain values.

use vstd::prelude::*;

use crate::text::{all_digits, decimal_value, find_byte, find_from, parse_digits, COLON, DOT};

verus! {

/// An IPv4 or IPv6 address, held as the integer that its bytes spell in
/// network order.
#[derive(Clone, Copy, Debug, PartialEq, Eq, Structural)]
pub enum IpAddress {
    V4(u32),
    V6(u128),
}

/// An address and a port.
#[derive(Clone, Copy, Debug, PartialEq, Eq, Structural)]
pub struct SocketAddress {
    pub ip: IpAddress,
    pub port: u16,
}

/// One octet of a dotted quad: one to three digits, no leading zero on a
/// longer one, at most 255.
pub open spec fn spec_octet(s: Seq<u8>) -> Option<nat> {
    if 1 <= s.len() <= 3 && all_digits(s) && (s.len() == 1 || s[0] != 0x30) && decimal_value(s)
        <= 255 {
        Some(decimal_value(s))
    } else {
        None
    }
}

/// The address that four octets spell, first octet highest.
pub open spec fn ipv4_from_octets(a: nat, b: nat, c: nat, d: nat) -> nat {
    a * 0x100_0000 + b * 0x1_0000 + c * 0x100 + d
}

/// The IPv4 address that a dotted quad denotes: exactly four octets,
/// separated by dots.
pub open spec fn spec_ipv4(s: Seq<u8>) -> Option<u32> {
    match find_from(s, 0, DOT) {
        None => None,
        Some(d1) => match find_from(s, d1 + 1, DOT) {
            None => None,
            Some(d2) => match find_from(s, d2 + 1, DOT) {
                None => None,
                Some(d3) => match (
                    spec_octet(s.subrange(0, d1)),
                    spec_octet(s.subrange(d1 + 1, d2)),
                    spec_octet(s.subrange(d2 + 1, d3)),
                    spec_octet(s.subrange(d3 + 1, s.len() as int)),
                ) {
                    (Some(a), Some(b), Some(c), Some(d)) => Some(
                        ipv4_from_octets(a, b, c, d) as u32,
                    ),
                    _ => None,
                },
            },
        },
    }
}

fn parse_octet(buf: &[u8]) -> (r: Option<u32>)
    ensures
        match r {
            Some(v) => spec_octet(buf@) == Some(v as nat),
            None => spec_octet(buf@) is None,
        },
{
    if buf.len() < 1 || buf.len() > 3 {
        return None;
    }
    if buf.len() > 1 && buf[0] == 0x30 {
        return None;
    }
    let r = parse_digits(buf, 0, 255);
    proof {
        assert(buf@.subrange(0, buf@.len() as int) =~= buf@);
    }
    r
}

/// Parses a dotted quad.
pub fn parse_ipv4(buf: &[u8]) -> (r: Option<u32>)
    ensures
        r == spec_ipv4(buf@),
{
    let d1 = match find_byte(buf, 0, DOT) {
        Some(i) => i,
        None => {
            return None;
        },
    };
    let d2 = match find_byte(buf, d1 + 1, DOT) {
        Some(i) => i,
        None => {
            return None;
        },
    };
    let d3 = match find_byte(buf, d2 + 1, DOT) {
        Some(i) => i,
        None => {
            return None;
        },
    };
    let a = match parse_octet(&buf[0..d1]) {
        Some(v) => v,
        None => {
            return None;
        },
    };
    let b = match parse_octet(&buf[d1 + 1..d2]) {
        Some(v) => v,
        None => {
            return None;
        },
    };
    let c = match parse_octet(&buf[d2 + 1..d3]) {
        Some(v) => v,
        None => {
            return None;
        },
    };
    let d = match parse_octet(&buf[d3 + 1..buf.len()]) {
        Some(v) => v,
        None => {
            return None;
        },
    };
    Some(a * 0x100_0000 + b * 0x1_0000 + c * 0x100 + d)
}

/// The value of a hexadecimal digit, of either case.
pub open spec fn hex_digit_value(b: u8) -> Option<nat> {
    if 0x30 <= b <= 0x39 {
        Some((b - 0x30) as nat)
    } else if 0x61 <= b <= 0x66 {
        Some((b - 0x61 + 10) as nat)
    } else if 0x41 <= b <= 0x46 {
        Some((b - 0x41 + 10) as nat)
    } else {
        None
    }
}

pub open spec fn all_hex_digits(s: Seq<u8>) -> bool {
    forall|i: int| 0 <= i < s.len() ==> hex_digit_value(#[trigger] s[i]) is Some
}

/// The number that a string of hexadecimal digits denotes.
pub open spec fn hex_value(s: Seq<u8>) -> nat
    decreases s.len(),
{
    if s.len() == 0 {
        0
    } else {
        hex_value(s.drop_last()) * 16 + hex_digit_value(s.last()).unwrap()
    }
}

/// One group of an IPv6 address: one to four hexadecimal digits.
pub open spec fn spec_h16(s: Seq<u8>) -> Option<u16> {
    if 1 <= s.len() <= 4 && all_hex_digits(s) {
        Some(hex_value(s) as u16)
    } else {
        None
    }
}

/// Four hexadecimal digits denote less than 65536.
pub proof fn lemma_hex_value_bound(s: Seq<u8>)
    requires
        all_hex_digits(s),
        s.len() <= 4,
    ensures
        hex_value(s) < 0x1_0000,
        s.len() <= 3 ==> hex_value(s) < 0x1000,
        s.len() <= 2 ==> hex_value(s) < 0x100,
        s.len() <= 1 ==> hex_value(s) < 0x10,
    decreases s.len(),
{
    if s.len() > 0 {
        let t = s.drop_last();
        assert forall|i: int| 0 <= i < t.len() implies hex_digit_value(#[trigger] t[i]) is Some by {
            assert(t[i] == s[i]);
        }
        lemma_hex_value_bound(t);
        assert(hex_digit_value(s[s.len() - 1]) is Some);
    }
}

/// The upper and the lower group that an embedded IPv4 address fills.
pub open spec fn ipv4_high_group(a: u32) -> u16 {
    (a / 0x1_0000) as u16
}

pub open spec fn ipv4_low_group(a: u32) -> u16 {
    (a % 0x1_0000) as u16
}

/// The groups that the pieces of `s` from `from` on denote, the pieces
/// being separated by single colons. Every piece is a group of hexadecimal
/// digits; where `allow_v4` holds, the last one may be a dotted quad
/// instead, which stands for two groups.
pub open spec fn spec_groups_from(s: Seq<u8>, from: int, allow_v4: bool) -> Option<Seq<u16>>
    decreases s.len() - from,
{
    if from < 0 || from > s.len() {
        None
    } else {
        match find_from(s, from, COLON) {
            None => {
                let piece = s.subrange(from, s.len() as int);
                match spec_h16(piece) {
                    Some(g) => Some(seq![g]),
                    None => if allow_v4 {
                        match spec_ipv4(piece) {
                            Some(a) => Some(seq![ipv4_high_group(a), ipv4_low_group(a)]),
                            None => None,
                        }
                    } else {
                        None
                    },
                }
            },
            Some(c) => if c < from || c >= s.len() {
                None
            } else {
                match spec_h16(s.subrange(from, c)) {
                    None => None,
                    Some(g) => match spec_groups_from(s, c + 1, allow_v4) {
                        None => None,
                        Some(rest) => Some(seq![g] + rest),
                    },
                }
            },
        }
    }
}

/// Index of the first pair of adjacent colons at or after `from`.
pub open spec fn find_double_colon(s: Seq<u8>, from: int) -> Option<int>
    decreases s.len() - from,
{
    if from < 0 || from + 1 >= s.len() {
        None
    } else if s[from] == COLON && s[from + 1] == COLON {
        Some(from)
    } else {
        find_double_colon(s, from + 1)
    }
}

/// The address that eight groups spell, first group highest.
pub open spec fn ipv6_from_groups(g: Seq<u16>) -> int
    recommends
        g.len() == 8,
{
    g[0] * 0x1_0000_0000_0000_0000_0000_0000_0000
        + g[1] * 0x1_0000_0000_0000_0000_0000_0000
        + g[2] * 0x1_0000_0000_0000_0000_0000
        + g[3] * 0x1_0000_0000_0000_0000
        + g[4] * 0x1_0000_0000_0000
        + g[5] * 0x1_0000_0000
        + g[6] * 0x1_0000
        + g[7]
}

/// `n` groups of zero.
pub open spec fn zero_groups(n: int) -> Seq<u16> {
    Seq::new(n as nat, |i: int| 0u16)
}

/// The eight groups that the text of an IPv6 address denotes. Without a
/// double colon the pieces give all eight. With one, the pieces before it
/// and those after it give at most seven, and zeros fill the gap; a dotted
/// quad may only end the text.
pub open spec fn spec_ipv6_groups(s: Seq<u8>) -> Option<Seq<u16>> {
    match find_double_colon(s, 0) {
        None => match spec_groups_from(s, 0, true) {
            Some(g) => if g.len() == 8 {
                Some(g)
            } else {
                None
            },
            None => None,
        },
        Some(i) => {
            let head = s.subrange(0, i);
            let tail = s.subrange(i + 2, s.len() as int);
            let hg = if head.len() == 0 {
                Some(Seq::<u16>::empty())
            } else {
                spec_groups_from(head, 0, false)
            };
            let tg = if tail.len() == 0 {
                Some(Seq::<u16>::empty())
            } else {
                spec_groups_from(tail, 0, true)
            };
            match (hg, tg) {
                (Some(h), Some(t)) => if h.len() + t.len() <= 7 {
                    Some(h + zero_groups(8 - h.len() - t.len()) + t)
                } else {
                    None
                },
                _ => None,
            }
        },
    }
}

/// The IPv6 address that a text denotes.
pub open spec fn spec_ipv6(s: Seq<u8>) -> Option<u128> {
    match spec_ipv6_groups(s) {
        Some(g) => Some(ipv6_from_groups(g) as u128),
        None => None,
    }
}

fn parse_hex_digit(b: u8) -> (r: Option<u16>)
    ensures
        match r {
            Some(v) => hex_digit_value(b) == Some(v as nat),
            None => hex_digit_value(b) is None,
        },
{
    if 0x30 <= b && b <= 0x39 {
        Some((b - 0x30) as u16)
    } else if 0x61 <= b && b <= 0x66 {
        Some((b - 0x61 + 10) as u16)
    } else if 0x41 <= b && b <= 0x46 {
        Some((b - 0x41 + 10) as u16)
    } else {
        None
    }
}

fn parse_h16(buf: &[u8]) -> (r: Option<u16>)
    ensures
        r == spec_h16(buf@),
{
    if buf.len() < 1 || buf.len() > 4 {
        return None;
    }
    let mut acc: u16 = 0;
    let mut i: usize = 0;
    while i < buf.len()
        invariant
            i <= buf.len() <= 4,
            all_hex_digits(buf@.subrange(0, i as int)),
            acc == hex_value(buf@.subrange(0, i as int)),
        decreases buf.len() - i,
    {
        let ghost prev = buf@.subrange(0, i as int);
        let ghost next = buf@.subrange(0, i + 1);
        proof {
            assert(next.drop_last() =~= prev);
            assert(next.last() == buf@[i as int]);
            lemma_hex_value_bound(prev);
        }
        match parse_hex_digit(buf[i]) {
            None => {
                return None;
            },
            Some(v) => {
                acc = acc * 16 + v;
            },
        }
        proof {
            assert forall|j: int| 0 <= j < next.len() implies hex_digit_value(
                #[trigger] next[j],
            ) is Some by {
                if j < i {
                    assert(next[j] == prev[j]);
                }
            }
        }
        i += 1;
    }
    proof {
        assert(buf@.subrange(0, i as int) =~= buf@);
    }
    Some(acc)
}

/// Parses the colon-separated pieces of `buf` into groups.
fn parse_groups(buf: &[u8], allow_v4: bool) -> (r: Option<Vec<u16>>)
    ensures
        match r {
            Some(g) => spec_groups_from(buf@, 0, allow_v4) == Some(g@),
            None => spec_groups_from(buf@, 0, allow_v4) is None,
        },
{
    let mut groups: Vec<u16> = Vec::new();
    let mut pos: usize = 0;
    loop
        invariant
            pos <= buf.len(),
            spec_groups_from(buf@, 0, allow_v4) == match spec_groups_from(
                buf@,
                pos as int,
                allow_v4,
            ) {
                Some(rest) => Some(groups@ + rest),
                None => None,
            },
        decreases buf.len() - pos,
    {
        match find_byte(buf, pos, COLON) {
            None => {
                let piece = &buf[pos..buf.len()];
                match parse_h16(piece) {
                    Some(g) => {
                        groups.push(g);
                        return Some(groups);
                    },
                    None => {
                        if allow_v4 {
                            match parse_ipv4(piece) {
                                Some(a) => {
                                    groups.push((a / 0x1_0000) as u16);
                                    groups.push((a % 0x1_0000) as u16);
                                    return Some(groups);
                                },
                                None => {
                                    return None;
                                },
                            }
                        } else {
                            return None;
                        }
                    },
                }
            },
            Some(c) => {
                match parse_h16(&buf[pos..c]) {
                    None => {
                        return None;
                    },
                    Some(g) => {
                        let ghost before = groups@;
                        groups.push(g);
                        proof {
                            match spec_groups_from(buf@, c + 1, allow_v4) {
                                Some(rest) => {
                                    assert(before + (seq![g] + rest) =~= groups@ + rest);
                                },
                                None => {},
                            }
                        }
                        pos = c + 1;
                    },
                }
            },
        }
    }
}

fn find_colons(buf: &[u8]) -> (r: Option<usize>)
    ensures
        match r {
            Some(i) => find_double_colon(buf@, 0) == Some(i as int) && i + 2 <= buf.len(),
            None => find_double_colon(buf@, 0) is None,
        },
{
    if buf.len() < 2 {
        return None;
    }
    let mut i: usize = 0;
    while i < buf.len() - 1
        invariant
            buf.len() >= 2,
            i <= buf.len() - 1,
            find_double_colon(buf@, 0) == find_double_colon(buf@, i as int),
        decreases buf.len() - i,
    {
        if buf[i] == COLON && buf[i + 1] == COLON {
            return Some(i);
        }
        i += 1;
    }
    None
}

fn groups_to_address(g: &Vec<u16>) -> (r: u128)
    requires
        g.len() == 8,
    ensures
        r == ipv6_from_groups(g@),
{
    g[0] as u128 * 0x1_0000_0000_0000_0000_0000_0000_0000
        + g[1] as u128 * 0x1_0000_0000_0000_0000_0000_0000
        + g[2] as u128 * 0x1_0000_0000_0000_0000_0000
        + g[3] as u128 * 0x1_0000_0000_0000_0000
        + g[4] as u128 * 0x1_0000_0000_0000
        + g[5] as u128 * 0x1_0000_0000
        + g[6] as u128 * 0x1_0000
        + g[7] as u128
}

/// Parses the text of an IPv6 address.
pub fn parse_ipv6(buf: &[u8]) -> (r: Option<u128>)
    ensures
        r == spec_ipv6(buf@),
{
    match find_colons(buf) {
        None => match parse_groups(buf, true) {
            Some(g) => if g.len() == 8 {
                Some(groups_to_address(&g))
            } else {
                None
            },
            None => None,
        },
        Some(i) => {
            let head = &buf[0..i];
            let tail = &buf[i + 2..buf.len()];
            let mut full: Vec<u16> = if head.len() == 0 {
                Vec::new()
            } else {
                match parse_groups(head, false) {
                    Some(g) => g,
                    None => {
                        return None;
                    },
                }
            };
            let mut back: Vec<u16> = if tail.len() == 0 {
                Vec::new()
            } else {
                match parse_groups(tail, true) {
                    Some(g) => g,
                    None => {
                        return None;
                    },
                }
            };
            if full.len() > 7 || back.len() > 7 - full.len() {
                return None;
            }
            let ghost h = full@;
            let ghost t = back@;
            let gap: usize = 8 - full.len() - back.len();
            let mut k: usize = 0;
            while k < gap
                invariant
                    k <= gap,
                    gap == 8 - h.len() - t.len(),
                    full@ =~= h + zero_groups(k as int),
                decreases gap - k,
            {
                full.push(0);
                k += 1;
            }
            full.append(&mut back);
            assert(full@ =~= h + zero_groups(8 - h.len() - t.len()) + t);
            Some(groups_to_address(&full))
        },
    }
}

/// Which of the two address families a text is read as.
#[derive(Clone, Copy, Debug, PartialEq, Eq, Structural)]
pub enum AddressFamily {
    Ipv4,
    Ipv6,
}

/// The address of the given family that a text denotes.
pub open spec fn spec_ip(family: AddressFamily, s: Seq<u8>) -> Option<IpAddress> {
    match family {
        AddressFamily::Ipv4 => match spec_ipv4(s) {
            Some(a) => Some(IpAddress::V4(a)),
            None => None,
        },
        AddressFamily::Ipv6 => match spec_ipv6(s) {
            Some(a) => Some(IpAddress::V6(a)),
            None => None,
        },
    }
}

/// Parses the text of an address of the given family.
pub fn parse_ip(family: AddressFamily, buf: &[u8]) -> (r: Option<IpAddress>)
    ensures
        r == spec_ip(family, buf@),
{
    match family {
        AddressFamily::Ipv4 => match parse_ipv4(buf) {
            Some(a) => Some(IpAddress::V4(a)),
            None => None,
        },
        AddressFamily::Ipv6 => match parse_ipv6(buf) {
            Some(a) => Some(IpAddress::V6(a)),
            None => None,
        },
    }
}

} // verus!
