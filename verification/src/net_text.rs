//! Addresses as text.
//!
//! An address has more than one text. `ip_text` is the one in full, every
//! octet and every group written out, and is proved to read back as the
//! address. `display_text` is the one in which an address is shown to
//! others: for IPv6 that is the short form that std writes, which is
//! taken from std as it is.

use vstd::prelude::*;

use crate::net::{
    all_hex_digits, find_double_colon, hex_digit_value, hex_value, ipv4_from_octets,
    ipv6_from_groups, spec_groups_from, spec_h16, spec_ip, spec_ipv4, spec_ipv6, spec_octet,
    AddressFamily, IpAddress,
};
use crate::text::{
    decimal_text, is_digit, lemma_decimal_text, lemma_find_after_field, lemma_find_from_none,
    lemma_starts_with_field, lemma_starts_with_self, push_decimal, starts_with, with_field, COLON,
    DOT,
};

verus! {

/// The text of an IPv4 address: its four octets in decimal, with dots
/// between them.
pub open spec fn ipv4_text(a: u32) -> Seq<u8> {
    dotted_quad(
        decimal_text((a / 0x100_0000) as nat),
        decimal_text(((a / 0x1_0000) % 0x100) as nat),
        decimal_text(((a / 0x100) % 0x100) as nat),
        decimal_text((a % 0x100) as nat),
    )
}

/// Four fields with dots between them.
pub open spec fn dotted_quad(t0: Seq<u8>, t1: Seq<u8>, t2: Seq<u8>, t3: Seq<u8>) -> Seq<u8> {
    with_field(with_field(with_field(Seq::empty(), t0, DOT), t1, DOT), t2, DOT) + t3
}

/// Whether a byte belongs to the text of an address: a hexadecimal digit,
/// a dot or a colon.
pub open spec fn is_address_byte(b: u8) -> bool {
    hex_digit_value(b) is Some || b == DOT || b == COLON
}

/// Four octets with dots between them denote the address that the octets
/// spell.
proof fn lemma_dotted_quad(t0: Seq<u8>, t1: Seq<u8>, t2: Seq<u8>, t3: Seq<u8>)
    requires
        spec_octet(t0) is Some,
        spec_octet(t1) is Some,
        spec_octet(t2) is Some,
        spec_octet(t3) is Some,
    ensures
        spec_ipv4(dotted_quad(t0, t1, t2, t3)) == Some(
            ipv4_from_octets(
                spec_octet(t0).unwrap(),
                spec_octet(t1).unwrap(),
                spec_octet(t2).unwrap(),
                spec_octet(t3).unwrap(),
            ) as u32,
        ),
        dotted_quad(t0, t1, t2, t3).len() == t0.len() + t1.len() + t2.len() + t3.len() + 3,
        forall|j: int|
            0 <= j < dotted_quad(t0, t1, t2, t3).len() ==> is_address_byte(
                #[trigger] dotted_quad(t0, t1, t2, t3)[j],
            ),
{
    let e0 = Seq::<u8>::empty();
    let e1 = with_field(e0, t0, DOT);
    let e2 = with_field(e1, t1, DOT);
    let e3 = with_field(e2, t2, DOT);
    let t = dotted_quad(t0, t1, t2, t3);
    let d1 = t0.len() as int;
    let d2 = d1 + 1 + t1.len();
    let d3 = d2 + 1 + t2.len();
    lemma_starts_with_self(e3, t3);
    lemma_starts_with_field(t, e2, t2, DOT);
    lemma_starts_with_self(e2, t2 + seq![DOT]);
    assert(e3 =~= e2 + (t2 + seq![DOT]));
    lemma_starts_with_field(e3, e2, t2, DOT);
    lemma_starts_with_field(e2, e1, t1, DOT);
    lemma_starts_with_field(e1, e0, t0, DOT);
    assert(starts_with(t, e2));
    assert(starts_with(t, with_field(e1, t1, DOT)));
    lemma_starts_with_field(t, e1, t1, DOT);
    assert(starts_with(t, with_field(e0, t0, DOT)));
    lemma_starts_with_field(t, e0, t0, DOT);
    assert forall|j: int| 0 <= j < t0.len() implies t[0 + j] == t0[j] && t0[j] != DOT by {
        assert(is_digit(t0[j]));
    }
    lemma_find_after_field(t, 0, t0, DOT);
    assert forall|j: int| 0 <= j < t1.len() implies t[d1 + 1 + j] == t1[j] && t1[j] != DOT by {
        assert(is_digit(t1[j]));
    }
    lemma_find_after_field(t, d1 + 1, t1, DOT);
    assert forall|j: int| 0 <= j < t2.len() implies t[d2 + 1 + j] == t2[j] && t2[j] != DOT by {
        assert(is_digit(t2[j]));
    }
    lemma_find_after_field(t, d2 + 1, t2, DOT);
    assert(t.subrange(d3 + 1, t.len() as int) =~= t3);
    assert forall|j: int| 0 <= j < t.len() implies is_address_byte(#[trigger] t[j]) by {
        if j < d1 {
            assert(t[0 + j] == t0[j]);
            assert(is_digit(t0[j]));
        } else if j == d1 {
        } else if j < d2 {
            assert(t[d1 + 1 + (j - d1 - 1)] == t1[j - d1 - 1]);
            assert(is_digit(t1[j - d1 - 1]));
        } else if j == d2 {
        } else if j < d3 {
            assert(t[d2 + 1 + (j - d2 - 1)] == t2[j - d2 - 1]);
            assert(is_digit(t2[j - d2 - 1]));
        } else if j == d3 {
        } else {
            assert(t[j] == t3[j - d3 - 1]);
            assert(is_digit(t3[j - d3 - 1]));
        }
    }
}

/// The text of an IPv4 address reads back as that address.
pub proof fn lemma_ipv4_round_trip(a: u32)
    ensures
        spec_ipv4(ipv4_text(a)) == Some(a),
        7 <= ipv4_text(a).len() <= 15,
        forall|j: int| 0 <= j < ipv4_text(a).len() ==> is_address_byte(#[trigger] ipv4_text(a)[j]),
{
    let o0 = (a / 0x100_0000) as nat;
    let o1 = ((a / 0x1_0000) % 0x100) as nat;
    let o2 = ((a / 0x100) % 0x100) as nat;
    let o3 = (a % 0x100) as nat;
    lemma_decimal_text(o0);
    lemma_decimal_text(o1);
    lemma_decimal_text(o2);
    lemma_decimal_text(o3);
    lemma_octets_spell(a);
    lemma_dotted_quad(decimal_text(o0), decimal_text(o1), decimal_text(o2), decimal_text(o3));
}

/// The four octets of an address spell that address.
proof fn lemma_octets_spell(a: u32)
    ensures
        a / 0x100_0000 <= 255,
        ipv4_from_octets(
            (a / 0x100_0000) as nat,
            ((a / 0x1_0000) % 0x100) as nat,
            ((a / 0x100) % 0x100) as nat,
            (a % 0x100) as nat,
        ) == a,
{
    let b1 = a / 0x100;
    let b2 = b1 / 0x100;
    let b3 = b2 / 0x100;
    assert(a == b1 * 0x100 + a % 0x100);
    assert(b1 == b2 * 0x100 + b1 % 0x100);
    assert(b2 == b3 * 0x100 + b2 % 0x100);
    assert(b2 == a / 0x1_0000);
    assert(b3 == a / 0x100_0000);
}

/// The lower-case hexadecimal digit of a value below sixteen.
pub open spec fn hex_digit(n: nat) -> u8 {
    if n < 10 {
        (0x30 + n) as u8
    } else {
        (0x61 + n - 10) as u8
    }
}

/// The text of one group: four hexadecimal digits.
pub open spec fn group_text(g: u16) -> Seq<u8> {
    seq![
        hex_digit((g / 0x1000) as nat),
        hex_digit(((g / 0x100) % 0x10) as nat),
        hex_digit(((g / 0x10) % 0x10) as nat),
        hex_digit((g % 0x10) as nat),
    ]
}

/// The text of one group reads back as that group.
pub proof fn lemma_group_round_trip(g: u16)
    ensures
        spec_h16(group_text(g)) == Some(g),
        all_hex_digits(group_text(g)),
{
    let t = group_text(g);
    let t3 = t.drop_last();
    let t2 = t3.drop_last();
    let t1 = t2.drop_last();
    assert(t1.drop_last() =~= Seq::<u8>::empty());
    assert(hex_value(t1.drop_last()) == 0);
    assert(hex_value(t1) == g / 0x1000);
    assert(hex_value(t2) == hex_value(t1) * 16 + (g / 0x100) % 0x10);
    assert(hex_value(t3) == hex_value(t2) * 16 + (g / 0x10) % 0x10);
    assert(hex_value(t) == hex_value(t3) * 16 + g % 0x10);
}

/// The last `n` groups of sixteen bits of `a`, highest first.
pub open spec fn groups_of(a: nat, n: nat) -> Seq<u16>
    decreases n,
{
    if n == 0 {
        Seq::empty()
    } else {
        groups_of(a / 0x1_0000, (n - 1) as nat).push((a % 0x1_0000) as u16)
    }
}

/// The text of some groups: each as four digits, with colons between
/// them.
pub open spec fn groups_text(g: Seq<u16>) -> Seq<u8>
    decreases g.len(),
{
    if g.len() == 0 {
        Seq::empty()
    } else if g.len() == 1 {
        group_text(g[0])
    } else {
        group_text(g[0]) + seq![COLON] + groups_text(g.drop_first())
    }
}

/// The text of an IPv6 address in full: its eight groups, each as four
/// digits.
pub open spec fn ipv6_text(a: u128) -> Seq<u8> {
    groups_text(groups_of(a as nat, 8))
}

/// In the text of some groups every fifth byte is a colon and every other
/// one a hexadecimal digit.
pub proof fn lemma_groups_text_shape(g: Seq<u16>)
    requires
        g.len() >= 1,
    ensures
        groups_text(g).len() == 5 * g.len() - 1,
        forall|i: int|
            0 <= i < groups_text(g).len() ==> if i % 5 == 4 {
                #[trigger] groups_text(g)[i] == COLON
            } else {
                hex_digit_value(groups_text(g)[i]) is Some
            },
    decreases g.len(),
{
    let t = groups_text(g);
    lemma_group_round_trip(g[0]);
    let head = group_text(g[0]);
    if g.len() > 1 {
        let rest = groups_text(g.drop_first());
        lemma_groups_text_shape(g.drop_first());
        assert forall|i: int| 0 <= i < t.len() implies if i % 5 == 4 {
            #[trigger] t[i] == COLON
        } else {
            hex_digit_value(t[i]) is Some
        } by {
            if i < 4 {
                assert(t[i] == head[i]);
                assert(hex_digit_value(head[i]) is Some);
            } else if i == 4 {
            } else {
                assert(t[i] == rest[i - 5]);
            }
        }
    } else {
        assert forall|i: int| 0 <= i < t.len() implies if i % 5 == 4 {
            #[trigger] t[i] == COLON
        } else {
            hex_digit_value(t[i]) is Some
        } by {
            assert(hex_digit_value(head[i]) is Some);
        }
    }
}

/// Where the text of some groups ends `buf`, the pieces from its start on
/// denote those groups.
pub proof fn lemma_groups_round_trip(buf: Seq<u8>, from: int, g: Seq<u16>, allow_v4: bool)
    requires
        g.len() >= 1,
        0 <= from <= buf.len(),
        buf.subrange(from, buf.len() as int) == groups_text(g),
    ensures
        spec_groups_from(buf, from, allow_v4) == Some(g),
    decreases g.len(),
{
    let t = groups_text(g);
    let head = group_text(g[0]);
    lemma_groups_text_shape(g);
    lemma_group_round_trip(g[0]);
    assert(forall|j: int| 0 <= j < t.len() ==> buf[from + j] == t[j]);
    if g.len() == 1 {
        assert forall|j: int| from <= j < buf.len() implies buf[j] != COLON by {
            assert(buf[from + (j - from)] == t[j - from]);
            assert(hex_digit_value(t[j - from]) is Some);
        }
        lemma_find_from_none(buf, from, COLON);
        assert(seq![g[0]] =~= g);
    } else {
        let rest = g.drop_first();
        assert forall|j: int| 0 <= j < head.len() implies buf[from + j] == head[j] && head[j]
            != COLON by {
            assert(t[j] == head[j]);
            assert(hex_digit_value(head[j]) is Some);
        }
        assert(buf[from + 4] == t[4]);
        lemma_find_after_field(buf, from, head, COLON);
        lemma_groups_text_shape(rest);
        let tail = groups_text(rest);
        assert(t == head + seq![COLON] + tail);
        assert forall|j: int| 0 <= j < tail.len() implies buf.subrange(
            from + 5,
            buf.len() as int,
        )[j] == tail[j] by {
            assert(buf[from + (5 + j)] == t[5 + j]);
        }
        assert(buf.subrange(from + 5, buf.len() as int) =~= tail);
        lemma_groups_round_trip(buf, from + 5, rest, allow_v4);
        assert(seq![g[0]] + rest =~= g);
    }
}

/// No pair of colons is found where no two adjacent bytes are colons.
pub proof fn lemma_no_double_colon(s: Seq<u8>, from: int)
    requires
        0 <= from,
        forall|i: int|
            from <= i && i + 1 < s.len() ==> !(#[trigger] s[i] == COLON && s[i + 1] == COLON),
    ensures
        find_double_colon(s, from) is None,
    decreases s.len() - from,
{
    if from + 1 < s.len() {
        lemma_no_double_colon(s, from + 1);
    }
}

/// The eight groups of an address spell that address.
pub proof fn lemma_groups_of_value(a: u128)
    ensures
        groups_of(a as nat, 8).len() == 8,
        ipv6_from_groups(groups_of(a as nat, 8)) == a,
{
    reveal_with_fuel(groups_of, 9);
    let b0 = a as nat;
    let b1 = b0 / 0x1_0000;
    let b2 = b1 / 0x1_0000;
    let b3 = b2 / 0x1_0000;
    let b4 = b3 / 0x1_0000;
    let b5 = b4 / 0x1_0000;
    let b6 = b5 / 0x1_0000;
    let b7 = b6 / 0x1_0000;
    let g = groups_of(b0, 8);
    assert(g[7] == b0 % 0x1_0000);
    assert(g[6] == b1 % 0x1_0000);
    assert(g[5] == b2 % 0x1_0000);
    assert(g[4] == b3 % 0x1_0000);
    assert(g[3] == b4 % 0x1_0000);
    assert(g[2] == b5 % 0x1_0000);
    assert(g[1] == b6 % 0x1_0000);
    assert(g[0] == b7 % 0x1_0000);
    assert(b7 < 0x1_0000);
    assert(b6 == g[0] * 0x1_0000 + g[1]);
    assert(b5 == b6 * 0x1_0000 + g[2]);
    assert(b4 == b5 * 0x1_0000 + g[3]);
    assert(b3 == b4 * 0x1_0000 + g[4]);
    assert(b2 == b3 * 0x1_0000 + g[5]);
    assert(b1 == b2 * 0x1_0000 + g[6]);
    assert(b0 == b1 * 0x1_0000 + g[7]);
}

/// The text of an IPv6 address reads back as that address.
pub proof fn lemma_ipv6_round_trip(a: u128)
    ensures
        spec_ipv6(ipv6_text(a)) == Some(a),
        ipv6_text(a).len() == 39,
        forall|j: int| 0 <= j < ipv6_text(a).len() ==> is_address_byte(#[trigger] ipv6_text(a)[j]),
{
    let g = groups_of(a as nat, 8);
    let t = ipv6_text(a);
    lemma_groups_of_value(a);
    lemma_groups_text_shape(g);
    assert forall|i: int| 0 <= i && i + 1 < t.len() implies !(#[trigger] t[i] == COLON && t[i + 1]
        == COLON) by {
        if i % 5 == 4 {
            assert(hex_digit_value(t[i + 1]) is Some);
        } else {
            assert(hex_digit_value(t[i]) is Some);
        }
    }
    lemma_no_double_colon(t, 0);
    assert(t.subrange(0, t.len() as int) =~= t);
    lemma_groups_round_trip(t, 0, g, true);
    assert forall|j: int| 0 <= j < t.len() implies is_address_byte(#[trigger] t[j]) by {
        if j % 5 == 4 {
            assert(t[j] == COLON);
        } else {
            assert(hex_digit_value(t[j]) is Some);
        }
    }
}

/// The text in full of an address of either family.
pub open spec fn ip_text(ip: IpAddress) -> Seq<u8> {
    match ip {
        IpAddress::V4(a) => ipv4_text(a),
        IpAddress::V6(a) => ipv6_text(a),
    }
}

/// The family of an address.
pub open spec fn family_of(ip: IpAddress) -> AddressFamily {
    match ip {
        IpAddress::V4(_) => AddressFamily::Ipv4,
        IpAddress::V6(_) => AddressFamily::Ipv6,
    }
}

/// The text of an address reads back, in its family, as that address; it
/// is at most 39 bytes long and holds digits, dots and colons only.
pub proof fn lemma_ip_round_trip(ip: IpAddress)
    ensures
        spec_ip(family_of(ip), ip_text(ip)) == Some(ip),
        1 <= ip_text(ip).len() <= 39,
        forall|j: int| 0 <= j < ip_text(ip).len() ==> is_address_byte(#[trigger] ip_text(ip)[j]),
{
    match ip {
        IpAddress::V4(a) => {
            lemma_ipv4_round_trip(a);
        },
        IpAddress::V6(a) => {
            lemma_ipv6_round_trip(a);
        },
    }
}

/// What std writes for an IPv6 address: the text that `Display` of
/// `Ipv6Addr` gives, which is the short form of the address.
pub uninterp spec fn ipv6_display(a: u128) -> Seq<u8>;

/// Calls `to_string` on the `Ipv6Addr` that the number stands for, and
/// hands the text out as bytes.
#[verifier::external_body]
fn ipv6_to_string(a: u128) -> (r: Vec<u8>)
    ensures
        r@ == ipv6_display(a),
{
    core::net::Ipv6Addr::from(a).to_string().into_bytes()
}

/// The text in which an address is shown: an IPv4 address as a dotted
/// quad, an IPv6 address as std writes it.
pub open spec fn display_text(ip: IpAddress) -> Seq<u8> {
    match ip {
        IpAddress::V4(a) => ipv4_text(a),
        IpAddress::V6(a) => ipv6_display(a),
    }
}

impl IpAddress {
    /// Writes the address as it is shown.
    pub fn to_display(&self) -> (r: Vec<u8>)
        ensures
            r@ == display_text(*self),
    {
        match *self {
            IpAddress::V4(a) => {
                let mut out: Vec<u8> = Vec::new();
                push_decimal(&mut out, a / 0x100_0000);
                out.push(DOT);
                push_decimal(&mut out, (a / 0x1_0000) % 0x100);
                out.push(DOT);
                push_decimal(&mut out, (a / 0x100) % 0x100);
                out.push(DOT);
                push_decimal(&mut out, a % 0x100);
                assert(out@ =~= ipv4_text(a));
                out
            },
            IpAddress::V6(a) => ipv6_to_string(a),
        }
    }
}

} // verus!
