//! Address ranges in CIDR notation: an address and the number of leading
//! bits that an address of the range shares with it.

use vstd::prelude::*;

use crate::net::IpAddress;

verus! {

/// A range of addresses.
#[derive(Clone, Copy, Debug, PartialEq, Eq, Structural)]
pub struct Cidr {
    pub addr: IpAddress,
    pub prefix_len: u8,
}

/// The bits of the network part of an IPv4 range: `prefix_len` ones from
/// the top.
pub open spec fn netmask_v4(prefix_len: u8) -> u32 {
    if prefix_len == 0 {
        0u32
    } else {
        0xffff_ffffu32 << ((32 - prefix_len) as u32)
    }
}

/// The bits of the host part of an IPv4 range.
pub open spec fn hostmask_v4(prefix_len: u8) -> u32 {
    if prefix_len >= 32 {
        0u32
    } else {
        0xffff_ffffu32 >> (prefix_len as u32)
    }
}

pub open spec fn netmask_v6(prefix_len: u8) -> u128 {
    if prefix_len == 0 {
        0u128
    } else {
        0xffff_ffff_ffff_ffff_ffff_ffff_ffff_ffffu128 << ((128 - prefix_len) as u128)
    }
}

pub open spec fn hostmask_v6(prefix_len: u8) -> u128 {
    if prefix_len >= 128 {
        0u128
    } else {
        0xffff_ffff_ffff_ffff_ffff_ffff_ffff_ffffu128 >> (prefix_len as u128)
    }
}

impl Cidr {
    /// The prefix is no longer than an address of the family.
    pub open spec fn wf(&self) -> bool {
        match self.addr {
            IpAddress::V4(_) => self.prefix_len <= 32,
            IpAddress::V6(_) => self.prefix_len <= 128,
        }
    }

    /// Whether `ip` lies in the range: it is of the range's family, and
    /// lies between the range's first address, in which every host bit is
    /// zero, and its last, in which every host bit is one.
    pub open spec fn spec_contains(&self, ip: IpAddress) -> bool {
        match (self.addr, ip) {
            (IpAddress::V4(net), IpAddress::V4(a)) => (net & netmask_v4(self.prefix_len)) <= a && a
                <= (net | hostmask_v4(self.prefix_len)),
            (IpAddress::V6(net), IpAddress::V6(a)) => (net & netmask_v6(self.prefix_len)) <= a && a
                <= (net | hostmask_v6(self.prefix_len)),
            _ => false,
        }
    }

    /// Makes a range, if the prefix is no longer than the address.
    pub fn new(addr: IpAddress, prefix_len: u8) -> (r: Option<Cidr>)
        ensures
            match r {
                Some(c) => c.addr == addr && c.prefix_len == prefix_len && c.wf(),
                None => !(Cidr { addr, prefix_len }).wf(),
            },
    {
        let max: u8 = match addr {
            IpAddress::V4(_) => 32,
            IpAddress::V6(_) => 128,
        };
        if prefix_len <= max {
            Some(Cidr { addr, prefix_len })
        } else {
            None
        }
    }

    /// Says whether the prefix is no longer than the address.
    pub fn is_valid(&self) -> (r: bool)
        ensures
            r == self.wf(),
    {
        match self.addr {
            IpAddress::V4(_) => self.prefix_len <= 32,
            IpAddress::V6(_) => self.prefix_len <= 128,
        }
    }

    /// Whether `ip` lies in the range.
    pub fn contains(&self, ip: IpAddress) -> (r: bool)
        requires
            self.wf(),
        ensures
            r == self.spec_contains(ip),
    {
        net_contains(*self, ip)
    }
}

/// Calls `IpNet::contains` of the `ipnet` crate on the network and the
/// address that the arguments stand for. The contract states the
/// comparison that the crate's source makes: the address lies between the
/// network's first and last address, and a network never contains an
/// address of the other family.
#[verifier::external_body]
fn net_contains(net: Cidr, ip: IpAddress) -> (r: bool)
    requires
        net.wf(),
    ensures
        r == net.spec_contains(ip),
{
    let n = match net.addr {
        IpAddress::V4(a) => ipnet::IpNet::V4(ipnet::Ipv4Net::new_assert(a.into(), net.prefix_len)),
        IpAddress::V6(a) => ipnet::IpNet::V6(ipnet::Ipv6Net::new_assert(a.into(), net.prefix_len)),
    };
    let a = match ip {
        IpAddress::V4(a) => core::net::IpAddr::V4(a.into()),
        IpAddress::V6(a) => core::net::IpAddr::V6(a.into()),
    };
    n.contains(&a)
}

/// An address lies in an IPv4 range just when it agrees with the range's
/// address in every bit of the network part.
pub proof fn lemma_contains_v4(net: u32, prefix_len: u8, a: u32)
    requires
        prefix_len <= 32,
    ensures
        (Cidr { addr: IpAddress::V4(net), prefix_len }).spec_contains(IpAddress::V4(a)) <==> (a
            & netmask_v4(prefix_len)) == (net & netmask_v4(prefix_len)),
{
    let p = prefix_len as u32;
    let mask = netmask_v4(prefix_len);
    let host = hostmask_v4(prefix_len);
    assert(mask == if p == 0 {
        0u32
    } else {
        0xffff_ffffu32 << (32 - p)
    });
    assert(host == if p >= 32 {
        0u32
    } else {
        0xffff_ffffu32 >> p
    });
    assert(p <= 32 ==> (((net & (if p == 0 {
        0u32
    } else {
        0xffff_ffffu32 << ((32 - p) as u32)
    })) <= a && a <= (net | (if p >= 32 {
        0u32
    } else {
        0xffff_ffffu32 >> p
    }))) <==> (a & (if p == 0 {
        0u32
    } else {
        0xffff_ffffu32 << ((32 - p) as u32)
    })) == (net & (if p == 0 {
        0u32
    } else {
        0xffff_ffffu32 << ((32 - p) as u32)
    })))) by (bit_vector);
}

/// An address lies in an IPv6 range just when it agrees with the range's
/// address in every bit of the network part.
pub proof fn lemma_contains_v6(net: u128, prefix_len: u8, a: u128)
    requires
        prefix_len <= 128,
    ensures
        (Cidr { addr: IpAddress::V6(net), prefix_len }).spec_contains(IpAddress::V6(a)) <==> (a
            & netmask_v6(prefix_len)) == (net & netmask_v6(prefix_len)),
{
    let p = prefix_len as u128;
    let mask = netmask_v6(prefix_len);
    let host = hostmask_v6(prefix_len);
    assert(mask == if p == 0 {
        0u128
    } else {
        0xffff_ffff_ffff_ffff_ffff_ffff_ffff_ffffu128 << (128 - p)
    });
    assert(host == if p >= 128 {
        0u128
    } else {
        0xffff_ffff_ffff_ffff_ffff_ffff_ffff_ffffu128 >> p
    });
    assert(p <= 128 ==> (((net & (if p == 0 {
        0u128
    } else {
        0xffff_ffff_ffff_ffff_ffff_ffff_ffff_ffffu128 << ((128 - p) as u128)
    })) <= a && a <= (net | (if p >= 128 {
        0u128
    } else {
        0xffff_ffff_ffff_ffff_ffff_ffff_ffff_ffffu128 >> p
    }))) <==> (a & (if p == 0 {
        0u128
    } else {
        0xffff_ffff_ffff_ffff_ffff_ffff_ffff_ffffu128 << ((128 - p) as u128)
    })) == (net & (if p == 0 {
        0u128
    } else {
        0xffff_ffff_ffff_ffff_ffff_ffff_ffff_ffffu128 << ((128 - p) as u128)
    })))) by (bit_vector);
}

} // verus!
