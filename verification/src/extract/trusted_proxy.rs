//! Whether the peer of a connection is a reverse proxy that is believed.

use vstd::prelude::*;

use super::Extensions;
use crate::cidr::Cidr;
use crate::config::all_wf;
use crate::net::IpAddress;

verus! {

/// Whether the forwarding headers and the PROXY protocol header of a
/// request are believed.
#[derive(Clone, Copy, Debug, PartialEq, Eq, Structural)]
pub struct TrustedProxy(pub bool);

/// Whether one of the ranges contains the peer's address. A peer whose
/// address is not known is not trusted.
pub open spec fn spec_is_trusted(peer: Option<IpAddress>, cidrs: Seq<Cidr>) -> bool {
    match peer {
        Some(ip) => exists|i: int| 0 <= i < cidrs.len() && (#[trigger] cidrs[i]).spec_contains(ip),
        None => false,
    }
}

/// The peer's address as the request's storage gives it.
pub open spec fn peer_ip(extensions: Extensions) -> Option<IpAddress> {
    match extensions.connect_info {
        Some(addr) => Some(addr.ip),
        None => None,
    }
}

/// What asking for the trust in the peer gives, and what it leaves in
/// the request's storage: the stored answer where there is one, whatever
/// the ranges are now; else the answer worked out from the peer's address,
/// which is then stored.
pub open spec fn spec_from_request_parts(extensions: Extensions, cidrs: Seq<Cidr>) -> (
    TrustedProxy,
    Extensions,
) {
    match extensions.trusted_proxy {
        Some(known) => (known, extensions),
        None => {
            let found = TrustedProxy(spec_is_trusted(peer_ip(extensions), cidrs));
            (found, Extensions { trusted_proxy: Some(found), ..extensions })
        },
    }
}

impl TrustedProxy {
    /// Matches the address of the peer against the ranges of the trusted
    /// proxies.
    pub fn evaluate(peer: Option<IpAddress>, cidrs: &[Cidr]) -> (r: TrustedProxy)
        requires
            all_wf(cidrs@),
        ensures
            r.0 == spec_is_trusted(peer, cidrs@),
    {
        let ip = match peer {
            Some(ip) => ip,
            None => {
                return TrustedProxy(false);
            },
        };
        let mut i: usize = 0;
        while i < cidrs.len()
            invariant
                i <= cidrs.len(),
                all_wf(cidrs@),
                peer == Some(ip),
                forall|j: int| 0 <= j < i ==> !(#[trigger] cidrs@[j]).spec_contains(ip),
            decreases cidrs.len() - i,
        {
            if cidrs[i].contains(ip) {
                assert(cidrs@[i as int].spec_contains(ip));
                return TrustedProxy(true);
            }
            i += 1;
        }
        TrustedProxy(false)
    }

    /// Says whether the peer of the request's connection is a trusted
    /// proxy. The answer is worked out once for a request and kept in its
    /// storage: whoever asks again gets the same answer.
    pub fn from_request_parts(extensions: &mut Extensions, cidrs: &[Cidr]) -> (r: TrustedProxy)
        requires
            all_wf(cidrs@),
        ensures
            (r, *final(extensions)) == spec_from_request_parts(*old(extensions), cidrs@),
            final(extensions).trusted_proxy == Some(r),
    {
        if let Some(known) = extensions.trusted_proxy {
            return known;
        }
        let peer = match extensions.connect_info {
            Some(addr) => Some(addr.ip),
            None => None,
        };
        let found = TrustedProxy::evaluate(peer, cidrs);
        extensions.trusted_proxy = Some(found);
        found
    }
}

/// Asking twice for one request gives the same answer and leaves the
/// storage as the first question left it, even if the ranges have changed
/// in between.
pub proof fn lemma_trust_is_cached(extensions: Extensions, first: Seq<Cidr>, second: Seq<Cidr>)
    ensures
        ({
            let (answer, stored) = spec_from_request_parts(extensions, first);
            spec_from_request_parts(stored, second) == (answer, stored)
        }),
{
}

} // verus!
