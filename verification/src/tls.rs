//! Which certificate a TLS handshake is answered with.
//!
//! Each tenant binds a domain to a certificate. A handshake names the
//! server it wants; the binding for that name is looked for, and a
//! certificate that the server made for itself stands in where there is
//! none. The certificates themselves are values of the caller: nothing
//! here looks into them.

use vstd::prelude::*;

use crate::text::{bytes_eq, DOT};

verus! {

/// One tenant's binding of a domain to a certificate.
#[derive(Debug)]
pub struct CertificateBinding<C> {
    pub domain: Vec<u8>,
    pub is_default: bool,
    /// The certificate with its key, where the tenant has one.
    pub certificate: Option<C>,
}

/// The bindings that handshakes are answered from. The set is replaced as
/// a whole, never changed in place.
#[derive(Debug)]
pub struct CertificateManager<C> {
    bindings: Vec<CertificateBinding<C>>,
}

/// How the certificate that stands in for a missing one is made.
#[derive(Debug)]
pub struct FallbackParameters {
    pub organization: &'static str,
    pub common_name: &'static str,
    /// The one name that the certificate is good for.
    pub subject_alt_name: &'static str,
    pub validity_days: u32,
}

/// Whether `name` is `domain` behind a prefix that ends with a dot.
pub open spec fn is_subdomain(name: Seq<u8>, domain: Seq<u8>) -> bool {
    name.len() > domain.len() && name[name.len() - domain.len() - 1] == DOT && name.subrange(
        name.len() - domain.len(),
        name.len() as int,
    ) == domain
}

/// How well a binding answers a server name, higher being better: 4 for
/// the name itself, 3 for a parent domain that is the default, 2 for
/// another parent domain, 1 for the default, 0 for a binding that does not
/// answer, which every binding without a certificate is.
pub open spec fn rank<C>(binding: CertificateBinding<C>, name: Seq<u8>) -> int {
    if binding.certificate is None {
        0
    } else if binding.domain@ == name {
        4
    } else if is_subdomain(name, binding.domain@) {
        if binding.is_default {
            3
        } else {
            2
        }
    } else if binding.is_default {
        1
    } else {
        0
    }
}

/// Whether the binding at `index` is the answer to `name`: it answers,
/// no binding answers better, and none before it answers as well.
pub open spec fn is_best<C>(bindings: Seq<CertificateBinding<C>>, name: Seq<u8>, index: int) -> bool {
    &&& 0 <= index < bindings.len()
    &&& rank(bindings[index], name) > 0
    &&& forall|j: int| 0 <= j < bindings.len() ==> rank(#[trigger] bindings[j], name) <= rank(
        bindings[index],
        name,
    )
    &&& forall|j: int| 0 <= j < index ==> rank(#[trigger] bindings[j], name) < rank(
        bindings[index],
        name,
    )
}

/// Whether no binding answers `name`.
pub open spec fn none_answers<C>(bindings: Seq<CertificateBinding<C>>, name: Seq<u8>) -> bool {
    forall|j: int| 0 <= j < bindings.len() ==> rank(#[trigger] bindings[j], name) == 0
}

fn ends_with_domain(name: &[u8], domain: &[u8]) -> (r: bool)
    ensures
        r == is_subdomain(name@, domain@),
{
    if name.len() <= domain.len() {
        return false;
    }
    let start = name.len() - domain.len();
    if name[start - 1] != DOT {
        return false;
    }
    bytes_eq(&name[start..name.len()], domain)
}

fn rank_of<C>(binding: &CertificateBinding<C>, name: &[u8]) -> (r: u8)
    ensures
        r == rank(*binding, name@),
{
    if binding.certificate.is_none() {
        0
    } else if bytes_eq(binding.domain.as_slice(), name) {
        4
    } else if ends_with_domain(name, binding.domain.as_slice()) {
        if binding.is_default {
            3
        } else {
            2
        }
    } else if binding.is_default {
        1
    } else {
        0
    }
}

/// Finds the binding that answers `name` best, the first one among equals.
pub fn best_binding<C>(bindings: &[CertificateBinding<C>], name: &[u8]) -> (r: Option<usize>)
    ensures
        match r {
            Some(i) => is_best(bindings@, name@, i as int),
            None => none_answers(bindings@, name@),
        },
{
    let mut best: Option<usize> = None;
    let mut best_rank: u8 = 0;
    let mut i: usize = 0;
    while i < bindings.len()
        invariant
            i <= bindings.len(),
            forall|j: int| 0 <= j < i ==> rank(#[trigger] bindings@[j], name@) <= best_rank,
            match best {
                Some(b) => {
                    &&& b < i
                    &&& best_rank > 0
                    &&& rank(bindings@[b as int], name@) == best_rank
                    &&& forall|j: int|
                        0 <= j < b ==> rank(#[trigger] bindings@[j], name@) < best_rank
                },
                None => best_rank == 0,
            },
        decreases bindings.len() - i,
    {
        let r = rank_of(&bindings[i], name);
        if r > best_rank {
            best = Some(i);
            best_rank = r;
        }
        i += 1;
    }
    best
}

impl<C> CertificateManager<C> {
    /// The bindings that are loaded.
    pub closed spec fn view(&self) -> Seq<CertificateBinding<C>> {
        self.bindings@
    }

    /// A manager with no binding.
    pub fn new() -> (r: Self)
        ensures
            r@.len() == 0,
    {
        CertificateManager { bindings: Vec::new() }
    }

    /// Takes in the outcome of a refresh. Bindings that were fetched take
    /// the place of all that were loaded. A failed fetch changes nothing:
    /// the handshakes go on with what was loaded before, and the error
    /// comes back for the log.
    pub fn refresh<E>(&mut self, fetched: Result<Vec<CertificateBinding<C>>, E>) -> (r: Option<E>)
        ensures
            match fetched {
                Ok(bindings) => r is None && final(self)@ == bindings@,
                Err(e) => r == Some(e) && final(self)@ == old(self)@,
            },
    {
        match fetched {
            Ok(bindings) => {
                self.bindings = bindings;
                None
            },
            Err(e) => Some(e),
        }
    }

    /// The certificate of the binding that answers `name` best.
    pub fn resolve(&self, name: &[u8]) -> (r: Option<&C>)
        ensures
            match r {
                Some(c) => exists|i: int|
                    is_best(self@, name@, i) && (#[trigger] self@[i]).certificate == Some(*c),
                None => none_answers(self@, name@),
            },
    {
        match best_binding(self.bindings.as_slice(), name) {
            Some(i) => {
                assert(is_best(self@, name@, i as int));
                self.bindings[i].certificate.as_ref()
            },
            None => None,
        }
    }
}

/// The certificate that a handshake is answered with: the fallback where
/// the client named no server, else what the first resolver that has an
/// answer gives, else the fallback.
pub open spec fn spec_select<C>(
    server_name: bool,
    proxy: Option<C>,
    core: Option<C>,
    fallback: C,
) -> C {
    if !server_name {
        fallback
    } else if proxy is Some {
        proxy.unwrap()
    } else if core is Some {
        core.unwrap()
    } else {
        fallback
    }
}

/// Picks the certificate of a handshake among what the resolvers gave
/// for the server name. There always is one.
pub fn select<'a, C>(
    server_name: Option<&[u8]>,
    proxy: Option<&'a C>,
    core: Option<&'a C>,
    fallback: &'a C,
) -> (r: &'a C)
    ensures
        *r == spec_select(
            server_name is Some,
            match proxy {
                Some(c) => Some(*c),
                None => None,
            },
            match core {
                Some(c) => Some(*c),
                None => None,
            },
            *fallback,
        ),
{
    if server_name.is_none() {
        fallback
    } else if let Some(cert) = proxy {
        cert
    } else if let Some(cert) = core {
        cert
    } else {
        fallback
    }
}

/// The certificate of a handshake, answered from the bindings of a
/// manager.
pub fn resolve<'a, C>(
    manager: &'a CertificateManager<C>,
    server_name: Option<&[u8]>,
    fallback: &'a C,
) -> (r: &'a C)
    ensures
        match server_name {
            None => *r == *fallback,
            Some(name) => if none_answers(manager@, name@) {
                *r == *fallback
            } else {
                exists|i: int|
                    is_best(manager@, name@, i) && (#[trigger] manager@[i]).certificate == Some(*r)
            },
        },
{
    let core = match server_name {
        Some(name) => manager.resolve(name),
        None => None,
    };
    proof {
        if let Some(name) = server_name {
            if let Some(c) = core {
                let i = choose|i: int|
                    is_best(manager@, name@, i) && (#[trigger] manager@[i]).certificate == Some(*c);
                assert(!none_answers(manager@, name@));
            }
        }
    }
    select(server_name, None, core, fallback)
}

/// The parameters of the certificate that the server makes for itself at
/// its start: good for a year and for every name.
pub fn fallback_parameters() -> (r: FallbackParameters)
    ensures
        r.organization@ == "authentik"@,
        r.common_name@ == "authentik default certificate"@,
        r.subject_alt_name@ == "*"@,
        r.validity_days == 365,
{
    FallbackParameters {
        organization: "authentik",
        common_name: "authentik default certificate",
        subject_alt_name: "*",
        validity_days: 365,
    }
}

/// The binding of a domain answers the name of every host below it.
pub proof fn lemma_subdomain_answers<C>(
    bindings: Seq<CertificateBinding<C>>,
    name: Seq<u8>,
    index: int,
)
    requires
        0 <= index < bindings.len(),
        bindings[index].certificate is Some,
        is_subdomain(name, bindings[index].domain@) || name == bindings[index].domain@,
    ensures
        !none_answers(bindings, name),
        forall|i: int| is_best(bindings, name, i) ==> rank(bindings[i], name) >= 2,
{
    assert(rank(bindings[index], name) >= 2);
}

/// Where no binding is for the name or a parent of it, the answer is a
/// default binding, and there is none without one.
pub proof fn lemma_default_answers<C>(bindings: Seq<CertificateBinding<C>>, name: Seq<u8>)
    requires
        forall|j: int|
            0 <= j < bindings.len() ==> (#[trigger] bindings[j]).domain@ != name && !is_subdomain(
                name,
                bindings[j].domain@,
            ),
    ensures
        forall|i: int|
            is_best(bindings, name, i) ==> (#[trigger] bindings[i]).is_default
                && bindings[i].certificate is Some,
        none_answers(bindings, name) <==> forall|j: int|
            0 <= j < bindings.len() ==> !((#[trigger] bindings[j]).is_default
                && bindings[j].certificate is Some),
{
    assert forall|j: int| 0 <= j < bindings.len() implies rank(#[trigger] bindings[j], name) == (
    if bindings[j].is_default && bindings[j].certificate is Some {
        1int
    } else {
        0int
    }) by {}
}

} // verus!
