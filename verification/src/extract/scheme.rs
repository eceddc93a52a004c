//! The scheme by which a request was made.

use vstd::prelude::*;

use super::host::opt_view;
use super::trusted_proxy::{spec_from_request_parts, TrustedProxy};
use super::Extensions;
use crate::cidr::Cidr;
use crate::config::all_wf;
use crate::forwarded::{forwarded_proto, read_forwarded, ForwardedProto};
use crate::headers::{first_text, header_entries, header_text};
use crate::proxy_protocol::spec_ssl;
use crate::text::{lower, to_lower};

verus! {

/// The longest scheme that is taken.
pub const MAX_SCHEME_LEN: usize = 64;

/// The scheme, as the bytes of its name in lower case.
#[derive(Debug)]
pub struct Scheme(pub Vec<u8>);

/// `http`
pub open spec fn http() -> Seq<u8> {
    seq![0x68u8, 0x74u8, 0x74u8, 0x70u8]
}

/// `https`
pub open spec fn https() -> Seq<u8> {
    seq![0x68u8, 0x74u8, 0x74u8, 0x70u8, 0x73u8]
}

/// Whether a byte may stand in a scheme: a letter, a digit, or one of
/// `+`, `-`, `.` and `~`.
pub open spec fn is_scheme_byte(b: u8) -> bool {
    (0x30 <= b <= 0x39) || (0x41 <= b <= 0x5a) || (0x61 <= b <= 0x7a) || b == 0x2b || b == 0x2d
        || b == 0x2e || b == 0x7e
}

/// Whether the bytes are taken as a scheme: at most `MAX_SCHEME_LEN` of
/// them, each one a scheme byte.
pub open spec fn is_scheme(s: Seq<u8>) -> bool {
    s.len() <= MAX_SCHEME_LEN && forall|i: int| 0 <= i < s.len() ==> is_scheme_byte(#[trigger] s[i])
}

/// The scheme that a header names: its value in lower case, where that is
/// taken as a scheme.
pub open spec fn header_scheme(value: Option<Seq<u8>>) -> Option<Seq<u8>> {
    match value {
        Some(v) => if is_scheme(lower(v)) {
            Some(lower(v))
        } else {
            None
        },
        None => None,
    }
}

/// The scheme of the connection itself: `https` where it carries TLS.
pub open spec fn transport_scheme(tls: bool) -> Seq<u8> {
    if tls {
        https()
    } else {
        http()
    }
}

/// The scheme. From a trusted proxy the first of these that is there:
/// `X-Forwarded-Proto`, `X-Forwarded-Scheme`, the first protocol in
/// `Forwarded`, `https` where the PROXY protocol header tells of TLS.
/// Else, and from any other peer, the scheme of the connection itself.
pub open spec fn spec_scheme(
    trusted: bool,
    x_forwarded_proto: Option<Seq<u8>>,
    x_forwarded_scheme: Option<Seq<u8>>,
    forwarded: Option<ForwardedProto>,
    proxied_tls: bool,
    tls: bool,
) -> Seq<u8> {
    if trusted && header_scheme(x_forwarded_proto) is Some {
        header_scheme(x_forwarded_proto).unwrap()
    } else if trusted && header_scheme(x_forwarded_scheme) is Some {
        header_scheme(x_forwarded_scheme).unwrap()
    } else if trusted && forwarded is Some {
        match forwarded.unwrap() {
            ForwardedProto::Http => http(),
            ForwardedProto::Https => https(),
        }
    } else if trusted && proxied_tls {
        https()
    } else {
        transport_scheme(tls)
    }
}

/// Whether the PROXY protocol header of the connection tells of TLS.
pub open spec fn proxied_tls(extensions: Extensions) -> bool {
    match extensions.proxy_protocol {
        Some(state) => match state.header {
            Some(header) => spec_ssl(header.1@) is Some,
            None => false,
        },
        None => false,
    }
}

/// The scheme as the headers and the storage of a request give it to a
/// peer that is or is not trusted.
pub open spec fn scheme_of(
    entries: Map<Seq<char>, Seq<Seq<u8>>>,
    extensions: Extensions,
    trusted: bool,
) -> Seq<u8> {
    spec_scheme(
        trusted,
        first_text(entries, "x-forwarded-proto"@),
        first_text(entries, "x-forwarded-scheme"@),
        forwarded_proto(first_text(entries, "forwarded"@)),
        proxied_tls(extensions),
        extensions.tls is Some,
    )
}

impl Scheme {
    /// The scheme of requests in the clear.
    pub fn http() -> (r: Scheme)
        ensures
            r.0@ == http(),
    {
        let mut v: Vec<u8> = Vec::new();
        v.push(0x68);
        v.push(0x74);
        v.push(0x74);
        v.push(0x70);
        assert(v@ =~= http());
        Scheme(v)
    }

    /// The scheme of requests over TLS.
    pub fn https() -> (r: Scheme)
        ensures
            r.0@ == https(),
    {
        let mut v: Vec<u8> = Vec::new();
        v.push(0x68);
        v.push(0x74);
        v.push(0x74);
        v.push(0x70);
        v.push(0x73);
        assert(v@ =~= https());
        Scheme(v)
    }

    /// Whether this is the scheme of requests over TLS.
    pub fn is_https(&self) -> (r: bool)
        ensures
            r == (self.0@ == https()),
    {
        let s = &self.0;
        let r = s.len() == 5 && s[0] == 0x68 && s[1] == 0x74 && s[2] == 0x74 && s[3] == 0x70 && s[4]
            == 0x73;
        proof {
            if r {
                assert(s@ =~= https());
            }
        }
        r
    }

    /// Takes the value of a header as a scheme: in lower case, and only if
    /// it is short enough and made of scheme bytes.
    pub fn parse(value: &[u8]) -> (r: Option<Scheme>)
        ensures
            match r {
                Some(s) => header_scheme(Some(value@)) == Some(s.0@),
                None => header_scheme(Some(value@)) is None,
            },
    {
        let text = to_lower(value);
        if text.len() > MAX_SCHEME_LEN {
            return None;
        }
        let mut i: usize = 0;
        while i < text.len()
            invariant
                i <= text.len(),
                text@ == lower(value@),
                text.len() <= MAX_SCHEME_LEN,
                forall|j: int| 0 <= j < i ==> is_scheme_byte(#[trigger] text@[j]),
            decreases text.len() - i,
        {
            let b = text[i];
            let ok = (0x30 <= b && b <= 0x39) || (0x41 <= b && b <= 0x5a) || (0x61 <= b && b
                <= 0x7a) || b == 0x2b || b == 0x2d || b == 0x2e || b == 0x7e;
            if !ok {
                assert(!is_scheme_byte(text@[i as int]));
                return None;
            }
            i += 1;
        }
        Some(Scheme(text))
    }

    /// Picks the scheme among what the sources gave. There always is
    /// one: without anything else it is that of the connection.
    pub fn pick(
        trusted: TrustedProxy,
        x_forwarded_proto: Option<&[u8]>,
        x_forwarded_scheme: Option<&[u8]>,
        forwarded: Option<ForwardedProto>,
        proxied_tls: bool,
        tls: bool,
    ) -> (r: Scheme)
        ensures
            r.0@ == spec_scheme(
                trusted.0,
                opt_view(x_forwarded_proto),
                opt_view(x_forwarded_scheme),
                forwarded,
                proxied_tls,
                tls,
            ),
            !trusted.0 ==> r.0@ == transport_scheme(tls),
    {
        if trusted.0 {
            if let Some(proto) = x_forwarded_proto {
                if let Some(scheme) = Scheme::parse(proto) {
                    return scheme;
                }
            }
            if let Some(proto) = x_forwarded_scheme {
                if let Some(scheme) = Scheme::parse(proto) {
                    return scheme;
                }
            }
            match forwarded {
                Some(ForwardedProto::Http) => {
                    return Scheme::http();
                },
                Some(ForwardedProto::Https) => {
                    return Scheme::https();
                },
                None => {},
            }
            if proxied_tls {
                return Scheme::https();
            }
        }
        if tls {
            Scheme::https()
        } else {
            Scheme::http()
        }
    }

    /// Works out the scheme of a request.
    pub fn from_request_parts(
        headers: &http::HeaderMap<http::HeaderValue>,
        extensions: &mut Extensions,
        cidrs: &[Cidr],
    ) -> (r: Scheme)
        requires
            all_wf(cidrs@),
        ensures
            *final(extensions) == spec_from_request_parts(*old(extensions), cidrs@).1,
            r.0@ == scheme_of(
                header_entries(*headers),
                *old(extensions),
                spec_from_request_parts(*old(extensions), cidrs@).0.0,
            ),
            !spec_from_request_parts(*old(extensions), cidrs@).0.0 ==> r.0@ == transport_scheme(
                old(extensions).tls is Some,
            ),
    {
        let trusted = TrustedProxy::from_request_parts(extensions, cidrs);
        proof {
            reveal_strlit("x-forwarded-proto");
            reveal_strlit("x-forwarded-scheme");
            reveal_strlit("forwarded");
        }
        if !trusted.0 {
            // What an untrusted peer says of the scheme is not read.
            return Scheme::pick(trusted, None, None, None, false, extensions.tls.is_some());
        }
        let x_forwarded_proto = header_text(headers, "x-forwarded-proto");
        let x_forwarded_scheme = header_text(headers, "x-forwarded-scheme");
        let forwarded = read_forwarded(header_text(headers, "forwarded")).proto;
        let proxied_tls = match &extensions.proxy_protocol {
            Some(state) => match &state.header {
                Some(header) => header.ssl().is_some(),
                None => false,
            },
            None => false,
        };
        Scheme::pick(
            trusted,
            x_forwarded_proto,
            x_forwarded_scheme,
            forwarded,
            proxied_tls,
            extensions.tls.is_some(),
        )
    }
}

} // verus!
