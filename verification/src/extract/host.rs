//! The host that a request was sent to.

use vstd::prelude::*;

use super::trusted_proxy::{spec_from_request_parts, TrustedProxy};
use super::{Extensions, Rejection, BAD_REQUEST};
use crate::cidr::Cidr;
use crate::config::all_wf;
use crate::forwarded::{forwarded_host, read_forwarded};
use crate::headers::{first_text, header_entries, header_text};

verus! {

/// The host, as the bytes of its name, with the port where one was given.
#[derive(Debug)]
pub struct Host(pub Vec<u8>);

/// The host. From a trusted proxy the first of these that is there:
/// `X-Forwarded-Host`, the first host in `Forwarded`. Else, and from any
/// other peer, the `Host` header, and without one the host of the
/// request's target.
pub open spec fn spec_host(
    trusted: bool,
    x_forwarded_host: Option<Seq<u8>>,
    forwarded: Option<Seq<u8>>,
    host_header: Option<Seq<u8>>,
    uri_host: Option<Seq<u8>>,
) -> Option<Seq<u8>> {
    if trusted && x_forwarded_host is Some {
        x_forwarded_host
    } else if trusted && forwarded is Some {
        forwarded
    } else if host_header is Some {
        host_header
    } else {
        uri_host
    }
}

/// The host as the headers and the target of a request give it to a peer
/// that is or is not trusted.
pub open spec fn host_of(
    entries: Map<Seq<char>, Seq<Seq<u8>>>,
    uri_host: Option<Seq<u8>>,
    trusted: bool,
) -> Option<Seq<u8>> {
    spec_host(
        trusted,
        first_text(entries, "x-forwarded-host"@),
        forwarded_host(first_text(entries, "forwarded"@)),
        first_text(entries, "host"@),
        uri_host,
    )
}

/// The bytes of an optional byte string.
pub open spec fn opt_view(bytes: Option<&[u8]>) -> Option<Seq<u8>> {
    match bytes {
        Some(b) => Some(b@),
        None => None,
    }
}

impl Host {
    /// Picks the host among what the sources gave.
    pub fn pick(
        trusted: TrustedProxy,
        x_forwarded_host: Option<&[u8]>,
        forwarded: Option<&[u8]>,
        host_header: Option<&[u8]>,
        uri_host: Option<&[u8]>,
    ) -> (r: Option<Host>)
        ensures
            match r {
                Some(h) => spec_host(
                    trusted.0,
                    opt_view(x_forwarded_host),
                    opt_view(forwarded),
                    opt_view(host_header),
                    opt_view(uri_host),
                ) == Some(h.0@),
                None => spec_host(
                    trusted.0,
                    opt_view(x_forwarded_host),
                    opt_view(forwarded),
                    opt_view(host_header),
                    opt_view(uri_host),
                ) is None,
            },
    {
        let found = if trusted.0 && x_forwarded_host.is_some() {
            x_forwarded_host
        } else if trusted.0 && forwarded.is_some() {
            forwarded
        } else if host_header.is_some() {
            host_header
        } else {
            uri_host
        };
        match found {
            Some(host) => Some(Host(vstd::slice::slice_to_vec(host))),
            None => None,
        }
    }

    /// Works out the host, if any source gives one.
    pub fn optional_from_request_parts(
        headers: &http::HeaderMap<http::HeaderValue>,
        uri_host: Option<&[u8]>,
        extensions: &mut Extensions,
        cidrs: &[Cidr],
    ) -> (r: Option<Host>)
        requires
            all_wf(cidrs@),
        ensures
            *final(extensions) == spec_from_request_parts(*old(extensions), cidrs@).1,
            match r {
                Some(h) => host_of(
                    header_entries(*headers),
                    opt_view(uri_host),
                    spec_from_request_parts(*old(extensions), cidrs@).0.0,
                ) == Some(h.0@),
                None => host_of(
                    header_entries(*headers),
                    opt_view(uri_host),
                    spec_from_request_parts(*old(extensions), cidrs@).0.0,
                ) is None,
            },
    {
        let trusted = TrustedProxy::from_request_parts(extensions, cidrs);
        proof {
            reveal_strlit("x-forwarded-host");
            reveal_strlit("forwarded");
            reveal_strlit("host");
        }
        let host_header = header_text(headers, "host");
        if !trusted.0 {
            // What an untrusted peer says of the host it was asked for is
            // not read.
            return Host::pick(trusted, None, None, host_header, uri_host);
        }
        let x_forwarded_host = header_text(headers, "x-forwarded-host");
        let forwarded = read_forwarded(header_text(headers, "forwarded")).host;
        let forwarded = match &forwarded {
            Some(host) => Some(host.as_slice()),
            None => None,
        };
        Host::pick(trusted, x_forwarded_host, forwarded, host_header, uri_host)
    }

    /// Works out the host, and refuses the request where no source gives
    /// one.
    pub fn from_request_parts(
        headers: &http::HeaderMap<http::HeaderValue>,
        uri_host: Option<&[u8]>,
        extensions: &mut Extensions,
        cidrs: &[Cidr],
    ) -> (r: Result<Host, Rejection>)
        requires
            all_wf(cidrs@),
        ensures
            *final(extensions) == spec_from_request_parts(*old(extensions), cidrs@).1,
            match r {
                Ok(h) => host_of(
                    header_entries(*headers),
                    opt_view(uri_host),
                    spec_from_request_parts(*old(extensions), cidrs@).0.0,
                ) == Some(h.0@),
                Err(e) => {
                    &&& host_of(
                        header_entries(*headers),
                        opt_view(uri_host),
                        spec_from_request_parts(*old(extensions), cidrs@).0.0,
                    ) is None
                    &&& e.0 == BAD_REQUEST
                    &&& e.1@ == "No host found in request"@
                },
            },
    {
        match Host::optional_from_request_parts(headers, uri_host, extensions, cidrs) {
            Some(h) => Ok(h),
            None => Err(Rejection(BAD_REQUEST, "No host found in request")),
        }
    }
}

} // verus!
