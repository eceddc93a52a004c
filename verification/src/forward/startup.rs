//! The response that stands in for the backend while it is not ready, and
//! what a failed exchange with the backend turns into.

use vstd::prelude::*;

use crate::text::{ascii, ascii_bytes, contains, contains_bytes};

verus! {

/// The status of the stand-in response.
pub const SERVICE_UNAVAILABLE: u16 = 503;

/// The status of the response to an exchange that failed though the
/// backend can be reached.
pub const BAD_GATEWAY: u16 = 502;

/// The number of seconds after which a client may ask again.
pub const RETRY_AFTER_SECONDS: u32 = 5;

/// The form of the body of the stand-in response.
#[derive(Clone, Copy, Debug, PartialEq, Eq, Structural)]
pub enum BodyFormat {
    /// `{"error":"authentik starting"}`
    Json,
    /// A page that says so and loads itself again.
    Html,
    /// `authentik starting`
    Plain,
}

/// The stand-in response.
#[derive(Clone, Copy, Debug, PartialEq, Eq, Structural)]
pub struct StartupResponse {
    pub status: u16,
    pub format: BodyFormat,
    /// The value of `Retry-After`, where the header is sent.
    pub retry_after: Option<u32>,
}

/// The form that an `Accept` header asks for: JSON where it names
/// `application/json`, else HTML where it names `text/html`, else plain
/// text.
pub open spec fn spec_body_format(accept: Seq<u8>) -> BodyFormat {
    if contains(accept, ascii("application/json"@)) {
        BodyFormat::Json
    } else if contains(accept, ascii("text/html"@)) {
        BodyFormat::Html
    } else {
        BodyFormat::Plain
    }
}

/// The stand-in response to a request with the given `Accept` header.
pub open spec fn spec_startup_response(accept: Seq<u8>) -> StartupResponse {
    StartupResponse {
        status: SERVICE_UNAVAILABLE,
        format: spec_body_format(accept),
        retry_after: if spec_body_format(accept) == BodyFormat::Json {
            Some(RETRY_AFTER_SECONDS)
        } else {
            None
        },
    }
}

/// Makes the stand-in response to a request with the given `Accept`
/// header; an absent header counts as an empty one.
pub fn startup_response(accept: &[u8]) -> (r: StartupResponse)
    ensures
        r == spec_startup_response(accept@),
{
    proof {
        reveal_strlit("application/json");
        reveal_strlit("text/html");
    }
    let json = ascii_bytes("application/json");
    let html = ascii_bytes("text/html");
    if contains_bytes(accept, json.as_slice()) {
        StartupResponse {
            status: SERVICE_UNAVAILABLE,
            format: BodyFormat::Json,
            retry_after: Some(RETRY_AFTER_SECONDS),
        }
    } else if contains_bytes(accept, html.as_slice()) {
        StartupResponse { status: SERVICE_UNAVAILABLE, format: BodyFormat::Html, retry_after: None }
    } else {
        StartupResponse { status: SERVICE_UNAVAILABLE, format: BodyFormat::Plain, retry_after: None }
    }
}

impl BodyFormat {
    /// The value of `Content-Type` for the form.
    pub fn content_type(&self) -> (r: &'static str)
        ensures
            r@ == match *self {
                BodyFormat::Json => "application/json"@,
                BodyFormat::Html => "text/html"@,
                BodyFormat::Plain => "text/plain"@,
            },
    {
        match self {
            BodyFormat::Json => "application/json",
            BodyFormat::Html => "text/html",
            BodyFormat::Plain => "text/plain",
        }
    }

    /// The body, but for the HTML form, whose page is not kept here.
    pub fn body(&self) -> (r: Option<&'static str>)
        ensures
            match *self {
                BodyFormat::Json => r is Some && r.unwrap()@ == "{\"error\":\"authentik starting\"}"@,
                BodyFormat::Html => r is None,
                BodyFormat::Plain => r is Some && r.unwrap()@ == "authentik starting"@,
            },
    {
        match self {
            BodyFormat::Json => Some("{\"error\":\"authentik starting\"}"),
            BodyFormat::Html => None,
            BodyFormat::Plain => Some("authentik starting"),
        }
    }
}

/// What to do about a request for the backend.
#[derive(Clone, Copy, Debug, PartialEq, Eq, Structural)]
pub enum Upstream {
    /// Answer with the stand-in response: the backend is starting.
    Starting(StartupResponse),
    /// Try to connect to the backend's socket, and come back with the
    /// outcome.
    Probe,
    /// Answer with `BAD_GATEWAY`.
    BadGateway,
    /// Send the request on.
    Forward,
}

/// What to do with a request before anything is sent: forward it once the
/// backend was seen ready, else answer in its place.
pub fn before_forwarding(backend_ready: bool, accept: &[u8]) -> (r: Upstream)
    ensures
        r == if backend_ready {
            Upstream::Forward
        } else {
            Upstream::Starting(spec_startup_response(accept@))
        },
{
    if backend_ready {
        Upstream::Forward
    } else {
        Upstream::Starting(startup_response(accept))
    }
}

/// What to do after the exchange with the backend failed: probe the
/// backend's socket once where the transport failed, else answer with
/// `BAD_GATEWAY`.
pub fn after_failure(transport_failed: bool) -> (r: Upstream)
    ensures
        r == if transport_failed {
            Upstream::Probe
        } else {
            Upstream::BadGateway
        },
{
    if transport_failed {
        Upstream::Probe
    } else {
        Upstream::BadGateway
    }
}

/// What to answer after the probe: a backend that cannot be reached is
/// still starting, one that can is a bad gateway.
pub fn after_probe(reachable: bool, accept: &[u8]) -> (r: Upstream)
    ensures
        r == if reachable {
            Upstream::BadGateway
        } else {
            Upstream::Starting(spec_startup_response(accept@))
        },
{
    if reachable {
        Upstream::BadGateway
    } else {
        Upstream::Starting(startup_response(accept))
    }
}

} // verus!
