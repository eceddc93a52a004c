//! The `Forwarded` header, read by the `forwarded-header-value` crate.
//!
//! A header value is a list of stanzas, one for each proxy that the
//! request went through, the one farthest from this server first. The
//! functions here that call into the crate are not verified; what the
//! crate makes of a text is given a name, and the verified code is exact
//! over that name.

use vstd::prelude::*;

use crate::net::IpAddress;
use crate::text::{lower_byte, COMMA, EQUALS, QUOTE, SEMICOLON};

verus! {

#[verifier::external_type_specification]
#[verifier::external_body]
pub struct ExForwardedHeaderValue(forwarded_header_value::ForwardedHeaderValue);

/// The protocol that a stanza names.
#[derive(Clone, Copy, Debug, PartialEq, Eq, Structural)]
pub enum ForwardedProto {
    Http,
    Https,
}

/// What this crate reads in a stanza: the address of the `for` field,
/// where that field holds one, the `host` field and the `proto` field.
#[derive(Debug)]
pub struct ForwardedStanza {
    pub for_ip: Option<IpAddress>,
    pub host: Option<Vec<u8>>,
    pub proto: Option<ForwardedProto>,
}

/// The mathematical content of a `ForwardedStanza`.
pub struct StanzaView {
    pub for_ip: Option<IpAddress>,
    pub host: Option<Seq<u8>>,
    pub proto: Option<ForwardedProto>,
}

impl View for ForwardedStanza {
    type V = StanzaView;

    open spec fn view(&self) -> StanzaView {
        StanzaView {
            for_ip: self.for_ip,
            host: match self.host {
                Some(h) => Some(h@),
                None => None,
            },
            proto: self.proto,
        }
    }
}

/// The stanzas that a parsed header value holds.
pub uninterp spec fn stanzas_of(value: forwarded_header_value::ForwardedHeaderValue) -> Seq<
    StanzaView,
>;

/// What `ForwardedHeaderValue::from_forwarded` makes of a text: the
/// stanzas, or nothing where it refuses the text.
pub uninterp spec fn parsed_forwarded(text: Seq<u8>) -> Option<Seq<StanzaView>>;

/// Whether a byte may belong to white space: a control character, a
/// space, or a byte of a character beyond ASCII.
pub open spec fn may_be_blank(b: u8) -> bool {
    b <= 0x20 || b >= 0x80
}

/// The first position from `from` on that holds no byte of white space.
pub open spec fn skip_blanks(text: Seq<u8>, from: int) -> int
    decreases text.len() - from,
{
    if from < 0 || from >= text.len() || !may_be_blank(text[from]) {
        from
    } else {
        skip_blanks(text, from + 1)
    }
}

/// Whether nothing but white space stands between `at` and the end of
/// the part of a stanza: the end of the text, a semicolon or a comma.
pub open spec fn ends_part(text: Seq<u8>, at: int) -> bool {
    let end = skip_blanks(text, at);
    end >= text.len() || text[end] == SEMICOLON || text[end] == COMMA
}

/// Whether `host=` stands before `at`, in letters of either case, a
/// double quote at `at + 1`, and nothing more in the part.
pub open spec fn lone_quote_at(text: Seq<u8>, at: int) -> bool {
    &&& 4 <= at
    &&& at + 1 < text.len()
    &&& lower_byte(text[at - 4]) == 0x68
    &&& lower_byte(text[at - 3]) == 0x6f
    &&& lower_byte(text[at - 2]) == 0x73
    &&& lower_byte(text[at - 1]) == 0x74
    &&& text[at] == EQUALS
    &&& text[at + 1] == QUOTE
    &&& ends_part(text, at + 2)
}

/// Whether the text holds a `host` field whose value is one double quote
/// and nothing else. `ForwardedHeaderValue::from_forwarded` takes the
/// quotes off a value that starts and ends with one, and does not return
/// where both are the same quote.
pub open spec fn has_lone_quote(text: Seq<u8>) -> bool {
    exists|at: int| lone_quote_at(text, at)
}

fn skip_blank_bytes(text: &[u8], from: usize) -> (r: usize)
    requires
        from <= text.len(),
    ensures
        r == skip_blanks(text@, from as int),
        from <= r <= text.len(),
{
    let mut i: usize = from;
    while i < text.len() && (text[i] <= 0x20 || text[i] >= 0x80)
        invariant
            from <= i <= text.len(),
            skip_blanks(text@, from as int) == skip_blanks(text@, i as int),
        decreases text.len() - i,
    {
        i += 1;
    }
    i
}

fn is_lone_quote_at(text: &[u8], at: usize) -> (r: bool)
    ensures
        r == lone_quote_at(text@, at as int),
{
    if at < 4 || text.len() < 2 || at > text.len() - 2 {
        return false;
    }
    let key = eq_ignore_case_byte(text[at - 4], 0x68) && eq_ignore_case_byte(text[at - 3], 0x6f)
        && eq_ignore_case_byte(text[at - 2], 0x73) && eq_ignore_case_byte(text[at - 1], 0x74);
    if !key || text[at] != EQUALS || text[at + 1] != QUOTE {
        return false;
    }
    let end = skip_blank_bytes(text, at + 2);
    end >= text.len() || text[end] == SEMICOLON || text[end] == COMMA
}

/// Whether a byte, with an upper-case letter turned into lower case, is
/// the given one.
fn eq_ignore_case_byte(b: u8, lower: u8) -> (r: bool)
    ensures
        r == (lower_byte(b) == lower),
{
    let folded = if 0x41 <= b && b <= 0x5a {
        b + 0x20
    } else {
        b
    };
    folded == lower
}

/// Says whether the text holds a `host` field whose value is one double
/// quote and nothing else.
pub fn find_lone_quote(text: &[u8]) -> (r: bool)
    ensures
        r == has_lone_quote(text@),
{
    let mut at: usize = 0;
    while at < text.len()
        invariant
            at <= text.len(),
            forall|j: int| 0 <= j < at ==> !lone_quote_at(text@, j),
        decreases text.len() - at,
    {
        if is_lone_quote_at(text, at) {
            return true;
        }
        at += 1;
    }
    assert forall|j: int| !lone_quote_at(text@, j) by {}
    false
}

/// Calls `ForwardedHeaderValue::from_forwarded` on the text that the
/// bytes spell. Bytes that are no text are refused before the call. The
/// call does not return on a `host` field whose value is one double
/// quote, so such a text is left out.
#[verifier::external_body]
pub(crate) fn parse_forwarded(text: &[u8]) -> (r: Option<
    forwarded_header_value::ForwardedHeaderValue,
>)
    requires
        !has_lone_quote(text@),
    ensures
        match r {
            Some(v) => parsed_forwarded(text@) == Some(stanzas_of(v)),
            None => parsed_forwarded(text@) is None,
        },
{
    let text = core::str::from_utf8(text).ok()?;
    forwarded_header_value::ForwardedHeaderValue::from_forwarded(text).ok()
}

/// Calls `ForwardedHeaderValue::len`. A parsed value holds at least one
/// stanza.
#[verifier::external_body]
pub(crate) fn stanza_count(value: &forwarded_header_value::ForwardedHeaderValue) -> (r: usize)
    ensures
        r == stanzas_of(*value).len(),
        r >= 1,
{
    value.len()
}

/// Hands out the address that `ForwardedStanza::forwarded_for_ip` gives
/// for the stanza at `index` in the order of
/// `ForwardedHeaderValue::iter`, as a plain value.
#[verifier::external_body]
fn stanza_for_ip(value: &forwarded_header_value::ForwardedHeaderValue, index: usize) -> (r: Option<
    IpAddress,
>)
    requires
        index < stanzas_of(*value).len(),
    ensures
        r == stanzas_of(*value)[index as int].for_ip,
{
    match value.iter().nth(index).unwrap().forwarded_for_ip() {
        Some(core::net::IpAddr::V4(a)) => Some(IpAddress::V4(a.into())),
        Some(core::net::IpAddr::V6(a)) => Some(IpAddress::V6(a.into())),
        None => None,
    }
}

/// Hands out the `host` field of the stanza at `index` in the order of
/// `ForwardedHeaderValue::iter`, as bytes.
#[verifier::external_body]
fn stanza_host(value: &forwarded_header_value::ForwardedHeaderValue, index: usize) -> (r: Option<
    Vec<u8>,
>)
    requires
        index < stanzas_of(*value).len(),
    ensures
        match r {
            Some(h) => stanzas_of(*value)[index as int].host == Some(h@),
            None => stanzas_of(*value)[index as int].host is None,
        },
{
    value.iter().nth(index).unwrap().forwarded_host.clone().map(String::into_bytes)
}

/// Hands out the `proto` field of the stanza at `index` in the order of
/// `ForwardedHeaderValue::iter`, as a plain value.
#[verifier::external_body]
fn stanza_proto(value: &forwarded_header_value::ForwardedHeaderValue, index: usize) -> (r: Option<
    ForwardedProto,
>)
    requires
        index < stanzas_of(*value).len(),
    ensures
        r == stanzas_of(*value)[index as int].proto,
{
    match value.iter().nth(index).unwrap().forwarded_proto {
        Some(forwarded_header_value::Protocol::Http) => Some(ForwardedProto::Http),
        Some(forwarded_header_value::Protocol::Https) => Some(ForwardedProto::Https),
        None => None,
    }
}

/// The stanza at `index`, as plain values.
fn stanza_at(value: &forwarded_header_value::ForwardedHeaderValue, index: usize) -> (r:
    ForwardedStanza)
    requires
        index < stanzas_of(*value).len(),
    ensures
        r@ == stanzas_of(*value)[index as int],
{
    ForwardedStanza {
        for_ip: stanza_for_ip(value, index),
        host: stanza_host(value, index),
        proto: stanza_proto(value, index),
    }
}

/// The first address that the stanzas from `from` on give in a `for`
/// field.
pub open spec fn first_for_ip(stanzas: Seq<StanzaView>, from: int) -> Option<IpAddress>
    decreases stanzas.len() - from,
{
    if from < 0 || from >= stanzas.len() {
        None
    } else if stanzas[from].for_ip is Some {
        stanzas[from].for_ip
    } else {
        first_for_ip(stanzas, from + 1)
    }
}

/// The first `host` field in the stanzas from `from` on.
pub open spec fn first_host(stanzas: Seq<StanzaView>, from: int) -> Option<Seq<u8>>
    decreases stanzas.len() - from,
{
    if from < 0 || from >= stanzas.len() {
        None
    } else if stanzas[from].host is Some {
        stanzas[from].host
    } else {
        first_host(stanzas, from + 1)
    }
}

/// The first `proto` field in the stanzas from `from` on.
pub open spec fn first_proto(stanzas: Seq<StanzaView>, from: int) -> Option<ForwardedProto>
    decreases stanzas.len() - from,
{
    if from < 0 || from >= stanzas.len() {
        None
    } else if stanzas[from].proto is Some {
        stanzas[from].proto
    } else {
        first_proto(stanzas, from + 1)
    }
}

/// What a `Forwarded` header gives for each of the three questions that
/// are put to it: the first stanza that answers a question decides it.
#[derive(Debug)]
pub struct ForwardedFacts {
    pub for_ip: Option<IpAddress>,
    pub host: Option<Vec<u8>>,
    pub proto: Option<ForwardedProto>,
}

/// The stanzas of a `Forwarded` header that is read: one with a `host`
/// field of one double quote is not read at all.
pub open spec fn readable_forwarded(text: Seq<u8>) -> Option<Seq<StanzaView>> {
    if has_lone_quote(text) {
        None
    } else {
        parsed_forwarded(text)
    }
}

/// What the text of a `Forwarded` header gives for the client address.
pub open spec fn forwarded_for_ip(text: Option<Seq<u8>>) -> Option<IpAddress> {
    match text {
        Some(t) => match readable_forwarded(t) {
            Some(stanzas) => first_for_ip(stanzas, 0),
            None => None,
        },
        None => None,
    }
}

/// What the text of a `Forwarded` header gives for the host.
pub open spec fn forwarded_host(text: Option<Seq<u8>>) -> Option<Seq<u8>> {
    match text {
        Some(t) => match readable_forwarded(t) {
            Some(stanzas) => first_host(stanzas, 0),
            None => None,
        },
        None => None,
    }
}

/// What the text of a `Forwarded` header gives for the protocol.
pub open spec fn forwarded_proto(text: Option<Seq<u8>>) -> Option<ForwardedProto> {
    match text {
        Some(t) => match readable_forwarded(t) {
            Some(stanzas) => first_proto(stanzas, 0),
            None => None,
        },
        None => None,
    }
}

/// The mathematical content of each stanza of a list.
pub open spec fn stanza_views(stanzas: Seq<ForwardedStanza>) -> Seq<StanzaView> {
    Seq::new(stanzas.len(), |i: int| stanzas[i]@)
}

impl ForwardedFacts {
    /// Gathers from the stanzas of a header what each question is
    /// answered with: for each, the answer of the first stanza that has
    /// one.
    pub fn gather(stanzas: &[ForwardedStanza]) -> (r: ForwardedFacts)
        ensures
            r.for_ip == first_for_ip(stanza_views(stanzas@), 0),
            match r.host {
                Some(h) => first_host(stanza_views(stanzas@), 0) == Some(h@),
                None => first_host(stanza_views(stanzas@), 0) is None,
            },
            r.proto == first_proto(stanza_views(stanzas@), 0),
    {
        let ghost views = stanza_views(stanzas@);
        let mut facts = ForwardedFacts { for_ip: None, host: None, proto: None };
        let mut i: usize = 0;
        while i < stanzas.len()
            invariant
                i <= stanzas.len(),
                views == stanza_views(stanzas@),
                first_for_ip(views, 0) == match facts.for_ip {
                    Some(a) => Some(a),
                    None => first_for_ip(views, i as int),
                },
                first_host(views, 0) == match facts.host {
                    Some(h) => Some(h@),
                    None => first_host(views, i as int),
                },
                first_proto(views, 0) == match facts.proto {
                    Some(p) => Some(p),
                    None => first_proto(views, i as int),
                },
            decreases stanzas.len() - i,
        {
            let stanza = &stanzas[i];
            assert(views[i as int] == stanza@);
            if facts.for_ip.is_none() {
                facts.for_ip = stanza.for_ip;
            }
            if facts.host.is_none() {
                facts.host = match &stanza.host {
                    Some(h) => Some(vstd::slice::slice_to_vec(h.as_slice())),
                    None => None,
                };
            }
            if facts.proto.is_none() {
                facts.proto = stanza.proto;
            }
            i += 1;
        }
        facts
    }
}

/// Reads a `Forwarded` header. A header that is absent, refused or not
/// read gives nothing.
pub fn read_forwarded(text: Option<&[u8]>) -> (r: ForwardedFacts)
    ensures
        r.for_ip == forwarded_for_ip(
            match text {
                Some(t) => Some(t@),
                None => None,
            },
        ),
        match r.host {
            Some(h) => forwarded_host(
                match text {
                    Some(t) => Some(t@),
                    None => None,
                },
            ) == Some(h@),
            None => forwarded_host(
                match text {
                    Some(t) => Some(t@),
                    None => None,
                },
            ) is None,
        },
        r.proto == forwarded_proto(
            match text {
                Some(t) => Some(t@),
                None => None,
            },
        ),
{
    let nothing = ForwardedFacts { for_ip: None, host: None, proto: None };
    let text = match text {
        Some(t) => t,
        None => {
            return nothing;
        },
    };
    if find_lone_quote(text) {
        return nothing;
    }
    let value = match parse_forwarded(text) {
        Some(v) => v,
        None => {
            return nothing;
        },
    };
    let count = stanza_count(&value);
    let mut stanzas: Vec<ForwardedStanza> = Vec::new();
    let mut i: usize = 0;
    while i < count
        invariant
            i <= count,
            count == stanzas_of(value).len(),
            stanzas@.len() == i,
            forall|j: int| 0 <= j < i ==> (#[trigger] stanzas@[j])@ == stanzas_of(value)[j],
        decreases count - i,
    {
        stanzas.push(stanza_at(&value, i));
        i += 1;
    }
    assert(stanza_views(stanzas@) =~= stanzas_of(value));
    ForwardedFacts::gather(stanzas.as_slice())
}

} // verus!
