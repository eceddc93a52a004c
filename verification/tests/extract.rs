use authentik::cidr::Cidr;
use authentik::extract::client_ip::ClientIP;
use authentik::extract::host::Host;
use authentik::extract::scheme::Scheme;
use authentik::extract::trusted_proxy::TrustedProxy;
use authentik::extract::{Extensions, ProxyProtocolState, TlsState, BAD_REQUEST};
use authentik::forwarded::{
    find_lone_quote, read_forwarded, ForwardedFacts, ForwardedProto, ForwardedStanza,
};
use authentik::net::{IpAddress, SocketAddress};
use authentik::proxy_protocol::header::{Address, Header, Protocol};
use http::{HeaderMap, HeaderName, HeaderValue};

fn headers(items: &[(&'static str, &'static str)]) -> HeaderMap {
    let mut map = HeaderMap::new();
    for (name, value) in items {
        map.append(HeaderName::from_static(name), HeaderValue::from_static(value));
    }
    map
}

fn extensions(trusted: Option<bool>) -> Extensions {
    Extensions {
        connect_info: None,
        proxy_protocol: None,
        tls: None,
        trusted_proxy: trusted.map(TrustedProxy),
    }
}

fn v4(a: u8, b: u8, c: u8, d: u8) -> IpAddress {
    IpAddress::V4(u32::from_be_bytes([a, b, c, d]))
}

fn proxied(tlvs: Vec<u8>) -> ProxyProtocolState {
    ProxyProtocolState {
        header: Some(Header(
            Some(Address {
                protocol: Protocol::Stream,
                source: SocketAddress { ip: v4(203, 0, 113, 9), port: 4000 },
                destination: SocketAddress { ip: v4(10, 0, 0, 1), port: 443 },
            }),
            tlvs,
        )),
    }
}

#[test]
fn x_forwarded_for_trusted() {
    let map = headers(&[("x-forwarded-for", "192.0.2.51, 192.0.2.42")]);
    let result = ClientIP::optional_from_request_parts(&map, &mut extensions(Some(true)), &[]);
    assert!(result.is_some());
    assert_eq!(result.expect("Client IP should be Some").0, v4(192, 0, 2, 42));
}

#[test]
fn x_real_ip_trusted() {
    let map = headers(&[("x-real-ip", "192.0.2.42")]);
    let result = ClientIP::optional_from_request_parts(&map, &mut extensions(Some(true)), &[]);
    assert!(result.is_some());
    assert_eq!(result.expect("Client IP should be Some").0, v4(192, 0, 2, 42));
}

#[test]
fn client_ip_forwarded_header_trusted() {
    let map = headers(&[("forwarded", "for=192.0.2.42")]);
    let result = ClientIP::optional_from_request_parts(&map, &mut extensions(Some(true)), &[]);
    assert!(result.is_some());
    assert_eq!(result.expect("Client IP should be Some").0, v4(192, 0, 2, 42));
}

#[test]
fn from_connect_info() {
    let map = headers(&[]);
    let mut ext = extensions(Some(false));
    ext.connect_info = Some(SocketAddress { ip: v4(192, 0, 2, 42), port: 34932 });
    let result = ClientIP::optional_from_request_parts(&map, &mut ext, &[]);
    assert!(result.is_some());
    assert_eq!(result.expect("Client IP should be Some").0, v4(192, 0, 2, 42));
}

#[test]
fn headers_unstrusted() {
    let map = headers(&[("x-forwarded-for", "192.0.2.42")]);
    let result = ClientIP::optional_from_request_parts(&map, &mut extensions(Some(false)), &[]);
    assert!(result.is_none());
}

#[test]
fn client_ip_priority_order() {
    let map = headers(&[
        ("x-forwarded-for", "192.0.2.1"),
        ("x-real-ip", "192.0.2.2"),
        ("forwarded", "for=192.0.2.3"),
    ]);
    let result = ClientIP::optional_from_request_parts(&map, &mut extensions(Some(true)), &[]);
    assert!(result.is_some());
    assert_eq!(result.expect("Client IP should be Some").0, v4(192, 0, 2, 1));
}

#[test]
fn no_ip_found() {
    let map = headers(&[]);
    let result = ClientIP::from_request_parts(&map, &mut extensions(None), &[]);
    assert!(result.is_err());
    let rejection = result.expect_err("Should fail when no client IP found");
    assert_eq!(rejection.0, BAD_REQUEST);
    assert_eq!(rejection.0, 400);
    assert_eq!(rejection.1, "No client IP found in request");
}

#[test]
fn ipv6() {
    let map = headers(&[("x-forwarded-for", "2001:db8::42")]);
    let result = ClientIP::optional_from_request_parts(&map, &mut extensions(Some(true)), &[]);
    assert!(result.is_some());
    assert_eq!(
        result.expect("Client IP should be Some").0,
        IpAddress::V6(0x2001_0db8_0000_0000_0000_0000_0000_0042)
    );
}

#[test]
fn multiple_x_forwarded_for() {
    let map = headers(&[("x-forwarded-for", "192.0.2.1, 192.0.2.2, 192.0.2.3")]);
    let result = ClientIP::optional_from_request_parts(&map, &mut extensions(Some(true)), &[]);
    assert!(result.is_some());
    // Should use rightmost IP
    assert_eq!(result.expect("Client IP should be Some").0, v4(192, 0, 2, 3));
}

#[test]
fn untrusted_peer_falls_back_to_its_own_address() {
    let map = headers(&[
        ("x-forwarded-for", "192.0.2.1"),
        ("x-real-ip", "192.0.2.2"),
        ("forwarded", "for=192.0.2.3"),
    ]);
    let mut ext = extensions(None);
    ext.connect_info = Some(SocketAddress { ip: v4(198, 51, 100, 1), port: 5000 });
    ext.proxy_protocol = Some(proxied(vec![]));
    let cidrs = [Cidr::new(v4(10, 0, 0, 0), 8).unwrap()];
    let result = ClientIP::from_request_parts(&map, &mut ext, &cidrs);
    assert_eq!(result.ok(), Some(ClientIP(v4(198, 51, 100, 1))));
    assert_eq!(ext.trusted_proxy, Some(TrustedProxy(false)));
}

#[test]
fn client_ip_falls_through_the_sources() {
    let mut ext = extensions(Some(true));
    ext.connect_info = Some(SocketAddress { ip: v4(10, 0, 0, 7), port: 5000 });
    ext.proxy_protocol = Some(proxied(vec![]));

    // The first stanza that gives an address decides.
    let map = headers(&[("forwarded", "for=_hidden, for=192.0.2.8;by=192.0.2.9, for=192.0.2.10")]);
    assert_eq!(
        ClientIP::optional_from_request_parts(&map, &mut ext, &[]),
        Some(ClientIP(v4(192, 0, 2, 8)))
    );
    // Headers that give no address leave the PROXY protocol header to decide.
    let map = headers(&[("x-forwarded-for", "nonsense"), ("forwarded", "for=unknown")]);
    assert_eq!(
        ClientIP::optional_from_request_parts(&map, &mut ext, &[]),
        Some(ClientIP(v4(203, 0, 113, 9)))
    );
    // Without one, the peer's own address is left.
    ext.proxy_protocol = Some(ProxyProtocolState { header: None });
    assert_eq!(
        ClientIP::optional_from_request_parts(&map, &mut ext, &[]),
        Some(ClientIP(v4(10, 0, 0, 7)))
    );
}

#[test]
fn client_ip_pick_follows_the_order() {
    let a = Some(v4(1, 1, 1, 1));
    let b = Some(v4(2, 2, 2, 2));
    let c = Some(v4(3, 3, 3, 3));
    let d = Some(v4(4, 4, 4, 4));
    let e = Some(v4(5, 5, 5, 5));
    let yes = TrustedProxy(true);
    assert_eq!(ClientIP::pick(yes, a, b, c, d, e), Some(ClientIP(v4(1, 1, 1, 1))));
    assert_eq!(ClientIP::pick(yes, None, b, c, d, e), Some(ClientIP(v4(2, 2, 2, 2))));
    assert_eq!(ClientIP::pick(yes, None, None, c, d, e), Some(ClientIP(v4(3, 3, 3, 3))));
    assert_eq!(ClientIP::pick(yes, None, None, None, d, e), Some(ClientIP(v4(4, 4, 4, 4))));
    assert_eq!(ClientIP::pick(yes, None, None, None, None, e), Some(ClientIP(v4(5, 5, 5, 5))));
    assert_eq!(ClientIP::pick(yes, None, None, None, None, None), None);
    assert_eq!(ClientIP::pick(TrustedProxy(false), a, b, c, d, e), Some(ClientIP(v4(5, 5, 5, 5))));
    assert_eq!(ClientIP::pick(TrustedProxy(false), a, b, c, d, None), None);
}

#[test]
fn trusted_proxy_is_worked_out_once() {
    let cidrs = [
        Cidr::new(v4(10, 0, 0, 0), 8).unwrap(),
        Cidr::new(IpAddress::V6(0xfd00 << 112), 8).unwrap(),
    ];
    let mut ext = extensions(None);
    ext.connect_info = Some(SocketAddress { ip: v4(10, 1, 2, 3), port: 1 });
    assert_eq!(TrustedProxy::from_request_parts(&mut ext, &cidrs), TrustedProxy(true));
    assert_eq!(ext.trusted_proxy, Some(TrustedProxy(true)));
    // The stored answer is given again, whatever the ranges are by then.
    assert_eq!(TrustedProxy::from_request_parts(&mut ext, &[]), TrustedProxy(true));
    assert_eq!(ext.trusted_proxy, Some(TrustedProxy(true)));

    assert_eq!(TrustedProxy::evaluate(Some(v4(11, 0, 0, 1)), &cidrs), TrustedProxy(false));
    assert_eq!(
        TrustedProxy::evaluate(Some(IpAddress::V6((0xfd12 << 112) | 1)), &cidrs),
        TrustedProxy(true)
    );
    assert_eq!(TrustedProxy::evaluate(None, &cidrs), TrustedProxy(false));
    assert_eq!(TrustedProxy::evaluate(Some(v4(10, 0, 0, 1)), &[]), TrustedProxy(false));

    let mut ext = extensions(None);
    assert_eq!(TrustedProxy::from_request_parts(&mut ext, &cidrs), TrustedProxy(false));
    assert_eq!(ext.trusted_proxy, Some(TrustedProxy(false)));
}

#[test]
fn host_header() {
    let map = headers(&[("host", "example.com:8080")]);
    let result = Host::from_request_parts(&map, Some(b"example.com"), &mut extensions(None), &[]);
    assert!(result.is_ok());
    assert_eq!(result.expect("Host extraction should succeed").0, b"example.com:8080");
}

#[test]
fn from_uri() {
    let map = headers(&[]);
    let result = Host::from_request_parts(&map, Some(b"example.com"), &mut extensions(None), &[]);
    assert!(result.is_ok());
    assert_eq!(result.expect("Host extraction should succeed").0, b"example.com");
}

#[test]
fn x_forwarded_host_trusted() {
    let map = headers(&[("x-forwarded-host", "forwarded.example.com")]);
    let result =
        Host::from_request_parts(&map, Some(b"example.com"), &mut extensions(Some(true)), &[]);
    assert!(result.is_ok());
    assert_eq!(result.expect("Host extraction should succeed").0, b"forwarded.example.com");
}

#[test]
fn host_forwarded_header_trusted() {
    let map = headers(&[("forwarded", "host=forwarded.example.com")]);
    let result =
        Host::from_request_parts(&map, Some(b"example.com"), &mut extensions(Some(true)), &[]);
    assert!(result.is_ok());
    assert_eq!(result.expect("Host extraction should succeed").0, b"forwarded.example.com");
}

#[test]
fn forwarded_host_untrusted() {
    let map = headers(&[("x-forwarded-host", "malicious.example.com")]);
    let result =
        Host::from_request_parts(&map, Some(b"example.com"), &mut extensions(Some(false)), &[]);
    assert!(result.is_ok());
    assert_eq!(result.expect("Host extraction should succeed").0, b"example.com");
}

#[test]
fn forwarded_header_untrusted() {
    let map = headers(&[("forwarded", "host=malicious.example.com")]);
    let result =
        Host::from_request_parts(&map, Some(b"example.com"), &mut extensions(Some(false)), &[]);
    assert!(result.is_ok());
    assert_eq!(result.expect("Host extraction should succeed").0, b"example.com");
}

#[test]
fn host_priority_order() {
    let map = headers(&[
        ("x-forwarded-host", "x-forwarded.example.com"),
        ("forwarded", "host=forwarded.example.com"),
        ("host", "host-header.example.com"),
    ]);
    let result =
        Host::from_request_parts(&map, Some(b"example.com"), &mut extensions(Some(true)), &[]);
    assert!(result.is_ok());
    assert_eq!(result.expect("Host extraction should succeed").0, b"x-forwarded.example.com");
}

#[test]
fn no_host_found() {
    let map = headers(&[]);
    let result = Host::from_request_parts(&map, None, &mut extensions(None), &[]);
    assert!(result.is_err());
    let rejection = result.expect_err("Should fail when no host found");
    assert_eq!(rejection.0, 400);
    assert_eq!(rejection.1, "No host found in request");
}

#[test]
fn host_multiple_forwarded_stanzas() {
    let map = headers(&[("forwarded", "host=first.example.com, host=second.example.com")]);
    let result =
        Host::from_request_parts(&map, Some(b"example.com"), &mut extensions(Some(true)), &[]);
    assert!(result.is_ok());
    assert_eq!(result.expect("Host extraction should succeed").0, b"first.example.com");
}

#[test]
fn host_header_that_is_no_text_is_passed_over() {
    let mut map = HeaderMap::new();
    map.insert("x-forwarded-host", HeaderValue::from_bytes(b"caf\xc3\xa9.example").unwrap());
    map.insert("host", HeaderValue::from_static("example.org"));
    let result = Host::optional_from_request_parts(&map, None, &mut extensions(Some(true)), &[]);
    assert_eq!(result.map(|h| h.0), Some(b"example.org".to_vec()));
}

#[test]
fn x_forwarded_proto_trusted() {
    let map = headers(&[("x-forwarded-proto", "https")]);
    let result = Scheme::from_request_parts(&map, &mut extensions(Some(true)), &[]);
    assert_eq!(result.0, b"https");
    assert!(result.is_https());
}

#[test]
fn x_forwarded_scheme_trusted() {
    let map = headers(&[("x-forwarded-scheme", "https")]);
    let result = Scheme::from_request_parts(&map, &mut extensions(Some(true)), &[]);
    assert_eq!(result.0, b"https");
}

#[test]
fn scheme_forwarded_header_trusted() {
    let map = headers(&[("forwarded", "proto=https")]);
    let result = Scheme::from_request_parts(&map, &mut extensions(Some(true)), &[]);
    assert_eq!(result.0, b"https");
}

#[test]
fn x_forwarded_proto_untrusted() {
    let map = headers(&[("x-forwarded-proto", "https")]);
    let result = Scheme::from_request_parts(&map, &mut extensions(Some(false)), &[]);
    assert_eq!(result.0, b"http");
    assert!(!result.is_https());
}

#[test]
fn scheme_from_tls_state() {
    let map = headers(&[]);
    let mut ext = extensions(None);
    ext.tls = Some(TlsState { peer_certificates: None });
    let result = Scheme::from_request_parts(&map, &mut ext, &[]);
    assert_eq!(result.0, b"https");
}

#[test]
fn scheme_defaults_to_http() {
    let map = headers(&[]);
    let result = Scheme::from_request_parts(&map, &mut extensions(None), &[]);
    assert_eq!(result.0, b"http");
}

#[test]
fn scheme_priority_order() {
    let map = headers(&[
        ("x-forwarded-proto", "http"),
        ("x-forwarded-scheme", "https"),
        ("forwarded", "proto=https"),
    ]);
    let result = Scheme::from_request_parts(&map, &mut extensions(Some(true)), &[]);
    // Should use X-Forwarded-Proto (http) since it has highest priority
    assert_eq!(result.0, b"http");
}

#[test]
fn scheme_multiple_forwarded_stanzas() {
    let map = headers(&[("forwarded", "proto=http, proto=https")]);
    let result = Scheme::from_request_parts(&map, &mut extensions(Some(true)), &[]);
    assert_eq!(result.0, b"http");
}

#[test]
fn test_scheme_case_insensitive() {
    let map = headers(&[("x-forwarded-proto", "HTTPS")]);
    let result = Scheme::from_request_parts(&map, &mut extensions(Some(true)), &[]);
    assert_eq!(result.0, b"https");
}

#[test]
fn scheme_from_proxy_protocol_extension() {
    let map = headers(&[("x-forwarded-proto", "not a scheme")]);
    let mut ext = extensions(Some(true));
    ext.proxy_protocol = Some(proxied(vec![0x20, 0x00, 0x05, 0x01, 0, 0, 0, 0]));
    assert_eq!(Scheme::from_request_parts(&map, &mut ext, &[]).0, b"https");
    // From any other peer the header of the connection's start is not believed.
    ext.trusted_proxy = Some(TrustedProxy(false));
    assert_eq!(Scheme::from_request_parts(&map, &mut ext, &[]).0, b"http");
    // Without the extension the connection itself decides.
    ext.trusted_proxy = Some(TrustedProxy(true));
    ext.proxy_protocol = Some(proxied(vec![]));
    assert_eq!(Scheme::from_request_parts(&map, &mut ext, &[]).0, b"http");
}

#[test]
fn scheme_parse_takes_scheme_bytes_only() {
    assert_eq!(Scheme::parse(b"WSS").map(|s| s.0), Some(b"wss".to_vec()));
    assert_eq!(Scheme::parse(b"svn+ssh").map(|s| s.0), Some(b"svn+ssh".to_vec()));
    assert_eq!(Scheme::parse(b"").map(|s| s.0), Some(Vec::new()));
    assert!(Scheme::parse(b"ht tp").is_none());
    assert!(Scheme::parse(b"http:").is_none());
    assert!(Scheme::parse(&[b'a'; 65]).is_none());
    assert!(Scheme::parse(&[b'a'; 64]).is_some());
    assert_eq!(Scheme::http().0, b"http");
    assert_eq!(Scheme::https().0, b"https");
    // The same texts are taken by the `http` crate.
    for text in ["WSS", "svn+ssh", "", "ht tp", "http:", "a~b"] {
        let lower = text.to_ascii_lowercase();
        assert_eq!(
            Scheme::parse(text.as_bytes()).is_some(),
            http::uri::Scheme::try_from(lower.as_str()).is_ok(),
            "{text}"
        );
    }
}

#[test]
fn host_pick_follows_the_order() {
    let yes = TrustedProxy(true);
    let no = TrustedProxy(false);
    let pick = |t, a, b, c, d| Host::pick(t, a, b, c, d).map(|h| h.0);
    let (a, b, c, d): (&[u8], &[u8], &[u8], &[u8]) = (b"a", b"b", b"c", b"d");
    assert_eq!(pick(yes, Some(a), Some(b), Some(c), Some(d)), Some(b"a".to_vec()));
    assert_eq!(pick(yes, None, Some(b), Some(c), Some(d)), Some(b"b".to_vec()));
    assert_eq!(pick(yes, None, None, Some(c), Some(d)), Some(b"c".to_vec()));
    assert_eq!(pick(yes, None, None, None, Some(d)), Some(b"d".to_vec()));
    assert_eq!(pick(yes, None, None, None, None), None);
    assert_eq!(pick(no, Some(a), Some(b), Some(c), Some(d)), Some(b"c".to_vec()));
    assert_eq!(pick(no, Some(a), Some(b), None, Some(d)), Some(b"d".to_vec()));
    assert_eq!(pick(no, Some(a), Some(b), None, None), None);
}

#[test]
fn scheme_pick_follows_the_order() {
    let http_proto = ForwardedProto::Http;
    let https_proto = ForwardedProto::Https;
    let yes = TrustedProxy(true);
    let no = TrustedProxy(false);
    let wss: &[u8] = b"WSS";
    let bad: &[u8] = b"no scheme";
    let http: &[u8] = b"http";
    assert_eq!(Scheme::pick(yes, Some(wss), Some(http), Some(http_proto), true, false).0, b"wss");
    assert_eq!(Scheme::pick(yes, Some(bad), Some(http), Some(https_proto), true, true).0, b"http");
    assert_eq!(Scheme::pick(yes, Some(bad), Some(bad), Some(https_proto), false, false).0, b"https");
    assert_eq!(Scheme::pick(yes, None, None, Some(http_proto), true, true).0, b"http");
    assert_eq!(Scheme::pick(yes, None, None, None, true, false).0, b"https");
    assert_eq!(Scheme::pick(yes, None, None, None, false, true).0, b"https");
    assert_eq!(Scheme::pick(yes, None, None, None, false, false).0, b"http");
    assert_eq!(Scheme::pick(no, Some(wss), Some(wss), Some(https_proto), true, false).0, b"http");
    assert_eq!(Scheme::pick(no, Some(wss), Some(wss), Some(http_proto), true, true).0, b"https");
}

#[test]
fn forwarded_facts_come_from_the_first_stanza_that_has_them() {
    let stanzas = vec![
        ForwardedStanza { for_ip: None, host: None, proto: Some(ForwardedProto::Https) },
        ForwardedStanza { for_ip: Some(v4(1, 1, 1, 1)), host: Some(b"a.test".to_vec()), proto: None },
        ForwardedStanza {
            for_ip: Some(v4(2, 2, 2, 2)),
            host: Some(b"b.test".to_vec()),
            proto: Some(ForwardedProto::Http),
        },
    ];
    let facts = ForwardedFacts::gather(&stanzas);
    assert_eq!(facts.for_ip, Some(v4(1, 1, 1, 1)));
    assert_eq!(facts.host, Some(b"a.test".to_vec()));
    assert_eq!(facts.proto, Some(ForwardedProto::Https));
    let none = ForwardedFacts::gather(&[]);
    assert!(none.for_ip.is_none() && none.host.is_none() && none.proto.is_none());

    let text: &[u8] = b"proto=https, for=\"[2001:db8::1]:4711\";host=\"a.test\", for=192.0.2.1;host=b.test";
    let facts = read_forwarded(Some(text));
    assert_eq!(facts.for_ip, Some(IpAddress::V6(0x2001_0db8_0000_0000_0000_0000_0000_0001)));
    assert_eq!(facts.host, Some(b"a.test".to_vec()));
    assert_eq!(facts.proto, Some(ForwardedProto::Https));
    let refused = read_forwarded(Some(b"for=192.0.2.1, nonsense"));
    assert!(refused.for_ip.is_none() && refused.host.is_none() && refused.proto.is_none());
    assert!(read_forwarded(Some(b"\xff")).host.is_none());
    assert!(read_forwarded(None).for_ip.is_none());
}

#[test]
fn forwarded_host_of_one_quote_is_not_read() {
    for text in ["host=\"", "for=192.0.2.1;HoST=\" ;proto=https", "host=\"  , for=192.0.2.1"] {
        assert!(find_lone_quote(text.as_bytes()), "{text}");
        let facts = read_forwarded(Some(text.as_bytes()));
        assert!(facts.for_ip.is_none() && facts.host.is_none() && facts.proto.is_none());
    }
    for text in ["host=\"\"", "host=\"a\"", "host=\" a\"", "ghost=\"x", "for=\"[::1]\""] {
        assert!(!find_lone_quote(text.as_bytes()), "{text}");
    }
    assert_eq!(read_forwarded(Some(b"host=\"\"")).host, Some(Vec::new()));
    assert_eq!(read_forwarded(Some(b"host=\" a\"")).host, Some(b" a".to_vec()));

    let mut map = HeaderMap::new();
    map.insert("forwarded", HeaderValue::from_static("host=\""));
    map.insert("host", HeaderValue::from_static("example.org"));
    let result = Host::optional_from_request_parts(&map, None, &mut extensions(Some(true)), &[]);
    assert_eq!(result.map(|h| h.0), Some(b"example.org".to_vec()));
    assert_eq!(Scheme::from_request_parts(&map, &mut extensions(Some(true)), &[]).0, b"http");
    assert!(ClientIP::optional_from_request_parts(&map, &mut extensions(Some(true)), &[]).is_none());
}

#[test]
fn request_without_forwarding_headers_has_the_address_of_the_connection() {
    let map = headers(&[("accept", "*/*")]);
    let mut ext = extensions(Some(true));
    ext.connect_info = Some(SocketAddress { ip: v4(10, 0, 0, 7), port: 5000 });
    assert_eq!(
        ClientIP::optional_from_request_parts(&map, &mut ext, &[]),
        Some(ClientIP(v4(10, 0, 0, 7)))
    );
    ext.proxy_protocol = Some(proxied(vec![]));
    assert_eq!(
        ClientIP::optional_from_request_parts(&map, &mut ext, &[]),
        Some(ClientIP(v4(203, 0, 113, 9)))
    );
}
