use authentik::config::{ListenConfig, WebConfig};
use authentik::error::Error;
use authentik::extract::client_ip::ClientIP;
use authentik::extract::host::Host;
use authentik::extract::scheme::Scheme;
use authentik::extract::trusted_proxy::TrustedProxy;
use authentik::extract::TlsState;
use authentik::forward::client_cert::{client_cert_header, join_cert_entries};
use authentik::forward::startup::{
    after_failure, after_probe, before_forwarding, startup_response, BodyFormat, StartupResponse,
    Upstream,
};
use authentik::forward::websocket::{
    handle_websocket_upgrade, is_websocket_upgrade, Handshake, MessageKind, Relay, RelayAction,
    RelayEvent,
};
use authentik::forward::{
    backend_target, forward_request, inject_client_cert, powered_by, rewrite_headers,
    ClientIdentity, ForwardError, Forwarding,
};
use authentik::headers::{has_room, header_text, is_visible_text, HEADER_ROOM};
use authentik::net::{IpAddress, SocketAddress};
use authentik::text::{contains_bytes, eq_ignore_case, list_contains, to_lower, trim_bytes};
use http::{HeaderMap, HeaderName, HeaderValue};

fn header_map(items: &[(&'static str, &'static str)]) -> HeaderMap {
    let mut map = HeaderMap::new();
    for (name, value) in items {
        map.append(HeaderName::from_static(name), HeaderValue::from_static(value));
    }
    map
}

fn identity(scheme: &[u8]) -> ClientIdentity {
    ClientIdentity {
        ip: ClientIP(IpAddress::V4(0xc000_0203)),
        host: Host(b"tenant-a.example".to_vec()),
        scheme: Scheme(scheme.to_vec()),
    }
}

#[test]
fn forwarding_headers_are_regenerated() {
    let mut map = header_map(&[
        ("forwarded", "for=6.6.6.6;proto=http;host=evil.example"),
        ("x-forwarded-for", "6.6.6.6"),
        ("x-forwarded-for", "7.7.7.7"),
        ("x-forwarded-host", "evil.example"),
        ("x-forwarded-proto", "http"),
        ("x-forwarded-scheme", "http"),
        ("x-real-ip", "6.6.6.6"),
        ("host", "evil.example"),
        ("ssl-client-cert", "forged"),
        ("x-forwarded-tls-client-cert", "forged"),
        ("x-forwarded-client-cert", "forged"),
        ("accept", "text/html"),
        ("cookie", "a=b"),
    ]);
    let result = forward_request(&mut map, true, &identity(b"https"), TrustedProxy(false), None);
    assert!(matches!(result, Ok(Forwarding::Forward)));
    let mut seen: Vec<(String, Vec<u8>)> =
        map.iter().map(|(k, v)| (k.as_str().to_owned(), v.as_bytes().to_vec())).collect();
    seen.sort();
    assert_eq!(
        seen,
        vec![
            ("accept".to_owned(), b"text/html".to_vec()),
            ("cookie".to_owned(), b"a=b".to_vec()),
            ("host".to_owned(), b"tenant-a.example".to_vec()),
            ("x-forwarded-for".to_owned(), b"192.0.2.3".to_vec()),
            ("x-forwarded-proto".to_owned(), b"https".to_vec()),
        ]
    );
}

#[test]
fn trusted_peer_keeps_the_client_certificate_headers() {
    let mut map = header_map(&[("ssl-client-cert", "from-ingress"), ("x-real-ip", "6.6.6.6")]);
    assert_eq!(rewrite_headers(&mut map, &identity(b"http"), TrustedProxy(true)), Ok(()));
    assert_eq!(map.get("ssl-client-cert").map(|v| v.as_bytes()), Some(&b"from-ingress"[..]));
    assert!(!map.contains_key("x-real-ip"));
    assert_eq!(map.get("x-forwarded-proto").map(|v| v.as_bytes()), Some(&b"http"[..]));
    assert_eq!(map.len(), 4);
}

#[test]
fn host_or_scheme_that_no_header_can_hold_is_an_error() {
    let mut map = header_map(&[("accept", "*/*")]);
    let mut bad = identity(b"https");
    bad.host = Host(b"line\nbreak".to_vec());
    assert_eq!(rewrite_headers(&mut map, &bad, TrustedProxy(true)), Err(ForwardError::InvalidHost));
    let mut bad = identity(b"ht\x7ftp");
    assert_eq!(
        rewrite_headers(&mut map, &bad, TrustedProxy(true)),
        Err(ForwardError::InvalidScheme)
    );
    bad.host = Host(vec![0]);
    assert!(matches!(
        forward_request(&mut map, true, &bad, TrustedProxy(true), None),
        Err(ForwardError::InvalidHost)
    ));
}

#[test]
fn request_is_answered_while_the_backend_starts() {
    let mut map = header_map(&[("accept", "text/html,application/json"), ("host", "evil")]);
    let result = forward_request(&mut map, false, &identity(b"https"), TrustedProxy(false), None);
    match result {
        Ok(Forwarding::Starting(response)) => {
            assert_eq!(response.status, 503);
            assert_eq!(response.format, BodyFormat::Json);
            assert_eq!(response.retry_after, Some(5));
        }
        _ => panic!("the stand-in response was expected"),
    }
    // Nothing was rewritten.
    assert_eq!(map.get("host").map(|v| v.as_bytes()), Some(&b"evil"[..]));
    assert_eq!(map.len(), 2);

    let mut map = HeaderMap::new();
    match forward_request(&mut map, false, &identity(b"https"), TrustedProxy(false), None) {
        Ok(Forwarding::Starting(response)) => assert_eq!(response.format, BodyFormat::Plain),
        _ => panic!("the stand-in response was expected"),
    }
}

#[test]
fn startup_response_follows_the_accept_header() {
    assert_eq!(
        startup_response(b"application/json"),
        StartupResponse { status: 503, format: BodyFormat::Json, retry_after: Some(5) }
    );
    assert_eq!(
        startup_response(b"text/html;q=0.9, */*"),
        StartupResponse { status: 503, format: BodyFormat::Html, retry_after: None }
    );
    assert_eq!(
        startup_response(b""),
        StartupResponse { status: 503, format: BodyFormat::Plain, retry_after: None }
    );
    assert_eq!(startup_response(b"Application/JSON").format, BodyFormat::Plain);
    assert_eq!(BodyFormat::Json.content_type(), "application/json");
    assert_eq!(BodyFormat::Html.content_type(), "text/html");
    assert_eq!(BodyFormat::Plain.content_type(), "text/plain");
    assert_eq!(BodyFormat::Json.body(), Some("{\"error\":\"authentik starting\"}"));
    assert_eq!(BodyFormat::Plain.body(), Some("authentik starting"));
    assert_eq!(BodyFormat::Html.body(), None);
    let parsed: serde_json::Value = serde_json::from_str(BodyFormat::Json.body().unwrap()).unwrap();
    assert_eq!(parsed["error"], "authentik starting");
}

#[test]
fn failed_exchange_is_a_bad_gateway_unless_the_backend_is_gone() {
    assert_eq!(before_forwarding(true, b"text/html"), Upstream::Forward);
    assert_eq!(
        before_forwarding(false, b"text/html"),
        Upstream::Starting(StartupResponse {
            status: 503,
            format: BodyFormat::Html,
            retry_after: None
        })
    );
    assert_eq!(after_failure(true), Upstream::Probe);
    assert_eq!(after_failure(false), Upstream::BadGateway);
    assert_eq!(after_probe(true, b""), Upstream::BadGateway);
    assert_eq!(
        after_probe(false, b""),
        Upstream::Starting(StartupResponse {
            status: 503,
            format: BodyFormat::Plain,
            retry_after: None
        })
    );
}

#[test]
fn websocket_upgrade_is_recognised() {
    let full = [
        ("upgrade", "WebSocket"),
        ("connection", "keep-alive, Upgrade"),
        ("sec-websocket-key", "dGhlIHNhbXBsZSBub25jZQ=="),
        ("sec-websocket-version", "13"),
    ];
    assert!(is_websocket_upgrade(&header_map(&full)));
    for skip in 0..4 {
        let mut items = full.to_vec();
        items.remove(skip);
        assert!(!is_websocket_upgrade(&header_map(&items)), "{skip}");
    }
    let mut other = full;
    other[0].1 = "h2c";
    assert!(!is_websocket_upgrade(&header_map(&other)));
    let mut other = full;
    other[1].1 = "keep-alive";
    assert!(!is_websocket_upgrade(&header_map(&other)));
    let mut other = full;
    other[1].1 = "upgrades";
    assert!(!is_websocket_upgrade(&header_map(&other)));
}

#[test]
fn websocket_upgrade_without_key_is_rejected() {
    let map = header_map(&[("upgrade", "websocket"), ("connection", "upgrade")]);
    assert!(matches!(handle_websocket_upgrade(&map), Handshake::Rejected(400)));
    let mut map = map;
    map.insert("sec-websocket-key", HeaderValue::from_bytes(b"\xff\xfe").unwrap());
    assert!(matches!(handle_websocket_upgrade(&map), Handshake::Rejected(400)));
}

#[test]
fn websocket_upgrade_is_answered_with_the_accept_key() {
    // The example of RFC 6455.
    let map = header_map(&[("sec-websocket-key", "dGhlIHNhbXBsZSBub25jZQ==")]);
    match handle_websocket_upgrade(&map) {
        Handshake::Accepted { accept } => {
            assert_eq!(accept, b"s3pPLMBiTxaQ9kYGzzhZRbK+xOo=".to_vec())
        }
        Handshake::Rejected(_) => panic!("the upgrade was expected to be accepted"),
    }
    let mut map = header_map(&[
        ("upgrade", "websocket"),
        ("connection", "upgrade"),
        ("sec-websocket-key", "dGhlIHNhbXBsZSBub25jZQ=="),
        ("sec-websocket-version", "13"),
        ("x-forwarded-for", "6.6.6.6"),
    ]);
    let tls = TlsState { peer_certificates: Some(vec![vec![1, 2, 3]]) };
    match forward_request(&mut map, true, &identity(b"https"), TrustedProxy(true), Some(&tls)) {
        Ok(Forwarding::Upgrade(Handshake::Accepted { accept })) => {
            assert_eq!(accept, b"s3pPLMBiTxaQ9kYGzzhZRbK+xOo=".to_vec())
        }
        _ => panic!("the upgrade was expected to be accepted"),
    }
    assert_eq!(map.get("x-forwarded-for").map(|v| v.as_bytes()), Some(&b"192.0.2.3"[..]));
    assert!(!map.contains_key("x-forwarded-client-cert"));
}

#[test]
fn relay_passes_messages_on_and_closes_once() {
    let mut relay = Relay::new();
    for kind in [MessageKind::Text, MessageKind::Binary, MessageKind::Ping, MessageKind::Pong] {
        assert_eq!(relay.on_event(RelayEvent::Message(kind)), RelayAction::Forward);
    }
    assert_eq!(relay.on_event(RelayEvent::Message(MessageKind::Frame)), RelayAction::Skip);
    assert!(!relay.closed);
    assert_eq!(relay.on_event(RelayEvent::Message(MessageKind::Close)), RelayAction::Close);
    assert!(relay.closed);
    assert_eq!(relay.on_event(RelayEvent::Message(MessageKind::Close)), RelayAction::Stop);
    assert_eq!(relay.on_event(RelayEvent::Message(MessageKind::Text)), RelayAction::Skip);
    assert_eq!(relay.on_event(RelayEvent::Ended), RelayAction::Stop);

    let mut relay = Relay::new();
    assert_eq!(relay.on_event(RelayEvent::Ended), RelayAction::Close);
    assert!(relay.closed);
}

#[test]
fn client_certificates_are_passed_on_for_a_trusted_peer() {
    let der = vec![0x30, 0x03, 0x02, 0x01, 0x2a];
    let one = client_cert_header(&[der.clone()]);
    assert_eq!(
        one,
        b"Cert=-----BEGIN+CERTIFICATE-----%0D%0AMAMCASo%3D%0D%0A-----END+CERTIFICATE-----%0D%0A"
            .to_vec()
    );
    let two = client_cert_header(&[der.clone(), vec![]]);
    let mut expected = one.clone();
    expected.extend_from_slice(
        b",Cert=-----BEGIN+CERTIFICATE-----%0D%0A-----END+CERTIFICATE-----%0D%0A",
    );
    assert_eq!(two, expected);
    assert_eq!(client_cert_header(&[]), Vec::<u8>::new());

    let tls = TlsState { peer_certificates: Some(vec![der]) };
    let mut map = HeaderMap::new();
    assert!(inject_client_cert(&mut map, TrustedProxy(true), Some(&tls)));
    assert_eq!(map.get("x-forwarded-client-cert").map(|v| v.as_bytes()), Some(one.as_slice()));

    let mut map = HeaderMap::new();
    assert!(inject_client_cert(&mut map, TrustedProxy(false), Some(&tls)));
    assert!(map.is_empty());
    assert!(inject_client_cert(&mut map, TrustedProxy(true), None));
    assert!(map.is_empty());
    let none = TlsState { peer_certificates: None };
    assert!(inject_client_cert(&mut map, TrustedProxy(true), Some(&none)));
    assert!(map.is_empty());

    let mut map = header_map(&[("x-forwarded-client-cert", "forged")]);
    let result = forward_request(&mut map, true, &identity(b"https"), TrustedProxy(true), Some(&tls));
    assert!(matches!(result, Ok(Forwarding::Forward)));
    assert_eq!(map.get("x-forwarded-client-cert").map(|v| v.as_bytes()), Some(one.as_slice()));
}

#[test]
fn responses_are_marked() {
    let mut map = header_map(&[("server", "gunicorn"), ("content-type", "text/html")]);
    assert!(powered_by(&mut map));
    assert!(!map.contains_key("server"));
    assert_eq!(map.get("x-powered-by").map(|v| v.as_bytes()), Some(&b"authentik"[..]));
    assert_eq!(map.len(), 2);
}

#[test]
fn backend_target_keeps_path_and_query() {
    assert_eq!(backend_target(b"/if/flow/?next=%2F", false), b"http://localhost:8000/if/flow/?next=%2F");
    assert_eq!(backend_target(b"/ws/client/", true), b"ws://localhost:8000/ws/client/");
    assert_eq!(backend_target(b"", false), b"http://localhost:8000");
}

#[test]
fn header_text_is_the_first_value_if_it_is_text() {
    let mut map = header_map(&[("accept", "a"), ("accept", "b")]);
    assert_eq!(header_text(&map, "accept"), Some(&b"a"[..]));
    assert_eq!(header_text(&map, "x-missing"), None);
    map.insert("accept", HeaderValue::from_bytes(b"caf\xc3\xa9").unwrap());
    assert_eq!(header_text(&map, "accept"), None);
    assert!(is_visible_text(b"tab\tand space ~"));
    assert!(!is_visible_text(b"\x7f"));
    assert!(!is_visible_text(b"\n"));
}

#[test]
fn byte_text_helpers() {
    assert_eq!(trim_bytes(b" \t a b\t "), b"a b");
    assert_eq!(trim_bytes(b"   "), b"");
    assert_eq!(trim_bytes(b""), b"");
    assert_eq!(to_lower(b"AbC-Z@[`{"), b"abc-z@[`{".to_vec());
    assert!(eq_ignore_case(b"WebSocket", b"websocket"));
    assert!(!eq_ignore_case(b"websocket", b"websockets"));
    assert!(list_contains(b"a, B ,c", b"b"));
    assert!(list_contains(b"upgrade", b"Upgrade"));
    assert!(!list_contains(b"a b, c", b"b"));
    assert!(!list_contains(b"", b"b"));
    assert!(list_contains(b"a,,b", b""));
    assert!(contains_bytes(b"text/html, application/json", b"application/json"));
    assert!(contains_bytes(b"abc", b""));
    assert!(contains_bytes(b"", b""));
    assert!(!contains_bytes(b"ab", b"abc"));
    assert!(!contains_bytes(b"application/jso", b"application/json"));
}

#[test]
fn errors_turn_into_an_opaque_response() {
    let error = Error::from("connection reset by peer".to_owned());
    assert_eq!(error.0, "connection reset by peer");
    assert_eq!(error.into_response(), (500, "Something went wrong".to_owned()));
}

#[test]
fn pool_and_listeners_are_counted_from_the_settings() {
    let web = WebConfig { workers: 3, threads: 4, path: "/".to_owned() };
    assert_eq!(web.pool_size(), 12);
    let web = WebConfig { workers: usize::MAX, threads: 2, path: "/".to_owned() };
    assert_eq!(web.pool_size(), usize::MAX);
    let any = SocketAddress { ip: IpAddress::V4(0), port: 9000 };
    let listen = ListenConfig {
        http: vec![any, any],
        https: vec![any],
        ldap: vec![any],
        ldaps: vec![],
        radius: vec![],
        metrics: vec![any],
        debug: any,
        trusted_proxy_cidrs: vec![],
    };
    assert_eq!(listen.listener_count(), Some(4));
}

#[test]
fn full_header_map_is_an_error() {
    let mut map = HeaderMap::new();
    let mut count = 0;
    loop {
        let name = HeaderName::from_bytes(format!("x-filler-{count}").as_bytes()).unwrap();
        if map.try_append(name, HeaderValue::from_static("v")).is_err() {
            break;
        }
        count += 1;
        assert!(count < 100_000, "the map never refused a header");
    }
    let before = map.len();
    assert!(before >= HEADER_ROOM);
    assert!(!has_room(&map, 0));
    assert_eq!(
        rewrite_headers(&mut map, &identity(b"https"), TrustedProxy(true)),
        Err(ForwardError::HeadersFull)
    );
    assert_eq!(map.len(), before);
    assert!(!powered_by(&mut map));
    let tls = TlsState { peer_certificates: Some(vec![vec![1]]) };
    assert!(!inject_client_cert(&mut map, TrustedProxy(true), Some(&tls)));
    assert_eq!(map.len(), before);
}

#[test]
fn certificate_entries_are_joined_with_commas() {
    assert_eq!(join_cert_entries(&[]), Vec::<u8>::new());
    assert_eq!(join_cert_entries(&[b"abc".to_vec()]), b"Cert=abc".to_vec());
    assert_eq!(
        join_cert_entries(&[b"abc".to_vec(), vec![], b"x%2F".to_vec()]),
        b"Cert=abc,Cert=,Cert=x%2F".to_vec()
    );
}

#[test]
fn upgrade_is_answered_from_the_accept_key() {
    assert!(matches!(Handshake::answer(None), Handshake::Rejected(400)));
    match Handshake::answer(Some(b"key".to_vec())) {
        Handshake::Accepted { accept } => assert_eq!(accept, b"key".to_vec()),
        Handshake::Rejected(_) => panic!("the upgrade was expected to be accepted"),
    }
}

#[test]
fn header_map_with_room_takes_the_headers() {
    let mut map = HeaderMap::new();
    for count in 0..HEADER_ROOM - 4 {
        let name = HeaderName::from_bytes(format!("x-filler-{count}").as_bytes()).unwrap();
        map.insert(name, HeaderValue::from_static("v"));
    }
    assert!(has_room(&map, 4));
    assert!(!has_room(&map, 5));
    let tls = TlsState { peer_certificates: Some(vec![vec![1]]) };
    let result = forward_request(&mut map, true, &identity(b"https"), TrustedProxy(true), Some(&tls));
    assert!(matches!(result, Ok(Forwarding::Forward)));
    assert_eq!(map.keys_len(), HEADER_ROOM);
    assert!(has_room(&map, 0));
    assert!(!has_room(&map, 1));
    assert!(has_room(&HeaderMap::new(), HEADER_ROOM));
}

#[test]
fn client_address_is_sent_as_std_shows_it() {
    let mut who = identity(b"https");
    who.ip = ClientIP(IpAddress::V6(1));
    let mut map = header_map(&[("x-forwarded-for", "6.6.6.6")]);
    assert_eq!(rewrite_headers(&mut map, &who, TrustedProxy(true)), Ok(()));
    assert_eq!(map.get("x-forwarded-for").map(|v| v.as_bytes()), Some(&b"::1"[..]));
    who.ip = ClientIP(IpAddress::V6(0x2001_0db8_0000_0000_0000_0000_0000_0042));
    assert_eq!(rewrite_headers(&mut map, &who, TrustedProxy(true)), Ok(()));
    assert_eq!(map.get("x-forwarded-for").map(|v| v.as_bytes()), Some(&b"2001:db8::42"[..]));
    assert_eq!(map.get_all("x-forwarded-for").iter().count(), 1);
}
