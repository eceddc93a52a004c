use authentik::net::{IpAddress, SocketAddress};
use authentik::proxy_protocol::header::{Address, Error, Header, Protocol};
use authentik::proxy_protocol::stream::{sniff, ProxyProtocolStream, Sniffed};
use authentik::proxy_protocol::utils::read_until;
use authentik::proxy_protocol::{v1, v2, SslInfo};

fn v4(a: u8, b: u8, c: u8, d: u8) -> IpAddress {
    IpAddress::V4(u32::from_be_bytes([a, b, c, d]))
}

fn v2_header(command: u8, family: u8, payload: &[u8]) -> Vec<u8> {
    let mut buf = b"\r\n\r\n\x00\r\nQUIT\n".to_vec();
    buf.push(command);
    buf.push(family);
    buf.extend_from_slice(&(payload.len() as u16).to_be_bytes());
    buf.extend_from_slice(payload);
    buf
}

#[test]
fn test_parse() {
    let mut buf = [0u8; 1024];
    let header = b"PROXY TCP4 127.0.0.1 192.168.0.1 12345 443\r\n";
    buf[..header.len()].copy_from_slice(header);
    buf[header.len()..].fill(255);

    // The transport hands the bytes out in reads of 536 at most.
    let mut gathered: Vec<u8> = Vec::new();
    let mut offset = 0;
    let found = loop {
        let end = (offset + 536).min(buf.len());
        gathered.extend_from_slice(&buf[offset..end]);
        let read = end - offset;
        offset = end;
        match sniff(&mut gathered, read) {
            Sniffed::NeedMore => continue,
            Sniffed::EndOfStream => panic!("end of stream"),
            Sniffed::Resolved(header) => break header,
        }
    };
    let mut proxied = ProxyProtocolStream::new(&buf[offset..], found, gathered);
    assert_eq!(
        proxied.header().map(|h| h.0),
        Some(Some(Address {
            protocol: Protocol::Stream,
            source: SocketAddress { ip: v4(127, 0, 0, 1), port: 12345 },
            destination: SocketAddress { ip: v4(192, 168, 0, 1), port: 443 },
        }))
    );
    assert_eq!(proxied.header().map(|h| h.1.len()), Some(0));

    let mut out = Vec::new();
    while proxied.has_buffered() {
        out.extend_from_slice(&proxied.read_buffered(100));
    }
    let rest = match proxied.try_into_stream() {
        Ok(rest) => rest,
        Err(_) => panic!("buffer is not empty"),
    };
    out.extend_from_slice(rest);
    assert_eq!(out.len(), 1024 - header.len());
    assert!(out.into_iter().all(|b| b == 255));
}

#[test]
fn v1_tcp4_header_decodes() {
    let buf = b"PROXY TCP4 127.0.0.1 192.168.0.1 12345 443\r\nrest";
    let (header, consumed) = Header::parse(buf).unwrap();
    assert_eq!(consumed, buf.len() - 4);
    assert_eq!(
        header.0,
        Some(Address {
            protocol: Protocol::Stream,
            source: SocketAddress { ip: IpAddress::V4(0x7f00_0001), port: 12345 },
            destination: SocketAddress { ip: IpAddress::V4(0xc0a8_0001), port: 443 },
        })
    );
    assert!(header.1.is_empty());
}

#[test]
fn v1_tcp6_header_decodes() {
    let buf = b"PROXY TCP6 2001:db8::42 ::1 65535 1\r\n";
    let (header, consumed) = v1::decode(buf).unwrap();
    assert_eq!(consumed, buf.len());
    assert_eq!(
        header.0,
        Some(Address {
            protocol: Protocol::Stream,
            source: SocketAddress {
                ip: IpAddress::V6(0x2001_0db8_0000_0000_0000_0000_0000_0042),
                port: 65535,
            },
            destination: SocketAddress { ip: IpAddress::V6(1), port: 1 },
        })
    );
}

#[test]
fn v1_unknown_header_carries_no_address() {
    let buf = b"PROXY UNKNOWN\r\nGET / HTTP/1.1\r\n";
    let (header, consumed) = v1::decode(buf).unwrap();
    assert_eq!(consumed, 15);
    assert_eq!(header.0, None);

    let buf = b"PROXY UNKNOWN ffff::1 ffff::2 1 2\r\n";
    let (header, consumed) = v1::decode(buf).unwrap();
    assert_eq!(consumed, buf.len());
    assert_eq!(header.0, None);
}

#[test]
fn v1_every_truncation_needs_more() {
    let line = b"PROXY TCP4 127.0.0.1 192.168.0.1 12345 443\r\n";
    for len in 1..line.len() {
        assert_eq!(Header::parse(&line[..len]).err(), Some(Error::BufferTooShort), "{len}");
    }
    assert_eq!(Header::parse(&line[..0]).err(), Some(Error::BufferTooShort));
    assert!(Header::parse(line).is_ok());
}

#[test]
fn v1_long_line_without_end_is_refused() {
    let mut buf = b"PROXY UNKNOWN ".to_vec();
    buf.resize(106, b'x');
    assert_eq!(v1::decode(&buf).err(), Some(Error::BufferTooShort));
    buf.push(b'x');
    assert_eq!(buf.len(), 107);
    assert_eq!(v1::decode(&buf).err(), Some(Error::Invalid));
    assert_eq!(v1::decode_inner(&buf).err(), Some(Error::BufferTooShort));
    buf.resize(400, b'x');
    assert_eq!(v1::decode(&buf).err(), Some(Error::Invalid));
}

#[test]
fn v1_line_that_ends_after_the_limit_is_refused() {
    // A line of 107 bytes, its end included, is the longest that is taken.
    let mut line = b"PROXY UNKNOWN ".to_vec();
    line.resize(105, b'x');
    line.extend_from_slice(b"\r\n");
    assert_eq!(line.len(), 107);
    let (header, consumed) = v1::decode(&line).unwrap();
    assert_eq!(consumed, 107);
    assert_eq!(header.0, None);

    let mut line = b"PROXY UNKNOWN ".to_vec();
    line.resize(106, b'x');
    line.extend_from_slice(b"\r\n");
    assert_eq!(line.len(), 108);
    assert_eq!(v1::decode(&line).err(), Some(Error::Invalid));
    assert!(v1::decode_inner(&line).is_ok());

    let mut line = b"PROXY UNKNOWN ".to_vec();
    line.resize(114, b'x');
    line.extend_from_slice(b"\r\n");
    assert_eq!(line.len(), 116);
    assert_eq!(v1::decode(&line).err(), Some(Error::Invalid));
    assert_eq!(Header::parse(&line).err(), Some(Error::Invalid));
}

#[test]
fn v1_malformed_fields_are_invalid() {
    let cases: [&[u8]; 9] = [
        b"PROXY TCP4 127.0.0.1 192.168.0.1 12345 70000\r\n",
        b"PROXY TCP4 127.0.0.256 192.168.0.1 12345 443\r\n",
        b"PROXY TCP4 127.0.0.01 192.168.0.1 12345 443\r\n",
        b"PROXY TCP4 ::1 192.168.0.1 12345 443\r\n",
        b"PROXY TCP6 127.0.0.1 ::1 12345 443\r\n",
        b"PROXY TCP5 127.0.0.1 192.168.0.1 12345 443\r\n",
        b"PROXY TCP4 127.0.0.1 192.168.0.1 12345 443\rX",
        b"PROXX TCP4 127.0.0.1 192.168.0.1 12345 443\r\n",
        b"PROXY\tTCP4 127.0.0.1 192.168.0.1 12345 443\r\n",
    ];
    for case in cases {
        assert_eq!(v1::decode(case).err(), Some(Error::Invalid));
    }
}

#[test]
fn v1_port_takes_sign_and_leading_zeros() {
    let buf = b"PROXY TCP4 1.2.3.4 5.6.7.8 +80 00443\r\n";
    let (header, _) = v1::decode(buf).unwrap();
    let address = header.0.unwrap();
    assert_eq!(address.source.port, 80);
    assert_eq!(address.destination.port, 443);
}

#[test]
fn v1_parse_addr_and_port_move_the_position() {
    let buf = b"10.0.0.1 8080\rrest";
    let mut pos = 0;
    let ip = v1::parse_addr(buf, &mut pos, authentik::net::AddressFamily::Ipv4).unwrap();
    assert_eq!(ip, v4(10, 0, 0, 1));
    assert_eq!(pos, 9);
    let port = v1::parse_port(buf, &mut pos, b'\r').unwrap();
    assert_eq!(port, 8080);
    assert_eq!(pos, 14);
    assert_eq!(v1::parse_port(buf, &mut pos, b'\r'), Err(Error::BufferTooShort));
    assert_eq!(pos, 14);
}

#[test]
fn read_until_stops_before_the_delimiter() {
    assert_eq!(read_until(b"abc def", b' '), Some(&b"abc"[..]));
    assert_eq!(read_until(b" abc", b' '), Some(&b""[..]));
    assert_eq!(read_until(b"abc", b' '), None);
    assert_eq!(read_until(b"", b' '), None);
}

#[test]
fn v2_tcp4_header_decodes() {
    let payload = [192, 0, 2, 1, 198, 51, 100, 7, 0x30, 0x39, 0x01, 0xbb, 0xee, 0x00, 0x01, 0x07];
    let mut buf = v2_header(0x21, 0x11, &payload);
    buf.extend_from_slice(b"GET /");
    let (header, consumed) = Header::parse(&buf).unwrap();
    assert_eq!(consumed, 16 + payload.len());
    assert_eq!(
        header.0,
        Some(Address {
            protocol: Protocol::Stream,
            source: SocketAddress { ip: v4(192, 0, 2, 1), port: 12345 },
            destination: SocketAddress { ip: v4(198, 51, 100, 7), port: 443 },
        })
    );
    assert_eq!(header.1, vec![0xee, 0x00, 0x01, 0x07]);
}

#[test]
fn v2_udp6_header_decodes() {
    let mut payload = Vec::new();
    payload.extend_from_slice(&0x2001_0db8_0000_0000_0000_0000_0000_0001u128.to_be_bytes());
    payload.extend_from_slice(&0x2001_0db8_0000_0000_0000_0000_0000_0002u128.to_be_bytes());
    payload.extend_from_slice(&[0, 53, 0xff, 0xff]);
    let buf = v2_header(0x21, 0x22, &payload);
    let (header, consumed) = v2::decode(&buf).unwrap();
    assert_eq!(consumed, buf.len());
    assert_eq!(
        header.0,
        Some(Address {
            protocol: Protocol::Datagram,
            source: SocketAddress {
                ip: IpAddress::V6(0x2001_0db8_0000_0000_0000_0000_0000_0001),
                port: 53,
            },
            destination: SocketAddress {
                ip: IpAddress::V6(0x2001_0db8_0000_0000_0000_0000_0000_0002),
                port: 65535,
            },
        })
    );
    assert!(header.1.is_empty());
}

#[test]
fn v2_unspecified_family_keeps_all_bytes_as_extension() {
    let payload = [0x04, 0x00, 0x02, 0xaa, 0xbb];
    let mut buf = v2_header(0x21, 0x00, &payload);
    buf.extend_from_slice(b"tail");
    let (header, consumed) = v2::decode(&buf).unwrap();
    assert_eq!(consumed, 16 + 5);
    assert_eq!(header.0, None);
    assert_eq!(header.1, payload.to_vec());
}

#[test]
fn v2_local_command_ignores_addresses() {
    let payload = [192, 0, 2, 1, 198, 51, 100, 7, 0x30, 0x39, 0x01, 0xbb];
    let buf = v2_header(0x20, 0x11, &payload);
    let (header, consumed) = v2::decode(&buf).unwrap();
    assert_eq!(consumed, buf.len());
    assert_eq!(header.0, None);
    assert!(header.1.is_empty());
}

#[test]
fn v2_unix_addresses_are_skipped() {
    let mut payload = vec![7u8; 216];
    payload.extend_from_slice(&[0x20, 0x00, 0x05, 0x01, 0, 0, 0, 0]);
    let buf = v2_header(0x21, 0x31, &payload);
    let (header, consumed) = v2::decode(&buf).unwrap();
    assert_eq!(consumed, buf.len());
    assert_eq!(header.0, None);
    assert_eq!(header.1, vec![0x20, 0x00, 0x05, 0x01, 0, 0, 0, 0]);
    assert_eq!(header.ssl(), Some(SslInfo { client: 1, verify: 0 }));

    let buf = v2_header(0x21, 0x32, &[0u8; 215]);
    assert_eq!(v2::decode(&buf).err(), Some(Error::Invalid));
}

#[test]
fn v2_errors() {
    let whole = v2_header(0x21, 0x11, &[192, 0, 2, 1, 198, 51, 100, 7, 0x30, 0x39, 0x01, 0xbb]);
    for len in 0..whole.len() {
        if len == 0 {
            assert_eq!(Header::parse(&whole[..len]).err(), Some(Error::BufferTooShort));
        } else {
            assert_eq!(v2::decode(&whole[..len]).err(), Some(Error::BufferTooShort), "{len}");
        }
    }
    // The length field leaves no room for the addresses of the family.
    let short = v2_header(0x21, 0x11, &[192, 0, 2, 1]);
    assert_eq!(v2::decode(&short).err(), Some(Error::Invalid));
    // An unheard-of command, family or signature.
    assert_eq!(v2::decode(&v2_header(0x22, 0x11, &[0; 12])).err(), Some(Error::Invalid));
    assert_eq!(v2::decode(&v2_header(0x11, 0x11, &[0; 12])).err(), Some(Error::Invalid));
    assert_eq!(v2::decode(&v2_header(0x21, 0x13, &[0; 12])).err(), Some(Error::Invalid));
    let mut bad = whole.clone();
    bad[11] = b'X';
    assert_eq!(v2::decode(&bad).err(), Some(Error::Invalid));
}

#[test]
fn v2_parse_addrs_moves_position_and_rest() {
    let buf = [10, 0, 0, 1, 10, 0, 0, 2, 0, 1, 0, 2, 9, 9];
    let mut pos = 0;
    let mut rest = 14;
    let address = v2::parse_addrs(
        &buf,
        &mut pos,
        &mut rest,
        authentik::net::AddressFamily::Ipv4,
        Protocol::Datagram,
    )
    .unwrap();
    assert_eq!(pos, 12);
    assert_eq!(rest, 2);
    assert_eq!(address.protocol, Protocol::Datagram);
    assert_eq!(address.source, SocketAddress { ip: v4(10, 0, 0, 1), port: 1 });
    assert_eq!(address.destination, SocketAddress { ip: v4(10, 0, 0, 2), port: 2 });
}

#[test]
fn other_first_bytes_are_no_header() {
    assert_eq!(Header::parse(b"GET / HTTP/1.1\r\n").err(), Some(Error::Invalid));
    assert_eq!(Header::parse(&[0x16, 0x03, 0x01]).err(), Some(Error::Invalid));
}

#[test]
fn ssl_extension_is_found_among_others() {
    let tlvs = vec![
        0x01, 0x00, 0x02, b'h', b'2', // ALPN
        0x20, 0x00, 0x03, 1, 2, 3, // too short to be read
        0x20, 0x00, 0x06, 0x05, 0x00, 0x00, 0x01, 0x02, 0xff,
    ];
    let header = Header(None, tlvs);
    assert_eq!(header.ssl(), Some(SslInfo { client: 5, verify: 0x0102 }));
    assert_eq!(header.tlv_bytes().len(), 20);
    assert_eq!(header.proxied_address(), None);

    // A field that claims more bytes than are left ends the search.
    let header = Header(None, vec![0x01, 0x00, 0x09, 0, 0x20, 0x00, 0x05, 1, 0, 0, 0, 0]);
    assert_eq!(header.ssl(), None);
    assert_eq!(Header(None, vec![]).ssl(), None);
}

#[test]
fn sniff_settles_each_case() {
    let mut gathered = Vec::new();
    assert!(matches!(sniff(&mut gathered, 0), Sniffed::EndOfStream));

    let mut gathered = b"PROXY TCP4 1.2.3".to_vec();
    assert!(matches!(sniff(&mut gathered, 16), Sniffed::NeedMore));
    assert_eq!(gathered, b"PROXY TCP4 1.2.3".to_vec());

    let mut gathered = b"GET / HTTP/1.1\r\n\r\n".to_vec();
    assert!(matches!(sniff(&mut gathered, 18), Sniffed::Resolved(None)));
    assert_eq!(gathered, b"GET / HTTP/1.1\r\n\r\n".to_vec());

    let mut gathered = b"PROXY TCP4 1.2.3.4 5.6.7.8 1 2\r\nGET /".to_vec();
    match sniff(&mut gathered, 5) {
        Sniffed::Resolved(Some(header)) => assert!(header.0.is_some()),
        _ => panic!("a header was expected"),
    }
    assert_eq!(gathered, b"GET /".to_vec());
}

#[test]
fn stream_hands_out_buffered_bytes_first() {
    let mut stream = ProxyProtocolStream::new(7u8, None, b"hello world".to_vec());
    assert!(stream.header().is_none());
    assert_eq!(*stream.get_ref(), 7);
    assert_eq!(stream.peek_buffered(), b"hello world");
    assert_eq!(stream.read_buffered(5), b"hello".to_vec());
    assert_eq!(stream.peek_buffered(), b" world");
    assert_eq!(stream.consume(1), 0);
    assert_eq!(stream.peek_buffered(), b"world");
    *stream.get_mut() = 8;
    let stream = match stream.try_into_inner() {
        Ok(_) => panic!("bytes would be lost"),
        Err(stream) => stream,
    };
    let mut stream = stream;
    assert_eq!(stream.consume(9), 4);
    assert!(!stream.has_buffered());
    assert_eq!(stream.read_buffered(10), Vec::<u8>::new());
    assert_eq!(stream.consume(3), 3);
    assert_eq!(stream.try_into_inner().ok(), Some(8));
}
