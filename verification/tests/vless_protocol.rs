use alpha_ray::error::VlessError;
use alpha_ray::protocol::vless::{
    encode_request, AcceptStep, HandshakeProgress, VlessCommand, VlessProtocol, VlessRequest, VlessResponseDecoder,
    VlessStreamState, VlessVersion,
};
use alpha_ray::util::{SocketAddress, TargetAddr};
use bytes::BytesMut;

const ID: [u8; 16] = [0xc1, 0x9c, 0x0f, 0x24, 0x64, 0x02, 0x4f, 0x06, 0x83, 0x25, 0xd5, 0x55, 0xf2, 0x6d, 0xdd, 0x87];

/// Feeds `stream` to a fresh server in the chunks it asks for.
fn accept_all(stream: &[u8]) -> Result<VlessRequest, String> {
    let mut st = VlessProtocol::start();
    let mut pos = 0usize;
    loop {
        let n = st.needed();
        if pos + n > stream.len() {
            return Err(format!("eof at {}", pos));
        }
        let chunk = &stream[pos..pos + n];
        pos += n;
        match VlessProtocol::advance(st, chunk) {
            AcceptStep::Read(next) => st = next,
            AcceptStep::Done(req) => return Ok(req),
            AcceptStep::Fail(e) => return Err(format!("{:?}", e)),
        }
    }
}

#[test]
fn vless_command_bytes() {
    assert!(matches!(VlessCommand::try_from(1), Ok(VlessCommand::Tcp)));
    assert!(matches!(VlessCommand::try_from(2), Ok(VlessCommand::Udp)));
    assert!(matches!(VlessCommand::try_from(3), Ok(VlessCommand::Mux)));
    assert!(matches!(VlessCommand::try_from(0), Err(VlessError::InvalidCommand(0))));
    assert!(matches!(VlessCommand::try_from(4), Err(VlessError::InvalidCommand(4))));
    assert_eq!(VlessCommand::Udp.to_byte(), 2);
}

#[test]
fn version_bytes() {
    assert!(matches!(VlessVersion::try_from(0), Ok(VlessVersion::Zero)));
    assert!(matches!(VlessVersion::try_from(1), Err(VlessError::InvalidVersion(1))));
    assert_eq!(VlessVersion::Zero.to_byte(), 0);
}

#[test]
fn encode_ipv4_request() {
    let target = TargetAddr::SocketAddr(SocketAddress::V4 { ip: [127, 0, 0, 1], port: 8080 });
    let req = VlessRequest::new(VlessVersion::Zero, ID, VlessCommand::Tcp, target);
    let bytes = encode_request(&req);
    let mut want = vec![0u8];
    want.extend_from_slice(&ID);
    want.extend_from_slice(&[0, 1, 0x1f, 0x90, 1, 127, 0, 0, 1]);
    assert_eq!(&bytes[..], &want[..]);
}

#[test]
fn encode_domain_request() {
    let target = TargetAddr::Domain("example.com".to_string(), 443);
    let req = VlessRequest::new(VlessVersion::Zero, ID, VlessCommand::Tcp, target);
    let bytes = encode_request(&req);
    let mut want = vec![0u8];
    want.extend_from_slice(&ID);
    want.extend_from_slice(&[0, 1, 0x01, 0xbb, 2, 11]);
    want.extend_from_slice(b"example.com");
    assert_eq!(&bytes[..], &want[..]);
}

#[test]
fn accept_reads_back_encoded_requests() {
    let targets = vec![
        TargetAddr::SocketAddr(SocketAddress::V4 { ip: [10, 1, 2, 3], port: 1 }),
        TargetAddr::Domain("dystopia.example".to_string(), 65535),
        TargetAddr::SocketAddr(SocketAddress::V6 {
            ip: [0x20, 0x01, 0x0d, 0xb8, 0, 0, 0, 0, 0, 0, 0, 0, 0, 0, 0, 1],
            port: 853,
            flowinfo: 0,
            scope_id: 0,
        }),
    ];
    for t in targets {
        let req = VlessRequest::new(VlessVersion::Zero, ID, VlessCommand::Tcp, t.clone());
        let bytes = encode_request(&req);
        let back = accept_all(&bytes).unwrap();
        assert_eq!(back.id(), &ID);
        assert!(matches!(back.command(), VlessCommand::Tcp));
        match (back.target(), &t) {
            (TargetAddr::Domain(a, p), TargetAddr::Domain(b, q)) => {
                assert_eq!(a, b);
                assert_eq!(p, q);
            },
            (TargetAddr::SocketAddr(SocketAddress::V4 { ip: a, port: p }), TargetAddr::SocketAddr(SocketAddress::V4 { ip: b, port: q })) => {
                assert_eq!(a, b);
                assert_eq!(p, q);
            },
            (
                TargetAddr::SocketAddr(SocketAddress::V6 { ip: a, port: p, flowinfo: f, scope_id: s }),
                TargetAddr::SocketAddr(SocketAddress::V6 { ip: b, port: q, .. }),
            ) => {
                assert_eq!(a, b);
                assert_eq!(p, q);
                assert_eq!((*f, *s), (0, 0));
            },
            _ => panic!("target kind changed"),
        }
    }
}

fn header(version: u8, addons_len: u8, command: u8, port: u16, kind: u8) -> Vec<u8> {
    let mut h = vec![version];
    h.extend_from_slice(&ID);
    h.push(addons_len);
    h.push(command);
    h.extend_from_slice(&port.to_be_bytes());
    h.push(kind);
    h
}

#[test]
fn accept_skips_addons_after_the_fixed_header() {
    let mut s = header(0, 3, 1, 80, 1);
    s.extend_from_slice(&[9, 9, 9]);
    s.extend_from_slice(&[192, 168, 0, 1]);
    let req = accept_all(&s).unwrap();
    match req.target() {
        TargetAddr::SocketAddr(SocketAddress::V4 { ip, port }) => {
            assert_eq!(ip, &[192, 168, 0, 1]);
            assert_eq!(*port, 80);
        },
        _ => panic!("expected an IPv4 target"),
    }
}

#[test]
fn accept_refuses_bad_headers() {
    let e = accept_all(&header(1, 0, 1, 80, 1)).unwrap_err();
    assert_eq!(e, "InvalidVersion(1)");
    let e = accept_all(&header(0, 0, 7, 80, 1)).unwrap_err();
    assert_eq!(e, "InvalidCommand(7)");
    let e = accept_all(&header(0, 0, 1, 80, 4)).unwrap_err();
    assert_eq!(e, "InvalidAddrKind(4)");
}

#[test]
fn accept_reads_empty_and_invalid_domains() {
    let mut s = header(0, 0, 2, 53, 2);
    s.push(0);
    let req = accept_all(&s).unwrap();
    assert!(matches!(req.command(), VlessCommand::Udp));
    match req.target() {
        TargetAddr::Domain(d, p) => {
            assert_eq!(d, "");
            assert_eq!(*p, 53);
        },
        _ => panic!("expected a domain"),
    }
    let mut s = header(0, 0, 1, 53, 2);
    s.extend_from_slice(&[2, 0xff, b'a']);
    let req = accept_all(&s).unwrap();
    match req.target() {
        TargetAddr::Domain(d, _) => assert_eq!(d, "\u{fffd}a"),
        _ => panic!("expected a domain"),
    }
}

#[test]
fn server_response_header() {
    let b = VlessProtocol::response_header();
    assert_eq!(&b[..], &[0u8, 0u8][..]);
}

#[test]
fn decoder_waits_for_the_whole_header() {
    let mut d = VlessResponseDecoder;
    let mut b = BytesMut::from(&[0u8][..]);
    assert!(d.decode(&mut b).is_none());
    assert_eq!(&b[..], &[0u8][..]);
    let mut b = BytesMut::from(&[0u8, 2, 9][..]);
    assert!(d.decode(&mut b).is_none());
    assert_eq!(b.len(), 3);
    let mut b = BytesMut::from(&[0u8, 2, 9, 9, 7][..]);
    assert!(d.decode(&mut b).is_some());
    assert_eq!(&b[..], &[7u8][..]);
}

#[test]
fn client_stream_drops_the_response_header() {
    let mut st = VlessStreamState::new();
    assert_eq!(st.on_inner_read(&[]), HandshakeProgress::Eof);
    assert_eq!(st.on_inner_read(&[0]), HandshakeProgress::NeedMore);
    assert!(!st.is_handshake_done());
    assert_eq!(st.on_inner_read(&[0, 5, 6]), HandshakeProgress::Done);
    assert!(st.is_handshake_done());
    assert_eq!(st.take_buffered(1), vec![5]);
    assert_eq!(st.take_buffered(10), vec![6]);
    assert_eq!(st.take_buffered(10), Vec::<u8>::new());
}

#[test]
fn accept_stops_at_the_end_of_the_request() {
    let target = TargetAddr::Domain("example.com".to_string(), 443);
    let req = VlessRequest::new(VlessVersion::Zero, ID, VlessCommand::Tcp, target);
    let bytes = encode_request(&req);
    let mut stream = bytes.to_vec();
    stream.extend_from_slice(b"GET / HTTP/1.1\r\n");
    let mut st = VlessProtocol::start();
    let mut pos = 0usize;
    loop {
        let n = st.needed();
        assert!(pos + n <= bytes.len(), "asked past the request");
        let chunk = &stream[pos..pos + n];
        pos += n;
        match VlessProtocol::advance(st, chunk) {
            AcceptStep::Read(next) => st = next,
            AcceptStep::Done(_) => break,
            AcceptStep::Fail(e) => panic!("{:?}", e),
        }
    }
    assert_eq!(pos, bytes.len());
    assert_eq!(&stream[pos..], b"GET / HTTP/1.1\r\n");
}

#[test]
fn client_stream_hands_on_the_bytes_after_the_header_in_any_chunking() {
    let wire = [0u8, 3, b'x', b'y', b'z', b'h', b'e', b'l', b'l', b'o'];
    for cut in 1..wire.len() {
        let mut st = VlessStreamState::new();
        let mut delivered = Vec::new();
        for chunk in wire.chunks(cut) {
            if st.is_handshake_done() {
                delivered.extend_from_slice(chunk);
                continue;
            }
            match st.on_inner_read(chunk) {
                HandshakeProgress::Done => delivered.extend_from_slice(&st.take_buffered(1000)),
                HandshakeProgress::NeedMore => {},
                HandshakeProgress::Eof => panic!("no bytes"),
            }
        }
        assert!(st.is_handshake_done());
        assert_eq!(delivered, b"hello".to_vec(), "chunks of {}", cut);
    }
    let mut st = VlessStreamState::new();
    assert_eq!(st.on_inner_read(&[0, 5, 1]), HandshakeProgress::NeedMore);
    assert_eq!(st.on_inner_read(&[]), HandshakeProgress::Eof);
}
