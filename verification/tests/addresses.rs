use alpha_ray::util::{domain_text, SocketAddress, TargetAddr, TargetAddrError};

#[test]
fn ip_text_is_a_socket_address() {
    let ip = SocketAddress::V4 { ip: [1, 2, 3, 4], port: 5 };
    match TargetAddr::from_str("1.2.3.4:5", Some(ip)) {
        Ok(TargetAddr::SocketAddr(SocketAddress::V4 { ip, port })) => {
            assert_eq!(ip, [1, 2, 3, 4]);
            assert_eq!(port, 5);
        },
        other => panic!("{:?}", other),
    }
}

#[test]
fn host_and_port_split_at_the_last_colon() {
    match TargetAddr::from_str("example.com:443", None) {
        Ok(TargetAddr::Domain(h, p)) => {
            assert_eq!(h, "example.com");
            assert_eq!(p, 443);
        },
        other => panic!("{:?}", other),
    }
    match TargetAddr::from_str("a::80", None) {
        Ok(TargetAddr::Domain(h, p)) => {
            assert_eq!(h, "a:");
            assert_eq!(p, 80);
        },
        other => panic!("{:?}", other),
    }
    match TargetAddr::from_str("ü.example:1", None) {
        Ok(TargetAddr::Domain(h, p)) => {
            assert_eq!(h, "ü.example");
            assert_eq!(p, 1);
        },
        other => panic!("{:?}", other),
    }
}

#[test]
fn bad_addresses_are_errors() {
    match TargetAddr::from_str("noport", None) {
        Err(TargetAddrError::InvalidAddr(s)) => assert_eq!(s, "noport"),
        other => panic!("{:?}", other),
    }
    match TargetAddr::from_str("host:http", None) {
        Err(TargetAddrError::Port(e)) => assert_eq!(e.to_string(), "invalid digit found in string"),
        other => panic!("{:?}", other),
    }
    assert!(matches!(TargetAddr::from_str("host:70000", None), Err(TargetAddrError::Port(_))));
    assert!(matches!(TargetAddr::from_str("host:", None), Err(TargetAddrError::Port(_))));
}

#[test]
fn clone_keeps_the_target() {
    let t = TargetAddr::Domain("x".to_string(), 9);
    match t.clone() {
        TargetAddr::Domain(h, p) => {
            assert_eq!(h, "x");
            assert_eq!(p, 9);
        },
        _ => panic!(),
    }
}

#[test]
fn port_reads_as_an_optionally_signed_decimal() {
    match TargetAddr::from_str("a:+80", None) {
        Ok(TargetAddr::Domain(h, p)) => {
            assert_eq!(h, "a");
            assert_eq!(p, 80);
        },
        other => panic!("{:?}", other),
    }
    match TargetAddr::from_str("a:0065535", None) {
        Ok(TargetAddr::Domain(_, p)) => assert_eq!(p, 65535),
        other => panic!("{:?}", other),
    }
    assert!(matches!(TargetAddr::from_str("a:-80", None), Err(TargetAddrError::Port(_))));
    assert!(matches!(TargetAddr::from_str("a:+", None), Err(TargetAddrError::Port(_))));
    assert!(matches!(TargetAddr::from_str("a: 80", None), Err(TargetAddrError::Port(_))));
    assert!(matches!(TargetAddr::from_str("a:٨٠", None), Err(TargetAddrError::Port(_))));
}

#[test]
fn domain_targets_are_written_host_colon_port() {
    assert_eq!(domain_text("example.com", 443), "example.com:443");
    assert_eq!(domain_text("a", 0), "a:0");
    assert_eq!(domain_text("a", 65535), "a:65535");
    assert_eq!(domain_text("", 10), ":10");
}

#[test]
fn written_domain_targets_read_back() {
    for (host, port) in [("example.com", 443u16), ("a:b", 8080), ("", 7), ("ü", 65535)] {
        match TargetAddr::from_str(&domain_text(host, port), None) {
            Ok(TargetAddr::Domain(h, p)) => {
                assert_eq!(h, host);
                assert_eq!(p, port);
            },
            other => panic!("{:?}", other),
        }
    }
}
