use alpha_ray::inbound::http::{decide_connect, ConnectDecision};
use alpha_ray::inbound::socks::{on_command, SocksCommandStep};
use alpha_ray::inbound::vless::{check_request, vless_inbound_name, Refusal};
use alpha_ray::inbound::{DispatchResult, InboundKind, Relay, RelayAction, RelayEvent, RelayState};
use alpha_ray::protocol::vless::{VlessCommand, VlessRequest, VlessVersion};
use alpha_ray::util::{TargetAddr, TargetAddrError};

#[test]
fn http_only_connect_is_carried() {
    let d = decide_connect(false, Some("a:1"), None);
    assert!(matches!(d, ConnectDecision::MethodNotAllowed));
    assert_eq!(d.status(), 405);
    assert_eq!(d.body().unwrap(), "This server is only serving as a proxy");
    let d = decide_connect(true, None, None);
    assert_eq!(d.status(), 400);
    assert_eq!(d.body().unwrap(), "CONNECT method needs an authority");
    let d = decide_connect(true, Some("nocolon"), None);
    assert_eq!(d.status(), 400);
    assert_eq!(d.body().unwrap(), "invalid addr: nocolon");
    let d = decide_connect(true, Some("h:x"), None);
    assert!(matches!(d, ConnectDecision::BadTarget(TargetAddrError::Port(_))));
    assert!(d.body().is_none());
    let d = decide_connect(true, Some("example.com:443"), None);
    assert_eq!(d.status(), 200);
    assert_eq!(d.body().unwrap(), "");
    match d {
        ConnectDecision::Tunnel(TargetAddr::Domain(h, p)) => {
            assert_eq!(h, "example.com");
            assert_eq!(p, 443);
        },
        _ => panic!(),
    }
}

#[test]
fn socks_relay_replies_around_the_tunnel() {
    let (mut r, a) = match on_command(true) {
        SocksCommandStep::Relay(r, a) => (r, a),
        SocksCommandStep::RefuseCommand => panic!(),
    };
    assert_eq!(a, RelayAction::DispatchConnect);
    assert_eq!(r.on_event(RelayEvent::Dispatched(DispatchResult::Connected)), RelayAction::ReplySuccess);
    assert_eq!(r.on_event(RelayEvent::Replied), RelayAction::DispatchTunnel);
    assert_eq!(r.on_event(RelayEvent::Dispatched(DispatchResult::Tunneling)), RelayAction::Finish);
    assert_eq!(r.state(), RelayState::Finished);
    assert!(matches!(on_command(false), SocksCommandStep::RefuseCommand));
}

#[test]
fn socks_relay_reports_unreachable_hosts() {
    let (mut r, _) = Relay::start(InboundKind::Socks5);
    assert_eq!(r.on_event(RelayEvent::Dispatched(DispatchResult::Failed)), RelayAction::ReplyHostUnreachable);
    assert_eq!(r.on_event(RelayEvent::Replied), RelayAction::Finish);
}

#[test]
fn vless_and_http_relays_go_straight_to_the_tunnel() {
    for kind in [InboundKind::Vless, InboundKind::Http] {
        let (mut r, a) = Relay::start(kind);
        assert_eq!(a, RelayAction::DispatchConnect);
        assert_eq!(r.on_event(RelayEvent::Dispatched(DispatchResult::Connected)), RelayAction::DispatchTunnel);
        assert_eq!(r.on_event(RelayEvent::Dispatched(DispatchResult::Failed)), RelayAction::Finish);
        let (mut r, _) = Relay::start(kind);
        assert_eq!(r.on_event(RelayEvent::Dispatched(DispatchResult::Failed)), RelayAction::Finish);
        let (mut r, _) = Relay::start(kind);
        assert_eq!(r.on_event(RelayEvent::Dispatched(DispatchResult::Tunneling)), RelayAction::Finish);
    }
}

#[test]
fn vless_inbound_checks_id_then_command() {
    let id = [3u8; 16];
    let t = TargetAddr::Domain("x".to_string(), 1);
    let ok = VlessRequest::new(VlessVersion::Zero, id, VlessCommand::Tcp, t.clone());
    assert_eq!(check_request(&ok, &id), Ok(()));
    assert_eq!(check_request(&ok, &[4u8; 16]), Err(Refusal::Permission));
    let udp = VlessRequest::new(VlessVersion::Zero, id, VlessCommand::Udp, t.clone());
    assert_eq!(check_request(&udp, &id), Err(Refusal::InvalidCommand(2)));
    let other = VlessRequest::new(VlessVersion::Zero, [5u8; 16], VlessCommand::Mux, t);
    assert_eq!(check_request(&other, &id), Err(Refusal::Permission));
    assert_eq!(vless_inbound_name("P"), "VlessInbound<P>");
}
