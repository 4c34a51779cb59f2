use alpha_ray::outbound::http::connect_reply;
use alpha_ray::dispatcher::simple_dispatcher_name;
use alpha_ray::network::none::NoneNetwork;
use alpha_ray::outbound::tcp::TcpOutbound;
use alpha_ray::outbound::vless::vless_outbound_name;
use alpha_ray::pipeline::{inbound_pipeline_name, outbound_pipeline_name};
use alpha_ray::security::none::NoneSecurity;
use alpha_ray::transport::tcp::{after_failed_attempt, first_attempt, AttemptStep, ConnectTimeout, TcpOutboundTransport};

#[test]
fn layer_names() {
    assert_eq!(NoneNetwork.name(), "NoneNetwork");
    assert_eq!(NoneSecurity.name(), "NoneSecurity");
    assert_eq!(TcpOutbound::new().name(), "TcpOutbound");
    assert_eq!(TcpOutboundTransport::new().name(), "TcpOutboundTransport");
    assert_eq!(simple_dispatcher_name("TcpOutbound"), "SimpleDispatcher<TcpOutbound>");
    assert_eq!(vless_outbound_name("X"), "VlessOutbound<X>");
    assert_eq!(
        inbound_pipeline_name("TcpInboundTransport", "VisionTlsInboundSecurity", "NoneNetwork"),
        "StreamInboundPipeline<TcpInboundTransport, VisionTlsInboundSecurity, NoneNetwork>"
    );
    assert_eq!(outbound_pipeline_name("T", "S", "N"), "StreamOutboundPipeline<T, S, N>");
}

#[test]
fn transport_timeouts() {
    let t = TcpOutboundTransport::new();
    assert_eq!(t.timeout(), ConnectTimeout { secs: 30, subsec_nanos: 0 });
    let t = t.with_timeout(ConnectTimeout { secs: 5, subsec_nanos: 250 });
    assert_eq!(t.timeout(), ConnectTimeout { secs: 5, subsec_nanos: 250 });
}

#[test]
fn connection_attempts_go_through_each_address() {
    assert_eq!(first_attempt(0), AttemptStep::GiveUp);
    assert_eq!(first_attempt(2), AttemptStep::Try(0));
    assert_eq!(after_failed_attempt(0, 2), AttemptStep::Try(1));
    assert_eq!(after_failed_attempt(1, 2), AttemptStep::GiveUp);
}

#[test]
fn http_connect_replies() {
    assert_eq!(connect_reply(200), Ok(()));
    assert_eq!(connect_reply(407), Err(407));
    assert_eq!(connect_reply(201), Err(201));
}
