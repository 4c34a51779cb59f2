//! The SOCKS5 inbound's decision on a command.
use vstd::prelude::*;
use crate::inbound::{InboundKind, Relay, RelayAction, RelayState};

verus! {

/// What a SOCKS5 inbound does with the command a client sent.
pub enum SocksCommandStep {
    /// A TCP connect: relay it.
    Relay(Relay, RelayAction),
    /// Anything else: reply "command not supported" and fail with that error.
    RefuseCommand,
}

/// Only a TCP connect is carried; any other command is refused.
pub fn on_command(is_tcp_connect: bool) -> (s: SocksCommandStep)
    ensures
        is_tcp_connect ==> (s matches SocksCommandStep::Relay(r, a) && r.kind_spec() == InboundKind::Socks5
            && r.state_spec() == RelayState::AwaitConnect && a == RelayAction::DispatchConnect),
        !is_tcp_connect ==> s is RefuseCommand,
{
    if is_tcp_connect {
        let (r, a) = Relay::start(InboundKind::Socks5);
        SocksCommandStep::Relay(r, a)
    } else {
        SocksCommandStep::RefuseCommand
    }
}

} // verus!
