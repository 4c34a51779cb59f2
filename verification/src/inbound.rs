//! What inbounds ask a dispatcher for, and how they carry a connection
//! through: connect to the target, then tunnel between the client and it.
pub mod http;
pub mod socks;
pub mod vless;

use vstd::prelude::*;
use crate::util::TargetAddr;

verus! {

/// What an inbound asks a dispatcher for.
pub enum InboundRequest<S> {
    /// A stream connected to the target.
    Connect { target: TargetAddr },
    /// Copying between two streams, both ways.
    Tunnel { src: S, dst: S },
}

/// The kinds of inbound; SOCKS5 answers its client at points where the
/// others say nothing.
#[derive(Debug, Clone, Copy, PartialEq, Eq, Structural)]
pub enum InboundKind {
    Socks5,
    Vless,
    Http,
}

/// What a dispatch gave.
#[derive(Debug, Clone, Copy, PartialEq, Eq, Structural)]
pub enum DispatchResult {
    /// `DispatcherResponse::Connected`.
    Connected,
    /// `DispatcherResponse::Tunneling`.
    Tunneling,
    /// The dispatcher failed.
    Failed,
}

/// Where a relay stands.
#[derive(Debug, Clone, Copy, PartialEq, Eq, Structural)]
pub enum RelayState {
    AwaitConnect,
    AwaitReply,
    AwaitErrorReply,
    AwaitTunnel,
    Finished,
}

/// What happened since the relay's last action.
#[derive(Debug, Clone, Copy, PartialEq, Eq, Structural)]
pub enum RelayEvent {
    Dispatched(DispatchResult),
    Replied,
}

/// What the handler does next.
#[derive(Debug, Clone, Copy, PartialEq, Eq, Structural)]
pub enum RelayAction {
    /// Dispatch `InboundRequest::Connect` for the target.
    DispatchConnect,
    /// Tell the SOCKS5 client the connection succeeded.
    ReplySuccess,
    /// Tell the SOCKS5 client the host is unreachable.
    ReplyHostUnreachable,
    /// Dispatch `InboundRequest::Tunnel` between the client and the connected stream.
    DispatchTunnel,
    /// The handler is done and returns `Ok(())`.
    Finish,
}

/// Whether the relay waits for this event.
pub open spec fn expects(state: RelayState, ev: RelayEvent) -> bool {
    match state {
        RelayState::AwaitConnect | RelayState::AwaitTunnel => ev is Dispatched,
        RelayState::AwaitReply | RelayState::AwaitErrorReply => ev is Replied,
        RelayState::Finished => false,
    }
}

/// One step of a relay: after a connect dispatch that gave a stream, SOCKS5
/// first reports success and the others go straight to the tunnel; after a
/// failed connect, SOCKS5 reports the host unreachable; an answer that is
/// not a stream ends the relay; so does the tunnel dispatch, whatever it gave.
pub open spec fn relay_step(kind: InboundKind, state: RelayState, ev: RelayEvent) -> (RelayState, RelayAction) {
    match (state, ev) {
        (RelayState::AwaitConnect, RelayEvent::Dispatched(DispatchResult::Connected)) => {
            if kind == InboundKind::Socks5 {
                (RelayState::AwaitReply, RelayAction::ReplySuccess)
            } else {
                (RelayState::AwaitTunnel, RelayAction::DispatchTunnel)
            }
        },
        (RelayState::AwaitConnect, RelayEvent::Dispatched(DispatchResult::Failed)) => {
            if kind == InboundKind::Socks5 {
                (RelayState::AwaitErrorReply, RelayAction::ReplyHostUnreachable)
            } else {
                (RelayState::Finished, RelayAction::Finish)
            }
        },
        (RelayState::AwaitReply, RelayEvent::Replied) => (RelayState::AwaitTunnel, RelayAction::DispatchTunnel),
        _ => (RelayState::Finished, RelayAction::Finish),
    }
}

/// How many more events a relay in this state can take at most.
pub open spec fn relay_rank(state: RelayState) -> nat {
    match state {
        RelayState::AwaitConnect => 3,
        RelayState::AwaitReply => 2,
        RelayState::AwaitErrorReply => 1,
        RelayState::AwaitTunnel => 1,
        RelayState::Finished => 0,
    }
}

/// Carries one proxied connection of an inbound through its steps.
pub struct Relay {
    kind: InboundKind,
    state: RelayState,
}

impl Relay {
    /// The kind of inbound the relay serves.
    pub closed spec fn kind_spec(&self) -> InboundKind {
        self.kind
    }

    /// Where the relay stands.
    pub closed spec fn state_spec(&self) -> RelayState {
        self.state
    }

    /// A relay for a client that asked to connect; its first action is
    /// to dispatch the connect request.
    pub fn start(kind: InboundKind) -> (r: (Relay, RelayAction))
        ensures
            r.0.kind_spec() == kind,
            r.0.state_spec() == RelayState::AwaitConnect,
            r.1 == RelayAction::DispatchConnect,
    {
        (Relay { kind, state: RelayState::AwaitConnect }, RelayAction::DispatchConnect)
    }

    /// Where the relay stands.
    pub fn state(&self) -> (s: RelayState)
        ensures
            s == self.state_spec(),
    {
        self.state
    }

    /// Takes in what happened and says what to do next.
    pub fn on_event(&mut self, ev: RelayEvent) -> (a: RelayAction)
        requires
            expects(old(self).state_spec(), ev),
        ensures
            final(self).kind_spec() == old(self).kind_spec(),
            (final(self).state_spec(), a) == relay_step(old(self).kind_spec(), old(self).state_spec(), ev),
    {
        let (state, action) = match (self.state, ev) {
            (RelayState::AwaitConnect, RelayEvent::Dispatched(DispatchResult::Connected)) => {
                if self.kind == InboundKind::Socks5 {
                    (RelayState::AwaitReply, RelayAction::ReplySuccess)
                } else {
                    (RelayState::AwaitTunnel, RelayAction::DispatchTunnel)
                }
            },
            (RelayState::AwaitConnect, RelayEvent::Dispatched(DispatchResult::Failed)) => {
                if self.kind == InboundKind::Socks5 {
                    (RelayState::AwaitErrorReply, RelayAction::ReplyHostUnreachable)
                } else {
                    (RelayState::Finished, RelayAction::Finish)
                }
            },
            (RelayState::AwaitReply, RelayEvent::Replied) => (RelayState::AwaitTunnel, RelayAction::DispatchTunnel),
            _ => (RelayState::Finished, RelayAction::Finish),
        };
        self.state = state;
        action
    }
}

/// Only a SOCKS5 relay waits for a reply to its client.
pub open spec fn relay_inv(kind: InboundKind, state: RelayState) -> bool {
    kind != InboundKind::Socks5 ==> state != RelayState::AwaitReply && state != RelayState::AwaitErrorReply
}

/// Every step a relay takes keeps `relay_inv` and lowers its rank, so a relay
/// finishes after at most three events; it ends with `Finish` exactly when it
/// finishes; and it asks for a tunnel only right after a connect that gave a
/// stream, a SOCKS5 relay only once it has told its client so.
pub proof fn lemma_relay_progress(kind: InboundKind, state: RelayState, ev: RelayEvent)
    requires
        relay_inv(kind, state),
        expects(state, ev),
    ensures
        relay_inv(kind, relay_step(kind, state, ev).0),
        relay_rank(relay_step(kind, state, ev).0) < relay_rank(state),
        (relay_step(kind, state, ev).1 == RelayAction::Finish) == (relay_step(kind, state, ev).0 == RelayState::Finished),
        relay_step(kind, state, ev).1 == RelayAction::DispatchTunnel ==> {
            ||| (kind != InboundKind::Socks5 && state == RelayState::AwaitConnect
                && ev == RelayEvent::Dispatched(DispatchResult::Connected))
            ||| (kind == InboundKind::Socks5 && state == RelayState::AwaitReply)
        },
{
}

} // verus!
