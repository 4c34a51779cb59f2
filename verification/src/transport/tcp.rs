//! The TCP transport.
use vstd::prelude::*;

verus! {

/// How long a connection attempt may take: whole seconds and nanoseconds,
/// as `std::time::Duration` holds it.
#[derive(Debug, Clone, Copy, PartialEq, Eq, Structural)]
pub struct ConnectTimeout {
    pub secs: u64,
    pub subsec_nanos: u32,
}

/// Connects over TCP, to each address of a target in turn, each attempt
/// bounded by the timeout.
pub struct TcpOutboundTransport {
    timeout: ConnectTimeout,
}

impl TcpOutboundTransport {
    /// The timeout of each connection attempt.
    pub closed spec fn timeout_spec(&self) -> ConnectTimeout {
        self.timeout
    }

    /// A transport whose attempts may take 30 seconds each.
    pub fn new() -> (t: TcpOutboundTransport)
        ensures
            t.timeout_spec() == (ConnectTimeout { secs: 30, subsec_nanos: 0 }),
    {
        TcpOutboundTransport { timeout: ConnectTimeout { secs: 30, subsec_nanos: 0 } }
    }

    /// The same transport with another timeout.
    pub fn with_timeout(self, timeout: ConnectTimeout) -> (t: TcpOutboundTransport)
        ensures
            t.timeout_spec() == timeout,
    {
        let mut s = self;
        s.timeout = timeout;
        s
    }

    /// The timeout of each connection attempt.
    pub fn timeout(&self) -> (t: ConnectTimeout)
        ensures
            t == self.timeout_spec(),
    {
        self.timeout
    }

    /// The transport's name.
    pub fn name(&self) -> (s: &'static str)
        ensures
            s@ == "TcpOutboundTransport"@,
    {
        "TcpOutboundTransport"
    }
}

/// What the transport does after an attempt to connect to the address at
/// `index` of `count` addresses failed.
#[derive(Debug, Clone, Copy, PartialEq, Eq, Structural)]
pub enum AttemptStep {
    /// Try the address at this index.
    Try(usize),
    /// No address is left: the connection fails.
    GiveUp,
}

/// The first step: try the first address, if there is one.
pub fn first_attempt(count: usize) -> (s: AttemptStep)
    ensures
        count > 0 ==> s == AttemptStep::Try(0),
        count == 0 ==> s == AttemptStep::GiveUp,
{
    if count > 0 {
        AttemptStep::Try(0)
    } else {
        AttemptStep::GiveUp
    }
}

/// After the attempt at `index` failed or timed out: the next address, or give up.
pub fn after_failed_attempt(index: usize, count: usize) -> (s: AttemptStep)
    requires
        index < count,
    ensures
        index + 1 < count ==> s == AttemptStep::Try((index + 1) as usize),
        index + 1 >= count ==> s == AttemptStep::GiveUp,
{
    if index + 1 < count {
        AttemptStep::Try(index + 1)
    } else {
        AttemptStep::GiveUp
    }
}

} // verus!
