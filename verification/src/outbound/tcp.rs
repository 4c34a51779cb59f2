//! The outbound that connects to the target directly over TCP.
use vstd::prelude::*;

verus! {

/// Connects to each target directly.
pub struct TcpOutbound {}

impl TcpOutbound {
    /// A TCP outbound; it holds no settings.
    pub fn new() -> (o: TcpOutbound) {
        TcpOutbound {}
    }

    /// The outbound's name.
    pub fn name(&self) -> (s: &'static str)
        ensures
            s@ == "TcpOutbound"@,
    {
        "TcpOutbound"
    }
}

} // verus!
