//! The VLESS inbound's checks on a request.
use vstd::prelude::*;
use crate::protocol::vless::{VlessCommand, VlessRequest};

verus! {

/// Why a VLESS inbound turns a request down.
#[derive(Debug, Clone, Copy, PartialEq, Eq, Structural)]
pub enum Refusal {
    /// The request's user id is not the inbound's.
    Permission,
    /// The inbound carries only TCP; this is the command byte asked for.
    InvalidCommand(u8),
}

/// Whether a VLESS inbound with user id `id` carries `req`: the ids must be
/// equal, then the command must be TCP.
pub fn check_request(req: &VlessRequest, id: &[u8; 16]) -> (r: Result<(), Refusal>)
    ensures
        req@.id != id@ ==> r == Err::<(), Refusal>(Refusal::Permission),
        req@.id == id@ && req@.command == VlessCommand::Tcp ==> r == Ok::<(), Refusal>(()),
        req@.id == id@ && req@.command != VlessCommand::Tcp ==> r == Err::<(), Refusal>(
            Refusal::InvalidCommand(req@.command.byte_of()),
        ),
{
    let rid = req.id();
    let mut i: usize = 0;
    while i < 16
        invariant
            i <= 16,
            rid@ == req@.id,
            forall|t: int| 0 <= t < i ==> rid@[t] == id@[t],
        decreases 16 - i,
    {
        if rid[i] != id[i] {
            return Err(Refusal::Permission);
        }
        i = i + 1;
    }
    assert(rid@ =~= id@);
    match req.command() {
        VlessCommand::Tcp => Ok(()),
        c => Err(Refusal::InvalidCommand(c.to_byte())),
    }
}

/// The name of a VLESS inbound over the pipeline named `inner`:
/// `VlessInbound<inner>`.
pub fn vless_inbound_name(inner: &str) -> (s: String)
    ensures
        s@ == "VlessInbound<"@ + inner@ + ">"@,
{
    let mut s = String::new();
    s.push_str("VlessInbound<");
    s.push_str(inner);
    s.push_str(">");
    proof {
        assert(s@ =~= "VlessInbound<"@ + inner@ + ">"@);
    }
    s
}

} // verus!
