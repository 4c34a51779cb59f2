//! The outbound that reaches targets through a VLESS server.
use vstd::prelude::*;

verus! {

/// The name of a VLESS outbound over `inner`: `VlessOutbound<inner>`.
pub fn vless_outbound_name(inner: &str) -> (s: String)
    ensures
        s@ == "VlessOutbound<"@ + inner@ + ">"@,
{
    let mut s = String::new();
    s.push_str("VlessOutbound<");
    s.push_str(inner);
    s.push_str(">");
    proof {
        assert(s@ =~= "VlessOutbound<"@ + inner@ + ">"@);
    }
    s
}

} // verus!
