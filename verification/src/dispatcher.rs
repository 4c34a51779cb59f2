//! What a dispatcher answers an inbound's request with.
use vstd::prelude::*;


verus! {

/// A dispatcher's answer: a connected stream to the target, or the news that
/// it has started to copy between two streams.
pub enum DispatcherResponse<S> {
    Connected { stream: S },
    Tunneling,
}

/// The name of a dispatcher that sends every request to one outbound:
/// `SimpleDispatcher<outbound>`.
pub fn simple_dispatcher_name(outbound: &str) -> (s: String)
    ensures
        s@ == "SimpleDispatcher<"@ + outbound@ + ">"@,
{
    let mut s = String::new();
    s.push_str("SimpleDispatcher<");
    s.push_str(outbound);
    s.push_str(">");
    proof {
        assert(s@ =~= "SimpleDispatcher<"@ + outbound@ + ">"@);
    }
    s
}

} // verus!
