//! Names of the stream pipelines: transport, then security, then network.
use vstd::prelude::*;

verus! {

/// `prefix<transport, security, network>`.
fn pipeline_name(prefix: &str, transport: &str, security: &str, network: &str) -> (s: String)
    ensures
        s@ == prefix@ + "<"@ + transport@ + ", "@ + security@ + ", "@ + network@ + ">"@,
{
    let mut s = String::new();
    s.push_str(prefix);
    s.push_str("<");
    s.push_str(transport);
    s.push_str(", ");
    s.push_str(security);
    s.push_str(", ");
    s.push_str(network);
    s.push_str(">");
    proof {
        assert(s@ =~= prefix@ + "<"@ + transport@ + ", "@ + security@ + ", "@ + network@ + ">"@);
    }
    s
}

/// The name of an inbound pipeline made of these layers:
/// `StreamInboundPipeline<transport, security, network>`.
pub fn inbound_pipeline_name(transport: &str, security: &str, network: &str) -> (s: String)
    ensures
        s@ == "StreamInboundPipeline"@ + "<"@ + transport@ + ", "@ + security@ + ", "@ + network@ + ">"@,
{
    pipeline_name("StreamInboundPipeline", transport, security, network)
}

/// The name of an outbound pipeline made of these layers:
/// `StreamOutboundPipeline<transport, security, network>`.
pub fn outbound_pipeline_name(transport: &str, security: &str, network: &str) -> (s: String)
    ensures
        s@ == "StreamOutboundPipeline"@ + "<"@ + transport@ + ", "@ + security@ + ", "@ + network@ + ">"@,
{
    pipeline_name("StreamOutboundPipeline", transport, security, network)
}

} // verus!
