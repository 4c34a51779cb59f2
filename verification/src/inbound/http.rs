//! The HTTP inbound's answer to a request: only `CONNECT` to a target is
//! carried.
use vstd::prelude::*;
use crate::util::{parse_target, AddrParse, SocketAddress, TargetAddr, TargetAddrError};

verus! {

/// What the HTTP inbound answers a request with.
#[derive(Debug)]
pub enum ConnectDecision {
    /// Not a `CONNECT`: 405.
    MethodNotAllowed,
    /// A `CONNECT` without an authority: 400.
    NoAuthority,
    /// The authority is not a target address: 400 with the error's text.
    BadTarget(TargetAddrError),
    /// 200, then tunnel to the target once the connection is upgraded.
    Tunnel(TargetAddr),
}

/// Decides the answer to a request: whether its method is `CONNECT`, its
/// authority if it has one, and what that authority reads as an IP socket
/// address, if anything.
pub fn decide_connect(is_connect: bool, authority: Option<&str>, authority_ip: Option<SocketAddress>) -> (d:
    ConnectDecision)
    ensures
        !is_connect ==> d is MethodNotAllowed,
        is_connect && authority is None ==> d is NoAuthority,
        is_connect && authority is Some ==> match parse_target(authority.unwrap()@, authority_ip) {
            AddrParse::Addr(a) => d matches ConnectDecision::Tunnel(TargetAddr::SocketAddr(b)) && b == a,
            AddrParse::Domain(h, p) => d matches ConnectDecision::Tunnel(TargetAddr::Domain(h2, p2)) && h2@ == h
                && p2 == p,
            AddrParse::BadPort => d matches ConnectDecision::BadTarget(TargetAddrError::Port(_)),
            AddrParse::NoPort => d matches ConnectDecision::BadTarget(TargetAddrError::InvalidAddr(t)) && t@
                == authority.unwrap()@,
        },
{
    if !is_connect {
        return ConnectDecision::MethodNotAllowed;
    }
    match authority {
        None => ConnectDecision::NoAuthority,
        Some(a) => match TargetAddr::from_str(a, authority_ip) {
            Ok(t) => ConnectDecision::Tunnel(t),
            Err(e) => ConnectDecision::BadTarget(e),
        },
    }
}

impl ConnectDecision {
    /// The HTTP status code of the answer.
    pub fn status(&self) -> (code: u16)
        ensures
            self is MethodNotAllowed ==> code == 405,
            self is NoAuthority ==> code == 400,
            self is BadTarget ==> code == 400,
            self is Tunnel ==> code == 200,
    {
        match self {
            ConnectDecision::MethodNotAllowed => 405,
            ConnectDecision::NoAuthority => 400,
            ConnectDecision::BadTarget(_) => 400,
            ConnectDecision::Tunnel(_) => 200,
        }
    }

    /// The body of the answer; `None` for a port that is not a number, whose
    /// text is that of the parse error.
    pub fn body(&self) -> (b: Option<String>)
        ensures
            self is MethodNotAllowed ==> (b matches Some(s) && s@ == "This server is only serving as a proxy"@),
            self is NoAuthority ==> (b matches Some(s) && s@ == "CONNECT method needs an authority"@),
            self matches ConnectDecision::BadTarget(TargetAddrError::InvalidAddr(t)) ==> (b matches Some(s) && s@
                == "invalid addr: "@ + t@),
            (self matches ConnectDecision::BadTarget(TargetAddrError::Port(_))) ==> b is None,
            self is Tunnel ==> (b matches Some(s) && s@ == Seq::<char>::empty()),
    {
        match self {
            ConnectDecision::MethodNotAllowed => {
                let mut s = String::new();
                s.push_str("This server is only serving as a proxy");
                Some(s)
            },
            ConnectDecision::NoAuthority => {
                let mut s = String::new();
                s.push_str("CONNECT method needs an authority");
                Some(s)
            },
            ConnectDecision::BadTarget(TargetAddrError::InvalidAddr(t)) => {
                let mut s = String::new();
                s.push_str("invalid addr: ");
                s.push_str(t.as_str());
                Some(s)
            },
            ConnectDecision::BadTarget(TargetAddrError::Port(_)) => None,
            ConnectDecision::Tunnel(_) => Some(String::new()),
        }
    }
}

} // verus!
