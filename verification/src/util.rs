//! Target addresses: where a proxied connection goes.
use vstd::prelude::*;
use vstd::string::StrSliceExecFns;

verus! {

/// An IP socket address, as `std::net::SocketAddr` holds it.
#[derive(Debug, Clone, Copy)]
#[allow(inconsistent_fields)]
pub enum SocketAddress {
    V4 { ip: [u8; 4], port: u16 },
    V6 { ip: [u8; 16], port: u16, flowinfo: u32, scope_id: u32 },
}

/// Where to connect: an IP socket address, or a host name and a port.
#[derive(Debug)]
pub enum TargetAddr {
    SocketAddr(SocketAddress),
    Domain(String, u16),
}

impl Clone for TargetAddr {
    /// The same target.
    fn clone(&self) -> (r: Self)
        ensures
            r == *self,
    {
        match self {
            TargetAddr::SocketAddr(a) => TargetAddr::SocketAddr(*a),
            TargetAddr::Domain(d, p) => TargetAddr::Domain(d.clone(), *p),
        }
    }
}

/// Why a text is not a target address.
#[derive(Debug)]
pub enum TargetAddrError {
    /// The text after the last `:` is not a port number.
    Port(std::num::ParseIntError),
    /// The text has no `:`; it holds the text.
    InvalidAddr(String),
}

#[verifier::external_type_specification]
#[verifier::external_body]
pub struct ExParseIntError(std::num::ParseIntError);

/// Whether every character of `s` is an ASCII decimal digit.
pub open spec fn all_decimal_digits(s: Seq<char>) -> bool {
    forall|i: int| 0 <= i < s.len() ==> 48 <= #[trigger] (s[i] as u32) <= 57
}

/// The number that a string of decimal digits writes.
pub open spec fn decimal_value(s: Seq<char>) -> nat
    decreases s.len(),
{
    if s.len() == 0 {
        0
    } else {
        decimal_value(s.drop_last()) * 10 + (s.last() as u32 - 48) as nat
    }
}

/// What `str::parse::<u16>` reads in a text: an optional `+`, then one or
/// more decimal digits whose number fits a `u16`; anything else is an error.
pub open spec fn u16_from_text(s: Seq<char>) -> Option<u16> {
    let d = if s.len() > 0 && s[0] == '+' { s.skip(1) } else { s };
    if d.len() > 0 && all_decimal_digits(d) && decimal_value(d) <= u16::MAX {
        Some(decimal_value(d) as u16)
    } else {
        None
    }
}

/// `str::parse::<u16>`, which reads the text as `u16::from_str_radix` does
/// in base 10: an optional `+`, then digits, the number within range.
#[verifier::external_body]
fn parse_u16(s: &str) -> (r: Result<u16, std::num::ParseIntError>)
    ensures
        match r {
            Ok(v) => u16_from_text(s@) == Some(v),
            Err(_) => u16_from_text(s@) is None,
        },
{
    s.parse::<u16>()
}

/// The index of the last `c` in `s`, if any.
pub open spec fn last_index_of(s: Seq<char>, c: char) -> Option<int>
    decreases s.len(),
{
    if s.len() == 0 {
        None
    } else if s.last() == c {
        Some(s.len() - 1)
    } else {
        last_index_of(s.drop_last(), c)
    }
}

/// What reading a text as a target gives: the IP socket address that the
/// text is, if it is one (`as_ip`); else a host and a port split at the last
/// `:`; else an error.
pub enum AddrParse {
    Addr(SocketAddress),
    Domain(Seq<char>, u16),
    BadPort,
    NoPort,
}

/// What `TargetAddr::from_str` reads in `s`, given what `s` reads as an IP
/// socket address.
pub open spec fn parse_target(s: Seq<char>, as_ip: Option<SocketAddress>) -> AddrParse {
    match as_ip {
        Some(a) => AddrParse::Addr(a),
        None => match last_index_of(s, ':') {
            Some(i) => match u16_from_text(s.skip(i + 1)) {
                Some(p) => AddrParse::Domain(s.take(i), p),
                None => AddrParse::BadPort,
            },
            None => AddrParse::NoPort,
        },
    }
}

impl SocketAddress {
    /// The port.
    pub fn port(&self) -> (p: u16)
        ensures
            p == match *self {
                SocketAddress::V4 { port, .. } => port,
                SocketAddress::V6 { port, .. } => port,
            },
    {
        match self {
            SocketAddress::V4 { port, .. } => *port,
            SocketAddress::V6 { port, .. } => *port,
        }
    }

}

impl TargetAddr {
    /// Reads a target from text, given what the text reads as an IP socket
    /// address (`std::net::SocketAddr`'s parser, which only the caller can
    /// run): that address where there is one, else a host and a port split at
    /// the last `:`.
    pub fn from_str(s: &str, as_ip: Option<SocketAddress>) -> (r: Result<TargetAddr, TargetAddrError>)
        ensures
            match parse_target(s@, as_ip) {
                AddrParse::Addr(a) => r matches Ok(TargetAddr::SocketAddr(b)) && b == a,
                AddrParse::Domain(h, p) => r matches Ok(TargetAddr::Domain(h2, p2)) && h2@ == h && p2 == p,
                AddrParse::BadPort => r matches Err(TargetAddrError::Port(_)),
                AddrParse::NoPort => r matches Err(TargetAddrError::InvalidAddr(t)) && t@ == s@,
            },
    {
        if let Some(a) = as_ip {
            return Ok(TargetAddr::SocketAddr(a));
        }
        let n = s.unicode_len();
        let mut i = n;
        proof {
            assert(s@.take(n as int) =~= s@);
        }
        while i > 0 && s.get_char(i - 1) != ':'
            invariant
                i <= n,
                n == s@.len(),
                last_index_of(s@, ':') == last_index_of(s@.take(i as int), ':'),
            decreases i,
        {
            proof {
                assert(s@.take(i as int).drop_last() =~= s@.take(i - 1));
            }
            i = i - 1;
        }
        if i == 0 {
            proof {
                assert(s@.take(0) =~= Seq::<char>::empty());
            }
            return Err(TargetAddrError::InvalidAddr(s.to_owned()));
        }
        proof {
            assert(s@.take(i as int).last() == ':');
            assert(last_index_of(s@, ':') == Some(i - 1));
        }
        let host = s.substring_char(0, i - 1);
        let port_text = s.substring_char(i, n);
        match parse_u16(port_text) {
            Ok(p) => {
                proof {
                    assert(port_text@ =~= s@.skip(i as int));
                    assert(host@ =~= s@.take(i - 1));
                }
                Ok(TargetAddr::Domain(host.to_owned(), p))
            },
            Err(e) => {
                proof {
                    assert(port_text@ =~= s@.skip(i as int));
                }
                Err(TargetAddrError::Port(e))
            },
        }
    }
}


/// The character of a decimal digit.
pub open spec fn digit_char(d: nat) -> char {
    (d + 48) as char
}

/// How a number is written in decimal: its digits, most significant first,
/// with no leading zeros (`0` is written as one digit).
pub open spec fn decimal_digits(n: nat) -> Seq<char>
    decreases n,
{
    if n < 10 {
        seq![digit_char(n)]
    } else {
        decimal_digits(n / 10).push(digit_char(n % 10))
    }
}

/// How a host and a port are written as a target: `host:port`.
pub open spec fn domain_text_spec(host: Seq<char>, port: u16) -> Seq<char> {
    host + seq![':'] + decimal_digits(port as nat)
}

/// The one-character text of a decimal digit.
fn digit_str(d: u16) -> (s: &'static str)
    requires
        d < 10,
    ensures
        s@ == seq![digit_char(d as nat)],
{
    proof {
        reveal_strlit("0");
        reveal_strlit("1");
        reveal_strlit("2");
        reveal_strlit("3");
        reveal_strlit("4");
        reveal_strlit("5");
        reveal_strlit("6");
        reveal_strlit("7");
        reveal_strlit("8");
        reveal_strlit("9");
    }
    let s = match d {
        0 => "0",
        1 => "1",
        2 => "2",
        3 => "3",
        4 => "4",
        5 => "5",
        6 => "6",
        7 => "7",
        8 => "8",
        _ => "9",
    };
    assert(s@ =~= seq![digit_char(d as nat)]);
    s
}

/// Appends `n` written in decimal to `s`.
fn push_decimal(s: &mut String, n: u16)
    ensures
        final(s)@ == old(s)@ + decimal_digits(n as nat),
    decreases n,
{
    if n >= 10 {
        push_decimal(s, n / 10);
    }
    s.push_str(digit_str(n % 10));
    proof {
        if n >= 10 {
            assert(old(s)@ + decimal_digits(n as nat) =~= old(s)@ + decimal_digits((n / 10) as nat) + seq![
                digit_char((n % 10) as nat),
            ]);
        } else {
            assert(old(s)@ + decimal_digits(n as nat) =~= old(s)@ + seq![digit_char((n % 10) as nat)]);
        }
    }
}

/// A host and a port written as a target, `host:port`, the way a domain
/// target is shown.
pub fn domain_text(host: &str, port: u16) -> (s: String)
    ensures
        s@ == domain_text_spec(host@, port),
{
    let mut s = String::new();
    s.push_str(host);
    s.push_str(":");
    push_decimal(&mut s, port);
    proof {
        reveal_strlit(":");
        assert(s@ =~= domain_text_spec(host@, port));
    }
    s
}

/// Every character of a number written in decimal is a digit.
proof fn lemma_decimal_digits_are_digits(n: nat)
    ensures
        decimal_digits(n).len() > 0,
        all_decimal_digits(decimal_digits(n)),
    decreases n,
{
    if n >= 10 {
        lemma_decimal_digits_are_digits(n / 10);
        let d = decimal_digits(n / 10);
        assert forall|i: int| 0 <= i < decimal_digits(n).len() implies 48 <= #[trigger] (decimal_digits(n)[i] as u32)
            <= 57 by {
            if i < d.len() {
                assert(decimal_digits(n)[i] == d[i]);
            }
        }
    }
}

/// A number written in decimal reads back as that number.
proof fn lemma_decimal_value_of_digits(n: nat)
    ensures
        decimal_value(decimal_digits(n)) == n,
    decreases n,
{
    let d = n % 10;
    assert((digit_char(d) as u32) == d + 48);
    if n >= 10 {
        lemma_decimal_value_of_digits(n / 10);
        assert(decimal_digits(n).drop_last() =~= decimal_digits(n / 10));
        assert(decimal_digits(n).last() == digit_char(d));
        assert((n / 10) * 10 + d == n);
    } else {
        assert(decimal_digits(n).drop_last() =~= Seq::<char>::empty());
        assert(decimal_value(Seq::<char>::empty()) == 0);
        assert(d == n);
    }
}

/// The last `c` in `s + t` is the last one in `s` when `t` holds no `c`.
proof fn lemma_last_index_of_ignores_tail(s: Seq<char>, t: Seq<char>, c: char)
    requires
        forall|i: int| 0 <= i < t.len() ==> t[i] != c,
    ensures
        last_index_of(s + t, c) == last_index_of(s, c),
    decreases t.len(),
{
    if t.len() > 0 {
        assert((s + t).last() == t.last());
        assert((s + t).drop_last() =~= s + t.drop_last());
        lemma_last_index_of_ignores_tail(s, t.drop_last(), c);
    } else {
        assert(s + t =~= s);
    }
}

/// A domain target written as text reads back as the same host and port,
/// whatever the host holds (colons too), as long as the text is not also an
/// IP socket address.
pub proof fn lemma_domain_text_reads_back(host: Seq<char>, port: u16)
    ensures
        parse_target(domain_text_spec(host, port), None) == AddrParse::Domain(host, port),
{
    let digits = decimal_digits(port as nat);
    let text = domain_text_spec(host, port);
    lemma_decimal_digits_are_digits(port as nat);
    lemma_decimal_value_of_digits(port as nat);
    assert forall|i: int| 0 <= i < digits.len() implies digits[i] != ':' by {
        assert(48 <= (digits[i] as u32) <= 57);
    }
    lemma_last_index_of_ignores_tail(host + seq![':'], digits, ':');
    assert(text =~= (host + seq![':']) + digits);
    assert((host + seq![':']).last() == ':');
    assert(last_index_of(host + seq![':'], ':') == Some(host.len() as int));
    assert(text.skip(host.len() + 1int) =~= digits);
    assert(text.take(host.len() as int) =~= host);
    assert(digits[0] != '+') by {
        assert(48 <= (digits[0] as u32) <= 57);
    }
}

} // verus!
