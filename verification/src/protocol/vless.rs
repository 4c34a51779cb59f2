//! The VLESS request and response headers.
//!
//! A request is: the version (1 byte), the user id (16 bytes), the length of
//! an add-ons block (1 byte), the command (1 byte), the port (big-endian
//! `u16`), the address kind (1 byte: 1 IPv4, 2 domain, 3 IPv6), then the
//! address (4 bytes, a length byte and the name, or 16 bytes). The server
//! answers with the version and an empty add-ons length, `00 00`.
use vstd::prelude::*;
use bytes::BytesMut;
use crate::buffer::{
    be16, be16_bytes, buf_advance, buf_byte, buf_contents, buf_extend, buf_len, buf_put_u16, buf_put_u8,
    buf_split_to, buf_to_vec, buf_with_capacity,
};
use crate::error::VlessError;
use crate::text::{lossy_text, string_from_utf8_lossy};
use crate::util::{SocketAddress, TargetAddr};

verus! {

/// What a VLESS request asks for.
#[derive(Debug, Clone, Copy, PartialEq, Eq, Structural)]
pub enum VlessCommand {
    Tcp,
    Udp,
    Mux,
}

impl VlessCommand {
    /// The command that a byte encodes, if any.
    pub open spec fn from_byte_spec(v: u8) -> Option<VlessCommand> {
        if v == 1 {
            Some(VlessCommand::Tcp)
        } else if v == 2 {
            Some(VlessCommand::Udp)
        } else if v == 3 {
            Some(VlessCommand::Mux)
        } else {
            None
        }
    }

    /// The byte that encodes a command.
    pub open spec fn byte_of(self) -> u8 {
        match self {
            VlessCommand::Tcp => 1,
            VlessCommand::Udp => 2,
            VlessCommand::Mux => 3,
        }
    }

    /// Decodes a command byte; only 1, 2 and 3 are commands.
    pub fn try_from(value: u8) -> (r: Result<VlessCommand, VlessError>)
        ensures
            match VlessCommand::from_byte_spec(value) {
                Some(c) => r matches Ok(d) && d == c,
                None => r matches Err(VlessError::InvalidCommand(v)) && v == value,
            },
    {
        match value {
            1 => Ok(VlessCommand::Tcp),
            2 => Ok(VlessCommand::Udp),
            3 => Ok(VlessCommand::Mux),
            v => Err(VlessError::InvalidCommand(v)),
        }
    }

    /// The byte that encodes this command.
    pub fn to_byte(&self) -> (b: u8)
        ensures
            b == self.byte_of(),
            VlessCommand::from_byte_spec(b) == Some(*self),
    {
        match self {
            VlessCommand::Tcp => 1,
            VlessCommand::Udp => 2,
            VlessCommand::Mux => 3,
        }
    }
}

/// The protocol version; only version 0 exists.
#[derive(Debug, Clone, Copy, PartialEq, Eq, Structural)]
pub enum VlessVersion {
    Zero,
}

impl VlessVersion {
    /// The byte that encodes a version.
    pub open spec fn byte_of(self) -> u8 {
        0
    }

    /// Decodes a version byte; only 0 is a version.
    pub fn try_from(value: u8) -> (r: Result<VlessVersion, VlessError>)
        ensures
            value == 0 ==> r matches Ok(VlessVersion::Zero),
            value != 0 ==> (r matches Err(VlessError::InvalidVersion(v)) && v == value),
    {
        match value {
            0 => Ok(VlessVersion::Zero),
            v => Err(VlessError::InvalidVersion(v)),
        }
    }

    /// The byte that encodes this version.
    pub fn to_byte(&self) -> (b: u8)
        ensures
            b == self.byte_of(),
    {
        0
    }
}

/// A target address as the contracts see it.
pub enum TargetView {
    V4(Seq<u8>, u16),
    V6(Seq<u8>, u16, u32, u32),
    Domain(Seq<char>, u16),
}

impl View for TargetAddr {
    type V = TargetView;

    open spec fn view(&self) -> TargetView {
        match self {
            TargetAddr::SocketAddr(SocketAddress::V4 { ip, port }) => TargetView::V4(ip@, *port),
            TargetAddr::SocketAddr(SocketAddress::V6 { ip, port, flowinfo, scope_id }) => TargetView::V6(
                ip@,
                *port,
                *flowinfo,
                *scope_id,
            ),
            TargetAddr::Domain(d, p) => TargetView::Domain(d@, *p),
        }
    }
}

/// A request as the contracts see it.
pub struct RequestView {
    pub version: VlessVersion,
    pub id: Seq<u8>,
    pub command: VlessCommand,
    pub target: TargetView,
}

/// What a client asks a VLESS server for.
#[derive(Debug)]
pub struct VlessRequest {
    version: VlessVersion,
    id: [u8; 16],
    command: VlessCommand,
    target: TargetAddr,
}

impl View for VlessRequest {
    type V = RequestView;

    closed spec fn view(&self) -> RequestView {
        RequestView { version: self.version, id: self.id@, command: self.command, target: self.target@ }
    }
}

impl VlessRequest {
    /// A request from its parts.
    pub fn new(version: VlessVersion, id: [u8; 16], command: VlessCommand, target: TargetAddr) -> (r: VlessRequest)
        ensures
            r@ == (RequestView { version: version, id: id@, command: command, target: target@ }),
    {
        VlessRequest { version, id, command, target }
    }

    /// The protocol version.
    pub fn version(&self) -> (v: &VlessVersion)
        ensures
            *v == self@.version,
    {
        &self.version
    }

    /// The user id.
    pub fn id(&self) -> (i: &[u8; 16])
        ensures
            i@ == self@.id,
    {
        &self.id
    }

    /// What the client asks for.
    pub fn command(&self) -> (c: &VlessCommand)
        ensures
            *c == self@.command,
    {
        &self.command
    }

    /// Where the client wants to go.
    pub fn target(&self) -> (t: &TargetAddr)
        ensures
            t@ == self@.target,
    {
        &self.target
    }
}

/// A server's answer header: the version, and no add-ons.
pub struct VlessResponse {
    version: u8,
}

/// The bytes of a target in a request: port, address kind, address.
/// A domain's length byte is its UTF-8 length cut to 8 bits.
pub open spec fn target_bytes(t: TargetView) -> Seq<u8> {
    match t {
        TargetView::V4(ip, port) => be16_bytes(port as nat) + seq![1u8] + ip,
        TargetView::Domain(d, port) => be16_bytes(port as nat) + seq![2u8, vstd::utf8::encode_utf8(d).len() as u8]
            + vstd::utf8::encode_utf8(d),
        TargetView::V6(ip, port, _, _) => be16_bytes(port as nat) + seq![3u8] + ip,
    }
}

/// The bytes a client sends for a request, with no add-ons.
pub open spec fn request_bytes(r: RequestView) -> Seq<u8> {
    seq![r.version.byte_of()] + r.id + seq![0u8, r.command.byte_of()] + target_bytes(r.target)
}

/// The length of a response header at the front of `b`, once all of it is there.
pub open spec fn response_header_len(b: Seq<u8>) -> Option<nat> {
    if b.len() < 2 {
        None
    } else if b.len() < 2 + b[1] {
        None
    } else {
        Some((2 + b[1]) as nat)
    }
}

/// Drops a response header from the front of a buffer, once all of it is there.
pub struct VlessResponseDecoder;

impl VlessResponseDecoder {
    /// Drops the response header from the front of `src` if all of it is
    /// there; otherwise leaves `src` as it is.
    pub fn decode(&mut self, src: &mut BytesMut) -> (r: Option<()>)
        ensures
            match response_header_len(buf_contents(*old(src))) {
                None => r is None && buf_contents(*final(src)) == buf_contents(*old(src)),
                Some(n) => r is Some && buf_contents(*final(src)) == buf_contents(*old(src)).skip(n as int),
            },
    {
        let len = buf_len(src);
        if len < 2 {
            return None;
        }
        let addons_len = buf_byte(src, 1) as usize;
        let header_len = 2 + addons_len;
        if len < header_len {
            return None;
        }
        buf_advance(src, header_len);
        Some(())
    }
}

/// Writes a request header as a client sends it.
pub fn encode_request(req: &VlessRequest) -> (b: BytesMut)
    requires
        request_bytes(req@).len() <= isize::MAX,
    ensures
        buf_contents(b) == request_bytes(req@),
{
    let mut buf = buf_with_capacity(22);
    buf_put_u8(&mut buf, req.version().to_byte());
    buf_extend(&mut buf, req.id().as_slice());
    buf_put_u8(&mut buf, 0);
    buf_put_u8(&mut buf, req.command().to_byte());
    proof {
        assert(buf_contents(buf) =~= seq![req@.version.byte_of()] + req@.id + seq![0u8, req@.command.byte_of()]);
    }
    let ghost head = buf_contents(buf);
    match req.target() {
        TargetAddr::SocketAddr(SocketAddress::V4 { ip, port }) => {
            buf_put_u16(&mut buf, *port);
            buf_put_u8(&mut buf, 1);
            buf_extend(&mut buf, ip.as_slice());
        },
        TargetAddr::Domain(domain, port) => {
            let bytes = domain.as_str().as_bytes();
            buf_put_u16(&mut buf, *port);
            buf_put_u8(&mut buf, 2);
            buf_put_u8(&mut buf, bytes.len() as u8);
            buf_extend(&mut buf, bytes);
        },
        TargetAddr::SocketAddr(SocketAddress::V6 { ip, port, .. }) => {
            buf_put_u16(&mut buf, *port);
            buf_put_u8(&mut buf, 3);
            buf_extend(&mut buf, ip.as_slice());
        },
    }
    proof {
        assert(buf_contents(buf) =~= head + target_bytes(req@.target));
    }
    buf
}

/// Why a request header is refused.
pub enum AcceptFailure {
    InvalidVersion(u8),
    InvalidCommand(u8),
    InvalidAddrKind(u8),
}

/// How far a server gets with the bytes a client sent.
pub enum AcceptOutcome {
    /// It waits for the stream to hold this many bytes in all.
    NeedMore(nat),
    /// The header is refused.
    Failed(AcceptFailure),
    /// The request, and how many bytes it took.
    Accepted(RequestView, nat),
}

/// What a server makes of the first bytes a client sends, as it reads them:
/// the fixed 22 bytes first (version, id, add-ons length, command, port,
/// address kind), then it skips the add-ons, then reads the address. It
/// checks the version before it skips the add-ons, the command and the
/// address kind after. An IPv6 address gets flow info and scope id 0.
pub open spec fn accept_outcome(s: Seq<u8>) -> AcceptOutcome {
    if s.len() < 22 {
        AcceptOutcome::NeedMore(22)
    } else if s[0] != 0 {
        AcceptOutcome::Failed(AcceptFailure::InvalidVersion(s[0]))
    } else {
        let p = 22 + s[17];
        if s.len() < p {
            AcceptOutcome::NeedMore(p as nat)
        } else {
            match VlessCommand::from_byte_spec(s[18]) {
                None => AcceptOutcome::Failed(AcceptFailure::InvalidCommand(s[18])),
                Some(command) => {
                    let port = be16(s[19], s[20]) as u16;
                    let kind = s[21];
                    let id = s.subrange(1, 17);
                    if kind == 1 {
                        if s.len() < p + 4 {
                            AcceptOutcome::NeedMore((p + 4) as nat)
                        } else {
                            AcceptOutcome::Accepted(
                                RequestView { version: VlessVersion::Zero, id, command, target: TargetView::V4(s.subrange(p, p + 4), port) },
                                (p + 4) as nat,
                            )
                        }
                    } else if kind == 2 {
                        if s.len() < p + 1 {
                            AcceptOutcome::NeedMore((p + 1) as nat)
                        } else {
                            let l = s[p];
                            if s.len() < p + 1 + l {
                                AcceptOutcome::NeedMore((p + 1 + l) as nat)
                            } else {
                                AcceptOutcome::Accepted(
                                    RequestView {
                                        version: VlessVersion::Zero,
                                        id,
                                        command,
                                        target: TargetView::Domain(lossy_text(s.subrange(p + 1, p + 1 + l)), port),
                                    },
                                    (p + 1 + l) as nat,
                                )
                            }
                        }
                    } else if kind == 3 {
                        if s.len() < p + 16 {
                            AcceptOutcome::NeedMore((p + 16) as nat)
                        } else {
                            AcceptOutcome::Accepted(
                                RequestView {
                                    version: VlessVersion::Zero,
                                    id,
                                    command,
                                    target: TargetView::V6(s.subrange(p, p + 16), port, 0, 0),
                                },
                                (p + 16) as nat,
                            )
                        }
                    } else {
                        AcceptOutcome::Failed(AcceptFailure::InvalidAddrKind(kind))
                    }
                },
            }
        }
    }
}

/// Whether an error is the one a failure stands for.
pub open spec fn is_failure(e: VlessError, f: AcceptFailure) -> bool {
    match f {
        AcceptFailure::InvalidVersion(v) => e matches VlessError::InvalidVersion(w) && w == v,
        AcceptFailure::InvalidCommand(v) => e matches VlessError::InvalidCommand(w) && w == v,
        AcceptFailure::InvalidAddrKind(v) => e matches VlessError::InvalidAddrKind(w) && w == v,
    }
}

/// The part of a request header a server is reading.
#[derive(Debug, Clone, Copy, PartialEq, Eq, Structural)]
pub enum AcceptStage {
    Header,
    Addons,
    Address,
    DomainName,
}

/// A server part way through reading a request header.
pub struct AcceptState {
    stage: AcceptStage,
    id: [u8; 16],
    addons_len: u8,
    command: u8,
    port: u16,
    addr_kind: u8,
    needed: usize,
    seen: Ghost<Seq<u8>>,
}

/// What a server does next with a request header.
pub enum AcceptStep {
    /// Read this many more bytes (`AcceptState::needed`) and go on.
    Read(AcceptState),
    /// The request is read; answer with `VlessProtocol::response_header`.
    Done(VlessRequest),
    /// The header is refused.
    Fail(VlessError),
}

impl AcceptState {
    /// The bytes read so far.
    pub closed spec fn seen(&self) -> Seq<u8> {
        self.seen@
    }

    /// How many bytes the server reads next.
    pub closed spec fn needs(&self) -> nat {
        self.needed as nat
    }

    /// The fields agree with the bytes read, and the server waits for exactly
    /// the bytes `accept_outcome` asks for next.
    pub closed spec fn wf(&self) -> bool {
        let s = self.seen@;
        &&& self.needed > 0
        &&& accept_outcome(s) == AcceptOutcome::NeedMore((s.len() + self.needed) as nat)
        &&& match self.stage {
            AcceptStage::Header => s.len() == 0 && self.needed == 22,
            _ => {
                &&& s.len() >= 22
                &&& s[0] == 0
                &&& self.id@ == s.subrange(1, 17)
                &&& self.addons_len == s[17]
                &&& self.command == s[18]
                &&& self.port == be16(s[19], s[20])
                &&& self.addr_kind == s[21]
                &&& match self.stage {
                    AcceptStage::Addons => s.len() == 22 && self.addons_len > 0 && self.needed == self.addons_len,
                    AcceptStage::Address => {
                        &&& s.len() == 22 + self.addons_len
                        &&& VlessCommand::from_byte_spec(self.command) is Some
                        &&& (self.addr_kind == 1 && self.needed == 4 || self.addr_kind == 2 && self.needed == 1
                            || self.addr_kind == 3 && self.needed == 16)
                    },
                    _ => {
                        &&& s.len() == 23 + self.addons_len
                        &&& VlessCommand::from_byte_spec(self.command) is Some
                        &&& self.addr_kind == 2
                        &&& self.needed == s[22 + self.addons_len]
                    },
                }
            },
        }
    }

    /// How many bytes the server reads next.
    pub fn needed(&self) -> (n: usize)
        ensures
            n == self.needs(),
    {
        self.needed
    }
}

/// The server side of the VLESS handshake.
pub struct VlessProtocol;

impl VlessProtocol {
    /// A server that has read nothing yet; it reads 22 bytes first.
    pub fn start() -> (st: AcceptState)
        ensures
            st.wf(),
            st.seen() == Seq::<u8>::empty(),
            st.needs() == 22,
    {
        AcceptState {
            stage: AcceptStage::Header,
            id: [0u8; 16],
            addons_len: 0,
            command: 0,
            port: 0,
            addr_kind: 0,
            needed: 22,
            seen: Ghost(Seq::empty()),
        }
    }

    /// Takes in the bytes the server asked for and says what comes next, as
    /// `accept_outcome` says of all the bytes read so far.
    pub fn advance(st: AcceptState, chunk: &[u8]) -> (r: AcceptStep)
        requires
            st.wf(),
            chunk@.len() == st.needs(),
        ensures
            ({
                let s = st.seen() + chunk@;
                match accept_outcome(s) {
                    AcceptOutcome::NeedMore(k) => r matches AcceptStep::Read(st2) && st2.wf() && st2.seen() == s
                        && k == s.len() + st2.needs(),
                    AcceptOutcome::Failed(f) => r matches AcceptStep::Fail(e) && is_failure(e, f),
                    AcceptOutcome::Accepted(req, n) => r matches AcceptStep::Done(q) && q@ == req && n == s.len(),
                }
            }),
    {
        let ghost s = st.seen@ + chunk@;
        match st.stage {
            AcceptStage::Header => {
                assert(s =~= chunk@);
                let version = chunk[0];
                if version != 0 {
                    return AcceptStep::Fail(VlessError::InvalidVersion(version));
                }
                let mut id = [0u8; 16];
                let mut i: usize = 0;
                while i < 16
                    invariant
                        i <= 16,
                        chunk@.len() == 22,
                        forall|t: int| 0 <= t < i ==> id@[t] == chunk@[t + 1],
                    decreases 16 - i,
                {
                    id[i] = chunk[i + 1];
                    i = i + 1;
                }
                assert(id@ =~= s.subrange(1, 17));
                let addons_len = chunk[17];
                let st2 = AcceptState {
                    stage: AcceptStage::Addons,
                    id,
                    addons_len,
                    command: chunk[18],
                    port: (chunk[19] as u16) * 256 + (chunk[20] as u16),
                    addr_kind: chunk[21],
                    needed: addons_len as usize,
                    seen: Ghost(s),
                };
                assert(st2.id@ == st2.seen@.subrange(1, 17));
                if addons_len != 0 {
                    return AcceptStep::Read(st2);
                }
                Self::after_addons(st2)
            },
            AcceptStage::Addons => {
                assert(s.subrange(0, 22) =~= st.seen@);
                assert(s.subrange(1, 17) =~= st.seen@.subrange(1, 17));
                let st2 = AcceptState { seen: Ghost(s), ..st };
                Self::after_addons(st2)
            },
            AcceptStage::Address => {
                let ghost p = 22 + st.addons_len;
                assert(s.subrange(1, 17) =~= st.seen@.subrange(1, 17));
                assert(s[18] == st.seen@[18]);
                assert(s.subrange(p as int, s.len() as int) =~= chunk@);
                if st.addr_kind == 1 {
                    let ip: [u8; 4] = [chunk[0], chunk[1], chunk[2], chunk[3]];
                    assert(ip@ =~= chunk@);
                    Self::finish(&st, TargetAddr::SocketAddr(SocketAddress::V4 { ip, port: st.port }), Ghost(s))
                } else if st.addr_kind == 3 {
                    let mut ip = [0u8; 16];
                    let mut i: usize = 0;
                    while i < 16
                        invariant
                            i <= 16,
                            chunk@.len() == 16,
                            forall|t: int| 0 <= t < i ==> ip@[t] == chunk@[t],
                        decreases 16 - i,
                    {
                        ip[i] = chunk[i];
                        i = i + 1;
                    }
                    assert(ip@ =~= chunk@);
                    Self::finish(
                        &st,
                        TargetAddr::SocketAddr(SocketAddress::V6 { ip, port: st.port, flowinfo: 0, scope_id: 0 }),
                        Ghost(s),
                    )
                } else {
                    let len = chunk[0];
                    if len == 0 {
                        let empty: [u8; 0] = [];
                        let domain = string_from_utf8_lossy(empty.as_slice());
                        proof {
                            assert(s.subrange(p + 1, p + 1) =~= empty@);
                            assert(empty@ =~= Seq::<u8>::empty());
                        }
                        Self::finish(&st, TargetAddr::Domain(domain, st.port), Ghost(s))
                    } else {
                        AcceptStep::Read(AcceptState { stage: AcceptStage::DomainName, needed: len as usize, seen: Ghost(s), ..st })
                    }
                }
            },
            AcceptStage::DomainName => {
                let ghost p = 22 + st.addons_len;
                assert(s.subrange(1, 17) =~= st.seen@.subrange(1, 17));
                assert(s[18] == st.seen@[18]);
                assert(s.subrange(p + 1, s.len() as int) =~= chunk@);
                let domain = string_from_utf8_lossy(chunk);
                Self::finish(&st, TargetAddr::Domain(domain, st.port), Ghost(s))
            },
        }
    }

    /// After the add-ons: checks the command and the address kind, and asks
    /// for the address.
    fn after_addons(st: AcceptState) -> (r: AcceptStep)
        requires
            st.seen@.len() == 22 + st.addons_len,
            st.seen@.len() >= 22,
            st.seen@[0] == 0,
            st.id@ == st.seen@.subrange(1, 17),
            st.addons_len == st.seen@[17],
            st.command == st.seen@[18],
            st.port == be16(st.seen@[19], st.seen@[20]),
            st.addr_kind == st.seen@[21],
        ensures
            match accept_outcome(st.seen@) {
                AcceptOutcome::NeedMore(k) => r matches AcceptStep::Read(st2) && st2.wf() && st2.seen() == st.seen@
                    && k == st.seen@.len() + st2.needs(),
                AcceptOutcome::Failed(f) => r matches AcceptStep::Fail(e) && is_failure(e, f),
                AcceptOutcome::Accepted(_, _) => false,
            },
    {
        match VlessCommand::try_from(st.command) {
            Err(e) => AcceptStep::Fail(e),
            Ok(_) => {
                if st.addr_kind == 1 {
                    AcceptStep::Read(AcceptState { stage: AcceptStage::Address, needed: 4, ..st })
                } else if st.addr_kind == 2 {
                    AcceptStep::Read(AcceptState { stage: AcceptStage::Address, needed: 1, ..st })
                } else if st.addr_kind == 3 {
                    AcceptStep::Read(AcceptState { stage: AcceptStage::Address, needed: 16, ..st })
                } else {
                    AcceptStep::Fail(VlessError::InvalidAddrKind(st.addr_kind))
                }
            },
        }
    }

    /// The request, once the address is read.
    fn finish(st: &AcceptState, target: TargetAddr, Ghost(s): Ghost<Seq<u8>>) -> (r: AcceptStep)
        requires
            s.len() >= 22,
            st.id@ == s.subrange(1, 17),
            st.command == s[18],
            VlessCommand::from_byte_spec(st.command) is Some,
        ensures
            r matches AcceptStep::Done(q) && q@ == (RequestView {
                version: VlessVersion::Zero,
                id: s.subrange(1, 17),
                command: VlessCommand::from_byte_spec(s[18]).unwrap(),
                target: target@,
            }),
    {
        let command = match VlessCommand::try_from(st.command) {
            Ok(c) => c,
            Err(_) => VlessCommand::Tcp,
        };
        AcceptStep::Done(VlessRequest::new(VlessVersion::Zero, st.id, command, target))
    }

    /// The header a server answers a request with: version 0, no add-ons.
    pub fn response_header() -> (b: BytesMut)
        ensures
            buf_contents(b) == seq![0u8, 0u8],
    {
        let mut buf = buf_with_capacity(2);
        buf_put_u8(&mut buf, VlessVersion::Zero.to_byte());
        buf_put_u8(&mut buf, 0);
        assert(buf_contents(buf) =~= seq![0u8, 0u8]);
        buf
    }
}

/// A request as `encode_request` writes it can be read back: the address is
/// one the wire can carry (a domain of at most 255 UTF-8 bytes; an IPv6
/// address with flow info and scope id 0, since those do not travel).
pub open spec fn round_trips(r: RequestView) -> bool {
    match r.target {
        TargetView::Domain(d, _) => vstd::utf8::encode_utf8(d).len() <= 255,
        TargetView::V6(_, _, flowinfo, scope_id) => flowinfo == 0 && scope_id == 0,
        TargetView::V4(_, _) => true,
    }
}

/// A server reads back exactly the request a client wrote: the bytes
/// `encode_request` writes make `accept_outcome` accept that same request and
/// take exactly those bytes, whatever follows them.
#[verifier::spinoff_prover]
pub proof fn lemma_accept_reads_encoded(req: VlessRequest, rest: Seq<u8>)
    requires
        round_trips(req@),
    ensures
        accept_outcome(request_bytes(req@) + rest) == AcceptOutcome::Accepted(req@, request_bytes(req@).len()),
{
    let r = req@;
    let b = request_bytes(r);
    let s = b + rest;
    assert(r.id.len() == 16);
    let t = target_bytes(r.target);
    assert(b =~= seq![0u8] + r.id + seq![0u8, r.command.byte_of()] + t);
    assert(s[0] == 0u8);
    assert(s[17] == 0u8);
    assert(s[18] == r.command.byte_of());
    assert(s.subrange(1, 17) =~= r.id);
    let port = match r.target {
        TargetView::V4(_, p) => p,
        TargetView::V6(_, p, _, _) => p,
        TargetView::Domain(_, p) => p,
    };
    assert(s[19] == (port as nat / 256) as u8);
    assert(s[20] == (port as nat % 256) as u8);
    assert(be16(s[19], s[20]) as u16 == port);
    match r.target {
        TargetView::V4(ip, _) => {
            assert(ip.len() == 4);
            assert(s[21] == 1u8);
            assert(s.subrange(22, 26) =~= ip);
        },
        TargetView::V6(ip, _, _, _) => {
            assert(ip.len() == 16);
            assert(s[21] == 3u8);
            assert(s.subrange(22, 38) =~= ip);
        },
        TargetView::Domain(d, _) => {
            let e = vstd::utf8::encode_utf8(d);
            assert(s[21] == 2u8);
            assert(s[22] == e.len() as u8);
            assert(s[22] == e.len());
            assert(s.subrange(23, 23 + e.len() as int) =~= e);
            vstd::utf8::encode_utf8_valid_utf8(d);
            vstd::utf8::encode_utf8_decode_utf8(d);
            assert(lossy_text(e) == d);
        },
    }
}

/// A server never reads past a request: on every proper prefix of the bytes
/// that hold an accepted request it asks for more, and never for more than
/// the request takes; on exactly those bytes it accepts the same request.
#[verifier::spinoff_prover]
pub proof fn lemma_accept_reads_no_further(s: Seq<u8>, m: nat)
    requires
        accept_outcome(s) is Accepted,
        m <= accept_outcome(s)->Accepted_1,
    ensures
        ({
            let n = accept_outcome(s)->Accepted_1;
            &&& m < n ==> (accept_outcome(s.take(m as int)) matches AcceptOutcome::NeedMore(k) && m < k <= n)
            &&& accept_outcome(s.take(n as int)) == accept_outcome(s)
        }),
{
    let n = accept_outcome(s)->Accepted_1;
    let t = s.take(m as int);
    let u = s.take(n as int);
    let p = 22 + s[17];
    let kind = s[21];
    assert(s.len() >= 22 && s[0] == 0 && s.len() >= p);
    assert(n <= s.len());
    if m >= 22 {
        assert(t[0] == s[0] && t[17] == s[17] && t[18] == s[18] && t[19] == s[19] && t[20] == s[20]
            && t[21] == s[21]);
    }
    assert(u[0] == s[0] && u[17] == s[17] && u[18] == s[18] && u[19] == s[19] && u[20] == s[20] && u[21] == s[21]);
    assert(u.subrange(1, 17) =~= s.subrange(1, 17));
    if kind == 1 {
        assert(n == p + 4);
        assert(u.subrange(p, p + 4) =~= s.subrange(p, p + 4));
    } else if kind == 2 {
        assert(s.len() >= p + 1);
        let l = s[p];
        assert(n == p + 1 + l);
        assert(u[p] == l);
        if m >= p + 1 {
            assert(t[p] == l);
        }
        assert(u.subrange(p + 1, p + 1 + l) =~= s.subrange(p + 1, p + 1 + l));
    } else {
        assert(kind == 3);
        assert(n == p + 16);
        assert(u.subrange(p, p + 16) =~= s.subrange(p, p + 16));
    }
}

/// A server that reads a client's request step by step, each `advance` given
/// the bytes it asked for out of what the client wrote, asks for more while it
/// has read less than the request, never asks past its end, and once it has
/// read exactly the request it accepts the request the client wrote.
pub proof fn lemma_stepwise_accept_reads_encoded(req: VlessRequest, rest: Seq<u8>, m: nat)
    requires
        round_trips(req@),
        m <= request_bytes(req@).len(),
    ensures
        ({
            let s = request_bytes(req@) + rest;
            let n = request_bytes(req@).len();
            &&& m < n ==> (accept_outcome(s.take(m as int)) matches AcceptOutcome::NeedMore(k) && m < k <= n)
            &&& accept_outcome(s.take(n as int)) == AcceptOutcome::Accepted(req@, n)
        }),
{
    lemma_accept_reads_encoded(req, rest);
    lemma_accept_reads_no_further(request_bytes(req@) + rest, m);
}

/// How the client's wait for the server's answer header went.
#[derive(Debug, Clone, Copy, PartialEq, Eq, Structural)]
pub enum HandshakeProgress {
    /// The header is through; what followed it is buffered.
    Done,
    /// More bytes are needed.
    NeedMore,
    /// The stream ended before the header was through.
    Eof,
}

/// The client side of a VLESS stream: it drops the server's answer header
/// from what comes in and keeps what followed it.
pub struct VlessStreamState {
    buf: BytesMut,
    decoder: VlessResponseDecoder,
    is_handshake_done: bool,
}

impl VlessStreamState {
    /// Bytes that came in and are not handed on yet.
    pub closed spec fn buffered(&self) -> Seq<u8> {
        buf_contents(self.buf)
    }

    /// Whether the server's answer header is through.
    pub closed spec fn done(&self) -> bool {
        self.is_handshake_done
    }

    /// Nothing read yet; the answer header is still to come.
    pub fn new() -> (st: VlessStreamState)
        ensures
            st.buffered() == Seq::<u8>::empty(),
            !st.done(),
    {
        VlessStreamState { buf: buf_with_capacity(256), decoder: VlessResponseDecoder, is_handshake_done: false }
    }

    /// Whether the server's answer header is through.
    pub fn is_handshake_done(&self) -> (b: bool)
        ensures
            b == self.done(),
    {
        self.is_handshake_done
    }

    /// Takes in bytes read from the server while its answer header is not
    /// through. No bytes at all means the stream ended.
    pub fn on_inner_read(&mut self, data: &[u8]) -> (p: HandshakeProgress)
        requires
            !old(self).done(),
            old(self).buffered().len() + data@.len() <= isize::MAX,
        ensures
            data@.len() == 0 ==> p == HandshakeProgress::Eof && final(self).buffered() == old(self).buffered()
                && !final(self).done(),
            data@.len() > 0 ==> {
                let b = old(self).buffered() + data@;
                match response_header_len(b) {
                    None => p == HandshakeProgress::NeedMore && final(self).buffered() == b && !final(self).done(),
                    Some(n) => p == HandshakeProgress::Done && final(self).buffered() == b.skip(n as int)
                        && final(self).done(),
                }
            },
    {
        if data.len() == 0 {
            return HandshakeProgress::Eof;
        }
        buf_extend(&mut self.buf, data);
        match self.decoder.decode(&mut self.buf) {
            Some(_) => {
                self.is_handshake_done = true;
                HandshakeProgress::Done
            },
            None => HandshakeProgress::NeedMore,
        }
    }

    /// Whether bytes that came in wait to be handed on.
    pub fn has_buffered(&self) -> (b: bool)
        ensures
            b == (self.buffered().len() > 0),
    {
        buf_len(&self.buf) > 0
    }

    /// Hands on up to `room` buffered bytes.
    pub fn take_buffered(&mut self, room: usize) -> (v: Vec<u8>)
        ensures
            ({
                let k = if room < old(self).buffered().len() { room as int } else { old(self).buffered().len() as int };
                &&& v@ == old(self).buffered().take(k)
                &&& final(self).buffered() == old(self).buffered().skip(k)
            }),
            final(self).done() == old(self).done(),
    {
        let len = buf_len(&self.buf);
        let k = if room < len { room } else { len };
        let head = buf_split_to(&mut self.buf, k);
        buf_to_vec(&head)
    }
}

/// A client that gets the server's answer header and then data keeps exactly
/// that data once the header is through.
pub proof fn lemma_response_header_then_data(data: Seq<u8>)
    ensures
        response_header_len(seq![0u8, 0u8] + data) == Some(2nat),
        (seq![0u8, 0u8] + data).skip(2) == data,
{
    assert((seq![0u8, 0u8] + data)[1] == 0u8);
    assert((seq![0u8, 0u8] + data).skip(2) =~= data);
}

/// What a client stream makes of the chunks it reads while it waits for the
/// server's answer header, starting with `b` buffered, as `on_inner_read`
/// takes them in one by one: after how many chunks the header was through, if
/// it came through, and what is buffered then.
pub open spec fn handshake_run(b: Seq<u8>, chunks: Seq<Seq<u8>>) -> (Option<nat>, Seq<u8>)
    decreases chunks.len(),
{
    if chunks.len() == 0 {
        (None, b)
    } else {
        let b1 = b + chunks[0];
        match response_header_len(b1) {
            Some(n) => (Some(1nat), b1.skip(n as int)),
            None => {
                let r = handshake_run(b1, chunks.drop_first());
                (
                    match r.0 {
                        Some(j) => Some(j + 1),
                        None => None,
                    },
                    r.1,
                )
            },
        }
    }
}

/// Once the answer header is through in some bytes, more bytes after them do
/// not change where it ends.
proof fn lemma_response_header_len_prefix(a: Seq<u8>, t: Seq<u8>)
    ensures
        response_header_len(a) is Some ==> response_header_len(a + t) == response_header_len(a),
{
    if a.len() >= 2 {
        assert((a + t)[1] == a[1]);
    }
}

#[verifier::spinoff_prover]
proof fn lemma_handshake_run_from(b: Seq<u8>, chunks: Seq<Seq<u8>>)
    requires
        response_header_len(b) is None,
    ensures
        ({
            let all = b + chunks.flatten();
            let r = handshake_run(b, chunks);
            match response_header_len(all) {
                Some(n) => r.0 matches Some(j) && 1 <= j <= chunks.len() && r.1 + chunks.skip(j as int).flatten()
                    == all.skip(n as int),
                None => r.0 is None && r.1 == all,
            }
        }),
    decreases chunks.len(),
{
    if chunks.len() == 0 {
        assert(b + chunks.flatten() =~= b);
    } else {
        let c0 = chunks[0];
        let rest = chunks.drop_first();
        let b1 = b + c0;
        assert(b + chunks.flatten() =~= b1 + rest.flatten());
        lemma_response_header_len_prefix(b1, rest.flatten());
        match response_header_len(b1) {
            Some(n) => {
                assert(chunks.skip(1) =~= rest);
                assert(b1.skip(n as int) + rest.flatten() =~= (b1 + rest.flatten()).skip(n as int));
            },
            None => {
                lemma_handshake_run_from(b1, rest);
                let r = handshake_run(b1, rest);
                if let Some(j) = r.0 {
                    assert(chunks.skip(j + 1int) =~= rest.skip(j as int));
                }
            },
        }
    }
}

/// A client stream, whatever chunks the server's bytes come in, hands on
/// exactly the bytes after the server's answer header: once the header is
/// through, what it buffers followed by every later chunk (which it passes on
/// as they come) is the stream after the header. If the stream never holds a
/// whole header, the header is never through, and the end of the stream
/// (`on_inner_read` of no bytes) is answered with `Eof`.
pub proof fn lemma_client_stream_delivers_after_header(chunks: Seq<Seq<u8>>)
    requires
        forall|i: int| 0 <= i < chunks.len() ==> (#[trigger] chunks[i]).len() > 0,
    ensures
        ({
            let all = chunks.flatten();
            let r = handshake_run(Seq::empty(), chunks);
            match response_header_len(all) {
                Some(n) => r.0 matches Some(j) && 1 <= j <= chunks.len() && r.1 + chunks.skip(j as int).flatten()
                    == all.skip(n as int),
                None => r.0 is None && r.1 == all,
            }
        }),
{
    lemma_handshake_run_from(Seq::empty(), chunks);
    assert(Seq::<u8>::empty() + chunks.flatten() =~= chunks.flatten());
}

/// Where each part of a request sits in the bytes a client sends: the version
/// byte 0, the 16 id bytes, an add-ons length of 0, the command byte, the port
/// high byte first, the address kind, then the address itself: an IPv4 or
/// IPv6 address as its octets in order, a domain as its UTF-8 length cut to
/// 8 bits followed by its UTF-8 bytes; nothing follows.
pub proof fn lemma_request_layout(r: RequestView)
    requires
        r.id.len() == 16,
        r.target matches TargetView::V4(ip, _) ==> ip.len() == 4,
        r.target matches TargetView::V6(ip, _, _, _) ==> ip.len() == 16,
    ensures
        ({
            let b = request_bytes(r);
            &&& b.len() >= 22
            &&& b[0] == 0
            &&& b.subrange(1, 17) == r.id
            &&& b[17] == 0
            &&& VlessCommand::from_byte_spec(b[18]) == Some(r.command)
            &&& match r.target {
                TargetView::V4(ip, port) => {
                    &&& b[19] as nat * 256 + b[20] as nat == port as nat
                    &&& b[21] == 1
                    &&& b.len() == 26
                    &&& b.subrange(22, 26) == ip
                },
                TargetView::V6(ip, port, _, _) => {
                    &&& b[19] as nat * 256 + b[20] as nat == port as nat
                    &&& b[21] == 3
                    &&& b.len() == 38
                    &&& b.subrange(22, 38) == ip
                },
                TargetView::Domain(d, port) => {
                    let e = vstd::utf8::encode_utf8(d);
                    &&& b[19] as nat * 256 + b[20] as nat == port as nat
                    &&& b[21] == 2
                    &&& b[22] == e.len() as u8
                    &&& b.len() == 23 + e.len()
                    &&& b.subrange(23, 23 + e.len() as int) == e
                },
            }
        }),
{
    let b = request_bytes(r);
    assert(b =~= seq![0u8] + r.id + seq![0u8, r.command.byte_of()] + target_bytes(r.target));
    match r.command {
        VlessCommand::Tcp => {},
        VlessCommand::Udp => {},
        VlessCommand::Mux => {},
    }
    let port = match r.target {
        TargetView::V4(_, p) => p,
        TargetView::V6(_, p, _, _) => p,
        TargetView::Domain(_, p) => p,
    };
    assert(b[19] == (port as nat / 256) as u8);
    assert(b[20] == (port as nat % 256) as u8);
    match r.target {
        TargetView::V4(ip, _) => {
            assert(b.subrange(22, 26) =~= ip);
        },
        TargetView::V6(ip, _, _, _) => {
            assert(b.subrange(22, 38) =~= ip);
        },
        TargetView::Domain(d, _) => {
            let e = vstd::utf8::encode_utf8(d);
            assert(b.subrange(23, 23 + e.len() as int) =~= e);
        },
    }
}

/// How a server reads the bytes a client sent, wherever the add-ons end
/// (`p`, 22 plus the add-ons length): the id is bytes 1 to 16, the command is
/// byte 18, the port is bytes 19 and 20 high byte first, and the address
/// after `p` is taken as it stands: an IPv4 or IPv6 address as its octets in
/// order (IPv6 with flow info and scope id 0), a domain as the text of the
/// bytes its length byte counts. The request takes exactly up to the end of
/// the address.
pub proof fn lemma_accept_layout(s: Seq<u8>)
    requires
        accept_outcome(s) is Accepted,
    ensures
        ({
            let req = accept_outcome(s)->Accepted_0;
            let n = accept_outcome(s)->Accepted_1;
            let p = 22 + s[17];
            let port = (s[19] as nat * 256 + s[20] as nat) as u16;
            &&& s[0] == 0
            &&& req.version == VlessVersion::Zero
            &&& req.id == s.subrange(1, 17)
            &&& VlessCommand::from_byte_spec(s[18]) == Some(req.command)
            &&& (s[21] == 1 ==> n == p + 4 && req.target == TargetView::V4(s.subrange(p, p + 4), port))
            &&& (s[21] == 3 ==> n == p + 16 && req.target == TargetView::V6(s.subrange(p, p + 16), port, 0, 0))
            &&& (s[21] == 2 ==> n == p + 1 + s[p] && req.target == TargetView::Domain(
                lossy_text(s.subrange(p + 1, p + 1 + s[p])),
                port,
            ))
            &&& (s[21] == 1 || s[21] == 2 || s[21] == 3)
        }),
{
}

} // verus!
