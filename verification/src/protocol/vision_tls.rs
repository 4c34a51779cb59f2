//! The Vision framing layer.
//!
//! Inside a TLS session, each write is wrapped in a frame: a command byte, the
//! content length and the padding length (both big-endian `u16`), the content,
//! then that many zero bytes of padding. A client puts its 16-byte id in front
//! of its first frame. Once both sides see TLS application data go through,
//! they stop framing and copy bytes as they are ("direct copy").
use vstd::prelude::*;
use bytes::BytesMut;
use fastrand::Rng;
use crate::buffer::{be16, be16_bytes, buf_advance, buf_byte, buf_contents, buf_extend, buf_len, buf_put_bytes, buf_put_u16, buf_put_u8, buf_split_to, buf_to_vec, buf_clear, buf_with_capacity};
use crate::error::VisionError;

verus! {

#[verifier::external_type_specification]
#[verifier::external_body]
pub struct ExRng(fastrand::Rng);

/// `fastrand::Rng::new`: a generator seeded from the thread-local generator.
/// Its seed depends on chance, so nothing is stated of it.
#[verifier::external_body]
fn rng_new() -> Rng {
    Rng::new()
}

/// `fastrand::Rng::u16` over `lo..=hi`: a value of that range, chosen at random.
/// The crate panics on an empty range, which `requires` rules out.
#[verifier::external_body]
fn rng_u16(rng: &mut Rng, lo: u16, hi: u16) -> (v: u16)
    requires
        lo <= hi,
    ensures
        lo <= v <= hi,
{
    rng.u16(lo..=hi)
}

/// The longest prefix of a server's first frames that is kept to look for
/// the cipher suite of its ServerHello.
pub const MAX_TLS_SNIFFING_LEN: usize = 128;

/// The command byte of a frame header.
#[derive(Debug, Clone, Copy, PartialEq, Eq, Structural)]
pub enum VisionCommand {
    ContinuePadding,
    EndPadding,
    StartDirectCopy,
}

impl VisionCommand {
    /// The command that a byte encodes, if any.
    pub open spec fn from_byte_spec(v: u8) -> Option<VisionCommand> {
        if v == 0 {
            Some(VisionCommand::ContinuePadding)
        } else if v == 1 {
            Some(VisionCommand::EndPadding)
        } else if v == 2 {
            Some(VisionCommand::StartDirectCopy)
        } else {
            None
        }
    }

    /// The byte that encodes a command.
    pub open spec fn byte_of(self) -> u8 {
        match self {
            VisionCommand::ContinuePadding => 0,
            VisionCommand::EndPadding => 1,
            VisionCommand::StartDirectCopy => 2,
        }
    }

    /// Decodes a command byte; any byte but 0, 1 and 2 is refused.
    pub fn try_from(value: u8) -> (r: Result<VisionCommand, VisionError>)
        ensures
            match VisionCommand::from_byte_spec(value) {
                Some(c) => r == Ok::<VisionCommand, VisionError>(c),
                None => r == Err::<VisionCommand, VisionError>(VisionError::InvalidCommand(value)),
            },
    {
        match value {
            0 => Ok(VisionCommand::ContinuePadding),
            1 => Ok(VisionCommand::EndPadding),
            2 => Ok(VisionCommand::StartDirectCopy),
            v => Err(VisionError::InvalidCommand(v)),
        }
    }

    /// The byte that encodes this command.
    pub fn to_byte(&self) -> (b: u8)
        ensures
            b == self.byte_of(),
            VisionCommand::from_byte_spec(b) == Some(*self),
    {
        match self {
            VisionCommand::ContinuePadding => 0,
            VisionCommand::EndPadding => 1,
            VisionCommand::StartDirectCopy => 2,
        }
    }
}

/// Where the reader stands in the incoming frames.
#[derive(Debug, Clone, Copy, PartialEq, Eq, Structural)]
pub enum VisionReadingStage {
    /// A server waits for the client's id.
    Id,
    Header,
    Content,
    Padding,
}

/// A range of padding lengths, both ends included.
#[derive(Debug, Clone, Copy, PartialEq, Eq, Structural)]
pub struct LenRange {
    pub start: u16,
    pub end: u16,
}

/// How frames are padded: content longer than the threshold gets a padding
/// length drawn from `padding_len_range`; shorter content is padded up to
/// `long_padding_base_len` plus a length drawn from `long_padding_len_range`.
#[derive(Debug, Clone, Copy, PartialEq, Eq, Structural)]
pub struct PaddingSettings {
    pub padding_len_range: LenRange,
    pub long_padding_threshold: u16,
    pub long_padding_base_len: u16,
    pub long_padding_len_range: LenRange,
}

impl PaddingSettings {
    /// Settings a framer can draw padding lengths with: both ranges hold a
    /// value, and the base plus the longest draw fits a `u16`.
    pub open spec fn valid(self) -> bool {
        &&& self.padding_len_range.start <= self.padding_len_range.end
        &&& self.long_padding_len_range.start <= self.long_padding_len_range.end
        &&& self.long_padding_len_range.end + self.long_padding_base_len <= u16::MAX
    }

    /// The padding both ends use unless told otherwise: 0 to 256 bytes for
    /// content over 900 bytes; shorter content padded to 500 plus 0 to 500 bytes.
    pub fn standard() -> (p: PaddingSettings)
        ensures
            p == (PaddingSettings {
                padding_len_range: LenRange { start: 0, end: 256 },
                long_padding_threshold: 900,
                long_padding_base_len: 500,
                long_padding_len_range: LenRange { start: 0, end: 500 },
            }),
            p.valid(),
    {
        PaddingSettings {
            padding_len_range: LenRange { start: 0, end: 256 },
            long_padding_threshold: 900,
            long_padding_base_len: 500,
            long_padding_len_range: LenRange { start: 0, end: 500 },
        }
    }

    /// Whether a framer can draw padding lengths with these settings.
    pub fn is_valid(&self) -> (b: bool)
        ensures
            b == self.valid(),
    {
        self.padding_len_range.start <= self.padding_len_range.end
            && self.long_padding_len_range.start <= self.long_padding_len_range.end
            && self.long_padding_len_range.end as u32 + self.long_padding_base_len as u32 <= u16::MAX as u32
    }
}

/// The state of one side of a Vision session.
pub struct VisionState {
    pub ids: Vec<[u8; 16]>,
    pub rng: Rng,
    pub padding_len_range: LenRange,
    pub long_padding_threshold: u16,
    pub long_padding_base_len: u16,
    pub long_padding_len_range: LenRange,
    pub is_server: bool,
    pub has_sent_id: bool,
    pub is_safe_tls_ver: bool,
    pub has_seen_tls_app_data: bool,
    pub stage: VisionReadingStage,
    pub remaining_content_len: usize,
    pub remaining_padding_len: usize,
    pub command: VisionCommand,
    pub read_direct_copy: bool,
    pub write_direct_copy: bool,
    pub can_start_direct_copy: bool,
}

impl VisionState {
    /// A fresh state: nothing read or written yet, a server waits for an id.
    pub fn new(
        ids: Vec<[u8; 16]>,
        is_server: bool,
        padding_len_range: LenRange,
        long_padding_threshold: u16,
        long_padding_base_len: u16,
        long_padding_len_range: LenRange,
    ) -> (s: VisionState)
        ensures
            s.ids@ == ids@,
            s.padding_len_range == padding_len_range,
            s.long_padding_threshold == long_padding_threshold,
            s.long_padding_base_len == long_padding_base_len,
            s.long_padding_len_range == long_padding_len_range,
            s.is_server == is_server,
            !s.has_sent_id,
            !s.is_safe_tls_ver,
            !s.has_seen_tls_app_data,
            s.stage == VisionReadingStage::Id,
            s.remaining_content_len == 0,
            s.remaining_padding_len == 0,
            s.command == VisionCommand::ContinuePadding,
            !s.read_direct_copy,
            !s.write_direct_copy,
            !s.can_start_direct_copy,
    {
        VisionState {
            ids,
            rng: rng_new(),
            padding_len_range,
            long_padding_threshold,
            long_padding_base_len,
            long_padding_len_range,
            is_server,
            has_sent_id: false,
            is_safe_tls_ver: false,
            has_seen_tls_app_data: false,
            stage: VisionReadingStage::Id,
            remaining_content_len: 0,
            remaining_padding_len: 0,
            command: VisionCommand::ContinuePadding,
            read_direct_copy: false,
            write_direct_copy: false,
            can_start_direct_copy: false,
        }
    }
}

/// The ids, each as a sequence of bytes.
pub open spec fn ids_seq(ids: Seq<[u8; 16]>) -> Seq<Seq<u8>> {
    Seq::new(ids.len(), |j: int| ids[j]@)
}

/// The reading half of the state, as the frame reader sees it.
pub struct ReadModel {
    pub direct: bool,
    pub stage: VisionReadingStage,
    pub content: nat,
    pub padding: nat,
    pub command: VisionCommand,
    pub buf: Seq<u8>,
}

/// One move of the frame reader.
pub enum ReadStep {
    /// The reader moved on, gave out these bytes and goes on.
    Continue(ReadModel, Seq<u8>),
    /// The reader moved on, gave out these bytes and stops for now.
    Halt(ReadModel, Seq<u8>),
    /// A frame header is malformed.
    Fail(VisionError),
}

/// One move of the frame reader, with room for `room` more bytes of output.
pub open spec fn read_step(is_server: bool, ids: Seq<Seq<u8>>, m: ReadModel, room: nat) -> ReadStep {
    if m.buf.len() == 0 {
        ReadStep::Halt(m, Seq::empty())
    } else if m.direct {
        let k = if m.buf.len() < room { m.buf.len() } else { room };
        if k == 0 {
            ReadStep::Halt(m, Seq::empty())
        } else {
            ReadStep::Continue(ReadModel { buf: m.buf.skip(k as int), ..m }, m.buf.take(k as int))
        }
    } else {
        match m.stage {
            VisionReadingStage::Id => {
                if is_server {
                    if m.buf.len() < 16 {
                        ReadStep::Halt(m, Seq::empty())
                    } else if !ids.contains(m.buf.take(16)) {
                        ReadStep::Continue(ReadModel { direct: true, ..m }, Seq::empty())
                    } else {
                        ReadStep::Continue(
                            ReadModel { stage: VisionReadingStage::Header, buf: m.buf.skip(16), ..m },
                            Seq::empty(),
                        )
                    }
                } else {
                    ReadStep::Continue(ReadModel { stage: VisionReadingStage::Header, ..m }, Seq::empty())
                }
            },
            VisionReadingStage::Header => {
                if m.buf.len() < 5 {
                    ReadStep::Halt(m, Seq::empty())
                } else {
                    match VisionCommand::from_byte_spec(m.buf[0]) {
                        None => ReadStep::Fail(VisionError::InvalidCommand(m.buf[0])),
                        Some(c) => ReadStep::Continue(
                            ReadModel {
                                direct: m.direct,
                                stage: VisionReadingStage::Content,
                                content: be16(m.buf[1], m.buf[2]),
                                padding: be16(m.buf[3], m.buf[4]),
                                command: c,
                                buf: m.buf.skip(5),
                            },
                            Seq::empty(),
                        ),
                    }
                }
            },
            VisionReadingStage::Content => {
                if m.content == 0 {
                    ReadStep::Continue(ReadModel { stage: VisionReadingStage::Padding, ..m }, Seq::empty())
                } else {
                    let k1 = if m.buf.len() < m.content { m.buf.len() } else { m.content };
                    let k = if k1 < room { k1 } else { room };
                    let m1 = ReadModel { buf: m.buf.skip(k as int), content: (m.content - k) as nat, ..m };
                    if room == k && m.content > k {
                        ReadStep::Halt(m1, m.buf.take(k as int))
                    } else if m.content == k {
                        ReadStep::Continue(ReadModel { stage: VisionReadingStage::Padding, ..m1 }, m.buf.take(k as int))
                    } else {
                        ReadStep::Continue(m1, m.buf.take(k as int))
                    }
                }
            },
            VisionReadingStage::Padding => {
                let k = if m.buf.len() < m.padding { m.buf.len() } else { m.padding };
                let m1 = ReadModel { buf: m.buf.skip(k as int), padding: (m.padding - k) as nat, ..m };
                if m.padding == k {
                    match m.command {
                        VisionCommand::ContinuePadding => ReadStep::Continue(
                            ReadModel { stage: VisionReadingStage::Header, ..m1 },
                            Seq::empty(),
                        ),
                        _ => ReadStep::Continue(
                            ReadModel { direct: true, stage: VisionReadingStage::Header, ..m1 },
                            Seq::empty(),
                        ),
                    }
                } else {
                    ReadStep::Halt(m1, Seq::empty())
                }
            },
        }
    }
}

/// A rank that each move without input consumed lowers.
pub open spec fn read_rank(m: ReadModel) -> nat {
    if m.direct {
        0
    } else {
        match m.stage {
            VisionReadingStage::Header => 1,
            VisionReadingStage::Padding => 2,
            VisionReadingStage::Content => 3,
            VisionReadingStage::Id => 4,
        }
    }
}

/// Each move that goes on consumes input or lowers the rank, and gives out no
/// more than the room.
pub proof fn lemma_read_step_progress(is_server: bool, ids: Seq<Seq<u8>>, m: ReadModel, room: nat)
    ensures
        match read_step(is_server, ids, m, room) {
            ReadStep::Continue(m1, out) => {
                &&& out.len() <= room
                &&& (m1.buf.len() < m.buf.len() || (m1.buf.len() == m.buf.len() && read_rank(m1) < read_rank(m)))
            },
            ReadStep::Halt(_, out) => out.len() <= room,
            ReadStep::Fail(_) => true,
        },
{
}

/// The frame reader run until it stops: the state it ends in, what it gave
/// out, and the error it met, if any.
pub open spec fn unframe(is_server: bool, ids: Seq<Seq<u8>>, m: ReadModel, room: nat) -> (
    ReadModel,
    Seq<u8>,
    Option<VisionError>,
)
    decreases m.buf.len(), read_rank(m),
{
    match read_step(is_server, ids, m, room) {
        ReadStep::Continue(m1, out) => {
            proof {
                lemma_read_step_progress(is_server, ids, m, room);
            }
            let rest = unframe(is_server, ids, m1, (room - out.len()) as nat);
            (rest.0, out + rest.1, rest.2)
        },
        ReadStep::Halt(m1, out) => (m1, out, None),
        ReadStep::Fail(e) => (m, Seq::empty(), Some(e)),
    }
}

/// What one call of the reader does: nothing without room, else it runs.
pub open spec fn unframe_call(is_server: bool, ids: Seq<Seq<u8>>, m: ReadModel, room: nat) -> (
    ReadModel,
    Seq<u8>,
    Option<VisionError>,
) {
    if room == 0 {
        (m, Seq::empty(), None)
    } else {
        unframe(is_server, ids, m, room)
    }
}

/// The writing half of the state, as the framer sees it.
pub struct WriteModel {
    pub direct: bool,
    pub has_sent_id: bool,
    pub can_start_direct_copy: bool,
    pub has_seen_tls_app_data: bool,
    pub is_safe_tls_ver: bool,
    pub hello: Seq<u8>,
    pub out: Seq<u8>,
}

/// One frame: the command byte, the content length, the padding length, the
/// content and the padding (zero bytes).
pub open spec fn frame_bytes(command: VisionCommand, content: Seq<u8>, padding: nat) -> Seq<u8> {
    seq![command.byte_of()] + be16_bytes(content.len()) + be16_bytes(padding) + content
        + Seq::new(padding, |_i: int| 0u8)
}

/// Whether `data` starts with the given three bytes.
pub open spec fn starts_with3(data: Seq<u8>, a: u8, b: u8, c: u8) -> bool {
    data.len() >= 3 && data[0] == a && data[1] == b && data[2] == c
}

/// Whether `data` begins a TLS application data record (`17 03 03`).
pub open spec fn is_tls_app_data(data: Seq<u8>) -> bool {
    starts_with3(data, 0x17, 0x03, 0x03)
}

/// Sniffing the TLS handshake that goes out: the kept prefix of a
/// ServerHello, whether direct copy may start, and whether the handshake is
/// one this layer knows.
pub open spec fn sniff(hello: Seq<u8>, can_start: bool, safe: bool, data: Seq<u8>) -> (Seq<u8>, bool, bool) {
    if hello.len() == 0 {
        if data.len() >= 6 && starts_with3(data, 0x16, 0x03, 0x01) {
            (data, if data[5] == 0x01 { true } else { can_start }, true)
        } else {
            (hello, can_start, safe)
        }
    } else {
        let h1 = if hello.len() < MAX_TLS_SNIFFING_LEN {
            let room = (MAX_TLS_SNIFFING_LEN - hello.len()) as nat;
            let c = if room < data.len() { room } else { data.len() };
            hello + data.take(c as int)
        } else {
            hello
        };
        if h1.len() >= 44 && h1.len() >= 47 + h1[43] {
            let idx = 44 + h1[43];
            (Seq::empty(), be16(h1[idx], h1[idx + 1]) != 0x1305, safe)
        } else {
            (h1, can_start, safe)
        }
    }
}

/// The padding length of a frame: short content is padded up to about
/// `base + draw` bytes, longer content gets `draw` bytes.
pub open spec fn padding_len(threshold: u16, base: u16, content_len: nat, draw: u16) -> nat {
    if content_len <= threshold {
        if draw + base >= content_len { (draw + base - content_len) as nat } else { 0 }
    } else {
        draw as nat
    }
}

/// Whether a padding length can be drawn for content of this length: the
/// range it is drawn from holds a value, and for short content the base plus
/// the longest draw fits a `u16`.
pub open spec fn padding_ok(s: VisionState, content_len: nat) -> bool {
    if content_len <= s.long_padding_threshold {
        &&& s.long_padding_len_range.start <= s.long_padding_len_range.end
        &&& s.long_padding_len_range.end + s.long_padding_base_len <= u16::MAX
    } else {
        s.padding_len_range.start <= s.padding_len_range.end
    }
}

/// Whether `draw` is a value the framer may draw for content of this length.
pub open spec fn draw_ok(s: VisionState, content_len: nat, draw: u16) -> bool {
    if content_len <= s.long_padding_threshold {
        s.long_padding_len_range.start <= draw <= s.long_padding_len_range.end
    } else {
        s.padding_len_range.start <= draw <= s.padding_len_range.end
    }
}

/// What framing `data` does to the writing half of the state, given the
/// padding value drawn.
pub open spec fn frame(
    is_server: bool,
    first_id: Seq<u8>,
    threshold: u16,
    base: u16,
    w: WriteModel,
    data: Seq<u8>,
    draw: u16,
) -> WriteModel {
    if w.direct {
        WriteModel { out: w.out + data, ..w }
    } else {
        let sends_id = !is_server && !w.has_sent_id;
        let prefix = if sends_id { first_id } else { Seq::empty() };
        let app = w.can_start_direct_copy && is_tls_app_data(data);
        let command = if app { VisionCommand::StartDirectCopy } else { VisionCommand::ContinuePadding };
        let sniffed = sniff(w.hello, w.can_start_direct_copy, w.is_safe_tls_ver, data);
        let padding = padding_len(threshold, base, data.len(), draw);
        WriteModel {
            direct: app,
            has_sent_id: w.has_sent_id || sends_id,
            can_start_direct_copy: sniffed.1,
            has_seen_tls_app_data: w.has_seen_tls_app_data || app,
            is_safe_tls_ver: sniffed.2,
            hello: sniffed.0,
            out: w.out + prefix + frame_bytes(command, data, padding),
        }
    }
}

/// What one move of the frame reader did.
pub enum ReadOnce {
    Go(Vec<u8>),
    Stop(Vec<u8>),
    Failed(VisionError),
}

/// Sniffing with nothing kept yet: keeps a TLS handshake record that starts here.
fn sniff_hello_start(hello: &mut BytesMut, can_start: bool, safe: bool, buf: &[u8]) -> (r: (bool, bool))
    requires
        buf_contents(*old(hello)).len() == 0,
        buf@.len() <= u16::MAX,
    ensures
        (buf_contents(*final(hello)), r.0, r.1) == sniff(buf_contents(*old(hello)), can_start, safe, buf@),
        buf_contents(*final(hello)).len() <= u16::MAX,
{
    if buf.len() >= 6 && buf[0] == 0x16 && buf[1] == 0x03 && buf[2] == 0x01 {
        buf_extend(hello, buf);
        proof {
            assert(buf_contents(*hello) =~= buf@);
        }
        if buf[5] == 0x01 {
            (true, true)
        } else {
            (can_start, true)
        }
    } else {
        (can_start, safe)
    }
}

/// Sniffing with a prefix kept: adds to it up to the limit and reads the
/// cipher suite once the whole ServerHello head is there.
fn sniff_hello_more(hello: &mut BytesMut, can_start: bool, safe: bool, buf: &[u8]) -> (r: (bool, bool))
    requires
        0 < buf_contents(*old(hello)).len() <= u16::MAX,
        buf@.len() <= u16::MAX,
    ensures
        (buf_contents(*final(hello)), r.0, r.1) == sniff(buf_contents(*old(hello)), can_start, safe, buf@),
        buf_contents(*final(hello)).len() <= u16::MAX,
{
    let hello_len = buf_len(hello);
    if hello_len < MAX_TLS_SNIFFING_LEN {
        let room = MAX_TLS_SNIFFING_LEN - hello_len;
        let c = if room < buf.len() { room } else { buf.len() };
        let part = vstd::slice::slice_subrange(buf, 0, c);
        buf_extend(hello, part);
        proof {
            assert(part@ =~= buf@.take(c as int));
        }
    }
    let hl = buf_len(hello);
    if hl >= 44 {
        let sid = buf_byte(hello, 43) as usize;
        if hl >= 47 + sid {
            let idx = 44 + sid;
            let hi = buf_byte(hello, idx);
            let lo = buf_byte(hello, idx + 1);
            let allowed = (hi as u16) * 256 + (lo as u16) != 0x1305;
            buf_clear(hello);
            return (allowed, safe);
        }
    }
    (can_start, safe)
}

/// One side of a Vision session together with its buffers.
pub struct VisionFramer {
    pub state: VisionState,
    /// Framed bytes that came in and are not read yet.
    pub read_buf: BytesMut,
    /// Framed bytes that wait to go out.
    pub write_buf: BytesMut,
    /// The start of the peer's first TLS handshake frames, kept for sniffing.
    pub server_hello_buf: BytesMut,
}

impl VisionFramer {
    /// The invariant every method keeps: the kept handshake prefix is no
    /// longer than one frame's content.
    pub open spec fn wf(&self) -> bool {
        buf_contents(self.server_hello_buf).len() <= u16::MAX
    }

    /// The ids this side knows, as byte sequences.
    pub open spec fn ids_view(&self) -> Seq<Seq<u8>> {
        ids_seq(self.state.ids@)
    }

    /// Whether content of this length can be framed: in direct copy always;
    /// else a client that still has to put its id in front has one, and a
    /// padding length can be drawn (`padding_ok`).
    pub open spec fn frame_ready(&self, content_len: nat) -> bool {
        ||| self.state.write_direct_copy
        ||| {
            &&& (self.state.is_server || self.state.has_sent_id || self.state.ids@.len() >= 1)
            &&& padding_ok(self.state, content_len)
        }
    }

    /// Whether one write of `len` bytes can be framed: `frame_ready` of the
    /// part that one frame holds (at most `u16::MAX` bytes).
    pub fn can_frame(&self, len: usize) -> (b: bool)
        ensures
            b == self.frame_ready(if len < u16::MAX { len as nat } else { u16::MAX as nat }),
    {
        let n: u16 = if len < u16::MAX as usize { len as u16 } else { u16::MAX };
        if self.state.write_direct_copy {
            return true;
        }
        let id_ok = self.state.is_server || self.state.has_sent_id || self.state.ids.len() >= 1;
        let pad_ok = if n <= self.state.long_padding_threshold {
            self.state.long_padding_len_range.start <= self.state.long_padding_len_range.end
                && self.state.long_padding_len_range.end as u32 + self.state.long_padding_base_len as u32
                <= u16::MAX as u32
        } else {
            self.state.padding_len_range.start <= self.state.padding_len_range.end
        };
        id_ok && pad_ok
    }

    /// The reading half of the state.
    pub open spec fn read_model(&self) -> ReadModel {
        ReadModel {
            direct: self.state.read_direct_copy,
            stage: self.state.stage,
            content: self.state.remaining_content_len as nat,
            padding: self.state.remaining_padding_len as nat,
            command: self.state.command,
            buf: buf_contents(self.read_buf),
        }
    }

    /// The parts of the state that reading leaves alone.
    pub open spec fn same_but_reading(&self, other: &VisionFramer) -> bool {
        &&& self.state.ids@ == other.state.ids@
        &&& self.state.padding_len_range == other.state.padding_len_range
        &&& self.state.long_padding_threshold == other.state.long_padding_threshold
        &&& self.state.long_padding_base_len == other.state.long_padding_base_len
        &&& self.state.long_padding_len_range == other.state.long_padding_len_range
        &&& self.state.is_server == other.state.is_server
        &&& self.state.has_sent_id == other.state.has_sent_id
        &&& self.state.is_safe_tls_ver == other.state.is_safe_tls_ver
        &&& self.state.has_seen_tls_app_data == other.state.has_seen_tls_app_data
        &&& self.state.write_direct_copy == other.state.write_direct_copy
        &&& self.state.can_start_direct_copy == other.state.can_start_direct_copy
        &&& buf_contents(self.write_buf) == buf_contents(other.write_buf)
        &&& buf_contents(self.server_hello_buf) == buf_contents(other.server_hello_buf)
    }

    /// A fresh session side with empty buffers.
    pub fn new(
        ids: Vec<[u8; 16]>,
        is_server: bool,
        padding_len_range: LenRange,
        long_padding_threshold: u16,
        long_padding_base_len: u16,
        long_padding_len_range: LenRange,
    ) -> (f: VisionFramer)
        ensures
            f.wf(),
            f.state.ids@ == ids@,
            f.state.padding_len_range == padding_len_range,
            f.state.long_padding_threshold == long_padding_threshold,
            f.state.long_padding_base_len == long_padding_base_len,
            f.state.long_padding_len_range == long_padding_len_range,
            f.state.is_server == is_server,
            f.read_model() == (ReadModel {
                direct: false,
                stage: VisionReadingStage::Id,
                content: 0,
                padding: 0,
                command: VisionCommand::ContinuePadding,
                buf: Seq::empty(),
            }),
            f.write_model() == (WriteModel {
                direct: false,
                has_sent_id: false,
                can_start_direct_copy: false,
                has_seen_tls_app_data: false,
                is_safe_tls_ver: false,
                hello: Seq::empty(),
                out: Seq::empty(),
            }),
    {
        VisionFramer {
            state: VisionState::new(
                ids,
                is_server,
                padding_len_range,
                long_padding_threshold,
                long_padding_base_len,
                long_padding_len_range,
            ),
            read_buf: buf_with_capacity(8192),
            write_buf: buf_with_capacity(8192),
            server_hello_buf: buf_with_capacity(MAX_TLS_SNIFFING_LEN),
        }
    }

    /// Adds bytes that came in (plaintext out of TLS) to `read_buf`.
    pub fn push_read(&mut self, data: &[u8])
        requires
            old(self).wf(),
            buf_contents(old(self).read_buf).len() + data@.len() <= isize::MAX,
        ensures
            final(self).wf(),
            final(self).same_but_reading(old(self)),
            final(self).read_model() == (ReadModel { buf: old(self).read_model().buf + data@, ..old(self).read_model() }),
    {
        buf_extend(&mut self.read_buf, data);
    }

    /// Whether framed bytes wait to go out.
    pub fn has_pending_write(&self) -> (b: bool)
        ensures
            b == (buf_contents(self.write_buf).len() > 0),
    {
        buf_len(&self.write_buf) > 0
    }

    /// The framed bytes that wait to go out.
    pub fn pending_write(&self) -> (v: Vec<u8>)
        ensures
            v@ == buf_contents(self.write_buf),
    {
        buf_to_vec(&self.write_buf)
    }

    /// Drops the first `n` framed bytes, which went out.
    pub fn consume_written(&mut self, n: usize)
        requires
            old(self).wf(),
            n <= buf_contents(old(self).write_buf).len(),
        ensures
            final(self).wf(),
            final(self).same_but_writing(old(self)),
            final(self).write_model() == (WriteModel { out: old(self).write_model().out.skip(n as int), ..old(self).write_model() }),
    {
        buf_advance(&mut self.write_buf, n);
    }

    /// The writing half of the state.
    pub open spec fn write_model(&self) -> WriteModel {
        WriteModel {
            direct: self.state.write_direct_copy,
            has_sent_id: self.state.has_sent_id,
            can_start_direct_copy: self.state.can_start_direct_copy,
            has_seen_tls_app_data: self.state.has_seen_tls_app_data,
            is_safe_tls_ver: self.state.is_safe_tls_ver,
            hello: buf_contents(self.server_hello_buf),
            out: buf_contents(self.write_buf),
        }
    }

    /// The id a client puts in front of its first frame.
    pub open spec fn first_id(&self) -> Seq<u8> {
        self.state.ids@[0]@
    }

    /// What framing `data` with the padding value `draw` makes of the writing half.
    pub open spec fn framed(&self, data: Seq<u8>, draw: u16) -> WriteModel {
        frame(
            self.state.is_server,
            self.first_id(),
            self.state.long_padding_threshold,
            self.state.long_padding_base_len,
            self.write_model(),
            data,
            draw,
        )
    }

    /// The parts of the state that writing leaves alone.
    pub open spec fn same_but_writing(&self, other: &VisionFramer) -> bool {
        &&& self.state.ids@ == other.state.ids@
        &&& self.state.padding_len_range == other.state.padding_len_range
        &&& self.state.long_padding_threshold == other.state.long_padding_threshold
        &&& self.state.long_padding_base_len == other.state.long_padding_base_len
        &&& self.state.long_padding_len_range == other.state.long_padding_len_range
        &&& self.state.is_server == other.state.is_server
        &&& self.read_model() == other.read_model()
    }

    /// Frames as much of `buf` as one frame holds (at most `u16::MAX` bytes)
    /// and says how much that was.
    pub fn frame_write(&mut self, buf: &[u8]) -> (n: usize)
        requires
            old(self).wf(),
            old(self).frame_ready(if buf@.len() < u16::MAX { buf@.len() } else { u16::MAX as nat }),
            buf_contents(old(self).write_buf).len() + 2 * u16::MAX + 21 <= isize::MAX,
        ensures
            n == if buf@.len() < u16::MAX { buf@.len() } else { u16::MAX as nat },
            final(self).wf(),
            final(self).same_but_writing(old(self)),
            exists|draw: u16|
                #![trigger old(self).framed(buf@.take(n as int), draw)]
                (old(self).state.write_direct_copy || draw_ok(old(self).state, n as nat, draw))
                    && final(self).write_model() == old(self).framed(
                    buf@.take(n as int),
                    draw,
                ),
    {
        let n = if buf.len() < u16::MAX as usize { buf.len() } else { u16::MAX as usize };
        let part = vstd::slice::slice_subrange(buf, 0, n);
        assert(part@ =~= buf@.take(n as int));
        self.frame_buf(part);
        n
    }

    /// Frames `buf` into `write_buf`, with a padding length drawn at random.
    pub fn frame_buf(&mut self, buf: &[u8])
        requires
            old(self).wf(),
            old(self).frame_ready(buf@.len()),
            buf@.len() <= u16::MAX,
            buf_contents(old(self).write_buf).len() + buf@.len() + 16 + 5 + u16::MAX <= isize::MAX,
        ensures
            final(self).wf(),
            final(self).same_but_writing(old(self)),
            exists|draw: u16|
                #![trigger old(self).framed(buf@, draw)]
                (old(self).state.write_direct_copy || draw_ok(old(self).state, buf@.len(), draw))
                    && final(self).write_model() == old(self).framed(buf@, draw),
    {
        if self.state.write_direct_copy {
            buf_extend(&mut self.write_buf, buf);
            proof {
                assert(self.write_model() == old(self).framed(buf@, 0));
            }
            return;
        }
        let draw = if buf.len() <= self.state.long_padding_threshold as usize {
            rng_u16(&mut self.state.rng, self.state.long_padding_len_range.start, self.state.long_padding_len_range.end)
        } else {
            rng_u16(&mut self.state.rng, self.state.padding_len_range.start, self.state.padding_len_range.end)
        };
        self.frame_buf_drawn(buf, draw);
        assert(draw_ok(old(self).state, buf@.len(), draw) && self.write_model() == old(self).framed(buf@, draw));
    }

    /// Frames `buf` into `write_buf` with the padding value `draw`.
    pub fn frame_buf_drawn(&mut self, buf: &[u8], draw: u16)
        requires
            old(self).wf(),
            old(self).frame_ready(buf@.len()),
            buf@.len() <= u16::MAX,
            buf_contents(old(self).write_buf).len() + buf@.len() + 16 + 5 + u16::MAX <= isize::MAX,
            old(self).state.write_direct_copy || draw_ok(old(self).state, buf@.len(), draw),
        ensures
            final(self).wf(),
            final(self).same_but_writing(old(self)),
            final(self).write_model() == old(self).framed(buf@, draw),
    {
        if self.state.write_direct_copy {
            buf_extend(&mut self.write_buf, buf);
            return;
        }
        let ghost s0 = *self;
        self.put_id_prefix();
        let ghost s1 = *self;
        let mut command = VisionCommand::ContinuePadding;
        if self.state.can_start_direct_copy && buf.len() >= 3 && buf[0] == 0x17 && buf[1] == 0x03 && buf[2] == 0x03 {
            self.state.has_seen_tls_app_data = true;
            self.state.write_direct_copy = true;
            command = VisionCommand::StartDirectCopy;
        }
        let ghost s2 = *self;
        self.sniff_handshake(buf);
        let ghost s3 = *self;
        let content_len = buf.len() as u16;
        let pad: u16 = if buf.len() <= self.state.long_padding_threshold as usize {
            (draw + self.state.long_padding_base_len).saturating_sub(content_len)
        } else {
            draw
        };
        self.put_frame(command, buf, pad);
        proof {
            let f = s0.framed(buf@, draw);
            assert(pad as nat == padding_len(s0.state.long_padding_threshold, s0.state.long_padding_base_len, buf@.len(), draw));
            assert(buf_contents(self.write_buf) =~= f.out);
            assert(self.write_model() == f);
        }
    }

    /// A client that has not sent its id yet puts it into `write_buf`.
    fn put_id_prefix(&mut self)
        requires
            old(self).wf(),
            old(self).state.is_server || old(self).state.has_sent_id || old(self).state.ids@.len() >= 1,
            buf_contents(old(self).write_buf).len() + 16 <= isize::MAX,
        ensures
            final(self).wf(),
            ({
                let sends = !old(self).state.is_server && !old(self).state.has_sent_id;
                &&& final(self).state == (VisionState { has_sent_id: old(self).state.has_sent_id || sends, ..old(self).state })
                &&& buf_contents(final(self).write_buf) == buf_contents(old(self).write_buf) + (if sends { old(self).first_id() } else { Seq::empty() })
            }),
            buf_contents(final(self).read_buf) == buf_contents(old(self).read_buf),
            buf_contents(final(self).server_hello_buf) == buf_contents(old(self).server_hello_buf),
    {
        if !self.state.is_server && !self.state.has_sent_id {
            let id: &[u8; 16] = &self.state.ids[0];
            buf_extend(&mut self.write_buf, id.as_slice());
            self.state.has_sent_id = true;
        } else {
            assert(buf_contents(self.write_buf) + Seq::<u8>::empty() =~= buf_contents(self.write_buf));
        }
    }

    /// Puts one frame into `write_buf`.
    fn put_frame(&mut self, command: VisionCommand, buf: &[u8], padding_len: u16)
        requires
            buf@.len() <= u16::MAX,
            buf_contents(old(self).write_buf).len() + buf@.len() + 5 + u16::MAX <= isize::MAX,
        ensures
            final(self).state == old(self).state,
            buf_contents(final(self).write_buf) == buf_contents(old(self).write_buf) + frame_bytes(command, buf@, padding_len as nat),
            buf_contents(final(self).read_buf) == buf_contents(old(self).read_buf),
            buf_contents(final(self).server_hello_buf) == buf_contents(old(self).server_hello_buf),
    {
        let ghost w0 = buf_contents(self.write_buf);
        let command_byte = command.to_byte();
        buf_put_u8(&mut self.write_buf, command_byte);
        buf_put_u16(&mut self.write_buf, buf.len() as u16);
        buf_put_u16(&mut self.write_buf, padding_len);
        buf_extend(&mut self.write_buf, buf);
        if padding_len > 0 {
            buf_put_bytes(&mut self.write_buf, 0, padding_len as usize);
        }
        proof {
            let z: Seq<u8> = Seq::new(padding_len as nat, |_i: int| 0u8);
            if padding_len == 0 {
                assert(z =~= Seq::<u8>::empty());
            }
            assert(buf_contents(self.write_buf) =~= w0 + frame_bytes(command, buf@, padding_len as nat));
        }
    }

    /// Watches outgoing TLS handshake records: a ClientHello allows direct
    /// copy; a ServerHello's cipher suite decides whether it stays allowed.
    fn sniff_handshake(&mut self, buf: &[u8])
        requires
            old(self).wf(),
            buf@.len() <= u16::MAX,
        ensures
            final(self).wf(),
            final(self).state == (VisionState {
                can_start_direct_copy: final(self).state.can_start_direct_copy,
                is_safe_tls_ver: final(self).state.is_safe_tls_ver,
                ..old(self).state
            }),
            buf_contents(final(self).write_buf) == buf_contents(old(self).write_buf),
            buf_contents(final(self).read_buf) == buf_contents(old(self).read_buf),
            (buf_contents(final(self).server_hello_buf), final(self).state.can_start_direct_copy, final(self).state.is_safe_tls_ver)
                == sniff(buf_contents(old(self).server_hello_buf), old(self).state.can_start_direct_copy, old(self).state.is_safe_tls_ver, buf@),
    {
        let (can_start, safe) = if buf_len(&self.server_hello_buf) == 0 {
            sniff_hello_start(&mut self.server_hello_buf, self.state.can_start_direct_copy, self.state.is_safe_tls_ver, buf)
        } else {
            sniff_hello_more(&mut self.server_hello_buf, self.state.can_start_direct_copy, self.state.is_safe_tls_ver, buf)
        };
        self.state.can_start_direct_copy = can_start;
        self.state.is_safe_tls_ver = safe;
    }

    /// Takes frames out of `read_buf` and gives out up to `room` bytes of their
    /// content (or, in direct copy, of the bytes as they are), with the error of
    /// a malformed header if it met one; the bytes it gave out before that
    /// error are given out all the same.
    pub fn unframe_read_buf(&mut self, room: usize) -> (r: (Vec<u8>, Option<VisionError>))
        requires
            old(self).wf(),
        ensures
            final(self).wf(),
            final(self).same_but_reading(old(self)),
            ({
                let res = unframe_call(old(self).state.is_server, old(self).ids_view(), old(self).read_model(), room as nat);
                &&& final(self).read_model() == res.0
                &&& r.0@ == res.1
                &&& r.1 == res.2
            }),
    {
        if room == 0 {
            return (Vec::new(), None);
        }
        let ghost is_server = self.state.is_server;
        let ghost ids = self.ids_view();
        let ghost total = unframe(is_server, ids, self.read_model(), room as nat);
        let ghost start = *self;
        let mut out: Vec<u8> = Vec::new();
        loop
            invariant_except_break
                start == *old(self),
                room > 0,
                total == unframe(is_server, ids, start.read_model(), room as nat),
                self.wf(),
                self.same_but_reading(&start),
                is_server == self.state.is_server,
                ids == self.ids_view(),
                out@.len() <= room,
                ({
                    let rest = unframe(is_server, ids, self.read_model(), (room - out@.len()) as nat);
                    total == (rest.0, out@ + rest.1, rest.2)
                }),
            ensures
                start == *old(self),
                room > 0,
                self.wf(),
                self.same_but_reading(&start),
                total == (self.read_model(), out@, None::<VisionError>),
            decreases buf_contents(self.read_buf).len(), read_rank(self.read_model()),
        {
            let ghost m = self.read_model();
            let ghost left = (room - out@.len()) as nat;
            proof {
                lemma_read_step_progress(is_server, ids, m, left);
            }
            let left_exec = room - out.len();
            match self.read_once(left_exec) {
                ReadOnce::Go(mut v) => {
                    let ghost before = out@;
                    let ghost piece = v@;
                    out.append(&mut v);
                    proof {
                        let rest = unframe(is_server, ids, self.read_model(), (room - out@.len()) as nat);
                        assert(before + (piece + rest.1) == out@ + rest.1);
                    }
                },
                ReadOnce::Stop(mut v) => {
                    out.append(&mut v);
                    break;
                },
                ReadOnce::Failed(e) => {
                    proof {
                        assert(out@ + Seq::<u8>::empty() == out@);
                    }
                    return (out, Some(e));
                },
            }
        }
        (out, None)
    }

    /// One move of the frame reader, with room for `room` more bytes.
    fn read_once(&mut self, room: usize) -> (r: ReadOnce)
        requires
            old(self).wf(),
        ensures
            final(self).wf(),
            final(self).same_but_reading(old(self)),
            match read_step(old(self).state.is_server, old(self).ids_view(), old(self).read_model(), room as nat) {
                ReadStep::Continue(m1, o) => r matches ReadOnce::Go(v) && v@ == o && final(self).read_model() == m1,
                ReadStep::Halt(m1, o) => r matches ReadOnce::Stop(v) && v@ == o && final(self).read_model() == m1,
                ReadStep::Fail(e) => r == ReadOnce::Failed(e) && final(self).read_model() == old(self).read_model(),
            },
    {
        if buf_len(&self.read_buf) == 0 {
            return ReadOnce::Stop(Vec::new());
        }
        if self.state.read_direct_copy {
            return self.read_direct(room);
        }
        match self.state.stage {
            VisionReadingStage::Id => self.read_id(room),
            VisionReadingStage::Header => self.read_header(room),
            VisionReadingStage::Content => self.read_content(room),
            VisionReadingStage::Padding => self.read_padding(room),
        }
    }

    /// In direct copy: passes bytes through as they are.
    fn read_direct(&mut self, room: usize) -> (r: ReadOnce)
        requires
            old(self).wf(),
            buf_contents(old(self).read_buf).len() > 0,
            old(self).state.read_direct_copy,
        ensures
            final(self).wf(),
            final(self).same_but_reading(old(self)),
            match read_step(old(self).state.is_server, old(self).ids_view(), old(self).read_model(), room as nat) {
                ReadStep::Continue(m1, o) => r matches ReadOnce::Go(v) && v@ == o && final(self).read_model() == m1,
                ReadStep::Halt(m1, o) => r matches ReadOnce::Stop(v) && v@ == o && final(self).read_model() == m1,
                ReadStep::Fail(e) => r == ReadOnce::Failed(e) && final(self).read_model() == old(self).read_model(),
            },
    {
        let avail = buf_len(&self.read_buf);
        let k = if avail < room { avail } else { room };
        if k == 0 {
            return ReadOnce::Stop(Vec::new());
        }
        let head = buf_split_to(&mut self.read_buf, k);
        let v = buf_to_vec(&head);
        ReadOnce::Go(v)
    }

    /// Waiting for the client's id: a server checks and drops it.
    fn read_id(&mut self, room: usize) -> (r: ReadOnce)
        requires
            old(self).wf(),
            buf_contents(old(self).read_buf).len() > 0,
            !old(self).state.read_direct_copy,
            old(self).state.stage == VisionReadingStage::Id,
        ensures
            final(self).wf(),
            final(self).same_but_reading(old(self)),
            match read_step(old(self).state.is_server, old(self).ids_view(), old(self).read_model(), room as nat) {
                ReadStep::Continue(m1, o) => r matches ReadOnce::Go(v) && v@ == o && final(self).read_model() == m1,
                ReadStep::Halt(m1, o) => r matches ReadOnce::Stop(v) && v@ == o && final(self).read_model() == m1,
                ReadStep::Fail(e) => r == ReadOnce::Failed(e) && final(self).read_model() == old(self).read_model(),
            },
    {
        let avail = buf_len(&self.read_buf);
        if self.state.is_server {
            if avail < 16 {
                return ReadOnce::Stop(Vec::new());
            }
            let known = Self::id_known(&self.state.ids, &self.read_buf);
            if !known {
                self.state.read_direct_copy = true;
                return ReadOnce::Go(Vec::new());
            }
            buf_advance(&mut self.read_buf, 16);
        }
        self.state.stage = VisionReadingStage::Header;
        ReadOnce::Go(Vec::new())
    }

    /// Reads a frame header: command, content length, padding length.
    fn read_header(&mut self, room: usize) -> (r: ReadOnce)
        requires
            old(self).wf(),
            buf_contents(old(self).read_buf).len() > 0,
            !old(self).state.read_direct_copy,
            old(self).state.stage == VisionReadingStage::Header,
        ensures
            final(self).wf(),
            final(self).same_but_reading(old(self)),
            match read_step(old(self).state.is_server, old(self).ids_view(), old(self).read_model(), room as nat) {
                ReadStep::Continue(m1, o) => r matches ReadOnce::Go(v) && v@ == o && final(self).read_model() == m1,
                ReadStep::Halt(m1, o) => r matches ReadOnce::Stop(v) && v@ == o && final(self).read_model() == m1,
                ReadStep::Fail(e) => r == ReadOnce::Failed(e) && final(self).read_model() == old(self).read_model(),
            },
    {
        let avail = buf_len(&self.read_buf);
        if avail < 5 {
            return ReadOnce::Stop(Vec::new());
        }
        let b0 = buf_byte(&self.read_buf, 0);
        let command = match VisionCommand::try_from(b0) {
            Ok(c) => c,
            Err(e) => {
                return ReadOnce::Failed(e);
            },
        };
        let b1 = buf_byte(&self.read_buf, 1);
        let b2 = buf_byte(&self.read_buf, 2);
        let b3 = buf_byte(&self.read_buf, 3);
        let b4 = buf_byte(&self.read_buf, 4);
        let content_len = (b1 as u16) * 256 + (b2 as u16);
        let padding_len = (b3 as u16) * 256 + (b4 as u16);
        buf_advance(&mut self.read_buf, 5);
        self.state.command = command;
        self.state.remaining_content_len = content_len as usize;
        self.state.remaining_padding_len = padding_len as usize;
        self.state.stage = VisionReadingStage::Content;
        ReadOnce::Go(Vec::new())
    }

    /// Gives out frame content, as much as the input and the room allow.
    fn read_content(&mut self, room: usize) -> (r: ReadOnce)
        requires
            old(self).wf(),
            buf_contents(old(self).read_buf).len() > 0,
            !old(self).state.read_direct_copy,
            old(self).state.stage == VisionReadingStage::Content,
        ensures
            final(self).wf(),
            final(self).same_but_reading(old(self)),
            match read_step(old(self).state.is_server, old(self).ids_view(), old(self).read_model(), room as nat) {
                ReadStep::Continue(m1, o) => r matches ReadOnce::Go(v) && v@ == o && final(self).read_model() == m1,
                ReadStep::Halt(m1, o) => r matches ReadOnce::Stop(v) && v@ == o && final(self).read_model() == m1,
                ReadStep::Fail(e) => r == ReadOnce::Failed(e) && final(self).read_model() == old(self).read_model(),
            },
    {
        let ghost m = self.read_model();
        let avail = buf_len(&self.read_buf);
        let needed = self.state.remaining_content_len;
        if needed == 0 {
            self.state.stage = VisionReadingStage::Padding;
            return ReadOnce::Go(Vec::new());
        }
        let to_process = if avail < needed { avail } else { needed };
        let k = if to_process < room { to_process } else { room };
        let mut v = Vec::new();
        if k > 0 {
            let head = buf_split_to(&mut self.read_buf, k);
            v = buf_to_vec(&head);
            self.state.remaining_content_len = needed - k;
        } else {
            assert(m.buf.take(0) =~= Seq::<u8>::empty());
            assert(m.buf.skip(0) =~= m.buf);
        }
        if room == k && self.state.remaining_content_len > 0 {
            return ReadOnce::Stop(v);
        }
        if self.state.remaining_content_len == 0 {
            self.state.stage = VisionReadingStage::Padding;
        }
        ReadOnce::Go(v)
    }

    /// Drops frame padding; once it is gone, reads the next header or starts direct copy.
    fn read_padding(&mut self, room: usize) -> (r: ReadOnce)
        requires
            old(self).wf(),
            buf_contents(old(self).read_buf).len() > 0,
            !old(self).state.read_direct_copy,
            old(self).state.stage == VisionReadingStage::Padding,
        ensures
            final(self).wf(),
            final(self).same_but_reading(old(self)),
            match read_step(old(self).state.is_server, old(self).ids_view(), old(self).read_model(), room as nat) {
                ReadStep::Continue(m1, o) => r matches ReadOnce::Go(v) && v@ == o && final(self).read_model() == m1,
                ReadStep::Halt(m1, o) => r matches ReadOnce::Stop(v) && v@ == o && final(self).read_model() == m1,
                ReadStep::Fail(e) => r == ReadOnce::Failed(e) && final(self).read_model() == old(self).read_model(),
            },
    {
        let avail = buf_len(&self.read_buf);
        let needed = self.state.remaining_padding_len;
        let k = if avail < needed { avail } else { needed };
        buf_advance(&mut self.read_buf, k);
        self.state.remaining_padding_len = needed - k;
        if self.state.remaining_padding_len == 0 {
            match self.state.command {
                VisionCommand::ContinuePadding => {
                    self.state.stage = VisionReadingStage::Header;
                },
                VisionCommand::EndPadding => {
                    self.state.read_direct_copy = true;
                    self.state.stage = VisionReadingStage::Header;
                },
                VisionCommand::StartDirectCopy => {
                    self.state.read_direct_copy = true;
                    self.state.stage = VisionReadingStage::Header;
                },
            }
            ReadOnce::Go(Vec::new())
        } else {
            ReadOnce::Stop(Vec::new())
        }
    }

    /// Whether the first 16 bytes of `buf` are one of `ids`.
    fn id_known(ids: &Vec<[u8; 16]>, buf: &BytesMut) -> (b: bool)
        requires
            buf_contents(*buf).len() >= 16,
        ensures
            b == ids_seq(ids@).contains(buf_contents(*buf).take(16)),
    {
        let ghost want = buf_contents(*buf).take(16);
        let mut j: usize = 0;
        while j < ids.len()
            invariant
                j <= ids@.len(),
                want == buf_contents(*buf).take(16),
                buf_contents(*buf).len() >= 16,
                forall|i: int| 0 <= i < j ==> ids_seq(ids@)[i] != want,
            decreases ids@.len() - j,
        {
            let id = &ids[j];
            let mut same = true;
            let mut i: usize = 0;
            while i < 16
                invariant
                    i <= 16,
                    j < ids@.len(),
                    *id == ids@[j as int],
                    buf_contents(*buf).len() >= 16,
                    same == (forall|t: int| 0 <= t < i ==> id@[t] == buf_contents(*buf)[t]),
                decreases 16 - i,
            {
                let b = buf_byte(buf, i);
                if id[i] != b {
                    same = false;
                }
                i = i + 1;
            }
            if same {
                proof {
                    assert(ids_seq(ids@)[j as int] =~= want);
                }
                return true;
            }
            proof {
                assert(!(forall|t: int| 0 <= t < 16 ==> id@[t] == buf_contents(*buf)[t]));
                let t = choose|t: int| !(0 <= t < 16 ==> id@[t] == buf_contents(*buf)[t]);
                assert(ids_seq(ids@)[j as int][t] != want[t]);
            }
            j = j + 1;
        }
        false
    }
}

/// Whether the bytes of `a` occur in `b` in the same order, maybe with other
/// bytes between them.
pub open spec fn is_subsequence(a: Seq<u8>, b: Seq<u8>) -> bool
    decreases b.len(),
{
    if a.len() == 0 {
        true
    } else if b.len() == 0 {
        false
    } else {
        (a.last() == b.last() && is_subsequence(a.drop_last(), b.drop_last())) || is_subsequence(a, b.drop_last())
    }
}

proof fn lemma_subsequence_refl(a: Seq<u8>)
    ensures
        is_subsequence(a, a),
    decreases a.len(),
{
    if a.len() > 0 {
        lemma_subsequence_refl(a.drop_last());
    }
}

proof fn lemma_subsequence_extend(a: Seq<u8>, b: Seq<u8>, d: Seq<u8>)
    requires
        is_subsequence(a, b),
    ensures
        is_subsequence(a, b + d),
    decreases d.len(),
{
    if d.len() == 0 {
        assert(b + d =~= b);
    } else {
        assert((b + d).drop_last() =~= b + d.drop_last());
        lemma_subsequence_extend(a, b, d.drop_last());
    }
}

proof fn lemma_subsequence_concat(a: Seq<u8>, b: Seq<u8>, c: Seq<u8>, d: Seq<u8>)
    requires
        is_subsequence(a, b),
        is_subsequence(c, d),
    ensures
        is_subsequence(a + c, b + d),
    decreases d.len(),
{
    if c.len() == 0 {
        assert(a + c =~= a);
        lemma_subsequence_extend(a, b, d);
    } else {
        assert((a + c).last() == c.last());
        assert((b + d).last() == d.last());
        assert((a + c).drop_last() =~= a + c.drop_last());
        assert((b + d).drop_last() =~= b + d.drop_last());
        if c.last() == d.last() && is_subsequence(c.drop_last(), d.drop_last()) {
            lemma_subsequence_concat(a, b, c.drop_last(), d.drop_last());
        } else {
            lemma_subsequence_concat(a, b, c, d.drop_last());
        }
    }
}

/// Each move of the frame reader keeps the input it does not consume, and
/// gives out either nothing or exactly the bytes it consumed.
#[verifier::spinoff_prover]
proof fn lemma_read_step_consumes(is_server: bool, ids: Seq<Seq<u8>>, m: ReadModel, room: nat)
    ensures
        match read_step(is_server, ids, m, room) {
            ReadStep::Continue(m1, out) | ReadStep::Halt(m1, out) => {
                let j = m.buf.len() - m1.buf.len();
                &&& 0 <= j
                &&& m1.buf == m.buf.skip(j)
                &&& (out.len() == 0 || out == m.buf.take(j))
            },
            ReadStep::Fail(_) => true,
        },
{
    assert(m.buf.skip(0) =~= m.buf);
}

/// The frame reader, run until it stops, consumes a prefix of its input and
/// gives out bytes of that prefix, in order.
#[verifier::spinoff_prover]
#[verifier::rlimit(40)]
proof fn lemma_unframe_run_in_order(is_server: bool, ids: Seq<Seq<u8>>, m: ReadModel, room: nat)
    ensures
        ({
            let res = unframe(is_server, ids, m, room);
            let k = m.buf.len() - res.0.buf.len();
            &&& 0 <= k
            &&& res.0.buf == m.buf.skip(k)
            &&& is_subsequence(res.1, m.buf.take(k))
        }),
    decreases m.buf.len(), read_rank(m),
{
    lemma_read_step_consumes(is_server, ids, m, room);
    match read_step(is_server, ids, m, room) {
        ReadStep::Continue(m1, out) => {
            lemma_read_step_progress(is_server, ids, m, room);
            let left = (room - out.len()) as nat;
            lemma_unframe_run_in_order(is_server, ids, m1, left);
            let rest = unframe(is_server, ids, m1, left);
            let j1 = m.buf.len() - m1.buf.len();
            let j2 = m1.buf.len() - rest.0.buf.len();
            assert(rest.0.buf =~= m.buf.skip(j1 + j2));
            assert(m1.buf.take(j2) =~= m.buf.subrange(j1, j1 + j2));
            assert(m.buf.take(j1) + m.buf.subrange(j1, j1 + j2) =~= m.buf.take(j1 + j2));
            if out.len() == 0 {
                assert(out =~= Seq::<u8>::empty());
            } else {
                lemma_subsequence_refl(out);
            }
            lemma_subsequence_concat(out, m.buf.take(j1), rest.1, m1.buf.take(j2));
        },
        ReadStep::Halt(m1, out) => {
            if out.len() > 0 {
                lemma_subsequence_refl(out);
            }
        },
        ReadStep::Fail(_) => {
            assert(m.buf.skip(0) =~= m.buf);
        },
    }
}

/// Whatever one call of the frame reader (`unframe_read_buf`) does, error or
/// not, it consumes a prefix of `read_buf` and keeps the rest; the bytes it
/// gives out are bytes of that prefix, in order.
pub proof fn lemma_unframe_output_in_order(is_server: bool, ids: Seq<Seq<u8>>, m: ReadModel, room: nat)
    ensures
        ({
            let res = unframe_call(is_server, ids, m, room);
            let k = m.buf.len() - res.0.buf.len();
            &&& 0 <= k
            &&& res.0.buf == m.buf.skip(k)
            &&& is_subsequence(res.1, m.buf.take(k))
        }),
{
    if room == 0 {
        assert(m.buf.skip(0) =~= m.buf);
    } else {
        lemma_unframe_run_in_order(is_server, ids, m, room);
    }
}

/// The reader has taken in one whole frame with this command and holds no
/// more input: it waits for the next header, in direct copy if the command
/// said so. (When the frame ends with its content, the reader takes that last
/// step without input only once more bytes arrive.)
pub open spec fn frame_consumed(m: ReadModel, command: VisionCommand) -> bool {
    &&& m.buf.len() == 0
    &&& m.content == 0
    &&& m.padding == 0
    &&& m.command == command
    &&& ((m.stage == VisionReadingStage::Header && m.direct == (command != VisionCommand::ContinuePadding))
        || (!m.direct && (m.stage == VisionReadingStage::Content || m.stage == VisionReadingStage::Padding)))
}

/// A reader waiting for a frame header, given exactly one whole frame and room
/// for its content, gives out the content, meets no error and takes in the
/// whole frame.
#[verifier::spinoff_prover]
pub proof fn lemma_unframe_one_frame(
    is_server: bool,
    ids: Seq<Seq<u8>>,
    m: ReadModel,
    command: VisionCommand,
    data: Seq<u8>,
    padding: nat,
    room: nat,
)
    requires
        !m.direct,
        m.stage == VisionReadingStage::Header,
        data.len() <= u16::MAX,
        padding <= u16::MAX,
        m.buf == frame_bytes(command, data, padding),
        room >= data.len(),
    ensures
        unframe(is_server, ids, m, room).1 == data,
        unframe(is_server, ids, m, room).2 is None,
        frame_consumed(unframe(is_server, ids, m, room).0, command),
{
    let zeros = Seq::new(padding, |_i: int| 0u8);
    let body = data + zeros;
    assert(m.buf.len() >= 5);
    assert(m.buf[0] == command.byte_of());
    assert(be16(m.buf[1], m.buf[2]) == data.len());
    assert(be16(m.buf[3], m.buf[4]) == padding);
    assert(m.buf.skip(5) =~= body);
    let m1 = ReadModel {
        direct: false,
        stage: VisionReadingStage::Content,
        content: data.len(),
        padding: padding,
        command: command,
        buf: body,
    };
    assert(read_step(is_server, ids, m, room) == ReadStep::Continue(m1, Seq::<u8>::empty()));
    let left = (room - data.len()) as nat;
    let m2 = ReadModel { stage: VisionReadingStage::Padding, content: 0, buf: zeros, ..m1 };
    let m3 = ReadModel {
        direct: command != VisionCommand::ContinuePadding,
        stage: VisionReadingStage::Header,
        padding: 0,
        buf: Seq::empty(),
        ..m2
    };
    if padding == 0 {
        assert(zeros =~= Seq::<u8>::empty());
        if data.len() == 0 {
            assert(body =~= Seq::<u8>::empty());
            assert(unframe(is_server, ids, m1, room) == (m1, Seq::<u8>::empty(), None::<VisionError>));
        } else {
            assert(body.take(data.len() as int) =~= data);
            assert(body.skip(data.len() as int) =~= zeros);
            assert(read_step(is_server, ids, m1, room) == ReadStep::Continue(m2, data));
            assert(unframe(is_server, ids, m2, left) == (m2, Seq::<u8>::empty(), None::<VisionError>));
            assert(unframe(is_server, ids, m1, room).1 =~= data);
        }
    } else {
        if data.len() == 0 {
            assert(body =~= zeros);
            assert(read_step(is_server, ids, m1, room) == ReadStep::Continue(m2, Seq::<u8>::empty()));
        } else {
            assert(body.take(data.len() as int) =~= data);
            assert(body.skip(data.len() as int) =~= zeros);
            assert(read_step(is_server, ids, m1, room) == ReadStep::Continue(m2, data));
        }
        assert(zeros.skip(padding as int) =~= Seq::<u8>::empty());
        assert(read_step(is_server, ids, m2, left) == ReadStep::Continue(m3, Seq::<u8>::empty()));
        assert(unframe(is_server, ids, m3, left) == (m3, Seq::<u8>::empty(), None::<VisionError>));
        assert(unframe(is_server, ids, m2, left).1 =~= Seq::<u8>::empty());
        if data.len() == 0 {
            assert(unframe(is_server, ids, m1, room).1 =~= Seq::<u8>::empty());
        } else {
            assert(unframe(is_server, ids, m1, room).1 =~= data);
        }
    }
    assert(unframe(is_server, ids, m, room).1 =~= data);
}

/// What a writer adds to its output for one write, read by a peer that stands
/// where that write begins, comes out as exactly the data written; the peer
/// switches to direct copy exactly when the writer does. A server's reader
/// that waits for the client's id takes the id in front of the client's first
/// frame, when it knows that id.
#[verifier::spinoff_prover]
pub proof fn lemma_frame_unframe_roundtrip(
    writer: VisionFramer,
    data: Seq<u8>,
    draw: u16,
    reader: ReadModel,
    reader_is_server: bool,
    reader_ids: Seq<Seq<u8>>,
    room: nat,
)
    requires
        writer.wf(),
        writer.frame_ready(data.len()),
        !writer.state.write_direct_copy,
        data.len() <= u16::MAX,
        draw_ok(writer.state, data.len(), draw),
        !reader.direct,
        reader.buf == writer.framed(data, draw).out.skip(buf_contents(writer.write_buf).len() as int),
        (reader.stage == VisionReadingStage::Header && (writer.state.is_server || writer.state.has_sent_id))
            || (reader.stage == VisionReadingStage::Id && reader_is_server && !writer.state.is_server
                && !writer.state.has_sent_id && reader_ids.contains(writer.first_id())),
        room >= data.len(),
    ensures
        ({
            let res = unframe(reader_is_server, reader_ids, reader, room);
            let command = if writer.framed(data, draw).direct {
                VisionCommand::StartDirectCopy
            } else {
                VisionCommand::ContinuePadding
            };
            &&& res.1 == data
            &&& res.2 is None
            &&& frame_consumed(res.0, command)
        }),
{
    let w = writer.write_model();
    let f = writer.framed(data, draw);
    let app = w.can_start_direct_copy && is_tls_app_data(data);
    let command = if app { VisionCommand::StartDirectCopy } else { VisionCommand::ContinuePadding };
    let padding = padding_len(writer.state.long_padding_threshold, writer.state.long_padding_base_len, data.len(), draw);
    let fb = frame_bytes(command, data, padding);
    assert(padding <= u16::MAX);
    assert(f.direct == app);
    if reader.stage == VisionReadingStage::Header {
        assert(f.out =~= w.out + fb);
        assert(reader.buf =~= fb);
        lemma_unframe_one_frame(reader_is_server, reader_ids, reader, command, data, padding, room);
    } else {
        let id = writer.first_id();
        assert(id.len() == 16);
        assert(f.out =~= w.out + id + fb);
        assert(reader.buf =~= id + fb);
        assert(reader.buf.take(16) =~= id);
        assert(reader.buf.skip(16) =~= fb);
        let m1 = ReadModel { stage: VisionReadingStage::Header, buf: fb, ..reader };
        assert(read_step(reader_is_server, reader_ids, reader, room) == ReadStep::Continue(m1, Seq::<u8>::empty()));
        lemma_unframe_one_frame(reader_is_server, reader_ids, m1, command, data, padding, room);
        assert(unframe(reader_is_server, reader_ids, reader, room).1 =~= data);
    }
}

/// Framing only moves the writer forward: once in direct copy it stays there
/// and passes data through unframed; a client has sent its id after its first
/// write and never sends it again; once application data was seen it stays
/// seen; and bytes already waiting to go out are never changed.
pub proof fn lemma_framing_moves_forward(
    is_server: bool,
    first_id: Seq<u8>,
    threshold: u16,
    base: u16,
    w: WriteModel,
    data: Seq<u8>,
    draw: u16,
)
    ensures
        ({
            let f = frame(is_server, first_id, threshold, base, w, data, draw);
            &&& w.direct ==> f.direct && f.out == w.out + data
            &&& !w.direct && !is_server ==> f.has_sent_id
            &&& w.has_sent_id ==> f.has_sent_id && (w.direct || f.out == w.out + frame_bytes(
                (if f.direct { VisionCommand::StartDirectCopy } else { VisionCommand::ContinuePadding }),
                data,
                padding_len(threshold, base, data.len(), draw),
            ))
            &&& w.has_seen_tls_app_data ==> f.has_seen_tls_app_data
            &&& f.out.take(w.out.len() as int) == w.out
        }),
{
    let f = frame(is_server, first_id, threshold, base, w, data, draw);
    assert(f.out.take(w.out.len() as int) =~= w.out);
    if !w.direct && w.has_sent_id {
        assert(w.out + Seq::<u8>::empty() =~= w.out);
    }
}

/// A server whose first framed write is a ServerHello record (handshake type
/// 2, long enough to hold its cipher suite) and whose next write is anything,
/// frames a later TLS application-data write with `StartDirectCopy`, and
/// switches to direct copy, exactly when the ServerHello's cipher suite is not
/// TLS_AES_128_CCM_8_SHA256 (0x1305); otherwise that frame carries
/// `ContinuePadding`.
#[verifier::spinoff_prover]
#[verifier::rlimit(40)]
pub proof fn lemma_server_hello_decides_direct_copy(
    first_id: Seq<u8>,
    threshold: u16,
    base: u16,
    w0: WriteModel,
    sh: Seq<u8>,
    d1: u16,
    y: Seq<u8>,
    d2: u16,
    z: Seq<u8>,
    d3: u16,
)
    requires
        !w0.direct,
        !w0.can_start_direct_copy,
        w0.hello.len() == 0,
        sh.len() >= 6,
        starts_with3(sh, 0x16, 0x03, 0x01),
        sh[5] == 0x02,
        sh.len() >= 47 + sh[43],
        is_tls_app_data(z),
    ensures
        ({
            let w1 = frame(true, first_id, threshold, base, w0, sh, d1);
            let w2 = frame(true, first_id, threshold, base, w1, y, d2);
            let w3 = frame(true, first_id, threshold, base, w2, z, d3);
            let sid = sh[43] as int;
            let allowed = be16(sh[44 + sid], sh[45 + sid]) != 0x1305;
            let command = if allowed { VisionCommand::StartDirectCopy } else { VisionCommand::ContinuePadding };
            &&& w3.direct == allowed
            &&& w3.out == w2.out + frame_bytes(command, z, padding_len(threshold, base, z.len(), d3))
        }),
{
    let w1 = frame(true, first_id, threshold, base, w0, sh, d1);
    let w2 = frame(true, first_id, threshold, base, w1, y, d2);
    let sid = sh[43] as int;
    assert(w1.hello == sh);
    assert(!w1.direct && !w1.can_start_direct_copy);
    let h1 = if sh.len() < MAX_TLS_SNIFFING_LEN {
        let room = (MAX_TLS_SNIFFING_LEN - sh.len()) as nat;
        let c = if room < y.len() { room } else { y.len() };
        sh + y.take(c as int)
    } else {
        sh
    };
    assert(h1[43] == sh[43]);
    assert(h1[44 + sid] == sh[44 + sid]);
    assert(h1[45 + sid] == sh[45 + sid]);
    assert(h1.len() >= 47 + h1[43]);
    assert(w2.hello.len() == 0);
    assert(!w2.direct);
    assert(w2.can_start_direct_copy == (be16(sh[44 + sid], sh[45 + sid]) != 0x1305));
    assert(!starts_with3(z, 0x16, 0x03, 0x01));
    assert(w2.out + Seq::<u8>::empty() =~= w2.out);
}

/// In direct copy the reader hands bytes on as they are, as many as the room allows.
pub proof fn lemma_direct_copy_passes_through(is_server: bool, ids: Seq<Seq<u8>>, m: ReadModel, room: nat)
    requires
        m.direct,
    ensures
        ({
            let k = if m.buf.len() < room { m.buf.len() } else { room };
            unframe(is_server, ids, m, room) == (ReadModel { buf: m.buf.skip(k as int), ..m }, m.buf.take(k as int), None::<VisionError>)
        }),
    decreases m.buf.len(),
{
    let k = if m.buf.len() < room { m.buf.len() } else { room };
    if m.buf.len() == 0 || k == 0 {
        assert(m.buf.skip(0) =~= m.buf);
        assert(m.buf.take(0) =~= Seq::<u8>::empty());
    } else {
        let m1 = ReadModel { buf: m.buf.skip(k as int), ..m };
        lemma_direct_copy_passes_through(is_server, ids, m1, (room - k) as nat);
        if m.buf.len() < room {
            assert(m1.buf.len() == 0);
        } else {
            assert(room - k == 0);
        }
        assert(m1.buf.take(0) =~= Seq::<u8>::empty());
        assert(m1.buf.skip(0) =~= m1.buf);
        assert(m.buf.take(k as int) + Seq::<u8>::empty() =~= m.buf.take(k as int));
    }
}

/// One frame as the contracts see it.
pub struct Frame {
    pub command: VisionCommand,
    pub content: Seq<u8>,
    pub padding: nat,
}

/// The bytes of several frames, one after the other.
pub open spec fn frames_bytes(fs: Seq<Frame>) -> Seq<u8>
    decreases fs.len(),
{
    if fs.len() == 0 {
        Seq::empty()
    } else {
        frame_bytes(fs[0].command, fs[0].content, fs[0].padding) + frames_bytes(fs.drop_first())
    }
}

/// The content of several frames, one after the other.
pub open spec fn frames_content(fs: Seq<Frame>) -> Seq<u8>
    decreases fs.len(),
{
    if fs.len() == 0 {
        Seq::empty()
    } else {
        fs[0].content + frames_content(fs.drop_first())
    }
}

/// Frames a writer can make: lengths fit a `u16`, and all but the last keep
/// padding on (the last may switch to direct copy).
pub open spec fn frames_well_formed(fs: Seq<Frame>) -> bool {
    forall|i: int|
        0 <= i < fs.len() ==> {
            &&& (#[trigger] fs[i]).content.len() <= u16::MAX
            &&& fs[i].padding <= u16::MAX
            &&& (i < fs.len() - 1 ==> fs[i].command == VisionCommand::ContinuePadding)
        }
}

/// A reader waiting for a header, given a whole padded frame and more bytes
/// after it, gives out the frame's content and goes on with the rest from a
/// header again.
#[verifier::spinoff_prover]
#[verifier::rlimit(40)]
proof fn lemma_unframe_frame_then_more(
    is_server: bool,
    ids: Seq<Seq<u8>>,
    m: ReadModel,
    f: Frame,
    rest: Seq<u8>,
    room: nat,
)
    requires
        !m.direct,
        m.stage == VisionReadingStage::Header,
        f.command == VisionCommand::ContinuePadding,
        f.content.len() <= u16::MAX,
        f.padding <= u16::MAX,
        m.buf == frame_bytes(f.command, f.content, f.padding) + rest,
        rest.len() > 0,
        room >= f.content.len(),
    ensures
        ({
            let next = ReadModel {
                direct: false,
                stage: VisionReadingStage::Header,
                content: 0,
                padding: 0,
                command: VisionCommand::ContinuePadding,
                buf: rest,
            };
            let r = unframe(is_server, ids, next, (room - f.content.len()) as nat);
            unframe(is_server, ids, m, room) == (r.0, f.content + r.1, r.2)
        }),
{
    let data = f.content;
    let padding = f.padding;
    let zeros = Seq::new(padding, |_i: int| 0u8);
    let tail = zeros + rest;
    assert(m.buf.len() >= 5);
    assert(m.buf[0] == f.command.byte_of());
    assert(be16(m.buf[1], m.buf[2]) == data.len());
    assert(be16(m.buf[3], m.buf[4]) == padding);
    assert(m.buf.skip(5) =~= data + tail);
    let m1 = ReadModel {
        direct: false,
        stage: VisionReadingStage::Content,
        content: data.len(),
        padding: padding,
        command: f.command,
        buf: data + tail,
    };
    assert(read_step(is_server, ids, m, room) == ReadStep::Continue(m1, Seq::<u8>::empty()));
    let left = (room - data.len()) as nat;
    let m2 = ReadModel { stage: VisionReadingStage::Padding, content: 0, buf: tail, ..m1 };
    if data.len() == 0 {
        assert(data + tail =~= tail);
        assert(read_step(is_server, ids, m1, room) == ReadStep::Continue(m2, Seq::<u8>::empty()));
    } else {
        assert((data + tail).take(data.len() as int) =~= data);
        assert((data + tail).skip(data.len() as int) =~= tail);
        assert(read_step(is_server, ids, m1, room) == ReadStep::Continue(m2, data));
    }
    let next = ReadModel {
        direct: false,
        stage: VisionReadingStage::Header,
        content: 0,
        padding: 0,
        command: VisionCommand::ContinuePadding,
        buf: rest,
    };
    assert(tail.skip(padding as int) =~= rest);
    assert(read_step(is_server, ids, m2, left) == ReadStep::Continue(next, Seq::<u8>::empty()));
    let r = unframe(is_server, ids, next, left);
    assert(unframe(is_server, ids, m2, left) == (r.0, Seq::<u8>::empty() + r.1, r.2));
    assert(Seq::<u8>::empty() + r.1 =~= r.1);
    if data.len() == 0 {
        assert(unframe(is_server, ids, m1, room) == (r.0, Seq::<u8>::empty() + r.1, r.2));
        assert(data + r.1 =~= r.1);
    } else {
        assert(unframe(is_server, ids, m1, room) == (r.0, data + r.1, r.2));
    }
    assert(Seq::<u8>::empty() + (data + r.1) =~= data + r.1);
}

/// A reader waiting for a header, given the bytes of several frames that a
/// writer made, gives out their content one after the other, meets no error
/// and takes in every frame.
#[verifier::spinoff_prover]
pub proof fn lemma_unframe_frames(is_server: bool, ids: Seq<Seq<u8>>, m: ReadModel, fs: Seq<Frame>, room: nat)
    requires
        !m.direct,
        m.stage == VisionReadingStage::Header,
        fs.len() >= 1,
        frames_well_formed(fs),
        m.buf == frames_bytes(fs),
        room >= frames_content(fs).len(),
    ensures
        unframe(is_server, ids, m, room).1 == frames_content(fs),
        unframe(is_server, ids, m, room).2 is None,
        frame_consumed(unframe(is_server, ids, m, room).0, fs.last().command),
    decreases fs.len(),
{
    let f = fs[0];
    let tail = fs.drop_first();
    assert(f.content.len() <= u16::MAX && f.padding <= u16::MAX);
    if fs.len() == 1 {
        assert(tail.len() == 0);
        assert(frames_bytes(tail) =~= Seq::<u8>::empty());
        assert(frames_content(tail) =~= Seq::<u8>::empty());
        assert(m.buf =~= frame_bytes(f.command, f.content, f.padding));
        assert(frames_content(fs) =~= f.content);
        lemma_unframe_one_frame(is_server, ids, m, f.command, f.content, f.padding, room);
    } else {
        let rest = frames_bytes(tail);
        assert(f.command == VisionCommand::ContinuePadding);
        assert(frames_well_formed(tail)) by {
            assert forall|i: int| 0 <= i < tail.len() implies {
                &&& (#[trigger] tail[i]).content.len() <= u16::MAX
                &&& tail[i].padding <= u16::MAX
                &&& (i < tail.len() - 1 ==> tail[i].command == VisionCommand::ContinuePadding)
            } by {
                assert(tail[i] == fs[i + 1]);
            }
        }
        assert(tail.len() >= 1);
        assert(frames_bytes(tail).len() >= 5) by {
            assert(frames_bytes(tail) == frame_bytes(tail[0].command, tail[0].content, tail[0].padding)
                + frames_bytes(tail.drop_first()));
        }
        let next = ReadModel {
            direct: false,
            stage: VisionReadingStage::Header,
            content: 0,
            padding: 0,
            command: VisionCommand::ContinuePadding,
            buf: rest,
        };
        assert(frames_content(fs) == f.content + frames_content(tail));
        lemma_unframe_frame_then_more(is_server, ids, m, f, rest, room);
        lemma_unframe_frames(is_server, ids, next, tail, (room - f.content.len()) as nat);
        assert(tail.last() == fs.last());
    }
}


/// Framing writes one after the other, each with its padding draw.
pub open spec fn frame_all(
    is_server: bool,
    first_id: Seq<u8>,
    threshold: u16,
    base: u16,
    w: WriteModel,
    xs: Seq<Seq<u8>>,
    ds: Seq<u16>,
) -> WriteModel
    decreases xs.len(),
{
    if xs.len() == 0 {
        w
    } else {
        frame(
            is_server,
            first_id,
            threshold,
            base,
            frame_all(is_server, first_id, threshold, base, w, xs.drop_last(), ds.drop_last()),
            xs.last(),
            ds.last(),
        )
    }
}

/// The padded frames of some writes, none of which starts direct copy.
pub open spec fn padded_frames(threshold: u16, base: u16, xs: Seq<Seq<u8>>, ds: Seq<u16>) -> Seq<Frame> {
    Seq::new(
        xs.len(),
        |i: int|
            Frame {
                command: VisionCommand::ContinuePadding,
                content: xs[i],
                padding: padding_len(threshold, base, xs[i].len(), ds[i]),
            },
    )
}

proof fn lemma_frames_push(fs: Seq<Frame>, f: Frame)
    ensures
        frames_bytes(fs.push(f)) == frames_bytes(fs) + frame_bytes(f.command, f.content, f.padding),
        frames_content(fs.push(f)) == frames_content(fs) + f.content,
    decreases fs.len(),
{
    if fs.len() == 0 {
        assert(fs.push(f).drop_first() =~= Seq::<Frame>::empty());
        assert(fs.push(f)[0] == f);
        assert(frames_bytes(Seq::<Frame>::empty()) == Seq::<u8>::empty());
        assert(frames_content(Seq::<Frame>::empty()) == Seq::<u8>::empty());
        assert(frames_bytes(fs.push(f)) =~= frame_bytes(f.command, f.content, f.padding));
        assert(frames_content(fs.push(f)) =~= f.content);
        assert(frames_bytes(fs) + frame_bytes(f.command, f.content, f.padding) =~= frame_bytes(f.command, f.content, f.padding));
        assert(frames_content(fs) + f.content =~= f.content);
    } else {
        assert(fs.push(f).drop_first() =~= fs.drop_first().push(f));
        assert(fs.push(f)[0] == fs[0]);
        lemma_frames_push(fs.drop_first(), f);
        assert(frames_bytes(fs.push(f)) =~= frames_bytes(fs) + frame_bytes(f.command, f.content, f.padding));
        assert(frames_content(fs.push(f)) =~= frames_content(fs) + f.content);
    }
}

/// A fresh client that writes data none of which begins a TLS handshake
/// record sends its id once, then one padded frame per write.
#[verifier::spinoff_prover]
proof fn lemma_fresh_client_writes(
    first_id: Seq<u8>,
    threshold: u16,
    base: u16,
    w0: WriteModel,
    xs: Seq<Seq<u8>>,
    ds: Seq<u16>,
)
    requires
        !w0.direct,
        !w0.has_sent_id,
        !w0.can_start_direct_copy,
        w0.hello.len() == 0,
        xs.len() == ds.len(),
        forall|i: int| 0 <= i < xs.len() ==> !starts_with3(#[trigger] xs[i], 0x16, 0x03, 0x01),
    ensures
        ({
            let w = frame_all(false, first_id, threshold, base, w0, xs, ds);
            &&& !w.direct
            &&& w.has_sent_id == (xs.len() > 0)
            &&& !w.can_start_direct_copy
            &&& w.hello.len() == 0
            &&& w.out == w0.out + (if xs.len() > 0 { first_id } else { Seq::empty() }) + frames_bytes(
                padded_frames(threshold, base, xs, ds),
            )
        }),
    decreases xs.len(),
{
    let fs = padded_frames(threshold, base, xs, ds);
    if xs.len() == 0 {
        assert(fs =~= Seq::<Frame>::empty());
        assert(w0.out + Seq::<u8>::empty() + frames_bytes(fs) =~= w0.out);
    } else {
        let xs1 = xs.drop_last();
        let ds1 = ds.drop_last();
        assert forall|i: int| 0 <= i < xs1.len() implies !starts_with3(#[trigger] xs1[i], 0x16, 0x03, 0x01) by {
            assert(xs1[i] == xs[i]);
        }
        lemma_fresh_client_writes(first_id, threshold, base, w0, xs1, ds1);
        let fs1 = padded_frames(threshold, base, xs1, ds1);
        let x = xs.last();
        let f = Frame {
            command: VisionCommand::ContinuePadding,
            content: x,
            padding: padding_len(threshold, base, x.len(), ds.last()),
        };
        assert(fs =~= fs1.push(f));
        lemma_frames_push(fs1, f);
        assert(!starts_with3(x, 0x16, 0x03, 0x01));
        let w1 = frame_all(false, first_id, threshold, base, w0, xs1, ds1);
        let prefix: Seq<u8> = if xs1.len() > 0 { first_id } else { Seq::empty() };
        let id_now: Seq<u8> = if xs1.len() == 0 { first_id } else { Seq::empty() };
        assert(w1.out == w0.out + prefix + frames_bytes(fs1));
        if xs1.len() == 0 {
            assert(fs1 =~= Seq::<Frame>::empty());
        }
        assert(w0.out + prefix + frames_bytes(fs1) + id_now + frame_bytes(f.command, f.content, f.padding)
            =~= w0.out + first_id + (frames_bytes(fs1) + frame_bytes(f.command, f.content, f.padding)));
    }
}

/// The content of padded frames is the data written, one write after the other.
proof fn lemma_padded_frames_content(threshold: u16, base: u16, xs: Seq<Seq<u8>>, ds: Seq<u16>)
    requires
        xs.len() == ds.len(),
    ensures
        frames_content(padded_frames(threshold, base, xs, ds)) == xs.flatten(),
    decreases xs.len(),
{
    let fs = padded_frames(threshold, base, xs, ds);
    if xs.len() == 0 {
        assert(fs =~= Seq::<Frame>::empty());
    } else {
        let xs1 = xs.drop_last();
        let ds1 = ds.drop_last();
        lemma_padded_frames_content(threshold, base, xs1, ds1);
        let fs1 = padded_frames(threshold, base, xs1, ds1);
        let f = fs[xs.len() - 1];
        assert(fs =~= fs1.push(f));
        lemma_frames_push(fs1, f);
        xs1.lemma_flatten_push(xs.last());
        assert(xs1.push(xs.last()) =~= xs);
    }
}

/// A fresh client's writes, read by a fresh server that knows the client's
/// id: the server takes the id, gives out all the data written, in order,
/// meets no error and keeps nothing back. This holds of writes none of which
/// begins a TLS handshake record (such a record may start direct copy on the
/// way), each short enough for one frame and framed with a padding draw the
/// client's settings allow; `frame_all` is what that many `frame_buf` calls
/// make of the writing half, by their contracts.
#[verifier::spinoff_prover]
#[verifier::rlimit(40)]
pub proof fn lemma_client_writes_read_by_server(
    writer: VisionFramer,
    xs: Seq<Seq<u8>>,
    ds: Seq<u16>,
    server_ids: Seq<Seq<u8>>,
    room: nat,
)
    requires
        !writer.state.is_server,
        writer.state.ids@.len() >= 1,
        writer.write_model() == (WriteModel {
            direct: false,
            has_sent_id: false,
            can_start_direct_copy: false,
            has_seen_tls_app_data: false,
            is_safe_tls_ver: false,
            hello: Seq::empty(),
            out: Seq::empty(),
        }),
        xs.len() == ds.len(),
        forall|i: int|
            0 <= i < xs.len() ==> {
                &&& (#[trigger] xs[i]).len() <= u16::MAX
                &&& !starts_with3(xs[i], 0x16, 0x03, 0x01)
                &&& padding_ok(writer.state, xs[i].len())
                &&& draw_ok(writer.state, xs[i].len(), ds[i])
            },
        server_ids.contains(writer.first_id()),
        room >= xs.flatten().len(),
    ensures
        ({
            let w = frame_all(
                false,
                writer.first_id(),
                writer.state.long_padding_threshold,
                writer.state.long_padding_base_len,
                writer.write_model(),
                xs,
                ds,
            );
            let reader = ReadModel {
                direct: false,
                stage: VisionReadingStage::Id,
                content: 0,
                padding: 0,
                command: VisionCommand::ContinuePadding,
                buf: w.out,
            };
            let res = unframe(true, server_ids, reader, room);
            &&& res.1 == xs.flatten()
            &&& res.2 is None
            &&& res.0.buf.len() == 0
        }),
{
    let id = writer.first_id();
    let th = writer.state.long_padding_threshold;
    let base = writer.state.long_padding_base_len;
    lemma_fresh_client_writes(id, th, base, writer.write_model(), xs, ds);
    lemma_padded_frames_content(th, base, xs, ds);
    let fs = padded_frames(th, base, xs, ds);
    let w = frame_all(false, id, th, base, writer.write_model(), xs, ds);
    let reader = ReadModel {
        direct: false,
        stage: VisionReadingStage::Id,
        content: 0,
        padding: 0,
        command: VisionCommand::ContinuePadding,
        buf: w.out,
    };
    if xs.len() == 0 {
        assert(fs =~= Seq::<Frame>::empty());
        assert(w.out =~= Seq::<u8>::empty());
        assert(xs.flatten() =~= Seq::<u8>::empty());
    } else {
        assert(id.len() == 16);
        assert(w.out =~= id + frames_bytes(fs));
        assert(frames_well_formed(fs)) by {
            assert forall|i: int| 0 <= i < fs.len() implies {
                &&& (#[trigger] fs[i]).content.len() <= u16::MAX
                &&& fs[i].padding <= u16::MAX
                &&& (i < fs.len() - 1 ==> fs[i].command == VisionCommand::ContinuePadding)
            } by {
                assert(xs[i].len() <= u16::MAX && padding_ok(writer.state, xs[i].len())
                    && draw_ok(writer.state, xs[i].len(), ds[i]));
            }
        }
        assert(w.out.take(16) =~= id);
        assert(w.out.skip(16) =~= frames_bytes(fs));
        let m1 = ReadModel { stage: VisionReadingStage::Header, buf: frames_bytes(fs), ..reader };
        assert(read_step(true, server_ids, reader, room) == ReadStep::Continue(m1, Seq::<u8>::empty()));
        lemma_unframe_frames(true, server_ids, m1, fs, room);
        let r1 = unframe(true, server_ids, m1, room);
        assert(unframe(true, server_ids, reader, room) == (r1.0, Seq::<u8>::empty() + r1.1, r1.2));
        assert(Seq::<u8>::empty() + r1.1 =~= r1.1);
    }
}

} // verus!
