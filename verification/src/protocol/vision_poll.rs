//! The decisions of a Vision stream driven by polling.
//!
//! A Vision stream is a TLS session with a `VisionFramer` inside it. The
//! caller owns the session, the inner stream and the framer. For each poll it
//! starts one of the machines below, performs each operation the machine asks
//! for, hands the outcome back, and answers the poll as the machine answers.
//! The machines keep no state across polls.
use vstd::prelude::*;
use crate::protocol::tls::{TlsAnswer, TlsOutcome};

verus! {

/// What the caller does next on the framer, the session or the inner stream.
#[derive(Debug, Clone, Copy, PartialEq, Eq, Structural)]
pub enum VisionOp {
    /// `framer.unframe_read_buf(room)`, where `room` is what the caller's
    /// buffer has left, and the bytes it gives put into that buffer:
    /// `Count(n)` for `n` bytes, or `Failed` when it met a bad header (the
    /// bytes before it are in the buffer all the same).
    Unframe,
    /// `session.reader().read(..)` into a scratch buffer, and what it read
    /// pushed into the framer (`framer.push_read`): `Count(n)`, `WouldBlock`
    /// or `Failed`.
    ReadPlain,
    /// `session.read_tls(inner)`: `Count(n)`, `WouldBlock` or `Failed`.
    ReadTls,
    /// `session.process_new_packets()`: `Ready` or `Failed`.
    ProcessPackets,
    /// `framer.has_pending_write()`: `Yes` or `No`.
    HasPendingWrite,
    /// `session.writer().write(..)` of `framer.pending_write()`, and
    /// `framer.consume_written(n)` of the `n` bytes it took: `Count(n)`,
    /// `WouldBlock` or `Failed`.
    WritePlain,
    /// `framer.frame_write(data)` of the caller's data: `Count(n)` for the
    /// `n` bytes it framed.
    FrameWrite,
    /// `session.wants_write()`: `Yes` or `No`.
    WantsWrite,
    /// `session.write_tls(inner)`: `Count(n)`, `WouldBlock` or `Failed`.
    WriteTls,
    /// `session.send_close_notify()`: `Ready`.
    SendCloseNotify,
}

/// The next thing to do.
#[derive(Debug, Clone, Copy, PartialEq, Eq, Structural)]
pub enum VisionNext {
    Do(VisionOp),
    Answer(TlsAnswer),
}

/// Where a machine waits for the outcome of the operation it asked for.
#[derive(Debug, Clone, Copy, PartialEq, Eq, Structural)]
pub enum VisionPc {
    ReadUnframe,
    ReadPlainFirst,
    ReadTls,
    /// Processing what `read_tls` read; the flag says it read nothing.
    ReadProcess(bool),
    /// Reading plaintext after that; the flag says `read_tls` read nothing.
    ReadPlainAfter(bool),
    WriteDrain,
    WriteDrainPlain,
    WriteDrainTls,
    WriteFrame,
    /// The rest carry how many bytes of the caller's data were framed.
    WritePush(usize),
    WritePushPlain(usize),
    WriteOut(usize),
    WriteOutTls(usize),
    FlushWants,
    FlushTls,
    ShutdownClose,
    ShutdownWants,
    ShutdownTls,
    /// The machine has answered.
    Done,
}

/// Whether an outcome is one the operation awaited at `pc` can give.
pub open spec fn vision_fits(pc: VisionPc, o: TlsOutcome) -> bool {
    match pc {
        VisionPc::ReadUnframe => o is Count || o == TlsOutcome::Failed,
        VisionPc::ReadPlainFirst | VisionPc::ReadTls | VisionPc::ReadPlainAfter(_) | VisionPc::WriteDrainPlain
        | VisionPc::WriteDrainTls | VisionPc::WritePushPlain(_) | VisionPc::WriteOutTls(_) | VisionPc::FlushTls
        | VisionPc::ShutdownTls => o is Count || o == TlsOutcome::WouldBlock || o == TlsOutcome::Failed,
        VisionPc::ReadProcess(_) => o == TlsOutcome::Ready || o == TlsOutcome::Failed,
        VisionPc::WriteDrain | VisionPc::WritePush(_) | VisionPc::WriteOut(_) | VisionPc::FlushWants
        | VisionPc::ShutdownWants => o == TlsOutcome::Yes || o == TlsOutcome::No,
        VisionPc::WriteFrame => o is Count,
        VisionPc::ShutdownClose => o == TlsOutcome::Ready,
        VisionPc::Done => false,
    }
}

/// One step of the machines: given where the machine waits, what the
/// operation gave and whether the caller's read buffer is full, where the
/// machine waits next and what to do.
///
/// - Read: unframe what the framer holds; answer once that gave bytes (or
///   the buffer is full). Else take plaintext out of the session into the
///   framer and unframe again; with none there, read TLS records from the
///   inner stream, process them, and take plaintext out once more. If the
///   inner stream gave nothing and the session holds no plaintext, answer
///   with no data (the end of the stream).
/// - Write: hand the framed bytes that still wait to the session (when it
///   takes none, write TLS records to the inner stream first); frame the
///   data; hand all framed bytes to the session; write TLS records while the
///   session wants to (stopping, not waiting, when the inner stream would
///   block); answer the number of bytes framed.
/// - Flush: write TLS records while the session wants to, then poll the
///   inner stream's flush. Shutdown: send close-notify, do the same, then
///   poll the inner stream's shutdown.
pub open spec fn vision_step(pc: VisionPc, o: TlsOutcome, buf_full: bool) -> (VisionPc, VisionNext) {
    let error = VisionNext::Answer(TlsAnswer::Error);
    let pending = VisionNext::Answer(TlsAnswer::Pending);
    match pc {
        VisionPc::ReadUnframe => match o {
            TlsOutcome::Count(n) => if n > 0 || buf_full {
                (VisionPc::Done, VisionNext::Answer(TlsAnswer::Ready))
            } else {
                (VisionPc::ReadPlainFirst, VisionNext::Do(VisionOp::ReadPlain))
            },
            _ => (VisionPc::Done, error),
        },
        VisionPc::ReadPlainFirst => match o {
            TlsOutcome::Count(n) => if n > 0 {
                (VisionPc::ReadUnframe, VisionNext::Do(VisionOp::Unframe))
            } else {
                (VisionPc::ReadTls, VisionNext::Do(VisionOp::ReadTls))
            },
            TlsOutcome::WouldBlock => (VisionPc::ReadTls, VisionNext::Do(VisionOp::ReadTls)),
            _ => (VisionPc::Done, error),
        },
        VisionPc::ReadTls => match o {
            TlsOutcome::Count(n) => (VisionPc::ReadProcess(n == 0), VisionNext::Do(VisionOp::ProcessPackets)),
            TlsOutcome::WouldBlock => (VisionPc::Done, pending),
            _ => (VisionPc::Done, error),
        },
        VisionPc::ReadProcess(none) => if o == TlsOutcome::Ready {
            (VisionPc::ReadPlainAfter(none), VisionNext::Do(VisionOp::ReadPlain))
        } else {
            (VisionPc::Done, error)
        },
        VisionPc::ReadPlainAfter(none) => match o {
            TlsOutcome::Count(n) => if n == 0 && none {
                (VisionPc::Done, VisionNext::Answer(TlsAnswer::Ready))
            } else {
                (VisionPc::ReadUnframe, VisionNext::Do(VisionOp::Unframe))
            },
            TlsOutcome::WouldBlock => (VisionPc::Done, pending),
            _ => (VisionPc::Done, error),
        },
        VisionPc::WriteDrain => if o == TlsOutcome::Yes {
            (VisionPc::WriteDrainPlain, VisionNext::Do(VisionOp::WritePlain))
        } else {
            (VisionPc::WriteFrame, VisionNext::Do(VisionOp::FrameWrite))
        },
        VisionPc::WriteDrainPlain => match o {
            TlsOutcome::Count(n) => if n == 0 {
                (VisionPc::WriteDrainTls, VisionNext::Do(VisionOp::WriteTls))
            } else {
                (VisionPc::WriteDrain, VisionNext::Do(VisionOp::HasPendingWrite))
            },
            _ => (VisionPc::Done, error),
        },
        VisionPc::WriteDrainTls => match o {
            TlsOutcome::Count(_) => (VisionPc::WriteDrain, VisionNext::Do(VisionOp::HasPendingWrite)),
            TlsOutcome::WouldBlock => (VisionPc::Done, pending),
            _ => (VisionPc::Done, error),
        },
        VisionPc::WriteFrame => match o {
            TlsOutcome::Count(n) => (VisionPc::WritePush(n), VisionNext::Do(VisionOp::HasPendingWrite)),
            _ => (VisionPc::Done, error),
        },
        VisionPc::WritePush(n) => if o == TlsOutcome::Yes {
            (VisionPc::WritePushPlain(n), VisionNext::Do(VisionOp::WritePlain))
        } else {
            (VisionPc::WriteOut(n), VisionNext::Do(VisionOp::WantsWrite))
        },
        VisionPc::WritePushPlain(n) => match o {
            TlsOutcome::Count(_) => (VisionPc::WritePush(n), VisionNext::Do(VisionOp::HasPendingWrite)),
            _ => (VisionPc::Done, error),
        },
        VisionPc::WriteOut(n) => if o == TlsOutcome::Yes {
            (VisionPc::WriteOutTls(n), VisionNext::Do(VisionOp::WriteTls))
        } else {
            (VisionPc::Done, VisionNext::Answer(TlsAnswer::ReadyCount(n)))
        },
        VisionPc::WriteOutTls(n) => match o {
            TlsOutcome::Count(_) => (VisionPc::WriteOut(n), VisionNext::Do(VisionOp::WantsWrite)),
            TlsOutcome::WouldBlock => (VisionPc::Done, VisionNext::Answer(TlsAnswer::ReadyCount(n))),
            _ => (VisionPc::Done, error),
        },
        VisionPc::FlushWants => if o == TlsOutcome::Yes {
            (VisionPc::FlushTls, VisionNext::Do(VisionOp::WriteTls))
        } else {
            (VisionPc::Done, VisionNext::Answer(TlsAnswer::InnerFlush))
        },
        VisionPc::FlushTls => match o {
            TlsOutcome::Count(_) => (VisionPc::FlushWants, VisionNext::Do(VisionOp::WantsWrite)),
            TlsOutcome::WouldBlock => (VisionPc::Done, pending),
            _ => (VisionPc::Done, error),
        },
        VisionPc::ShutdownClose => (VisionPc::ShutdownWants, VisionNext::Do(VisionOp::WantsWrite)),
        VisionPc::ShutdownWants => if o == TlsOutcome::Yes {
            (VisionPc::ShutdownTls, VisionNext::Do(VisionOp::WriteTls))
        } else {
            (VisionPc::Done, VisionNext::Answer(TlsAnswer::InnerShutdown))
        },
        VisionPc::ShutdownTls => match o {
            TlsOutcome::Count(_) => (VisionPc::ShutdownWants, VisionNext::Do(VisionOp::WantsWrite)),
            TlsOutcome::WouldBlock => (VisionPc::Done, pending),
            _ => (VisionPc::Done, error),
        },
        VisionPc::Done => (VisionPc::Done, error),
    }
}

/// Starts a read poll: unframe what the framer holds.
pub fn vision_start_read() -> (r: (VisionPc, VisionNext))
    ensures
        r == (VisionPc::ReadUnframe, VisionNext::Do(VisionOp::Unframe)),
{
    (VisionPc::ReadUnframe, VisionNext::Do(VisionOp::Unframe))
}

/// Starts a write poll: first see whether framed bytes still wait.
pub fn vision_start_write() -> (r: (VisionPc, VisionNext))
    ensures
        r == (VisionPc::WriteDrain, VisionNext::Do(VisionOp::HasPendingWrite)),
{
    (VisionPc::WriteDrain, VisionNext::Do(VisionOp::HasPendingWrite))
}

/// Starts a flush poll: ask whether the session wants to write.
pub fn vision_start_flush() -> (r: (VisionPc, VisionNext))
    ensures
        r == (VisionPc::FlushWants, VisionNext::Do(VisionOp::WantsWrite)),
{
    (VisionPc::FlushWants, VisionNext::Do(VisionOp::WantsWrite))
}

/// Starts a shutdown poll: send close-notify.
pub fn vision_start_shutdown() -> (r: (VisionPc, VisionNext))
    ensures
        r == (VisionPc::ShutdownClose, VisionNext::Do(VisionOp::SendCloseNotify)),
{
    (VisionPc::ShutdownClose, VisionNext::Do(VisionOp::SendCloseNotify))
}

/// Takes in what the operation asked for at `pc` gave and says what comes
/// next, as `vision_step` says. `buf_full` tells a read poll whether the
/// caller's buffer has no room left.
pub fn vision_poll_step(pc: VisionPc, o: TlsOutcome, buf_full: bool) -> (r: (VisionPc, VisionNext))
    requires
        vision_fits(pc, o),
    ensures
        r == vision_step(pc, o, buf_full),
{
    let error = VisionNext::Answer(TlsAnswer::Error);
    let pending = VisionNext::Answer(TlsAnswer::Pending);
    match pc {
        VisionPc::ReadUnframe => match o {
            TlsOutcome::Count(n) => if n > 0 || buf_full {
                (VisionPc::Done, VisionNext::Answer(TlsAnswer::Ready))
            } else {
                (VisionPc::ReadPlainFirst, VisionNext::Do(VisionOp::ReadPlain))
            },
            _ => (VisionPc::Done, error),
        },
        VisionPc::ReadPlainFirst => match o {
            TlsOutcome::Count(n) => if n > 0 {
                (VisionPc::ReadUnframe, VisionNext::Do(VisionOp::Unframe))
            } else {
                (VisionPc::ReadTls, VisionNext::Do(VisionOp::ReadTls))
            },
            TlsOutcome::WouldBlock => (VisionPc::ReadTls, VisionNext::Do(VisionOp::ReadTls)),
            _ => (VisionPc::Done, error),
        },
        VisionPc::ReadTls => match o {
            TlsOutcome::Count(n) => (VisionPc::ReadProcess(n == 0), VisionNext::Do(VisionOp::ProcessPackets)),
            TlsOutcome::WouldBlock => (VisionPc::Done, pending),
            _ => (VisionPc::Done, error),
        },
        VisionPc::ReadProcess(none) => if o == TlsOutcome::Ready {
            (VisionPc::ReadPlainAfter(none), VisionNext::Do(VisionOp::ReadPlain))
        } else {
            (VisionPc::Done, error)
        },
        VisionPc::ReadPlainAfter(none) => match o {
            TlsOutcome::Count(n) => if n == 0 && none {
                (VisionPc::Done, VisionNext::Answer(TlsAnswer::Ready))
            } else {
                (VisionPc::ReadUnframe, VisionNext::Do(VisionOp::Unframe))
            },
            TlsOutcome::WouldBlock => (VisionPc::Done, pending),
            _ => (VisionPc::Done, error),
        },
        VisionPc::WriteDrain => if o == TlsOutcome::Yes {
            (VisionPc::WriteDrainPlain, VisionNext::Do(VisionOp::WritePlain))
        } else {
            (VisionPc::WriteFrame, VisionNext::Do(VisionOp::FrameWrite))
        },
        VisionPc::WriteDrainPlain => match o {
            TlsOutcome::Count(n) => if n == 0 {
                (VisionPc::WriteDrainTls, VisionNext::Do(VisionOp::WriteTls))
            } else {
                (VisionPc::WriteDrain, VisionNext::Do(VisionOp::HasPendingWrite))
            },
            _ => (VisionPc::Done, error),
        },
        VisionPc::WriteDrainTls => match o {
            TlsOutcome::Count(_) => (VisionPc::WriteDrain, VisionNext::Do(VisionOp::HasPendingWrite)),
            TlsOutcome::WouldBlock => (VisionPc::Done, pending),
            _ => (VisionPc::Done, error),
        },
        VisionPc::WriteFrame => match o {
            TlsOutcome::Count(n) => (VisionPc::WritePush(n), VisionNext::Do(VisionOp::HasPendingWrite)),
            _ => (VisionPc::Done, error),
        },
        VisionPc::WritePush(n) => if o == TlsOutcome::Yes {
            (VisionPc::WritePushPlain(n), VisionNext::Do(VisionOp::WritePlain))
        } else {
            (VisionPc::WriteOut(n), VisionNext::Do(VisionOp::WantsWrite))
        },
        VisionPc::WritePushPlain(n) => match o {
            TlsOutcome::Count(_) => (VisionPc::WritePush(n), VisionNext::Do(VisionOp::HasPendingWrite)),
            _ => (VisionPc::Done, error),
        },
        VisionPc::WriteOut(n) => if o == TlsOutcome::Yes {
            (VisionPc::WriteOutTls(n), VisionNext::Do(VisionOp::WriteTls))
        } else {
            (VisionPc::Done, VisionNext::Answer(TlsAnswer::ReadyCount(n)))
        },
        VisionPc::WriteOutTls(n) => match o {
            TlsOutcome::Count(_) => (VisionPc::WriteOut(n), VisionNext::Do(VisionOp::WantsWrite)),
            TlsOutcome::WouldBlock => (VisionPc::Done, VisionNext::Answer(TlsAnswer::ReadyCount(n))),
            _ => (VisionPc::Done, error),
        },
        VisionPc::FlushWants => if o == TlsOutcome::Yes {
            (VisionPc::FlushTls, VisionNext::Do(VisionOp::WriteTls))
        } else {
            (VisionPc::Done, VisionNext::Answer(TlsAnswer::InnerFlush))
        },
        VisionPc::FlushTls => match o {
            TlsOutcome::Count(_) => (VisionPc::FlushWants, VisionNext::Do(VisionOp::WantsWrite)),
            TlsOutcome::WouldBlock => (VisionPc::Done, pending),
            _ => (VisionPc::Done, error),
        },
        VisionPc::ShutdownClose => (VisionPc::ShutdownWants, VisionNext::Do(VisionOp::WantsWrite)),
        VisionPc::ShutdownWants => if o == TlsOutcome::Yes {
            (VisionPc::ShutdownTls, VisionNext::Do(VisionOp::WriteTls))
        } else {
            (VisionPc::Done, VisionNext::Answer(TlsAnswer::InnerShutdown))
        },
        VisionPc::ShutdownTls => match o {
            TlsOutcome::Count(_) => (VisionPc::ShutdownWants, VisionNext::Do(VisionOp::WantsWrite)),
            TlsOutcome::WouldBlock => (VisionPc::Done, pending),
            _ => (VisionPc::Done, error),
        },
        VisionPc::Done => (VisionPc::Done, error),
    }
}

/// A step answers exactly when its machine is done; a poll waits (answers
/// `Pending`) only when the session or the inner stream would block; a write
/// poll frames the caller's data only once no framed bytes wait, and answers
/// a count only with the number of bytes it framed; a read poll answers with
/// no unframed data only when its buffer is full or the inner stream and the
/// session gave nothing.
pub proof fn lemma_vision_step_laws(pc: VisionPc, o: TlsOutcome, buf_full: bool)
    requires
        vision_fits(pc, o),
    ensures
        ({
            let (pc2, next) = vision_step(pc, o, buf_full);
            &&& (next is Answer <==> pc2 == VisionPc::Done)
            &&& (next == VisionNext::Answer(TlsAnswer::Pending) ==> o == TlsOutcome::WouldBlock)
            &&& (next == VisionNext::Do(VisionOp::FrameWrite) ==> pc == VisionPc::WriteDrain && o == TlsOutcome::No)
            &&& forall|n: usize|
                next == VisionNext::Answer(TlsAnswer::ReadyCount(n)) ==> (pc == VisionPc::WriteOut(n) || pc
                    == VisionPc::WriteOutTls(n))
            &&& forall|n: usize| pc2 == VisionPc::WritePush(n) ==> (pc == VisionPc::WriteFrame && o == TlsOutcome::Count(n))
                || pc == VisionPc::WritePushPlain(n)
            &&& (next == VisionNext::Answer(TlsAnswer::Ready) ==> {
                ||| pc == VisionPc::ReadUnframe && (buf_full || (o matches TlsOutcome::Count(k) && k > 0))
                ||| pc == VisionPc::ReadPlainAfter(true) && o == TlsOutcome::Count(0)
            })
        }),
{
}

/// Which machine waits at `pc`.
#[derive(Debug, Clone, Copy, PartialEq, Eq, Structural)]
pub enum VisionMachine {
    ReadPoll,
    WritePoll,
    FlushPoll,
    ShutdownPoll,
}

/// The machine that waits at `pc` (`None` once it has answered).
pub open spec fn vision_machine_of(pc: VisionPc) -> Option<VisionMachine> {
    match pc {
        VisionPc::ReadUnframe | VisionPc::ReadPlainFirst | VisionPc::ReadTls | VisionPc::ReadProcess(_)
        | VisionPc::ReadPlainAfter(_) => Some(VisionMachine::ReadPoll),
        VisionPc::WriteDrain | VisionPc::WriteDrainPlain | VisionPc::WriteDrainTls | VisionPc::WriteFrame
        | VisionPc::WritePush(_) | VisionPc::WritePushPlain(_) | VisionPc::WriteOut(_) | VisionPc::WriteOutTls(_) => Some(
            VisionMachine::WritePoll,
        ),
        VisionPc::FlushWants | VisionPc::FlushTls => Some(VisionMachine::FlushPoll),
        VisionPc::ShutdownClose | VisionPc::ShutdownWants | VisionPc::ShutdownTls => Some(VisionMachine::ShutdownPoll),
        VisionPc::Done => None,
    }
}

/// Whether `a` is the answer a poll gives when it goes through.
pub open spec fn vision_success_answer(m: VisionMachine, a: TlsAnswer) -> bool {
    match m {
        VisionMachine::ReadPoll => a == TlsAnswer::Ready,
        VisionMachine::WritePoll => a is ReadyCount,
        VisionMachine::FlushPoll => a == TlsAnswer::InnerFlush,
        VisionMachine::ShutdownPoll => a == TlsAnswer::InnerShutdown,
    }
}

/// How the Vision polls answer and go on: with an error exactly when the
/// operation waited for failed, or when the session's plaintext writer would
/// block (which the stream passes on as an error); with `Pending` only on
/// `WouldBlock`; else with the answer of a poll that went through. A step
/// stays in its poll. Plaintext taken out of the session into the framer is
/// unframed next. After a TLS record went to the inner stream, the session
/// is asked again whether it wants to write. A write poll answers its count
/// only once the session wants no more writing or the inner stream would
/// block, and framed data handed to the session is followed by asking for
/// more framed data.
pub proof fn lemma_vision_answers(pc: VisionPc, o: TlsOutcome, buf_full: bool)
    requires
        vision_fits(pc, o),
    ensures
        ({
            let (pc2, next) = vision_step(pc, o, buf_full);
            &&& vision_machine_of(pc) is Some
            &&& (pc2 == VisionPc::Done || vision_machine_of(pc2) == vision_machine_of(pc))
            &&& (next == VisionNext::Answer(TlsAnswer::Error) <==> (o == TlsOutcome::Failed || (o == TlsOutcome::WouldBlock
                && (pc == VisionPc::WriteDrainPlain || pc is WritePushPlain))))
            &&& forall|a: TlsAnswer|
                next == VisionNext::Answer(a) && a != TlsAnswer::Error && a != TlsAnswer::Pending
                    ==> vision_success_answer(vision_machine_of(pc).unwrap(), a)
            &&& ((pc == VisionPc::ReadPlainFirst || pc is ReadPlainAfter) && (o matches TlsOutcome::Count(k) && k > 0)
                ==> next == VisionNext::Do(VisionOp::Unframe))
            &&& ((pc is WriteOutTls || pc == VisionPc::FlushTls || pc == VisionPc::ShutdownTls || pc
                == VisionPc::WriteDrainTls) && o is Count ==> next == VisionNext::Do(VisionOp::WantsWrite) || next
                == VisionNext::Do(VisionOp::HasPendingWrite))
            &&& forall|n: usize|
                next == VisionNext::Answer(TlsAnswer::ReadyCount(n)) ==> (pc == VisionPc::WriteOut(n) && o == TlsOutcome::No)
                    || (pc == VisionPc::WriteOutTls(n) && o == TlsOutcome::WouldBlock)
            &&& forall|n: usize|
                pc == VisionPc::WriteOutTls(n) && o is Count ==> pc2 == VisionPc::WriteOut(n)
            &&& ((pc == VisionPc::WriteDrainPlain || pc is WritePushPlain) && o is Count ==> next == VisionNext::Do(
                VisionOp::HasPendingWrite) || next == VisionNext::Do(VisionOp::WriteTls))
        }),
{
}

/// How the Vision polls go on when an operation went through: a read poll
/// with nothing unframed and room left takes plaintext out of the session;
/// with none there it reads TLS records, processes them and takes plaintext
/// out again; a write poll hands waiting framed bytes to the session first
/// (writing records to the inner stream when the session takes none), then
/// frames the data once none wait, hands those frames over, and writes
/// records while the session wants to; the flush and shutdown polls write
/// records while the session wants to.
pub proof fn lemma_vision_progress(pc: VisionPc, o: TlsOutcome, buf_full: bool)
    requires
        vision_fits(pc, o),
    ensures
        ({
            let (pc2, next) = vision_step(pc, o, buf_full);
            &&& (pc == VisionPc::ReadUnframe && o == TlsOutcome::Count(0) && !buf_full ==> next == VisionNext::Do(
                VisionOp::ReadPlain,
            ))
            &&& (pc == VisionPc::ReadPlainFirst && (o == TlsOutcome::Count(0) || o == TlsOutcome::WouldBlock) ==> next
                == VisionNext::Do(VisionOp::ReadTls))
            &&& (pc == VisionPc::ReadTls && o is Count ==> next == VisionNext::Do(VisionOp::ProcessPackets))
            &&& (pc is ReadProcess && o == TlsOutcome::Ready ==> next == VisionNext::Do(VisionOp::ReadPlain))
            &&& (pc == VisionPc::WriteDrain ==> next == (if o == TlsOutcome::Yes {
                VisionNext::Do(VisionOp::WritePlain)
            } else {
                VisionNext::Do(VisionOp::FrameWrite)
            }))
            &&& (pc == VisionPc::WriteDrainPlain && o == TlsOutcome::Count(0) ==> next == VisionNext::Do(VisionOp::WriteTls))
            &&& forall|n: usize|
                pc == VisionPc::WriteFrame && o == TlsOutcome::Count(n) ==> pc2 == VisionPc::WritePush(n) && next
                    == VisionNext::Do(VisionOp::HasPendingWrite)
            &&& forall|n: usize|
                pc == VisionPc::WritePush(n) ==> next == (if o == TlsOutcome::Yes {
                    VisionNext::Do(VisionOp::WritePlain)
                } else {
                    VisionNext::Do(VisionOp::WantsWrite)
                })
            &&& forall|n: usize|
                pc == VisionPc::WriteOut(n) && o == TlsOutcome::Yes ==> next == VisionNext::Do(VisionOp::WriteTls)
            &&& ((pc == VisionPc::FlushWants || pc == VisionPc::ShutdownWants) && o == TlsOutcome::Yes ==> next
                == VisionNext::Do(VisionOp::WriteTls))
            &&& (pc == VisionPc::ShutdownClose ==> next == VisionNext::Do(VisionOp::WantsWrite))
        }),
{
}

} // verus!
