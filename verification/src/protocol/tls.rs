//! The decisions of a TLS stream driven by polling.
//!
//! The caller owns the TLS session and the inner stream. It starts one of the
//! machines below for each poll (or for the flush and drive steps that the
//! polls use), performs each operation the machine asks for, and hands the
//! outcome back, until the machine answers. The only state the stream keeps
//! across polls is whether it has met the end of the inner stream.
use vstd::prelude::*;

verus! {

/// What the caller does next on the session or the inner stream.
#[derive(Debug, Clone, Copy, PartialEq, Eq, Structural)]
pub enum TlsOp {
    /// Run the flush machine (`TlsDriver::start_flush_tls`) to its answer.
    FlushTls,
    /// Run the drive machine (`TlsDriver::start_drive`) to its answer.
    DriveReadable,
    /// `session.wants_write()`: `Yes` or `No`.
    WantsWrite,
    /// `session.write_tls(inner)`: `Count(n)`, `WouldBlock` or `Failed`.
    WriteTls,
    /// `session.read_tls(inner)`: `Count(n)`, `WouldBlock` or `Failed`.
    ReadTls,
    /// `session.process_new_packets()`: `Ready` or `Failed`.
    ProcessPackets,
    /// `session.is_handshaking()`: `Yes` or `No`.
    IsHandshaking,
    /// `session.reader().read(..)` into the caller's buffer, advancing it by
    /// what was read: `Count(n)`, `WouldBlock` or `Failed`.
    ReadPlain,
    /// `session.writer().write(..)` of the caller's data: `Count(n)`,
    /// `WouldBlock` or `Failed`.
    WritePlain,
    /// `session.send_close_notify()`: `Ready`.
    SendCloseNotify,
}

/// What an operation gave.
#[derive(Debug, Clone, Copy, PartialEq, Eq, Structural)]
pub enum TlsOutcome {
    Ready,
    Pending,
    Yes,
    No,
    Count(usize),
    WouldBlock,
    Failed,
}

/// How a poll (or a flush or drive step) answers.
#[derive(Debug, Clone, Copy, PartialEq, Eq, Structural)]
pub enum TlsAnswer {
    /// `Poll::Ready(Ok(()))`.
    Ready,
    /// `Poll::Ready(Ok(n))` for a write.
    ReadyCount(usize),
    /// `Poll::Pending`.
    Pending,
    /// `Poll::Ready(Err(..))` with the error of the operation that failed.
    Error,
    /// Answer what the inner stream's `poll_flush` answers.
    InnerFlush,
    /// Answer what the inner stream's `poll_shutdown` answers.
    InnerShutdown,
}

/// The next thing to do.
#[derive(Debug, Clone, Copy, PartialEq, Eq, Structural)]
pub enum TlsNext {
    Do(TlsOp),
    Answer(TlsAnswer),
}

/// Where a machine waits for the outcome of the operation it asked for.
#[derive(Debug, Clone, Copy, PartialEq, Eq, Structural)]
pub enum TlsPc {
    FlushWants,
    FlushWrite,
    DriveFirstFlush,
    DriveRead,
    DriveProcess,
    DriveLastFlush,
    ReadHandshaking,
    ReadHandshakeDrive,
    ReadPlain,
    ReadDrive,
    WriteHandshaking,
    WriteHandshakeDrive,
    WriteFirstFlush,
    WritePlain,
    WriteRetryFlush,
    WriteDoneFlush(usize),
    PollFlush,
    ShutdownClose,
    ShutdownFlush,
    /// The machine has answered.
    Done,
}

/// Whether an outcome is one the operation awaited at `pc` can give.
pub open spec fn fits(pc: TlsPc, o: TlsOutcome) -> bool {
    match pc {
        TlsPc::FlushWants | TlsPc::ReadHandshaking | TlsPc::WriteHandshaking => o == TlsOutcome::Yes || o
            == TlsOutcome::No,
        TlsPc::FlushWrite | TlsPc::DriveRead | TlsPc::ReadPlain | TlsPc::WritePlain => o is Count || o
            == TlsOutcome::WouldBlock || o == TlsOutcome::Failed,
        TlsPc::DriveProcess => o == TlsOutcome::Ready || o == TlsOutcome::Failed,
        TlsPc::ShutdownClose => o == TlsOutcome::Ready,
        TlsPc::Done => false,
        _ => o == TlsOutcome::Ready || o == TlsOutcome::Pending || o == TlsOutcome::Failed,
    }
}

/// The main loop of a read poll: at the end of the stream it is done, else it
/// reads plaintext.
pub open spec fn read_loop(eof: bool) -> (TlsPc, TlsNext) {
    if eof {
        (TlsPc::Done, TlsNext::Answer(TlsAnswer::Ready))
    } else {
        (TlsPc::ReadPlain, TlsNext::Do(TlsOp::ReadPlain))
    }
}

/// What a write poll does once the handshake is over: flush, whatever that gives.
pub open spec fn write_after_handshake() -> (TlsPc, TlsNext) {
    (TlsPc::WriteFirstFlush, TlsNext::Do(TlsOp::FlushTls))
}

/// One step of the machines: given whether the stream has ended, where the
/// machine waits and what the operation gave, whether the stream has ended
/// now, where the machine waits next and what to do.
///
/// - Flush: while the session wants to write, write TLS records to the inner
///   stream; a write of 0 bytes means the stream has ended, which stops it.
/// - Drive: flush, read TLS records from the inner stream (0 bytes: the
///   stream has ended), process them, flush again.
/// - Read: while the handshake runs (and the stream has not ended), drive;
///   then until the stream ends, read plaintext, driving when there is none.
/// - Write: drive through the handshake, flush (a flush that would block
///   does not stop it), then write the data, flushing after each attempt;
///   answer the number of bytes the session took.
/// - Flush poll: flush, then poll the inner stream's flush. Shutdown poll:
///   send close-notify, flush, then poll the inner stream's shutdown.
pub open spec fn tls_step(eof: bool, pc: TlsPc, o: TlsOutcome, empty_write: bool) -> (bool, TlsPc, TlsNext) {
    let error = TlsNext::Answer(TlsAnswer::Error);
    let pending = TlsNext::Answer(TlsAnswer::Pending);
    match pc {
        TlsPc::FlushWants => if o == TlsOutcome::Yes {
            (eof, TlsPc::FlushWrite, TlsNext::Do(TlsOp::WriteTls))
        } else {
            (eof, TlsPc::Done, TlsNext::Answer(TlsAnswer::Ready))
        },
        TlsPc::FlushWrite => match o {
            TlsOutcome::Count(n) => if n == 0 {
                (true, TlsPc::Done, TlsNext::Answer(TlsAnswer::Ready))
            } else {
                (eof, TlsPc::FlushWants, TlsNext::Do(TlsOp::WantsWrite))
            },
            TlsOutcome::WouldBlock => (eof, TlsPc::Done, pending),
            _ => (eof, TlsPc::Done, error),
        },
        TlsPc::DriveFirstFlush => match o {
            TlsOutcome::Ready => (eof, TlsPc::DriveRead, TlsNext::Do(TlsOp::ReadTls)),
            TlsOutcome::Pending => (eof, TlsPc::Done, pending),
            _ => (eof, TlsPc::Done, error),
        },
        TlsPc::DriveRead => match o {
            TlsOutcome::Count(n) => if n == 0 {
                (true, TlsPc::Done, TlsNext::Answer(TlsAnswer::Ready))
            } else {
                (eof, TlsPc::DriveProcess, TlsNext::Do(TlsOp::ProcessPackets))
            },
            TlsOutcome::WouldBlock => (eof, TlsPc::Done, pending),
            _ => (eof, TlsPc::Done, error),
        },
        TlsPc::DriveProcess => if o == TlsOutcome::Ready {
            (eof, TlsPc::DriveLastFlush, TlsNext::Do(TlsOp::FlushTls))
        } else {
            (eof, TlsPc::Done, error)
        },
        TlsPc::DriveLastFlush => match o {
            TlsOutcome::Ready => (eof, TlsPc::Done, TlsNext::Answer(TlsAnswer::Ready)),
            TlsOutcome::Pending => (eof, TlsPc::Done, pending),
            _ => (eof, TlsPc::Done, error),
        },
        TlsPc::ReadHandshaking => if o == TlsOutcome::Yes && !eof {
            (eof, TlsPc::ReadHandshakeDrive, TlsNext::Do(TlsOp::DriveReadable))
        } else {
            let l = read_loop(eof);
            (eof, l.0, l.1)
        },
        TlsPc::ReadHandshakeDrive => match o {
            TlsOutcome::Ready => (eof, TlsPc::ReadHandshaking, TlsNext::Do(TlsOp::IsHandshaking)),
            TlsOutcome::Pending => (eof, TlsPc::Done, pending),
            _ => (eof, TlsPc::Done, error),
        },
        TlsPc::ReadPlain => match o {
            TlsOutcome::Count(n) => if n == 0 {
                (eof, TlsPc::ReadDrive, TlsNext::Do(TlsOp::DriveReadable))
            } else {
                (eof, TlsPc::Done, TlsNext::Answer(TlsAnswer::Ready))
            },
            TlsOutcome::WouldBlock => (eof, TlsPc::ReadDrive, TlsNext::Do(TlsOp::DriveReadable)),
            _ => (eof, TlsPc::Done, error),
        },
        TlsPc::ReadDrive => match o {
            TlsOutcome::Ready => {
                let l = read_loop(eof);
                (eof, l.0, l.1)
            },
            TlsOutcome::Pending => (eof, TlsPc::Done, pending),
            _ => (eof, TlsPc::Done, error),
        },
        TlsPc::WriteHandshaking => if o == TlsOutcome::Yes && !eof {
            (eof, TlsPc::WriteHandshakeDrive, TlsNext::Do(TlsOp::DriveReadable))
        } else {
            (eof, write_after_handshake().0, write_after_handshake().1)
        },
        TlsPc::WriteHandshakeDrive => match o {
            TlsOutcome::Ready => (eof, TlsPc::WriteHandshaking, TlsNext::Do(TlsOp::IsHandshaking)),
            TlsOutcome::Pending => (eof, TlsPc::Done, pending),
            _ => (eof, TlsPc::Done, error),
        },
        TlsPc::WriteFirstFlush => if o == TlsOutcome::Failed {
            (eof, TlsPc::Done, error)
        } else if empty_write {
            (eof, TlsPc::Done, TlsNext::Answer(TlsAnswer::ReadyCount(0)))
        } else {
            (eof, TlsPc::WritePlain, TlsNext::Do(TlsOp::WritePlain))
        },
        TlsPc::WritePlain => match o {
            TlsOutcome::Count(n) => if n == 0 {
                (eof, TlsPc::WriteRetryFlush, TlsNext::Do(TlsOp::FlushTls))
            } else {
                (eof, TlsPc::WriteDoneFlush(n), TlsNext::Do(TlsOp::FlushTls))
            },
            TlsOutcome::WouldBlock => (eof, TlsPc::WriteRetryFlush, TlsNext::Do(TlsOp::FlushTls)),
            _ => (eof, TlsPc::Done, error),
        },
        TlsPc::WriteRetryFlush => match o {
            TlsOutcome::Ready => (eof, TlsPc::WritePlain, TlsNext::Do(TlsOp::WritePlain)),
            TlsOutcome::Pending => (eof, TlsPc::Done, pending),
            _ => (eof, TlsPc::Done, error),
        },
        TlsPc::WriteDoneFlush(n) => if o == TlsOutcome::Failed {
            (eof, TlsPc::Done, error)
        } else {
            (eof, TlsPc::Done, TlsNext::Answer(TlsAnswer::ReadyCount(n)))
        },
        TlsPc::PollFlush => match o {
            TlsOutcome::Ready => (eof, TlsPc::Done, TlsNext::Answer(TlsAnswer::InnerFlush)),
            TlsOutcome::Pending => (eof, TlsPc::Done, pending),
            _ => (eof, TlsPc::Done, error),
        },
        TlsPc::ShutdownClose => (eof, TlsPc::ShutdownFlush, TlsNext::Do(TlsOp::FlushTls)),
        TlsPc::ShutdownFlush => match o {
            TlsOutcome::Ready => (eof, TlsPc::Done, TlsNext::Answer(TlsAnswer::InnerShutdown)),
            TlsOutcome::Pending => (eof, TlsPc::Done, pending),
            _ => (eof, TlsPc::Done, error),
        },
        TlsPc::Done => (eof, TlsPc::Done, error),
    }
}

/// The state a TLS stream keeps across polls.
pub struct TlsDriver {
    eof: bool,
}

impl TlsDriver {
    /// Whether the stream has met the end of the inner stream.
    pub closed spec fn ended(&self) -> bool {
        self.eof
    }

    /// A stream that has not ended.
    pub fn new() -> (d: TlsDriver)
        ensures
            !d.ended(),
    {
        TlsDriver { eof: false }
    }

    /// Whether the stream has met the end of the inner stream.
    pub fn is_eof(&self) -> (b: bool)
        ensures
            b == self.ended(),
    {
        self.eof
    }

    /// Starts a flush: ask whether the session wants to write.
    pub fn start_flush_tls(&self) -> (r: (TlsPc, TlsNext))
        ensures
            r == (TlsPc::FlushWants, TlsNext::Do(TlsOp::WantsWrite)),
    {
        (TlsPc::FlushWants, TlsNext::Do(TlsOp::WantsWrite))
    }

    /// Starts a drive step: flush first.
    pub fn start_drive(&self) -> (r: (TlsPc, TlsNext))
        ensures
            r == (TlsPc::DriveFirstFlush, TlsNext::Do(TlsOp::FlushTls)),
    {
        (TlsPc::DriveFirstFlush, TlsNext::Do(TlsOp::FlushTls))
    }

    /// Starts a read poll: an ended stream answers at once with no data.
    pub fn start_read(&self) -> (r: (TlsPc, TlsNext))
        ensures
            self.ended() ==> r == (TlsPc::Done, TlsNext::Answer(TlsAnswer::Ready)),
            !self.ended() ==> r == (TlsPc::ReadHandshaking, TlsNext::Do(TlsOp::IsHandshaking)),
    {
        if self.eof {
            (TlsPc::Done, TlsNext::Answer(TlsAnswer::Ready))
        } else {
            (TlsPc::ReadHandshaking, TlsNext::Do(TlsOp::IsHandshaking))
        }
    }

    /// Starts a write poll: an ended stream answers at once that it wrote
    /// nothing.
    pub fn start_write(&self) -> (r: (TlsPc, TlsNext))
        ensures
            self.ended() ==> r == (TlsPc::Done, TlsNext::Answer(TlsAnswer::ReadyCount(0))),
            !self.ended() ==> r == (TlsPc::WriteHandshaking, TlsNext::Do(TlsOp::IsHandshaking)),
    {
        if self.eof {
            (TlsPc::Done, TlsNext::Answer(TlsAnswer::ReadyCount(0)))
        } else {
            (TlsPc::WriteHandshaking, TlsNext::Do(TlsOp::IsHandshaking))
        }
    }

    /// Starts a flush poll: an ended stream answers at once.
    pub fn start_poll_flush(&self) -> (r: (TlsPc, TlsNext))
        ensures
            self.ended() ==> r == (TlsPc::Done, TlsNext::Answer(TlsAnswer::Ready)),
            !self.ended() ==> r == (TlsPc::PollFlush, TlsNext::Do(TlsOp::FlushTls)),
    {
        if self.eof {
            (TlsPc::Done, TlsNext::Answer(TlsAnswer::Ready))
        } else {
            (TlsPc::PollFlush, TlsNext::Do(TlsOp::FlushTls))
        }
    }

    /// Starts a shutdown poll: an ended stream answers at once; else send
    /// close-notify first.
    pub fn start_shutdown(&self) -> (r: (TlsPc, TlsNext))
        ensures
            self.ended() ==> r == (TlsPc::Done, TlsNext::Answer(TlsAnswer::Ready)),
            !self.ended() ==> r == (TlsPc::ShutdownClose, TlsNext::Do(TlsOp::SendCloseNotify)),
    {
        if self.eof {
            (TlsPc::Done, TlsNext::Answer(TlsAnswer::Ready))
        } else {
            (TlsPc::ShutdownClose, TlsNext::Do(TlsOp::SendCloseNotify))
        }
    }

    /// Takes in what the operation asked for at `pc` gave and says what comes
    /// next, as `tls_step` says. `empty_write` tells a write poll whether its
    /// data is empty.
    pub fn step(&mut self, pc: TlsPc, o: TlsOutcome, empty_write: bool) -> (r: (TlsPc, TlsNext))
        requires
            fits(pc, o),
        ensures
            (final(self).ended(), r.0, r.1) == tls_step(old(self).ended(), pc, o, empty_write),
    {
        let eof = self.eof;
        let error = TlsNext::Answer(TlsAnswer::Error);
        let pending = TlsNext::Answer(TlsAnswer::Pending);
        match pc {
            TlsPc::FlushWants => if o == TlsOutcome::Yes {
                (TlsPc::FlushWrite, TlsNext::Do(TlsOp::WriteTls))
            } else {
                (TlsPc::Done, TlsNext::Answer(TlsAnswer::Ready))
            },
            TlsPc::FlushWrite => match o {
                TlsOutcome::Count(n) => if n == 0 {
                    self.eof = true;
                    (TlsPc::Done, TlsNext::Answer(TlsAnswer::Ready))
                } else {
                    (TlsPc::FlushWants, TlsNext::Do(TlsOp::WantsWrite))
                },
                TlsOutcome::WouldBlock => (TlsPc::Done, pending),
                _ => (TlsPc::Done, error),
            },
            TlsPc::DriveFirstFlush => match o {
                TlsOutcome::Ready => (TlsPc::DriveRead, TlsNext::Do(TlsOp::ReadTls)),
                TlsOutcome::Pending => (TlsPc::Done, pending),
                _ => (TlsPc::Done, error),
            },
            TlsPc::DriveRead => match o {
                TlsOutcome::Count(n) => if n == 0 {
                    self.eof = true;
                    (TlsPc::Done, TlsNext::Answer(TlsAnswer::Ready))
                } else {
                    (TlsPc::DriveProcess, TlsNext::Do(TlsOp::ProcessPackets))
                },
                TlsOutcome::WouldBlock => (TlsPc::Done, pending),
                _ => (TlsPc::Done, error),
            },
            TlsPc::DriveProcess => if o == TlsOutcome::Ready {
                (TlsPc::DriveLastFlush, TlsNext::Do(TlsOp::FlushTls))
            } else {
                (TlsPc::Done, error)
            },
            TlsPc::DriveLastFlush => match o {
                TlsOutcome::Ready => (TlsPc::Done, TlsNext::Answer(TlsAnswer::Ready)),
                TlsOutcome::Pending => (TlsPc::Done, pending),
                _ => (TlsPc::Done, error),
            },
            TlsPc::ReadHandshaking => if o == TlsOutcome::Yes && !eof {
                (TlsPc::ReadHandshakeDrive, TlsNext::Do(TlsOp::DriveReadable))
            } else if eof {
                (TlsPc::Done, TlsNext::Answer(TlsAnswer::Ready))
            } else {
                (TlsPc::ReadPlain, TlsNext::Do(TlsOp::ReadPlain))
            },
            TlsPc::ReadHandshakeDrive => match o {
                TlsOutcome::Ready => (TlsPc::ReadHandshaking, TlsNext::Do(TlsOp::IsHandshaking)),
                TlsOutcome::Pending => (TlsPc::Done, pending),
                _ => (TlsPc::Done, error),
            },
            TlsPc::ReadPlain => match o {
                TlsOutcome::Count(n) => if n == 0 {
                    (TlsPc::ReadDrive, TlsNext::Do(TlsOp::DriveReadable))
                } else {
                    (TlsPc::Done, TlsNext::Answer(TlsAnswer::Ready))
                },
                TlsOutcome::WouldBlock => (TlsPc::ReadDrive, TlsNext::Do(TlsOp::DriveReadable)),
                _ => (TlsPc::Done, error),
            },
            TlsPc::ReadDrive => match o {
                TlsOutcome::Ready => if eof {
                    (TlsPc::Done, TlsNext::Answer(TlsAnswer::Ready))
                } else {
                    (TlsPc::ReadPlain, TlsNext::Do(TlsOp::ReadPlain))
                },
                TlsOutcome::Pending => (TlsPc::Done, pending),
                _ => (TlsPc::Done, error),
            },
            TlsPc::WriteHandshaking => if o == TlsOutcome::Yes && !eof {
                (TlsPc::WriteHandshakeDrive, TlsNext::Do(TlsOp::DriveReadable))
            } else {
                (TlsPc::WriteFirstFlush, TlsNext::Do(TlsOp::FlushTls))
            },
            TlsPc::WriteHandshakeDrive => match o {
                TlsOutcome::Ready => (TlsPc::WriteHandshaking, TlsNext::Do(TlsOp::IsHandshaking)),
                TlsOutcome::Pending => (TlsPc::Done, pending),
                _ => (TlsPc::Done, error),
            },
            TlsPc::WriteFirstFlush => if o == TlsOutcome::Failed {
                (TlsPc::Done, error)
            } else if empty_write {
                (TlsPc::Done, TlsNext::Answer(TlsAnswer::ReadyCount(0)))
            } else {
                (TlsPc::WritePlain, TlsNext::Do(TlsOp::WritePlain))
            },
            TlsPc::WritePlain => match o {
                TlsOutcome::Count(n) => if n == 0 {
                    (TlsPc::WriteRetryFlush, TlsNext::Do(TlsOp::FlushTls))
                } else {
                    (TlsPc::WriteDoneFlush(n), TlsNext::Do(TlsOp::FlushTls))
                },
                TlsOutcome::WouldBlock => (TlsPc::WriteRetryFlush, TlsNext::Do(TlsOp::FlushTls)),
                _ => (TlsPc::Done, error),
            },
            TlsPc::WriteRetryFlush => match o {
                TlsOutcome::Ready => (TlsPc::WritePlain, TlsNext::Do(TlsOp::WritePlain)),
                TlsOutcome::Pending => (TlsPc::Done, pending),
                _ => (TlsPc::Done, error),
            },
            TlsPc::WriteDoneFlush(n) => if o == TlsOutcome::Failed {
                (TlsPc::Done, error)
            } else {
                (TlsPc::Done, TlsNext::Answer(TlsAnswer::ReadyCount(n)))
            },
            TlsPc::PollFlush => match o {
                TlsOutcome::Ready => (TlsPc::Done, TlsNext::Answer(TlsAnswer::InnerFlush)),
                TlsOutcome::Pending => (TlsPc::Done, pending),
                _ => (TlsPc::Done, error),
            },
            TlsPc::ShutdownClose => (TlsPc::ShutdownFlush, TlsNext::Do(TlsOp::FlushTls)),
            TlsPc::ShutdownFlush => match o {
                TlsOutcome::Ready => (TlsPc::Done, TlsNext::Answer(TlsAnswer::InnerShutdown)),
                TlsOutcome::Pending => (TlsPc::Done, pending),
                _ => (TlsPc::Done, error),
            },
            TlsPc::Done => (TlsPc::Done, error),
        }
    }
}

/// Once a TLS stream has met the end of its inner stream it stays ended;
/// a machine that answers is done; a write poll answers a count only once the
/// session took that many bytes of the data (or 0 for empty data); and a step
/// asks for an operation exactly when it does not answer.
pub proof fn lemma_tls_step_laws(eof: bool, pc: TlsPc, o: TlsOutcome, empty_write: bool)
    requires
        fits(pc, o),
    ensures
        ({
            let (eof2, pc2, next) = tls_step(eof, pc, o, empty_write);
            &&& eof ==> eof2
            &&& (next is Answer <==> pc2 == TlsPc::Done)
            &&& (next == TlsNext::Answer(TlsAnswer::ReadyCount(0)) ==> pc == TlsPc::WriteFirstFlush && empty_write
                || pc == TlsPc::WriteDoneFlush(0))
            &&& forall|n: usize|
                n > 0 && next == TlsNext::Answer(TlsAnswer::ReadyCount(n)) ==> pc == TlsPc::WriteDoneFlush(n)
        }),
{
}

/// Whether `pc` is a place where a read poll's own machine waits.
pub open spec fn is_read_pc(pc: TlsPc) -> bool {
    pc == TlsPc::ReadHandshaking || pc == TlsPc::ReadHandshakeDrive || pc == TlsPc::ReadPlain || pc == TlsPc::ReadDrive
}

/// A read poll and the end of the stream: its own steps never change whether
/// the stream has ended (only the flush and drive steps it runs do); it answers
/// `Ready` without having read plaintext only once the stream has ended; once
/// it has ended, it reads no more plaintext and answers `Ready` at the next
/// step that looks (as `start_read` answers `Ready` at once on every later
/// poll). A poll can still answer `Pending` or an error after a drive step
/// met the end and then could not go on; the next poll then answers at once.
pub proof fn lemma_tls_read_poll_end(eof: bool, pc: TlsPc, o: TlsOutcome, empty_write: bool)
    requires
        is_read_pc(pc),
        fits(pc, o),
    ensures
        ({
            let (eof2, pc2, next) = tls_step(eof, pc, o, empty_write);
            &&& eof2 == eof
            &&& (next == TlsNext::Answer(TlsAnswer::Ready) ==> eof || (pc == TlsPc::ReadPlain && (o matches TlsOutcome::Count(n) && n > 0)))
            &&& (next == TlsNext::Do(TlsOp::ReadPlain) ==> !eof)
            &&& (eof && (pc == TlsPc::ReadHandshaking || (pc == TlsPc::ReadDrive && o == TlsOutcome::Ready)) ==> next
                == TlsNext::Answer(TlsAnswer::Ready))
        }),
{
}

/// Which machine waits at `pc`.
#[derive(Debug, Clone, Copy, PartialEq, Eq, Structural)]
pub enum TlsMachine {
    Flush,
    Drive,
    ReadPoll,
    WritePoll,
    FlushPoll,
    ShutdownPoll,
}

/// The machine that waits at `pc` (`None` once it has answered).
pub open spec fn machine_of(pc: TlsPc) -> Option<TlsMachine> {
    match pc {
        TlsPc::FlushWants | TlsPc::FlushWrite => Some(TlsMachine::Flush),
        TlsPc::DriveFirstFlush | TlsPc::DriveRead | TlsPc::DriveProcess | TlsPc::DriveLastFlush => Some(
            TlsMachine::Drive,
        ),
        TlsPc::ReadHandshaking | TlsPc::ReadHandshakeDrive | TlsPc::ReadPlain | TlsPc::ReadDrive => Some(
            TlsMachine::ReadPoll,
        ),
        TlsPc::WriteHandshaking | TlsPc::WriteHandshakeDrive | TlsPc::WriteFirstFlush | TlsPc::WritePlain
        | TlsPc::WriteRetryFlush | TlsPc::WriteDoneFlush(_) => Some(TlsMachine::WritePoll),
        TlsPc::PollFlush => Some(TlsMachine::FlushPoll),
        TlsPc::ShutdownClose | TlsPc::ShutdownFlush => Some(TlsMachine::ShutdownPoll),
        TlsPc::Done => None,
    }
}

/// Whether `a` is the answer a machine gives when it goes through.
pub open spec fn is_success_answer(m: TlsMachine, a: TlsAnswer) -> bool {
    match m {
        TlsMachine::Flush | TlsMachine::Drive | TlsMachine::ReadPoll => a == TlsAnswer::Ready,
        TlsMachine::WritePoll => a is ReadyCount,
        TlsMachine::FlushPoll => a == TlsAnswer::InnerFlush,
        TlsMachine::ShutdownPoll => a == TlsAnswer::InnerShutdown,
    }
}

/// How a machine answers: with an error exactly when the operation it waited
/// for failed; with `Pending` only when that operation waited or would block;
/// else with the answer of a machine that went through (a flush, a drive and
/// a read poll `Ready`, a write poll the count, a flush or shutdown poll the
/// inner stream's flush or shutdown). A step never hands over to another
/// machine. The last flush of a drive, the flush after the session took data,
/// and the flushes of the flush and shutdown polls always end their machine;
/// once the session took `n > 0` bytes, the write poll answers `n` unless
/// that flush failed, and never waits.
pub proof fn lemma_tls_answers(eof: bool, pc: TlsPc, o: TlsOutcome, empty_write: bool)
    requires
        fits(pc, o),
    ensures
        ({
            let (eof2, pc2, next) = tls_step(eof, pc, o, empty_write);
            &&& machine_of(pc) is Some
            &&& (pc2 == TlsPc::Done || machine_of(pc2) == machine_of(pc))
            &&& (next == TlsNext::Answer(TlsAnswer::Error) <==> o == TlsOutcome::Failed)
            &&& (next == TlsNext::Answer(TlsAnswer::Pending) ==> o == TlsOutcome::Pending || o == TlsOutcome::WouldBlock)
            &&& forall|a: TlsAnswer|
                next == TlsNext::Answer(a) && a != TlsAnswer::Error && a != TlsAnswer::Pending ==> is_success_answer(
                    machine_of(pc).unwrap(),
                    a,
                )
            &&& (pc == TlsPc::DriveLastFlush || pc is WriteDoneFlush || pc == TlsPc::PollFlush || pc
                == TlsPc::ShutdownFlush) ==> pc2 == TlsPc::Done && next is Answer
            &&& forall|n: usize|
                pc == TlsPc::WriteDoneFlush(n) && o != TlsOutcome::Failed ==> next == TlsNext::Answer(
                    TlsAnswer::ReadyCount(n),
                )
            &&& (pc == TlsPc::DriveLastFlush && o == TlsOutcome::Ready ==> next == TlsNext::Answer(TlsAnswer::Ready))
        }),
{
}

/// How the machines go on when an operation went through: the stream ends
/// exactly when a TLS write or read moved 0 bytes; a flush keeps writing
/// records while the session wants to; a drive reads records, then processes
/// them, then flushes; polls drive the handshake while it runs and the stream
/// has not ended; a read poll answers as soon as it read plaintext, and
/// drives the session when there was none; a write poll flushes before it
/// writes, hands the data to the session, flushes after the session took
/// some (and retries after a flush when it took none), and answers 0 at once
/// for empty data.
pub proof fn lemma_tls_progress(eof: bool, pc: TlsPc, o: TlsOutcome, empty_write: bool)
    requires
        fits(pc, o),
    ensures
        ({
            let (eof2, pc2, next) = tls_step(eof, pc, o, empty_write);
            &&& eof2 == (eof || ((pc == TlsPc::FlushWrite || pc == TlsPc::DriveRead) && o == TlsOutcome::Count(0)))
            &&& (pc == TlsPc::FlushWants ==> (next == TlsNext::Do(TlsOp::WriteTls) <==> o == TlsOutcome::Yes))
            &&& (pc == TlsPc::FlushWrite && (o matches TlsOutcome::Count(k) && k > 0) ==> next == TlsNext::Do(
                TlsOp::WantsWrite,
            ))
            &&& (pc == TlsPc::DriveFirstFlush && o == TlsOutcome::Ready ==> next == TlsNext::Do(TlsOp::ReadTls))
            &&& (pc == TlsPc::DriveRead && (o matches TlsOutcome::Count(k) && k > 0) ==> next == TlsNext::Do(
                TlsOp::ProcessPackets,
            ))
            &&& (pc == TlsPc::DriveProcess && o == TlsOutcome::Ready ==> next == TlsNext::Do(TlsOp::FlushTls))
            &&& ((pc == TlsPc::ReadHandshaking || pc == TlsPc::WriteHandshaking) && o == TlsOutcome::Yes && !eof
                ==> next == TlsNext::Do(TlsOp::DriveReadable))
            &&& ((pc == TlsPc::ReadHandshakeDrive || pc == TlsPc::WriteHandshakeDrive) && o == TlsOutcome::Ready
                ==> next == TlsNext::Do(TlsOp::IsHandshaking))
            &&& (pc == TlsPc::ReadPlain && (o matches TlsOutcome::Count(k) && k > 0) ==> next == TlsNext::Answer(
                TlsAnswer::Ready,
            ))
            &&& (pc == TlsPc::ReadPlain && (o == TlsOutcome::Count(0) || o == TlsOutcome::WouldBlock) ==> next
                == TlsNext::Do(TlsOp::DriveReadable))
            &&& (pc == TlsPc::WriteHandshaking && (o == TlsOutcome::No || eof) ==> next == TlsNext::Do(TlsOp::FlushTls))
            &&& (pc == TlsPc::WriteFirstFlush && o != TlsOutcome::Failed ==> next == (if empty_write {
                TlsNext::Answer(TlsAnswer::ReadyCount(0))
            } else {
                TlsNext::Do(TlsOp::WritePlain)
            }))
            &&& forall|k: usize|
                pc == TlsPc::WritePlain && o == TlsOutcome::Count(k) && k > 0 ==> pc2 == TlsPc::WriteDoneFlush(k) && next
                    == TlsNext::Do(TlsOp::FlushTls)
            &&& (pc == TlsPc::WritePlain && (o == TlsOutcome::Count(0) || o == TlsOutcome::WouldBlock) ==> next
                == TlsNext::Do(TlsOp::FlushTls) && pc2 == TlsPc::WriteRetryFlush)
            &&& (pc == TlsPc::WriteRetryFlush && o == TlsOutcome::Ready ==> next == TlsNext::Do(TlsOp::WritePlain))
            &&& (pc == TlsPc::ShutdownClose ==> next == TlsNext::Do(TlsOp::FlushTls))
        }),
{
}

} // verus!
