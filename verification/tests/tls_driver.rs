use alpha_ray::protocol::tls::{TlsAnswer, TlsDriver, TlsNext, TlsOp, TlsOutcome, TlsPc};

#[test]
fn read_poll_after_the_handshake_reads_plaintext() {
    let mut d = TlsDriver::new();
    assert!(!d.is_eof());
    let (pc, next) = d.start_read();
    assert_eq!(pc, TlsPc::ReadHandshaking);
    assert_eq!(next, TlsNext::Do(TlsOp::IsHandshaking));
    let (pc, next) = d.step(pc, TlsOutcome::No, false);
    assert_eq!(pc, TlsPc::ReadPlain);
    assert_eq!(next, TlsNext::Do(TlsOp::ReadPlain));
    let (pc, next) = d.step(pc, TlsOutcome::WouldBlock, false);
    assert_eq!(pc, TlsPc::ReadDrive);
    assert_eq!(next, TlsNext::Do(TlsOp::DriveReadable));
    let (pc, next) = d.step(pc, TlsOutcome::Ready, false);
    assert_eq!(pc, TlsPc::ReadPlain);
    assert_eq!(next, TlsNext::Do(TlsOp::ReadPlain));
    let (pc, next) = d.step(pc, TlsOutcome::Count(5), false);
    assert_eq!(pc, TlsPc::Done);
    assert_eq!(next, TlsNext::Answer(TlsAnswer::Ready));
}

#[test]
fn read_poll_drives_the_handshake_first() {
    let mut d = TlsDriver::new();
    let (pc, _) = d.start_read();
    let (pc, next) = d.step(pc, TlsOutcome::Yes, false);
    assert_eq!(pc, TlsPc::ReadHandshakeDrive);
    assert_eq!(next, TlsNext::Do(TlsOp::DriveReadable));
    let (pc, next) = d.step(pc, TlsOutcome::Pending, false);
    assert_eq!(pc, TlsPc::Done);
    assert_eq!(next, TlsNext::Answer(TlsAnswer::Pending));
}

#[test]
fn zero_byte_tls_write_ends_the_stream() {
    let mut d = TlsDriver::new();
    let (pc, next) = d.start_flush_tls();
    assert_eq!(next, TlsNext::Do(TlsOp::WantsWrite));
    let (pc, next) = d.step(pc, TlsOutcome::Yes, false);
    assert_eq!(pc, TlsPc::FlushWrite);
    assert_eq!(next, TlsNext::Do(TlsOp::WriteTls));
    let (pc, next) = d.step(pc, TlsOutcome::Count(0), false);
    assert_eq!(pc, TlsPc::Done);
    assert_eq!(next, TlsNext::Answer(TlsAnswer::Ready));
    assert!(d.is_eof());
    assert_eq!(d.start_write(), (TlsPc::Done, TlsNext::Answer(TlsAnswer::ReadyCount(0))));
    assert_eq!(d.start_read(), (TlsPc::Done, TlsNext::Answer(TlsAnswer::Ready)));
    assert_eq!(d.start_poll_flush(), (TlsPc::Done, TlsNext::Answer(TlsAnswer::Ready)));
    assert_eq!(d.start_shutdown(), (TlsPc::Done, TlsNext::Answer(TlsAnswer::Ready)));
}

#[test]
fn zero_byte_tls_read_ends_the_stream() {
    let mut d = TlsDriver::new();
    let (pc, next) = d.start_drive();
    assert_eq!(next, TlsNext::Do(TlsOp::FlushTls));
    let (pc, next) = d.step(pc, TlsOutcome::Ready, false);
    assert_eq!(next, TlsNext::Do(TlsOp::ReadTls));
    let (_, next) = d.step(pc, TlsOutcome::Count(0), false);
    assert_eq!(next, TlsNext::Answer(TlsAnswer::Ready));
    assert!(d.is_eof());
}

#[test]
fn drive_processes_then_flushes() {
    let mut d = TlsDriver::new();
    let (pc, _) = d.start_drive();
    let (pc, _) = d.step(pc, TlsOutcome::Ready, false);
    let (pc, next) = d.step(pc, TlsOutcome::Count(10), false);
    assert_eq!(pc, TlsPc::DriveProcess);
    assert_eq!(next, TlsNext::Do(TlsOp::ProcessPackets));
    let (pc2, next2) = d.step(pc, TlsOutcome::Ready, false);
    assert_eq!(pc2, TlsPc::DriveLastFlush);
    assert_eq!(next2, TlsNext::Do(TlsOp::FlushTls));
    let (_, failed) = d.step(pc, TlsOutcome::Failed, false);
    assert_eq!(failed, TlsNext::Answer(TlsAnswer::Error));
    assert!(!d.is_eof());
}

#[test]
fn write_poll_answers_what_the_session_took() {
    let mut d = TlsDriver::new();
    let (pc, _) = d.start_write();
    let (pc, next) = d.step(pc, TlsOutcome::No, false);
    assert_eq!(pc, TlsPc::WriteFirstFlush);
    assert_eq!(next, TlsNext::Do(TlsOp::FlushTls));
    let (pc, next) = d.step(pc, TlsOutcome::Pending, false);
    assert_eq!(pc, TlsPc::WritePlain);
    assert_eq!(next, TlsNext::Do(TlsOp::WritePlain));
    let (pc, next) = d.step(pc, TlsOutcome::Count(7), false);
    assert_eq!(pc, TlsPc::WriteDoneFlush(7));
    assert_eq!(next, TlsNext::Do(TlsOp::FlushTls));
    let (pc, next) = d.step(pc, TlsOutcome::Pending, false);
    assert_eq!(pc, TlsPc::Done);
    assert_eq!(next, TlsNext::Answer(TlsAnswer::ReadyCount(7)));
}

#[test]
fn empty_write_answers_zero_after_the_flush() {
    let mut d = TlsDriver::new();
    let (pc, _) = d.start_write();
    let (pc, _) = d.step(pc, TlsOutcome::No, true);
    let (_, next) = d.step(pc, TlsOutcome::Ready, true);
    assert_eq!(next, TlsNext::Answer(TlsAnswer::ReadyCount(0)));
}

#[test]
fn write_that_would_block_flushes_and_retries() {
    let mut d = TlsDriver::new();
    let (pc, _) = d.start_write();
    let (pc, _) = d.step(pc, TlsOutcome::No, false);
    let (pc, _) = d.step(pc, TlsOutcome::Ready, false);
    let (pc, next) = d.step(pc, TlsOutcome::WouldBlock, false);
    assert_eq!(pc, TlsPc::WriteRetryFlush);
    assert_eq!(next, TlsNext::Do(TlsOp::FlushTls));
    let (pc, next) = d.step(pc, TlsOutcome::Ready, false);
    assert_eq!(pc, TlsPc::WritePlain);
    assert_eq!(next, TlsNext::Do(TlsOp::WritePlain));
}

#[test]
fn flush_and_shutdown_polls_end_with_the_inner_stream() {
    let mut d = TlsDriver::new();
    let (pc, next) = d.start_poll_flush();
    assert_eq!(next, TlsNext::Do(TlsOp::FlushTls));
    let (_, next) = d.step(pc, TlsOutcome::Ready, false);
    assert_eq!(next, TlsNext::Answer(TlsAnswer::InnerFlush));
    let (pc, next) = d.start_shutdown();
    assert_eq!(next, TlsNext::Do(TlsOp::SendCloseNotify));
    let (pc, next) = d.step(pc, TlsOutcome::Ready, false);
    assert_eq!(next, TlsNext::Do(TlsOp::FlushTls));
    let (_, next) = d.step(pc, TlsOutcome::Ready, false);
    assert_eq!(next, TlsNext::Answer(TlsAnswer::InnerShutdown));
}
