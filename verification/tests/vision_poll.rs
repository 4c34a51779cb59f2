use alpha_ray::protocol::tls::{TlsAnswer, TlsOutcome};
use alpha_ray::protocol::vision_poll::{
    vision_poll_step, vision_start_flush, vision_start_read, vision_start_shutdown, vision_start_write, VisionNext,
    VisionOp, VisionPc,
};

#[test]
fn read_poll_answers_once_unframing_gives_bytes() {
    let (pc, next) = vision_start_read();
    assert_eq!(next, VisionNext::Do(VisionOp::Unframe));
    assert_eq!(
        vision_poll_step(pc, TlsOutcome::Count(3), false),
        (VisionPc::Done, VisionNext::Answer(TlsAnswer::Ready))
    );
    assert_eq!(
        vision_poll_step(pc, TlsOutcome::Count(0), true),
        (VisionPc::Done, VisionNext::Answer(TlsAnswer::Ready))
    );
    assert_eq!(vision_poll_step(pc, TlsOutcome::Failed, false), (VisionPc::Done, VisionNext::Answer(TlsAnswer::Error)));
}

#[test]
fn read_poll_pulls_plaintext_then_records() {
    let (pc, _) = vision_start_read();
    let (pc, next) = vision_poll_step(pc, TlsOutcome::Count(0), false);
    assert_eq!(pc, VisionPc::ReadPlainFirst);
    assert_eq!(next, VisionNext::Do(VisionOp::ReadPlain));
    assert_eq!(
        vision_poll_step(pc, TlsOutcome::Count(12), false),
        (VisionPc::ReadUnframe, VisionNext::Do(VisionOp::Unframe))
    );
    let (pc, next) = vision_poll_step(pc, TlsOutcome::WouldBlock, false);
    assert_eq!(pc, VisionPc::ReadTls);
    assert_eq!(next, VisionNext::Do(VisionOp::ReadTls));
    assert_eq!(vision_poll_step(pc, TlsOutcome::WouldBlock, false), (VisionPc::Done, VisionNext::Answer(TlsAnswer::Pending)));
    let (pc, next) = vision_poll_step(pc, TlsOutcome::Count(300), false);
    assert_eq!(pc, VisionPc::ReadProcess(false));
    assert_eq!(next, VisionNext::Do(VisionOp::ProcessPackets));
    let (pc, next) = vision_poll_step(pc, TlsOutcome::Ready, false);
    assert_eq!(pc, VisionPc::ReadPlainAfter(false));
    assert_eq!(next, VisionNext::Do(VisionOp::ReadPlain));
    assert_eq!(
        vision_poll_step(pc, TlsOutcome::Count(0), false),
        (VisionPc::ReadUnframe, VisionNext::Do(VisionOp::Unframe))
    );
}

#[test]
fn read_poll_ends_when_nothing_comes_in() {
    let (pc, _) = vision_poll_step(VisionPc::ReadTls, TlsOutcome::Count(0), false);
    assert_eq!(pc, VisionPc::ReadProcess(true));
    let (pc, _) = vision_poll_step(pc, TlsOutcome::Ready, false);
    assert_eq!(
        vision_poll_step(pc, TlsOutcome::Count(0), false),
        (VisionPc::Done, VisionNext::Answer(TlsAnswer::Ready))
    );
    assert_eq!(
        vision_poll_step(pc, TlsOutcome::Count(9), false),
        (VisionPc::ReadUnframe, VisionNext::Do(VisionOp::Unframe))
    );
}

#[test]
fn write_poll_frames_then_answers_the_framed_count() {
    let (pc, next) = vision_start_write();
    assert_eq!(next, VisionNext::Do(VisionOp::HasPendingWrite));
    let (pc, next) = vision_poll_step(pc, TlsOutcome::No, false);
    assert_eq!(pc, VisionPc::WriteFrame);
    assert_eq!(next, VisionNext::Do(VisionOp::FrameWrite));
    let (pc, next) = vision_poll_step(pc, TlsOutcome::Count(5), false);
    assert_eq!(pc, VisionPc::WritePush(5));
    assert_eq!(next, VisionNext::Do(VisionOp::HasPendingWrite));
    let (pc, next) = vision_poll_step(pc, TlsOutcome::Yes, false);
    assert_eq!(next, VisionNext::Do(VisionOp::WritePlain));
    let (pc, _) = vision_poll_step(pc, TlsOutcome::Count(40), false);
    assert_eq!(pc, VisionPc::WritePush(5));
    let (pc, next) = vision_poll_step(pc, TlsOutcome::No, false);
    assert_eq!(pc, VisionPc::WriteOut(5));
    assert_eq!(next, VisionNext::Do(VisionOp::WantsWrite));
    let (pc, next) = vision_poll_step(pc, TlsOutcome::Yes, false);
    assert_eq!(next, VisionNext::Do(VisionOp::WriteTls));
    assert_eq!(
        vision_poll_step(pc, TlsOutcome::WouldBlock, false),
        (VisionPc::Done, VisionNext::Answer(TlsAnswer::ReadyCount(5)))
    );
    assert_eq!(
        vision_poll_step(VisionPc::WriteOut(5), TlsOutcome::No, false),
        (VisionPc::Done, VisionNext::Answer(TlsAnswer::ReadyCount(5)))
    );
}

#[test]
fn write_poll_drains_earlier_frames_first() {
    let (pc, _) = vision_start_write();
    let (pc, next) = vision_poll_step(pc, TlsOutcome::Yes, false);
    assert_eq!(pc, VisionPc::WriteDrainPlain);
    assert_eq!(next, VisionNext::Do(VisionOp::WritePlain));
    let (pc, next) = vision_poll_step(pc, TlsOutcome::Count(0), false);
    assert_eq!(pc, VisionPc::WriteDrainTls);
    assert_eq!(next, VisionNext::Do(VisionOp::WriteTls));
    assert_eq!(vision_poll_step(pc, TlsOutcome::WouldBlock, false), (VisionPc::Done, VisionNext::Answer(TlsAnswer::Pending)));
    assert_eq!(
        vision_poll_step(pc, TlsOutcome::Count(100), false),
        (VisionPc::WriteDrain, VisionNext::Do(VisionOp::HasPendingWrite))
    );
    assert_eq!(
        vision_poll_step(VisionPc::WriteDrainPlain, TlsOutcome::WouldBlock, false),
        (VisionPc::Done, VisionNext::Answer(TlsAnswer::Error))
    );
}

#[test]
fn flush_and_shutdown_end_with_the_inner_stream() {
    let (pc, next) = vision_start_flush();
    assert_eq!(next, VisionNext::Do(VisionOp::WantsWrite));
    let (pc2, next) = vision_poll_step(pc, TlsOutcome::Yes, false);
    assert_eq!(next, VisionNext::Do(VisionOp::WriteTls));
    assert_eq!(vision_poll_step(pc2, TlsOutcome::WouldBlock, false), (VisionPc::Done, VisionNext::Answer(TlsAnswer::Pending)));
    assert_eq!(
        vision_poll_step(pc, TlsOutcome::No, false),
        (VisionPc::Done, VisionNext::Answer(TlsAnswer::InnerFlush))
    );
    let (pc, next) = vision_start_shutdown();
    assert_eq!(next, VisionNext::Do(VisionOp::SendCloseNotify));
    let (pc, next) = vision_poll_step(pc, TlsOutcome::Ready, false);
    assert_eq!(next, VisionNext::Do(VisionOp::WantsWrite));
    assert_eq!(
        vision_poll_step(pc, TlsOutcome::No, false),
        (VisionPc::Done, VisionNext::Answer(TlsAnswer::InnerShutdown))
    );
}
