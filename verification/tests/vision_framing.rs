use alpha_ray::error::VisionError;
use alpha_ray::protocol::vision_tls::{LenRange, PaddingSettings, VisionCommand, VisionFramer};

const ID: [u8; 16] = [7u8; 16];

/// The bytes a read gave, which must have met no error.
fn ok(r: (Vec<u8>, Option<VisionError>)) -> Vec<u8> {
    assert_eq!(r.1, None);
    r.0
}

fn client() -> VisionFramer {
    VisionFramer::new(vec![ID], false, LenRange { start: 0, end: 256 }, 900, 500, LenRange { start: 0, end: 500 })
}

fn server(ids: Vec<[u8; 16]>) -> VisionFramer {
    VisionFramer::new(ids, true, LenRange { start: 0, end: 256 }, 900, 500, LenRange { start: 0, end: 500 })
}

#[test]
fn vision_command_bytes() {
    assert_eq!(VisionCommand::try_from(0), Ok(VisionCommand::ContinuePadding));
    assert_eq!(VisionCommand::try_from(1), Ok(VisionCommand::EndPadding));
    assert_eq!(VisionCommand::try_from(2), Ok(VisionCommand::StartDirectCopy));
    assert_eq!(VisionCommand::try_from(3), Err(VisionError::InvalidCommand(3)));
    assert_eq!(VisionCommand::StartDirectCopy.to_byte(), 2);
}

#[test]
fn first_client_frame_carries_the_id() {
    let mut c = client();
    c.frame_buf_drawn(b"hello", 10);
    let out = c.pending_write();
    // short content: padding = 10 + 500 - 5
    let mut want = ID.to_vec();
    want.extend_from_slice(&[0, 0, 5, 0x01, 0xf9]);
    want.extend_from_slice(b"hello");
    want.extend_from_slice(&vec![0u8; 505]);
    assert_eq!(out, want);
    c.consume_written(out.len());
    assert!(!c.has_pending_write());
    c.frame_buf_drawn(b"again", 0);
    let out = c.pending_write();
    assert_eq!(&out[..5], &[0, 0, 5, 0x01, 0xef]);
    assert_eq!(out.len(), 5 + 5 + 495);
}

#[test]
fn long_content_gets_the_short_padding_range() {
    let mut c = client();
    c.consume_written(0);
    let data = vec![1u8; 1000];
    c.frame_buf_drawn(&data, 3);
    let out = c.pending_write();
    assert_eq!(out.len(), 16 + 5 + 1000 + 3);
    assert_eq!(&out[16..21], &[0, 0x03, 0xe8, 0, 3]);
}

#[test]
fn server_reads_what_the_client_framed() {
    let mut c = client();
    c.frame_buf_drawn(b"hello", 10);
    c.frame_buf_drawn(b" world", 200);
    let wire = c.pending_write();
    let mut s = server(vec![[1u8; 16], ID]);
    s.push_read(&wire);
    let got = ok(s.unframe_read_buf(1024));
    assert_eq!(got, b"hello world".to_vec());
}

#[test]
fn reading_stops_when_the_room_is_full() {
    let mut c = client();
    c.frame_buf_drawn(b"hello", 1);
    let wire = c.pending_write();
    let mut s = server(vec![ID]);
    s.push_read(&wire);
    assert_eq!(ok(s.unframe_read_buf(0)), Vec::<u8>::new());
    assert_eq!(ok(s.unframe_read_buf(2)), b"he".to_vec());
    assert_eq!(ok(s.unframe_read_buf(10)), b"llo".to_vec());
}

#[test]
fn unknown_id_switches_to_direct_copy() {
    let mut s = server(vec![[9u8; 16]]);
    let raw: Vec<u8> = (0u8..40).collect();
    s.push_read(&raw);
    assert_eq!(ok(s.unframe_read_buf(100)), raw);
}

#[test]
fn bad_command_is_an_error() {
    let mut s = server(vec![ID]);
    let mut wire = ID.to_vec();
    wire.extend_from_slice(&[5, 0, 1, 0, 0, b'x']);
    s.push_read(&wire);
    assert_eq!(s.unframe_read_buf(10), (Vec::new(), Some(VisionError::InvalidCommand(5))));
}

#[test]
fn direct_copy_starts_after_client_hello_and_app_data() {
    let mut c = client();
    let mut hello = vec![0x16, 0x03, 0x01, 0x00, 0x10, 0x01];
    hello.extend_from_slice(&[0u8; 10]);
    c.frame_buf_drawn(&hello, 0);
    let first = c.pending_write();
    c.consume_written(first.len());
    let app = vec![0x17, 0x03, 0x03, 0x00, 0x02, 0xaa, 0xbb];
    c.frame_buf_drawn(&app, 0);
    let second = c.pending_write();
    assert_eq!(second[0], 2);
    c.consume_written(second.len());
    c.frame_buf_drawn(b"raw", 0);
    assert_eq!(c.pending_write(), b"raw".to_vec());

    let mut s = server(vec![ID]);
    s.push_read(&first);
    s.push_read(&second);
    s.push_read(b"raw");
    let mut want = hello.clone();
    want.extend_from_slice(&app);
    want.extend_from_slice(b"raw");
    assert_eq!(ok(s.unframe_read_buf(4096)), want);
}

#[test]
fn random_padding_stays_in_range() {
    for _ in 0..20 {
        let mut c = client();
        c.frame_buf(b"abc");
        let n = c.pending_write().len();
        assert!(n >= 16 + 5 + 3 + 497 && n <= 16 + 5 + 3 + 997, "{}", n);
    }
}

#[test]
fn one_write_frames_at_most_one_frame() {
    let mut c = client();
    let data = vec![4u8; 70000];
    let n = c.frame_write(&data);
    assert_eq!(n, 65535);
    let out = c.pending_write();
    assert_eq!(&out[16..19], &[0, 0xff, 0xff]);
    let mut s = server(vec![ID]);
    s.push_read(&out);
    assert_eq!(ok(s.unframe_read_buf(100000)), vec![4u8; 65535]);
    let mut c = client();
    assert_eq!(c.frame_write(b"xy"), 2);
}

#[test]
fn standard_padding_settings() {
    let p = PaddingSettings::standard();
    assert_eq!(p.padding_len_range, LenRange { start: 0, end: 256 });
    assert_eq!(p.long_padding_threshold, 900);
    assert_eq!(p.long_padding_base_len, 500);
    assert_eq!(p.long_padding_len_range, LenRange { start: 0, end: 500 });
    assert!(p.is_valid());
    let empty = PaddingSettings { padding_len_range: LenRange { start: 3, end: 2 }, ..p };
    assert!(!empty.is_valid());
    let too_long = PaddingSettings { long_padding_base_len: 65036, ..p };
    assert!(!too_long.is_valid());
    let just_fits = PaddingSettings { long_padding_base_len: 65035, ..p };
    assert!(just_fits.is_valid());
}

#[test]
fn a_client_without_an_id_can_read_but_not_frame() {
    let mut c = VisionFramer::new(vec![], false, LenRange { start: 0, end: 1 }, 10, 0, LenRange { start: 0, end: 1 });
    assert!(!c.can_frame(3));
    c.push_read(&[0, 0, 2, 0, 0, b'o', b'k']);
    assert_eq!(ok(c.unframe_read_buf(10)), b"ok".to_vec());
    let s = VisionFramer::new(vec![], true, LenRange { start: 0, end: 1 }, 10, 0, LenRange { start: 0, end: 1 });
    assert!(s.can_frame(3));
    assert!(client().can_frame(70000));
}

#[test]
fn padding_ranges_matter_only_for_the_content_they_pad() {
    // The short-content range is empty; long content frames fine.
    let mut c = VisionFramer::new(vec![ID], false, LenRange { start: 0, end: 8 }, 10, 0, LenRange { start: 5, end: 4 });
    assert!(!c.can_frame(10));
    assert!(c.can_frame(11));
    let n = c.frame_write(&[1u8; 11]);
    assert_eq!(n, 11);
    let out = c.pending_write();
    assert!(out.len() >= 16 + 5 + 11 && out.len() <= 16 + 5 + 11 + 8);
    // The base plus the longest short-content draw must fit a u16.
    let c = VisionFramer::new(vec![ID], false, LenRange { start: 0, end: 8 }, 10, 65535, LenRange { start: 0, end: 1 });
    assert!(!c.can_frame(3));
    assert!(c.can_frame(20));
}

#[test]
fn content_before_a_bad_header_is_still_given_out() {
    let mut s = server(vec![ID]);
    let mut wire = ID.to_vec();
    wire.extend_from_slice(&[0, 0, 2, 0, 1, b'h', b'i', 0]);
    wire.extend_from_slice(&[9, 0, 1, 0, 0, b'x']);
    s.push_read(&wire);
    assert_eq!(s.unframe_read_buf(10), (b"hi".to_vec(), Some(VisionError::InvalidCommand(9))));
    // The reader stays at the bad header.
    assert_eq!(s.unframe_read_buf(10), (Vec::new(), Some(VisionError::InvalidCommand(9))));
}

fn server_hello(cipher: [u8; 2]) -> Vec<u8> {
    let mut sh = vec![0u8; 47];
    sh[0] = 0x16;
    sh[1] = 0x03;
    sh[2] = 0x01;
    sh[4] = 42;
    sh[5] = 0x02;
    sh[43] = 0;
    sh[44] = cipher[0];
    sh[45] = cipher[1];
    sh
}

fn frame_and_take(f: &mut VisionFramer, data: &[u8]) -> Vec<u8> {
    f.frame_buf_drawn(data, 0);
    let out = f.pending_write();
    f.consume_written(out.len());
    out
}

#[test]
fn server_hello_cipher_decides_direct_copy() {
    let app = [0x17, 0x03, 0x03, 0x00, 0x01, 0xaa];
    let mut s = server(vec![ID]);
    frame_and_take(&mut s, &server_hello([0x13, 0x01]));
    frame_and_take(&mut s, b"more handshake");
    let third = frame_and_take(&mut s, &app);
    assert_eq!(third[0], 2);
    assert_eq!(frame_and_take(&mut s, b"raw"), b"raw".to_vec());

    let mut s = server(vec![ID]);
    frame_and_take(&mut s, &server_hello([0x13, 0x05]));
    frame_and_take(&mut s, b"more handshake");
    let third = frame_and_take(&mut s, &app);
    assert_eq!(third[0], 0);
    assert_eq!(frame_and_take(&mut s, b"raw")[0], 0);
}

#[test]
fn many_client_writes_read_back_by_a_server() {
    let mut c = client();
    for w in [&b"a"[..], b"bc", b"", b"def"] {
        c.frame_buf(w);
    }
    let wire = c.pending_write();
    let mut s = server(vec![[3u8; 16], ID]);
    s.push_read(&wire);
    assert_eq!(ok(s.unframe_read_buf(100)), b"abcdef".to_vec());
    s.push_read(b"");
    assert_eq!(ok(s.unframe_read_buf(100)), Vec::<u8>::new());
}
