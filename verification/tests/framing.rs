use autodcr_bridge::commands::{frame_step, FrameStep};
use autodcr_bridge::framing::{encode_length_header, read_frame, write_frame, FrameError, FrameReader};
use autodcr_bridge::protocol::MAX_NATIVE_MESSAGE_BYTES;

#[test]
fn roundtrip_small() {
    let mut buf = Vec::new();
    write_frame(&mut buf, b"hello").unwrap();
    // 5 bytes LE + body
    assert_eq!(&buf[..4], &[5, 0, 0, 0]);
    assert_eq!(&buf[4..], b"hello");

    let mut reader = FrameReader::new(buf);
    let frame = read_frame(&mut reader).unwrap().unwrap();
    assert_eq!(frame, b"hello");
}

#[test]
fn header_is_little_endian() {
    // 0x01020304 == 16909060.  LE bytes = [0x04, 0x03, 0x02, 0x01]
    let header_only = encode_length_header(0x01020304u32);
    assert_eq!(header_only, [0x04, 0x03, 0x02, 0x01]);
}

#[test]
fn rejects_oversize_frame() {
    let mut header = encode_length_header((MAX_NATIVE_MESSAGE_BYTES + 1) as u32).to_vec();
    // Append filler so the discard-drain has something to consume.
    header.extend(std::iter::repeat_n(0u8, 16));
    let mut reader = FrameReader::new(header);
    let err = read_frame(&mut reader).unwrap_err();
    match err {
        FrameError::TooLarge { .. } => {}
        other => panic!("unexpected error: {other:?}"),
    }
}

#[test]
fn clean_eof_returns_none() {
    let mut reader = FrameReader::new(Vec::<u8>::new());
    assert!(read_frame(&mut reader).unwrap().is_none());
}

#[test]
fn truncated_body_is_unexpected_eof() {
    let mut buf = Vec::new();
    // Header says 10 bytes follow but supply only 3.
    buf.extend(10u32.to_le_bytes());
    buf.extend(b"abc");
    let mut reader = FrameReader::new(buf);
    let err = read_frame(&mut reader).unwrap_err();
    assert!(matches!(err, FrameError::UnexpectedEof));
}

#[test]
fn ping_envelope_frames_match_node_output() {
    let body = br#"{"v":1,"id":"abc","ok":true,"result":{"hostVersion":"0.1.0","tokenPresent":false,"protocolVersion":1},"error":null}"#;
    let mut buf = Vec::new();
    write_frame(&mut buf, body).unwrap();

    assert_eq!(&buf[..4], &(body.len() as u32).to_le_bytes());
    assert_eq!(&buf[4..], body);
}

#[test]
fn read_then_write_roundtrip() {
    let body = br#"{"v":1,"id":"x","cmd":"PING","payload":{}}"#;
    let mut wire = Vec::new();
    write_frame(&mut wire, body).unwrap();

    let mut reader = FrameReader::new(wire);
    let frame = read_frame(&mut reader).unwrap().unwrap();
    assert_eq!(frame, body);
}

#[test]
fn frames_after_an_oversized_one_stay_in_step() {
    let mut wire = encode_length_header((MAX_NATIVE_MESSAGE_BYTES + 1) as u32).to_vec();
    wire.extend(std::iter::repeat_n(1u8, MAX_NATIVE_MESSAGE_BYTES + 1));
    write_frame(&mut wire, b"next").unwrap();
    let mut reader = FrameReader::new(wire);
    assert!(matches!(
        read_frame(&mut reader),
        Err(FrameError::TooLarge { limit: MAX_NATIVE_MESSAGE_BYTES, actual }) if actual == MAX_NATIVE_MESSAGE_BYTES + 1
    ));
    assert_eq!(read_frame(&mut reader).unwrap().unwrap(), b"next");
    assert!(read_frame(&mut reader).unwrap().is_none());
}

#[test]
fn two_frames_read_back_in_order() {
    let mut wire = Vec::new();
    write_frame(&mut wire, b"one").unwrap();
    write_frame(&mut wire, b"").unwrap();
    let mut reader = FrameReader::new(wire);
    assert_eq!(read_frame(&mut reader).unwrap().unwrap(), b"one");
    assert_eq!(read_frame(&mut reader).unwrap().unwrap(), b"");
    assert_eq!(reader.position(), 11);
}

#[test]
fn frame_steps_of_the_message_loop() {
    assert!(matches!(frame_step(Ok(Some(vec![1, 2]))), FrameStep::Request(b) if b == vec![1, 2]));
    assert!(matches!(frame_step(Ok(None)), FrameStep::Stop));
    match frame_step(Err(FrameError::TooLarge { limit: 1048576, actual: 2000000 })) {
        FrameStep::Reply(r) => {
            assert!(!r.ok);
            assert_eq!(r.id, "unknown");
            assert_eq!(r.error.unwrap().message, "Message exceeded 1048576 byte cap (got 2000000).");
        }
        other => panic!("a reply expected, got {other:?}"),
    }
    assert!(matches!(frame_step(Err(FrameError::UnexpectedEof)), FrameStep::Fail(FrameError::UnexpectedEof)));
    assert!(matches!(frame_step(Err(FrameError::Io("x".to_string()))), FrameStep::Fail(FrameError::Io(m)) if m == "x"));
}
