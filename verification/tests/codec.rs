use hackchat::codec::{decode_frame, encode_op, signature_str, PORT};
use hackchat::ops::{Op, OpCode};

fn msg(user: &str, text: &str) -> Op {
    Op::new_message(user.to_string(), text.to_string())
}

#[test]
fn round_trip_message() {
    let op = msg("alice", "hi");
    let frame = encode_op(&op, b"abc").expect("encoding failed");
    let decoded = decode_frame(&frame, b"abc").expect("decoding failed");
    assert!(decoded == msg("alice", "hi"));
}

#[test]
fn round_trip_announce() {
    let op = Op::new_user("bob".to_string());
    let frame = encode_op(&op, b"room one").expect("encoding failed");
    let decoded = decode_frame(&frame, b"room one").expect("decoding failed");
    assert!(decoded == Op::new_user("bob".to_string()));
}

#[test]
fn round_trip_leave() {
    let op = Op::new_leave("carol".to_string());
    let frame = encode_op(&op, b"k").expect("encoding failed");
    let decoded = decode_frame(&frame, b"k").expect("decoding failed");
    assert!(decoded == Op::new_leave("carol".to_string()));
}

#[test]
fn round_trip_empty_text() {
    let op = msg("dave", "");
    let frame = encode_op(&op, b"abc").expect("encoding failed");
    let decoded = decode_frame(&frame, b"abc").expect("decoding failed");
    assert!(decoded == msg("dave", ""));
}

#[test]
fn round_trip_multibyte_text() {
    let op = msg("z\u{17c}o\u{142}w", "caf\u{e9} \u{2713}");
    let frame = encode_op(&op, b"abc").expect("encoding failed");
    let decoded = decode_frame(&frame, b"abc").expect("decoding failed");
    assert!(decoded == msg("z\u{17c}o\u{142}w", "caf\u{e9} \u{2713}"));
}

#[test]
fn round_trip_text_with_nul() {
    // The separator splits at the first zero byte only: NUL inside the text
    // survives the trip.
    let op = msg("erin", "a\u{0}b");
    let frame = encode_op(&op, b"abc").expect("encoding failed");
    let decoded = decode_frame(&frame, b"abc").expect("decoding failed");
    assert!(decoded == msg("erin", "a\u{0}b"));
}

#[test]
fn foreign_traffic_discarded() {
    assert!(decode_frame(b"some unrelated broadcast chatter", b"abc").is_none());
}

#[test]
fn short_frame_discarded() {
    assert!(decode_frame(b"", b"abc").is_none());
    assert!(decode_frame(b"git", b"abc").is_none());
}

#[test]
fn wrong_key_discarded() {
    let op = msg("alice", "hi");
    let frame = encode_op(&op, b"abc").expect("encoding failed");
    assert!(decode_frame(&frame, b"xyz").is_none());
}

#[test]
fn corrupted_payload_discarded() {
    let op = msg("alice", "hi");
    let mut frame = encode_op(&op, b"abc").expect("encoding failed");
    let last = frame.len() - 1;
    frame[last] ^= 0xFF;
    assert!(decode_frame(&frame, b"abc").is_none());
}

#[test]
fn signature_alone_discarded() {
    let frame = signature_str().as_bytes().to_vec();
    assert!(decode_frame(&frame, b"abc").is_none());
}

#[test]
fn unknown_opcode_discarded() {
    let mut frame = signature_str().as_bytes().to_vec();
    let block = simple_crypt::encrypt(&[9, 104, 105], b"abc").expect("encryption failed");
    frame.extend_from_slice(&block);
    assert!(decode_frame(&frame, b"abc").is_none());
}

#[test]
fn empty_block_discarded() {
    let mut frame = signature_str().as_bytes().to_vec();
    let block = simple_crypt::encrypt(&[], b"abc").expect("encryption failed");
    frame.extend_from_slice(&block);
    assert!(decode_frame(&frame, b"abc").is_none());
}

#[test]
fn message_without_separator_reads_as_username_only() {
    // A raw message block with no zero separator: the whole operand is the
    // username and the text is empty.
    let mut frame = signature_str().as_bytes().to_vec();
    let block = simple_crypt::encrypt(&[0, b'e', b'v', b'e'], b"abc").expect("encryption failed");
    frame.extend_from_slice(&block);
    let decoded = decode_frame(&frame, b"abc").expect("decoding failed");
    assert!(decoded == msg("eve", ""));
}

#[test]
fn invalid_utf8_discarded() {
    // Announce whose operand is not valid UTF-8.
    let mut frame = signature_str().as_bytes().to_vec();
    let block = simple_crypt::encrypt(&[1, 0xFF, 0xFE], b"abc").expect("encryption failed");
    frame.extend_from_slice(&block);
    assert!(decode_frame(&frame, b"abc").is_none());
}

#[test]
fn opcode_try_from() {
    assert!(OpCode::try_from(0) == Ok(OpCode::Message));
    assert!(OpCode::try_from(1) == Ok(OpCode::User));
    assert!(OpCode::try_from(2) == Ok(OpCode::Leave));
    assert!(OpCode::try_from(3) == Err(()));
    assert!(OpCode::try_from(255) == Err(()));
}

#[test]
fn opcode_bytes() {
    assert_eq!(OpCode::Message.to_byte(), 0);
    assert_eq!(OpCode::User.to_byte(), 1);
    assert_eq!(OpCode::Leave.to_byte(), 2);
}

#[test]
fn port_is_fixed() {
    assert_eq!(PORT, 7312);
}
