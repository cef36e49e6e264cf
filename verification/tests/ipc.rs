use std::{io::Cursor, iter};

use rarag::ipc::{
    decode_frame_len, encode_framed_message, frame_body_len, read_frame_body, read_frame_header, read_framed_message,
    write_framed_message, DAEMON_MAX_MESSAGE_BYTES,
};

#[test]
fn read_framed_response_accepts_large_payload() {
    let payload: Vec<u8> = iter::repeat_n(b'x', DAEMON_MAX_MESSAGE_BYTES + 1024).collect();
    let framed = rarag::ipc::encode_framed_message(&payload).expect("encode large payload");
    let mut reader = Cursor::new(framed);

    let decoded = read_framed_message(&mut reader).expect("large framed response should decode");

    assert_eq!(decoded.len(), payload.len());
    assert_eq!(decoded, payload);
}

#[test]
fn frame_starts_with_big_endian_length() {
    let framed = encode_framed_message(b"hello").expect("encode");
    assert_eq!(&framed[..4], &[0, 0, 0, 5]);
    assert_eq!(&framed[4..], b"hello");
}

#[test]
fn decode_frame_len_reads_header_and_enforces_limit() {
    assert_eq!(decode_frame_len([0, 0, 1, 2]), Ok(258));
    assert_eq!(decode_frame_len([0, 16, 0, 0]), Ok(1048576));
    let err = decode_frame_len([0, 16, 0, 1]).expect_err("over the limit");
    assert_eq!(err, "daemon message too large: 1048577 bytes exceeds limit 1048576");
}

#[test]
fn write_then_read_roundtrips() {
    let mut buffer: Vec<u8> = Vec::new();
    write_framed_message(&mut buffer, b"{\"kind\":\"status\"}").expect("write");
    let mut reader = Cursor::new(buffer);
    let body = read_framed_message(&mut reader).expect("read");
    assert_eq!(body, b"{\"kind\":\"status\"}");
}

#[test]
fn truncated_frame_is_an_error() {
    let mut reader = Cursor::new(vec![0u8, 0, 0, 9, b'a']);
    assert!(read_framed_message(&mut reader).is_err());
}

#[test]
fn header_is_read_big_endian_and_body_follows() {
    assert_eq!(frame_body_len(&[0, 0, 1, 2]), 258);
    assert_eq!(frame_body_len(&[1, 0, 0, 0]), 16_777_216);
    let mut reader = Cursor::new(vec![0u8, 0, 0, 3, b'a', b'b', b'c', b'd']);
    let header = read_frame_header(&mut reader).expect("header");
    assert_eq!(header, vec![0, 0, 0, 3]);
    let body = read_frame_body(&mut reader, &header).expect("body");
    assert_eq!(body, b"abc".to_vec());
    let mut short = Cursor::new(vec![0u8, 0]);
    assert!(read_frame_header(&mut short).is_err());
    let mut reader = Cursor::new(vec![b'x']);
    assert!(read_frame_body(&mut reader, &[0, 0, 0, 2]).is_err());
}
