use imap_server::codec::{CodecError, LineCodec, MAX_LINE_LENGTH};

#[test]
fn decode_splits_crlf_line() {
    let mut buf: Vec<u8> = b"a1 NOOP\r\nrest".to_vec();
    let r = LineCodec::decode(&mut buf);
    assert_eq!(r, Ok(Some("a1 NOOP".to_string())));
    assert_eq!(buf, b"rest".to_vec());
}

#[test]
fn decode_splits_bare_lf_line() {
    let mut buf: Vec<u8> = b"a1 NOOP\n".to_vec();
    let r = LineCodec::decode(&mut buf);
    assert_eq!(r, Ok(Some("a1 NOOP".to_string())));
    assert!(buf.is_empty());
}

#[test]
fn decode_without_line_break_waits() {
    let mut buf: Vec<u8> = b"a1 NO".to_vec();
    let r = LineCodec::decode(&mut buf);
    assert_eq!(r, Ok(None));
    assert_eq!(buf, b"a1 NO".to_vec());
}

#[test]
fn decode_empty_line() {
    let mut buf: Vec<u8> = b"\r\nx".to_vec();
    let r = LineCodec::decode(&mut buf);
    assert_eq!(r, Ok(Some(String::new())));
    assert_eq!(buf, b"x".to_vec());
}

#[test]
fn decode_rejects_overlong_line() {
    let mut buf: Vec<u8> = vec![b'a'; MAX_LINE_LENGTH + 1];
    buf.push(b'\n');
    let r = LineCodec::decode(&mut buf);
    assert_eq!(r, Err(CodecError::LineTooLong));
    assert!(buf.is_empty());
}

#[test]
fn decode_rejects_unbroken_overlong_buffer() {
    let mut buf: Vec<u8> = vec![b'a'; MAX_LINE_LENGTH + 1];
    let r = LineCodec::decode(&mut buf);
    assert_eq!(r, Err(CodecError::LineTooLong));
    assert_eq!(buf.len(), MAX_LINE_LENGTH + 1);
}

#[test]
fn decode_rejects_invalid_utf8() {
    let mut buf: Vec<u8> = vec![0xff, 0xfe, b'\n', b'z'];
    let r = LineCodec::decode(&mut buf);
    assert_eq!(r, Err(CodecError::InvalidUtf8));
    assert_eq!(buf, vec![b'z']);
}

#[test]
fn encode_appends_terminator() {
    let mut buf: Vec<u8> = Vec::new();
    LineCodec::encode("* OK ready", &mut buf);
    assert_eq!(buf, b"* OK ready\r\n".to_vec());
}

#[test]
fn encode_then_decode_round_trips() {
    let mut buf: Vec<u8> = Vec::new();
    LineCodec::encode("a1 OK NOOP completed", &mut buf);
    let r = LineCodec::decode(&mut buf);
    assert_eq!(r, Ok(Some("a1 OK NOOP completed".to_string())));
    assert!(buf.is_empty());
}
