use flow::config::{default_settings, is_main_host, ENCRYPTION_OFF, PC_SERVER};
use flow::network::protocol::{frame_header, frame_message, parse_frame_len, recv_exactly, true_recv, true_send};
use std::io::Cursor;

#[test]
fn frame_header_is_ten_padded_digits() {
    assert_eq!(frame_header(0), b"0000000000".to_vec());
    assert_eq!(frame_header(42), b"0000000042".to_vec());
    assert_eq!(frame_header(12345678901), b"12345678901".to_vec());
    assert_eq!(frame_message(b"hi"), b"0000000002hi".to_vec());
}

#[test]
fn frame_lengths_parse_like_usize() {
    assert_eq!(parse_frame_len(b"0000000042"), Some(42));
    assert_eq!(parse_frame_len(b"+000000042"), Some(42));
    assert_eq!(parse_frame_len(b"00000000-1"), None);
    assert_eq!(parse_frame_len(b"000000004x"), None);
    assert_eq!(parse_frame_len(b""), None);
}

#[test]
fn messages_roundtrip_through_a_stream() {
    let mut wire: Vec<u8> = Vec::new();
    true_send(&mut wire, b"Test protocol framing payload.").unwrap();
    true_send(&mut wire, b"").unwrap();
    let mut reader = Cursor::new(wire);
    assert_eq!(true_recv(&mut reader).unwrap(), b"Test protocol framing payload.".to_vec());
    assert_eq!(true_recv(&mut reader).unwrap(), Vec::<u8>::new());
    assert!(true_recv(&mut reader).is_err());
}

#[test]
fn bad_header_is_invalid_data() {
    let mut reader = Cursor::new(b"abcdefghij".to_vec());
    let err = true_recv(&mut reader).unwrap_err();
    assert_eq!(err.kind(), std::io::ErrorKind::InvalidData);
    let mut short = Cursor::new(b"12".to_vec());
    assert_eq!(recv_exactly(&mut short, 3).unwrap_err().kind(), std::io::ErrorKind::UnexpectedEof);
}

#[test]
fn defaults_describe_an_unconfigured_server() {
    let s = default_settings();
    assert_eq!(s.ip, "");
    assert_eq!(s.password, "");
    assert_eq!(s.pc, PC_SERVER);
    assert_eq!(s.encryption, ENCRYPTION_OFF);
    assert!(is_main_host("main"));
    assert!(!is_main_host("Main"));
}
