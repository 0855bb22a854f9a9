use portredirect::protocol::control::{check_control_header, decode_port, ControlError};

#[test]
fn control_message_names_a_port() {
    assert_eq!(check_control_header(b"LISTENPORT"), Ok(()));
    assert_eq!(decode_port([0x01, 0xBB]), 443);
    assert_eq!(decode_port([0xFF, 0xFF]), 65535);
    assert_eq!(decode_port([0x00, 0x50]), 80);
    assert_eq!(decode_port(12345u16.to_be_bytes()), 12345);
}

#[test]
fn control_header_errors() {
    assert_eq!(check_control_header(b"LISTENP0RT"), Err(ControlError::UnexpectedHeader));
    assert_eq!(check_control_header(b"listenport"), Err(ControlError::UnexpectedHeader));
    assert_eq!(check_control_header(b"LISTENPORTX"), Err(ControlError::UnexpectedHeader));
    assert_eq!(check_control_header(&[0xff; 10]), Err(ControlError::HeaderNotUtf8));
}
