//! Framing of the pipe protocol.
use winrestyle::ipc::{encode, wrote_all, LineBuffer};

#[test]
fn lines_come_out_as_sent() {
    let mut buffer = LineBuffer::new();
    let sent = encode("{\"a\":\"é\"}") + &encode("second");
    buffer.receive(sent.as_bytes());
    buffer.receive(b"part");
    assert_eq!(buffer.take_line().as_deref(), Some("{\"a\":\"é\"}"));
    assert_eq!(buffer.take_line().as_deref(), Some("second"));
    assert_eq!(buffer.take_line(), None);
    buffer.receive(b"ial\n");
    assert_eq!(buffer.take_line().as_deref(), Some("partial"));
    assert!(buffer.bytes.is_empty());
}

#[test]
fn an_empty_line_is_a_line() {
    let mut buffer = LineBuffer::new();
    buffer.receive(b"\n");
    assert_eq!(buffer.take_line_bytes(), Some(vec![]));
    assert_eq!(buffer.take_line_bytes(), None);
}

#[test]
fn what_is_not_valid_text_is_replaced() {
    let mut buffer = LineBuffer::new();
    buffer.receive(&[b'a', 0xff, b'b', b'\n']);
    assert_eq!(buffer.take_line().as_deref(), Some("a\u{fffd}b"));
}

#[test]
fn a_cleared_buffer_forgets() {
    let mut buffer = LineBuffer::new();
    buffer.receive(b"stale");
    buffer.clear();
    buffer.receive(b"new\n");
    assert_eq!(buffer.take_line().as_deref(), Some("new"));
}

#[test]
fn a_short_write_did_not_go_through() {
    assert!(wrote_all(5, 5));
    assert!(!wrote_all(4, 5));
}
