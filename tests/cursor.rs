use termix::cursor::{cursor_request, parse_cursor_reply, CursorPos};

#[test]
fn cursor_reply_fields() {
    assert_eq!(cursor_request(), b"\x1b[6n".to_vec());
    assert_eq!(parse_cursor_reply(b"\x1b[12;40R"), CursorPos(12, 40));
    assert_eq!(parse_cursor_reply(b"junk\x1b[3;7R"), CursorPos(3, 7));
    assert_eq!(parse_cursor_reply(b"\x1b[x;7R"), CursorPos(0, 7));
    assert_eq!(parse_cursor_reply(b"\x1b[5R"), CursorPos(5, 0));
    assert_eq!(parse_cursor_reply(b"\x1b[+5;+6R"), CursorPos(5, 6));
    assert_eq!(parse_cursor_reply(b"R"), CursorPos(0, 0));
    assert_eq!(parse_cursor_reply(b""), CursorPos(0, 0));
    assert_eq!(parse_cursor_reply(b"\x1b[99999999999999999999999;2R"), CursorPos(0, 2));
}
