use termix::error::TermixError;
use termix::input::{decode, CharRead, Decoded, KeyDecoder};
use termix::key::Key;

fn key_of(bytes: &[u8]) -> (Key, usize) {
    match decode(bytes, true) {
        Decoded::Key(k, n) => (k, n),
        other => panic!("no key for {:?}: {:?}", bytes, other),
    }
}

#[test]
fn plain_and_control_bytes() {
    assert_eq!(key_of(b"a"), (Key::Char('a'), 1));
    assert_eq!(key_of(b"Z"), (Key::Char('Z'), 1));
    assert_eq!(key_of(&[0x00]), (Key::Ctrl(' '), 1));
    assert_eq!(key_of(&[0x01]), (Key::Ctrl('a'), 1));
    assert_eq!(key_of(&[0x03]), (Key::Ctrl('c'), 1));
    assert_eq!(key_of(&[0x09]), (Key::Tab, 1));
    assert_eq!(key_of(&[0x0a]), (Key::Ctrl('j'), 1));
    assert_eq!(key_of(&[0x0d]), (Key::Enter, 1));
    assert_eq!(key_of(&[0x1a]), (Key::Ctrl('z'), 1));
    assert_eq!(key_of(&[0x7f]), (Key::Backspace, 1));
    assert_eq!(key_of(b"ab"), (Key::Char('a'), 1));
}

#[test]
fn escape_tables() {
    let cases: Vec<(&[u8], Key)> = vec![
        (b"\x1bOA", Key::Up),
        (b"\x1bOB", Key::Down),
        (b"\x1bOC", Key::Right),
        (b"\x1bOD", Key::Left),
        (b"\x1bOF", Key::End),
        (b"\x1bOH", Key::Home),
        (b"\x1bOP", Key::F(1)),
        (b"\x1bOS", Key::F(4)),
        (b"\x1bOa", Key::CtrlUp),
        (b"\x1bOd", Key::CtrlLeft),
        (b"\x1b[A", Key::Up),
        (b"\x1b[D", Key::Left),
        (b"\x1b[H", Key::Home),
        (b"\x1b[F", Key::End),
        (b"\x1b[Z", Key::BackTab),
        (b"\x1b[[A", Key::F(1)),
        (b"\x1b[[E", Key::F(5)),
        (b"\x1b[1~", Key::Home),
        (b"\x1b[2~", Key::Insert),
        (b"\x1b[3~", Key::Delete),
        (b"\x1b[4~", Key::End),
        (b"\x1b[5~", Key::PageUp),
        (b"\x1b[6~", Key::PageDown),
        (b"\x1b[7~", Key::Home),
        (b"\x1b[8~", Key::End),
        (b"\x1b[11~", Key::F(1)),
        (b"\x1b[15~", Key::F(5)),
        (b"\x1b[17~", Key::F(6)),
        (b"\x1b[21~", Key::F(10)),
        (b"\x1b[24~", Key::F(12)),
        (b"\x1b[200~", Key::BracketedPasteStart),
        (b"\x1b[201~", Key::BracketedPasteEnd),
        (b"\x1b[1;5A", Key::CtrlUp),
        (b"\x1b[1;5D", Key::CtrlLeft),
        (b"\x1b[1;4C", Key::AltShiftRight),
        (b"\x1b[1;3H", Key::AltHome),
        (b"\x1b[1;3F", Key::AltEnd),
        (b"\x1b[1;2B", Key::ShiftDown),
        (b"\x1b[5A", Key::CtrlUp),
        (b"\x1b[5C", Key::CtrlRight),
        (b"\x1b\x1b[A", Key::AltUp),
        (b"\x1b\x1b[C", Key::AltRight),
        (b"\x1b\x1b[5~", Key::AltPageUp),
        (b"\x1b\x1b[6~", Key::AltPageDown),
    ];
    for (seq, key) in cases {
        let mut with_tail = seq.to_vec();
        with_tail.extend_from_slice(b"xyz");
        assert_eq!(key_of(seq), (key.clone(), seq.len()), "{:?}", seq);
        assert_eq!(key_of(&with_tail), (key, seq.len()), "{:?}", seq);
    }
}

#[test]
fn alt_keys() {
    assert_eq!(key_of(b"\x1bx"), (Key::Alt('x'), 2));
    assert_eq!(key_of(&[0x1b, 0x01]), (Key::CtrlAlt('a'), 2));
    assert_eq!(key_of(&[0x1b, 0x09]), (Key::AltTab, 2));
    assert_eq!(key_of(&[0x1b, 0x0d]), (Key::AltEnter, 2));
    assert_eq!(key_of(&[0x1b, 0x19]), (Key::AltBackTab, 2));
    assert_eq!(key_of(&[0x1b, 0x7f]), (Key::AltBackspace, 2));
    assert_eq!(key_of("\x1bé".as_bytes()), (Key::Alt('é'), 3));
}

#[test]
fn bare_escape_waits_then_decodes() {
    assert!(matches!(decode(&[0x1b], false), Decoded::Pending));
    assert_eq!(key_of(&[0x1b]), (Key::ESC, 1));
}

#[test]
fn utf8_split_across_reads() {
    let bytes = "€".as_bytes();
    assert_eq!(bytes.len(), 3);
    let mut dec = KeyDecoder::new();
    dec.push_bytes(&bytes[..1]);
    assert!(matches!(dec.next_key(false), Decoded::Pending));
    assert!(dec.has_pending());
    dec.push_bytes(&bytes[1..]);
    match dec.next_key(false) {
        Decoded::Key(k, n) => assert_eq!((k, n), (Key::Char('€'), 3)),
        other => panic!("{:?}", other),
    }
    assert!(!dec.has_pending());
    assert!(matches!(dec.next_key(true), Decoded::Pending));
}

#[test]
fn multibyte_chars() {
    assert_eq!(key_of("é".as_bytes()), (Key::Char('é'), 2));
    assert_eq!(key_of("€x".as_bytes()), (Key::Char('€'), 3));
    assert_eq!(key_of("🦀".as_bytes()), (Key::Char('🦀'), 4));
}

#[test]
fn decode_errors() {
    assert!(matches!(decode(&[0xff], true), Decoded::Failed(TermixError::KeyRead(0xff), 1)));
    assert!(matches!(decode(&[0xe2, 0x82], true), Decoded::Failed(TermixError::KeyRead(0xe2), 1)));
    assert!(matches!(decode(b"\x1b[0", true), Decoded::Failed(TermixError::KeyRead(b'0'), 3)));
    assert!(matches!(decode(b"\x1b[0A", true), Decoded::Failed(TermixError::KeyRead(b'0'), 3)));
    assert!(matches!(decode(b"\x1b[9~", false), Decoded::Failed(TermixError::KeyRead(b'9'), 3)));
    assert!(matches!(decode(b"\x1b[X", true), Decoded::Failed(TermixError::KeyRead(b'X'), 3)));
    assert!(matches!(decode(b"\x1bOX", true), Decoded::Failed(TermixError::KeyRead(b'X'), 3)));
    assert!(matches!(decode(b"\x1b[[X", true), Decoded::Failed(TermixError::KeyRead(b'X'), 4)));
    assert!(matches!(decode(b"\x1b[1;9A", true), Decoded::Failed(TermixError::KeyRead(b'A'), 6)));
    assert!(matches!(decode(b"\x1b[1;5Z", true), Decoded::Failed(TermixError::KeyRead(b'Z'), 6)));
    assert!(matches!(decode(b"\x1b[16~", true), Decoded::Failed(TermixError::KeyRead(b'~'), 5)));
    assert!(matches!(decode(b"\x1b[1x", true), Decoded::Failed(TermixError::KeyRead(b'x'), 4)));
    assert!(matches!(decode(b"\x1b[1!a", true), Decoded::Failed(TermixError::KeyRead(b'!'), 4)));
    assert!(matches!(decode(b"\x1b\x1bx", true), Decoded::Failed(TermixError::KeyRead(b'x'), 3)));
    assert!(matches!(decode(b"\x1b\x1b[Z", true), Decoded::Failed(TermixError::KeyRead(b'Z'), 4)));
}

#[test]
fn parameters_read_to_terminator() {
    let mut dec = KeyDecoder::new();
    dec.push_bytes(b"\x1b[1;55~a");
    assert!(matches!(dec.next_key(false), Decoded::Failed(TermixError::KeyRead(b'~'), 7)));
    assert!(matches!(dec.next_key(false), Decoded::Key(Key::Char('a'), 1)));
    assert!(!dec.has_pending());
}

#[test]
fn cut_sequences() {
    assert!(matches!(decode(b"\x1b[", false), Decoded::Pending));
    assert!(matches!(decode(b"\x1b[", true), Decoded::Key(Key::Alt('['), 2)));
    assert!(matches!(decode(b"\x1bO", true), Decoded::Key(Key::Alt('O'), 2)));
    assert!(matches!(decode(b"\x1b[1;", true), Decoded::Failed(TermixError::KeyRead(b';'), 4)));
    assert!(matches!(decode(b"\x1b\x1b[", true), Decoded::Failed(TermixError::KeyRead(b'['), 3)));
    assert!(matches!(decode(b"\x1b[12", false), Decoded::Pending));
    assert!(matches!(decode(b"", true), Decoded::Pending));
}

#[test]
fn decoder_keeps_the_rest() {
    let mut dec = KeyDecoder::new();
    dec.push_bytes(b"\x1b[Aq\x1bOP");
    assert!(matches!(dec.next_key(false), Decoded::Key(Key::Up, 3)));
    assert!(matches!(dec.next_key(false), Decoded::Key(Key::Char('q'), 1)));
    assert!(matches!(dec.next_key(false), Decoded::Key(Key::F(1), 3)));
    assert!(!dec.has_pending());
}

#[test]
fn next_char_reads_one_character() {
    let mut dec = KeyDecoder::new();
    assert!(matches!(dec.next_char(true), CharRead::Pending));
    dec.push_bytes(&[0xe2, 0x82]);
    assert!(matches!(dec.next_char(false), CharRead::Pending));
    dec.push_bytes(&[0xac, b'a', 0xff]);
    assert!(matches!(dec.next_char(false), CharRead::Wide('€', 3)));
    assert!(matches!(dec.next_char(false), CharRead::Ascii(b'a')));
    assert!(matches!(dec.next_char(false), CharRead::Bad(0xff)));
    assert!(!dec.has_pending());
}

#[test]
fn only_a_failed_wait_ends_the_listener() {
    assert!(TermixError::KeyListener.ends_key_listener());
    assert!(!TermixError::KeyRead(b'x').ends_key_listener());
    assert!(!TermixError::CursorDetection.ends_key_listener());
}
