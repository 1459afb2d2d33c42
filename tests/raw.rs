use termix::raw::RawTerminal;

#[test]
fn every_restore_shows_the_cursor() {
    let mut guard = RawTerminal::new(7u32, 9u32);
    assert_eq!(guard.hide_cursor(), b"\x1b[?25l".to_vec());
    assert_eq!(guard.show_cursor(), b"\x1b[?25h".to_vec());
    assert!(!guard.restored());
    assert_eq!(guard.finish_raw(), b"\x1b[?25h".to_vec());
    assert!(guard.restored());
    assert_eq!(*guard.saved(), 7);
    assert_eq!(guard.hide_cursor(), b"\x1b[?25l".to_vec());
    assert_eq!(guard.finish_raw(), b"\x1b[?25h".to_vec());
    assert!(guard.restored());
    assert_eq!(*guard.saved(), 7);
}
