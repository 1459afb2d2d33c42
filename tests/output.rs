use termix::output::{count_frame_lines, Output};

#[test]
fn redraw_shrinks_to_new_frame() {
    let mut out = Output::new();
    out.write("one\ntwo\nthree\n");
    let first = out.flush();
    assert_eq!(first, b"\x1b[0Jone\ntwo\nthree\n".to_vec());
    out.write("only\n");
    let second = out.flush();
    assert_eq!(second, b"\x1bM\x1bM\x1bM\x1b[0Jonly\n".to_vec());
    out.write("next\n");
    let third = out.flush();
    assert_eq!(third, b"\x1bM\x1b[0Jnext\n".to_vec());
}

#[test]
fn empty_flush_sends_nothing() {
    let mut out = Output::new();
    assert!(out.flush().is_empty());
    out.write("a\nb\n");
    out.flush();
    assert!(out.flush().is_empty());
    out.write("c");
    assert_eq!(out.flush(), b"\x1bM\x1bM\x1b[0Jc".to_vec());
    out.write("d");
    assert_eq!(out.flush(), b"\r\x1b[0Jd".to_vec());
}

#[test]
fn mid_line_frame_returns_to_first_column() {
    let mut out = Output::new();
    out.write("x\ny");
    out.flush();
    out.write("z\n");
    assert_eq!(out.flush(), b"\r\x1bM\x1b[0Jz\n".to_vec());
    out.write("w");
    assert_eq!(out.flush(), b"\x1bM\x1b[0Jw".to_vec());
}

#[test]
fn line_counts_skip_resets() {
    assert_eq!(count_frame_lines(&b"".to_vec()), (0, false));
    assert_eq!(count_frame_lines(&b"abc".to_vec()), (0, true));
    assert_eq!(count_frame_lines(&b"abc\n".to_vec()), (1, false));
    assert_eq!(count_frame_lines(&b"a\nb".to_vec()), (1, true));
    assert_eq!(count_frame_lines(&b"a\n\x1b[0m".to_vec()), (1, false));
    assert_eq!(count_frame_lines(&b"a\n\x1b[0m\x1b[0m".to_vec()), (1, false));
    assert_eq!(count_frame_lines(&b"a\n\x1b[1m".to_vec()), (1, true));
    assert_eq!(count_frame_lines(&b"\n\n\n".to_vec()), (3, false));
}
