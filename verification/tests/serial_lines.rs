use lidart::serial_lines::{LineBuffer, LINE_BUFFER_INITIAL_FILL, LINE_BUFFER_SIZE};

#[test]
fn buffer_starts_with_zero_fill() {
    let b = LineBuffer::new();
    assert_eq!(b.pending(), vec![0u8; LINE_BUFFER_INITIAL_FILL]);
    assert_eq!(b.free_space(), LINE_BUFFER_SIZE - LINE_BUFFER_INITIAL_FILL);
}

#[test]
fn first_line_carries_the_initial_fill() {
    let mut b = LineBuffer::new();
    let out = b.receive(b"ok\n");
    let mut expected = vec![0u8; LINE_BUFFER_INITIAL_FILL];
    expected.extend_from_slice(b"ok\n");
    assert_eq!(out, expected);
    assert_eq!(b.pending(), Vec::<u8>::new());
    assert_eq!(b.free_space(), LINE_BUFFER_SIZE);
}

#[test]
fn unfinished_line_is_kept_until_its_newline() {
    let mut b = LineBuffer::new();
    b.receive(b"\n");
    assert_eq!(b.receive(b"hel"), Vec::<u8>::new());
    assert_eq!(b.pending(), b"hel".to_vec());
    assert_eq!(b.receive(b"lo\nwor"), b"hello\n".to_vec());
    assert_eq!(b.pending(), b"wor".to_vec());
    assert_eq!(b.receive(b"ld\n\nx\n"), b"world\n\nx\n".to_vec());
    assert_eq!(b.pending(), Vec::<u8>::new());
}

#[test]
fn several_lines_in_one_read_come_out_together() {
    let mut b = LineBuffer::new();
    b.receive(b"\n");
    assert_eq!(b.receive(b"a\nb\nc"), b"a\nb\n".to_vec());
    assert_eq!(b.pending(), b"c".to_vec());
    assert_eq!(b.free_space(), LINE_BUFFER_SIZE - 1);
}

#[test]
fn nothing_lost_across_reads() {
    let mut b = LineBuffer::new();
    let mut all_in = b.pending();
    let mut all_out = Vec::new();
    for chunk in [&b"abc"[..], b"d\nef", b"", b"\n\n", b"gh"] {
        all_in.extend_from_slice(chunk);
        all_out.extend(b.receive(chunk));
    }
    all_out.extend(b.pending());
    assert_eq!(all_out, all_in);
}

#[test]
fn full_buffer_takes_no_more() {
    let mut b = LineBuffer::new();
    let fill = vec![b'a'; b.free_space()];
    assert_eq!(b.receive(&fill), Vec::<u8>::new());
    assert_eq!(b.free_space(), 0);
    assert_eq!(b.receive(&[]), Vec::<u8>::new());
    assert_eq!(b.pending().len(), LINE_BUFFER_SIZE);
}
