use sixterm::server::buffer::Buffer;

fn filled_with(size: usize, bytes: &[u8]) -> Buffer {
    let mut buffer = Buffer::new(size);
    buffer.unfilled_mut()[..bytes.len()].copy_from_slice(bytes);
    buffer.advance(bytes.len());
    buffer
}

#[test]
fn new_buffer_is_empty_and_zeroed() {
    let mut buffer = Buffer::new(8);
    assert_eq!(buffer.capacity(), 8);
    assert_eq!(buffer.filled_len(), 0);
    assert_eq!(buffer.unfilled_len(), 8);
    assert_eq!(buffer.filled(), b"");
    assert_eq!(buffer.leading(8), [0u8; 8]);
    assert_eq!(buffer.unfilled_mut(), [0u8; 8]);
}

#[test]
fn buffer_of_no_size() {
    let mut buffer = Buffer::new(0);
    assert_eq!(buffer.capacity(), 0);
    assert_eq!(buffer.unfilled_len(), 0);
    assert_eq!(buffer.unfilled_mut().len(), 0);
    buffer.discard(0);
    assert_eq!(buffer.resync_len(), 0);
    assert_eq!(buffer.resync(), Vec::<u8>::new());
}

#[test]
fn room_starts_behind_the_filled_bytes() {
    let mut buffer = filled_with(8, b"abc");
    assert_eq!(buffer.filled(), b"abc");
    assert_eq!(buffer.filled_len(), 3);
    assert_eq!(buffer.unfilled_len(), 5);
    assert_eq!(buffer.unfilled_mut().len(), 5);
    buffer.unfilled_mut()[0] = b'd';
    assert_eq!(buffer.filled(), b"abc");
    buffer.advance(1);
    assert_eq!(buffer.filled(), b"abcd");
    assert_eq!(buffer.leading(2), b"ab");
    assert_eq!(buffer.capacity(), 8);
}

#[test]
fn discard_shifts_to_the_left_and_zeroes_the_rest() {
    let mut buffer = filled_with(8, b"abcdef");
    buffer.discard(2);
    assert_eq!(buffer.filled(), b"cdef");
    assert_eq!(buffer.filled_len(), 4);
    assert_eq!(buffer.capacity(), 8);
    assert_eq!(buffer.leading(8), b"cdef\0\0\0\0");
    assert_eq!(buffer.unfilled_mut(), [0u8; 4]);
}

#[test]
fn discard_of_nothing_and_of_everything() {
    let mut buffer = filled_with(4, b"abcd");
    buffer.discard(0);
    assert_eq!(buffer.filled(), b"abcd");
    buffer.discard(4);
    assert_eq!(buffer.filled(), b"");
    assert_eq!(buffer.leading(4), [0u8; 4]);
    assert_eq!(buffer.unfilled_len(), 4);
}

#[test]
fn discard_clears_what_was_written_and_not_counted() {
    let mut buffer = filled_with(6, b"ab");
    buffer.unfilled_mut()[1] = b'!';
    buffer.discard(1);
    assert_eq!(buffer.leading(6), b"b\0\0\0\0\0");
}

#[test]
fn resync_stops_in_front_of_the_next_brace() {
    let mut buffer = filled_with(32, b"garbage{core.have 1}");
    assert_eq!(buffer.resync_len(), 7);
    assert_eq!(buffer.resync(), b"garbage".to_vec());
    assert_eq!(buffer.filled(), b"{core.have 1}");
}

#[test]
fn resync_skips_a_brace_at_the_front() {
    let mut buffer = filled_with(32, b"{bad{core.have 1}");
    assert_eq!(buffer.resync_len(), 4);
    assert_eq!(buffer.resync(), b"{bad".to_vec());
    assert_eq!(buffer.filled(), b"{core.have 1}");
    assert_eq!(buffer.resync(), b"{core.have 1}".to_vec());
    assert_eq!(buffer.filled(), b"");
}

#[test]
fn resync_without_a_brace_drops_everything() {
    let mut buffer = filled_with(16, b"no message");
    assert_eq!(buffer.resync_len(), 10);
    assert_eq!(buffer.resync(), b"no message".to_vec());
    assert_eq!(buffer.filled_len(), 0);
    assert_eq!(buffer.leading(16), [0u8; 16]);
}

#[test]
fn resync_of_a_single_byte() {
    let mut buffer = filled_with(4, b"{");
    assert_eq!(buffer.resync_len(), 1);
    assert_eq!(buffer.resync(), b"{".to_vec());
    assert_eq!(buffer.filled_len(), 0);
}

#[test]
fn resync_does_not_look_behind_the_filled_bytes() {
    let mut buffer = filled_with(8, b"ab");
    buffer.unfilled_mut()[2] = b'{';
    assert_eq!(buffer.resync_len(), 2);
    assert_eq!(buffer.resync(), b"ab".to_vec());
    assert_eq!(buffer.leading(8), [0u8; 8]);
}

#[test]
fn resync_always_shortens_a_filled_buffer() {
    let inputs: [&[u8]; 5] = [b"x", b"{{", b"{a{b{c", b"}}}}{", b"abc{def"];
    for input in inputs {
        let mut buffer = filled_with(16, input);
        while buffer.filled_len() > 0 {
            let before = buffer.filled_len();
            let dropped = buffer.resync();
            assert!(!dropped.is_empty());
            assert_eq!(buffer.filled_len() + dropped.len(), before);
            if buffer.filled_len() > 0 {
                assert_eq!(buffer.filled()[0], b'{');
            }
        }
    }
}
