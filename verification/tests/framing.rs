use content_exchange::framing::{
    check_declared_length, prefix_at_close, prefix_progress, read_length_prefixed, read_varint,
    write_length_prefixed, write_varint, ByteStream, FrameError, PrefixProgress,
};

fn framed(payload: &[u8]) -> Vec<u8> {
    let mut out = Vec::new();
    write_length_prefixed(&mut out, payload);
    out
}

#[test]
fn varint_of_small_numbers_is_one_byte() {
    for n in [0usize, 1, 5, 127] {
        let mut out = Vec::new();
        write_varint(&mut out, n);
        assert_eq!(out, vec![n as u8]);
    }
}

#[test]
fn varint_of_larger_numbers_uses_continuation_bits() {
    let mut out = Vec::new();
    write_varint(&mut out, 128);
    assert_eq!(out, vec![0x80, 0x01]);

    let mut out = Vec::new();
    write_varint(&mut out, 300);
    assert_eq!(out, vec![0xac, 0x02]);

    let mut out = Vec::new();
    write_varint(&mut out, 1_000_000);
    assert_eq!(out, vec![0xc0, 0x84, 0x3d]);

    let mut out = Vec::new();
    write_varint(&mut out, 500_000_000);
    assert_eq!(out, vec![0x80, 0xca, 0xb5, 0xee, 0x01]);
}

#[test]
fn write_varint_appends_to_what_is_there() {
    let mut out = vec![9u8, 9];
    write_varint(&mut out, 128);
    assert_eq!(out, vec![9, 9, 0x80, 0x01]);
}

#[test]
fn frame_is_prefix_then_payload() {
    assert_eq!(framed(b"abc"), vec![3, b'a', b'b', b'c']);
    assert_eq!(framed(b""), vec![0]);
    let long = vec![7u8; 200];
    let out = framed(&long);
    assert_eq!(&out[..2], &[0xc8, 0x01]);
    assert_eq!(&out[2..], &long[..]);
}

#[test]
fn read_varint_returns_what_write_varint_wrote() {
    for n in [0usize, 1, 127, 128, 300, 16_383, 16_384, 1_000_000, 500_000_000, usize::MAX] {
        let mut out = Vec::new();
        write_varint(&mut out, n);
        let wrote = out.len();
        out.extend_from_slice(&[0xff, 0xff]);
        let mut stream = ByteStream::new(out);
        assert_eq!(read_varint(&mut stream), Ok(n));
        assert_eq!(stream.remaining(), 2, "only the prefix of {} is taken ({} bytes)", n, wrote);
    }
}

#[test]
fn read_varint_on_closed_stream_is_zero() {
    let mut stream = ByteStream::new(Vec::new());
    assert_eq!(read_varint(&mut stream), Ok(0));
    assert_eq!(stream.remaining(), 0);
}

#[test]
fn read_varint_closed_inside_prefix_is_eof() {
    let mut stream = ByteStream::new(vec![0x80]);
    assert_eq!(read_varint(&mut stream), Err(FrameError::UnexpectedEof));
    let mut stream = ByteStream::new(vec![0xff, 0xff, 0xff]);
    assert_eq!(read_varint(&mut stream), Err(FrameError::UnexpectedEof));
    assert_eq!(stream.remaining(), 0);
}

#[test]
fn read_varint_with_too_many_continuation_bytes_is_malformed() {
    let mut bytes = vec![0xffu8; 10];
    bytes.extend_from_slice(&[0x01, 0x02]);
    let mut stream = ByteStream::new(bytes);
    assert_eq!(read_varint(&mut stream), Err(FrameError::Malformed));
    assert_eq!(stream.remaining(), 2);
}

#[test]
fn read_varint_takes_ten_bytes_at_most() {
    // Nine continuation bytes and a last byte: the largest prefix that is read.
    let mut bytes = vec![0xffu8; 9];
    bytes.push(0x01);
    bytes.push(0x55);
    let mut stream = ByteStream::new(bytes);
    assert_eq!(read_varint(&mut stream), Ok(usize::MAX));
    assert_eq!(stream.remaining(), 1);
}

#[test]
fn read_varint_beyond_the_integer_width_is_malformed() {
    // Nine continuation bytes and a last group of seven bits spell 2^70 - 1.
    let mut bytes = vec![0xffu8; 9];
    bytes.push(0x7f);
    bytes.push(0x55);
    let mut stream = ByteStream::new(bytes);
    assert_eq!(read_varint(&mut stream), Err(FrameError::Malformed));
    assert_eq!(stream.remaining(), 1);
    // One bit too many is enough: 2^64 is written with a last group of two.
    let mut bytes = vec![0x80u8; 9];
    bytes.push(0x02);
    let mut stream = ByteStream::new(bytes);
    assert_eq!(read_varint(&mut stream), Err(FrameError::Malformed));
    assert_eq!(stream.remaining(), 0);
    // 2^63 still fits.
    let mut bytes = vec![0x80u8; 9];
    bytes.push(0x01);
    let mut stream = ByteStream::new(bytes);
    assert_eq!(read_varint(&mut stream), Ok(1usize << 63));
}

#[test]
fn prefix_beyond_the_integer_width_is_not_a_size_violation() {
    let mut bytes = vec![0xffu8; 9];
    bytes.push(0x7f);
    assert_eq!(
        prefix_progress(&bytes),
        PrefixProgress::Failed(FrameError::Malformed)
    );
    assert_eq!(prefix_at_close(&bytes), Err(FrameError::Malformed));
    bytes.extend_from_slice(&[1, 2, 3]);
    let mut stream = ByteStream::new(bytes);
    assert_eq!(
        read_length_prefixed(&mut stream, 1_000_000),
        Err(FrameError::Malformed)
    );
    assert_eq!(stream.remaining(), 3);
    // The largest length that is spelled is oversized, and well formed.
    let mut bytes = vec![0xffu8; 9];
    bytes.push(0x01);
    let mut stream = ByteStream::new(bytes);
    assert_eq!(
        read_length_prefixed(&mut stream, 1_000_000),
        Err(FrameError::TooLarge {
            declared: usize::MAX,
            limit: 1_000_000
        })
    );
}

#[test]
fn read_varint_with_needless_zero_group_waits_for_more() {
    // The prefix ends in a zero group: the reader goes on reading and fails
    // when the stream closes.
    let mut stream = ByteStream::new(vec![0x80, 0x00]);
    assert_eq!(read_varint(&mut stream), Err(FrameError::UnexpectedEof));
    let mut stream = ByteStream::new(vec![0x80, 0x00, 0x01]);
    assert_eq!(read_varint(&mut stream), Err(FrameError::UnexpectedEof));
    // With ten bytes delivered it gives up.
    let mut bytes = vec![0x80u8, 0x00];
    bytes.extend_from_slice(&[1u8; 10]);
    let mut stream = ByteStream::new(bytes);
    assert_eq!(read_varint(&mut stream), Err(FrameError::Malformed));
    assert_eq!(stream.remaining(), 2);
}

#[test]
fn prefix_progress_follows_the_bytes() {
    assert_eq!(prefix_progress(&[]), PrefixProgress::NeedByte);
    assert_eq!(prefix_progress(&[0x05]), PrefixProgress::Length(5));
    assert_eq!(prefix_progress(&[0x80]), PrefixProgress::NeedByte);
    assert_eq!(prefix_progress(&[0x80, 0x01]), PrefixProgress::Length(128));
    assert_eq!(prefix_progress(&[0xac, 0x02]), PrefixProgress::Length(300));
    assert_eq!(prefix_progress(&[0x80, 0x00]), PrefixProgress::NeedByte);
    assert_eq!(prefix_progress(&[0xff; 9]), PrefixProgress::NeedByte);
    assert_eq!(prefix_progress(&[0xff; 10]), PrefixProgress::Failed(FrameError::Malformed));
}

#[test]
fn prefix_at_close_tells_idle_from_cut_short() {
    assert_eq!(prefix_at_close(&[]), Ok(0));
    assert_eq!(prefix_at_close(&[0x7f]), Ok(127));
    assert_eq!(prefix_at_close(&[0x80]), Err(FrameError::UnexpectedEof));
    assert_eq!(prefix_at_close(&[0xff; 10]), Err(FrameError::Malformed));
}

#[test]
fn check_declared_length_is_exact_at_the_ceiling() {
    assert_eq!(check_declared_length(0, 0), Ok(()));
    assert_eq!(check_declared_length(100, 100), Ok(()));
    assert_eq!(
        check_declared_length(101, 100),
        Err(FrameError::TooLarge { declared: 101, limit: 100 })
    );
}

#[test]
fn read_inverts_write() {
    for payload in [&b""[..], &b"x"[..], &b"hello world"[..], &[0u8; 300][..]] {
        let mut bytes = framed(payload);
        bytes.extend_from_slice(b"next");
        let mut stream = ByteStream::new(bytes);
        assert_eq!(read_length_prefixed(&mut stream, 1_000), Ok(payload.to_vec()));
        assert_eq!(stream.remaining(), 4);
    }
}

#[test]
fn frames_are_read_one_after_another() {
    let mut bytes = framed(b"first");
    bytes.extend_from_slice(&framed(b"second"));
    let mut stream = ByteStream::new(bytes);
    assert_eq!(read_length_prefixed(&mut stream, 10), Ok(b"first".to_vec()));
    assert_eq!(read_length_prefixed(&mut stream, 10), Ok(b"second".to_vec()));
    assert_eq!(read_length_prefixed(&mut stream, 10), Ok(Vec::new()));
}

#[test]
fn length_at_the_ceiling_is_accepted() {
    let payload = vec![1u8; 64];
    let mut stream = ByteStream::new(framed(&payload));
    assert_eq!(read_length_prefixed(&mut stream, 64), Ok(payload));
}

#[test]
fn length_over_the_ceiling_is_refused_before_the_body() {
    let payload = vec![1u8; 65];
    let mut stream = ByteStream::new(framed(&payload));
    assert_eq!(
        read_length_prefixed(&mut stream, 64),
        Err(FrameError::TooLarge { declared: 65, limit: 64 })
    );
    assert_eq!(stream.remaining(), 65);
}

#[test]
fn oversized_declaration_needs_no_body_to_be_refused() {
    let mut prefix = Vec::new();
    write_varint(&mut prefix, 1_000_001);
    let mut stream = ByteStream::new(prefix);
    assert_eq!(
        read_length_prefixed(&mut stream, 1_000_000),
        Err(FrameError::TooLarge { declared: 1_000_001, limit: 1_000_000 })
    );
}

#[test]
fn stream_closed_before_any_byte_is_a_clean_empty_read() {
    let mut stream = ByteStream::new(Vec::new());
    assert_eq!(read_length_prefixed(&mut stream, 10), Ok(Vec::new()));
}

#[test]
fn stream_closed_inside_the_body_is_eof() {
    let mut bytes = framed(b"hello");
    bytes.truncate(3);
    let mut stream = ByteStream::new(bytes);
    assert_eq!(read_length_prefixed(&mut stream, 10), Err(FrameError::UnexpectedEof));
    assert_eq!(stream.remaining(), 0);
}

#[test]
fn stream_closed_right_after_the_prefix_is_eof() {
    let mut stream = ByteStream::new(vec![0x05]);
    assert_eq!(read_length_prefixed(&mut stream, 10), Err(FrameError::UnexpectedEof));
}

#[test]
fn malformed_prefix_is_not_a_size_violation() {
    let mut stream = ByteStream::new(vec![0xff; 12]);
    assert_eq!(read_length_prefixed(&mut stream, 10), Err(FrameError::Malformed));
}

#[test]
fn byte_stream_reads_from_the_front() {
    let mut stream = ByteStream::new(vec![1, 2, 3, 4]);
    assert_eq!(stream.remaining(), 4);
    assert_eq!(stream.read_byte(), Some(1));
    assert_eq!(stream.read_exact(2), Some(vec![2, 3]));
    assert_eq!(stream.read_exact(2), None);
    assert_eq!(stream.remaining(), 0);
    assert_eq!(stream.read_byte(), None);
    assert_eq!(stream.read_exact(0), Some(Vec::new()));
}
