use portpub::message::{new_codec, FrameError};
use tokio_util::bytes::BytesMut;
use tokio_util::codec::{AnyDelimiterCodec, Decoder};

#[test]
fn codec_of_the_protocol() {
    let codec = new_codec();
    assert_eq!(codec.seek_delimiters, vec![0u8]);
    assert_eq!(codec.sequence_writer, vec![0u8]);
    assert_eq!(codec.max_length, 128);
    assert!(!codec.is_discarding);
}

#[test]
fn frames_end_with_a_zero_byte() {
    assert_eq!(new_codec().encode("\"Hello\""), b"\"Hello\"\0".to_vec());
    assert_eq!(new_codec().encode(""), vec![0u8]);
    assert_eq!(new_codec().encode("ä"), vec![0xc3, 0xa4, 0]);
}

#[test]
fn read_gives_back_what_was_written() {
    let mut codec = new_codec();
    let mut bytes = codec.encode("one");
    bytes.extend(codec.encode("two"));
    bytes.extend_from_slice(b"thr");
    assert_eq!(codec.decode(&mut bytes), Ok(Some(b"one".to_vec())));
    assert_eq!(codec.decode(&mut bytes), Ok(Some(b"two".to_vec())));
    assert_eq!(codec.decode(&mut bytes), Ok(None));
    assert_eq!(bytes, b"thr".to_vec());
}

#[test]
fn part_of_a_frame_is_kept() {
    let mut codec = new_codec();
    let frame = codec.encode("abcdef");
    for n in 0..frame.len() {
        let mut bytes = frame[..n].to_vec();
        assert_eq!(codec.decode(&mut bytes), Ok(None));
        assert_eq!(bytes, frame[..n].to_vec());
    }
}

#[test]
fn longest_frame_has_128_bytes() {
    let mut codec = new_codec();
    let mut bytes = codec.encode(&"x".repeat(128));
    assert_eq!(codec.decode(&mut bytes), Ok(Some(vec![b'x'; 128])));
    assert!(bytes.is_empty());

    let mut bytes = codec.encode(&"x".repeat(129));
    assert_eq!(codec.decode(&mut bytes), Err(FrameError::MaxChunkLengthExceeded));
    assert_eq!(bytes.len(), 130);

    let mut codec = new_codec();
    let mut bytes = vec![b'x'; 128];
    assert_eq!(codec.decode(&mut bytes), Ok(None));
    bytes.push(b'x');
    assert_eq!(codec.decode(&mut bytes), Err(FrameError::MaxChunkLengthExceeded));
}

#[test]
fn last_frame_needs_no_end() {
    let mut codec = new_codec();
    let mut bytes = b"one\0two".to_vec();
    assert_eq!(codec.decode_eof(&mut bytes), Ok(Some(b"one".to_vec())));
    assert_eq!(codec.decode_eof(&mut bytes), Ok(Some(b"two".to_vec())));
    assert_eq!(codec.decode_eof(&mut bytes), Ok(None));
    let mut bytes = vec![b'x'; 200];
    assert_eq!(codec.decode_eof(&mut bytes), Err(FrameError::MaxChunkLengthExceeded));
}

#[test]
fn reading_goes_on_after_a_long_frame() {
    let mut codec = new_codec();
    let mut bytes = vec![b'x'; 300];
    assert_eq!(codec.decode(&mut bytes), Err(FrameError::MaxChunkLengthExceeded));
    assert_eq!(codec.decode(&mut bytes), Ok(None));
    assert!(bytes.is_empty() && codec.is_discarding);
    bytes.extend_from_slice(b"xx\0next\0");
    assert_eq!(codec.decode(&mut bytes), Ok(Some(b"next".to_vec())));
    assert_eq!(codec.decode(&mut bytes), Ok(None));
}

#[test]
fn frames_are_those_of_the_outside_codec() {
    let parts: [&[u8]; 9] = [b"ab", b"\0", b"c\0d\0\0", &[1; 60], &[2; 69], &[3; 200], b"\0", b"e\0f", &[4; 128]];
    for seed in 0..2000usize {
        let mut codec = new_codec();
        let mut inner = AnyDelimiterCodec::new_with_max_length(vec![0], vec![0], 128);
        let mut bytes: Vec<u8> = Vec::new();
        let mut buffer = BytesMut::new();
        let mut next = seed;
        for _ in 0..8 {
            next = (next * 31 + 17) % 10007;
            bytes.extend_from_slice(parts[next % parts.len()]);
            buffer.extend_from_slice(parts[next % parts.len()]);
            for _ in 0..next % 4 {
                let at_end = next % 11 == 0;
                let expected = if at_end {
                    inner.decode_eof(&mut buffer)
                } else {
                    inner.decode(&mut buffer)
                };
                let read = if at_end {
                    codec.decode_eof(&mut bytes)
                } else {
                    codec.decode(&mut bytes)
                };
                match expected {
                    Ok(frame) => assert_eq!(read, Ok(frame.map(|f| f.to_vec()))),
                    Err(_) => assert_eq!(read, Err(FrameError::MaxChunkLengthExceeded)),
                }
                assert_eq!(bytes, buffer.to_vec());
            }
        }
    }
}
