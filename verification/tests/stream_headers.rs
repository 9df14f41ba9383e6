use inno::lzma_stream_header::{LzmaStreamHeader, StreamHeaderError, MAX_LZMA1_DICT_SIZE};

fn header(props: u8, dict_size: u32) -> Vec<u8> {
    let mut bytes = vec![props];
    bytes.extend_from_slice(&dict_size.to_le_bytes());
    bytes
}

#[test]
fn limit_is_256_mib() {
    assert_eq!(MAX_LZMA1_DICT_SIZE, 268_435_456);
}

#[test]
fn header_is_read_and_the_rest_is_left() {
    let bytes = [0x5d, 0x00, 0x00, 0x80, 0x00, 0xaa, 0xbb];
    let mut src: &[u8] = &bytes;
    assert_eq!(LzmaStreamHeader::read(&mut src), Ok((0x5d, 8 * 1024 * 1024)));
    assert_eq!(src, &[0xaa, 0xbb]);
}

#[test]
fn dictionary_size_is_little_endian() {
    assert_eq!(LzmaStreamHeader::parse([7, 0x78, 0x56, 0x34, 0x02]), Ok((7, 0x0234_5678)));
}

#[test]
fn headers_within_the_limit_read_back() {
    for dict_size in [0, 1, 255, 256, 65_535, 65_536, 0x00ab_cdef, MAX_LZMA1_DICT_SIZE] {
        for props in [0, 0x5d, 0xff] {
            let bytes = header(props, dict_size);
            let mut src: &[u8] = &bytes;
            assert_eq!(LzmaStreamHeader::read(&mut src), Ok((props, dict_size)));
            assert!(src.is_empty());
        }
    }
}

#[test]
fn headers_over_the_limit_are_rejected() {
    for dict_size in [MAX_LZMA1_DICT_SIZE + 1, 0x8000_0000, u32::MAX] {
        let bytes = header(0x5d, dict_size);
        let mut src: &[u8] = &bytes;
        assert_eq!(
            LzmaStreamHeader::read(&mut src),
            Err(StreamHeaderError::DictionaryTooLarge(dict_size))
        );
        assert!(src.is_empty());
    }
}

#[test]
fn short_input_is_an_unexpected_end() {
    for len in 0..5 {
        let bytes = header(0x5d, 1);
        let mut src: &[u8] = &bytes[..len];
        assert_eq!(LzmaStreamHeader::read(&mut src), Err(StreamHeaderError::UnexpectedEof));
        assert!(src.is_empty());
    }
}

#[test]
fn message_names_the_size() {
    assert_eq!(
        StreamHeaderError::DictionaryTooLarge(268_435_457).message(),
        "LZMA1 dictionary size too large: 268435457 bytes"
    );
    assert_eq!(
        StreamHeaderError::DictionaryTooLarge(u32::MAX).message(),
        "LZMA1 dictionary size too large: 4294967295 bytes"
    );
    assert_eq!(
        StreamHeaderError::DictionaryTooLarge(0).message(),
        "LZMA1 dictionary size too large: 0 bytes"
    );
    assert_eq!(StreamHeaderError::UnexpectedEof.message(), "failed to fill whole buffer");
}

#[test]
fn what_follows_the_header_plays_no_part() {
    for front in [header(0x5d, 4096), header(0x5d, u32::MAX)] {
        let alone = front.clone();
        let mut long = front.clone();
        long.extend_from_slice(&[0xff; 100]);
        let (mut a, mut b): (&[u8], &[u8]) = (&alone, &long);
        let result = LzmaStreamHeader::read(&mut a);
        assert_eq!(result, LzmaStreamHeader::read(&mut b));
        assert_ne!(result, Err(StreamHeaderError::UnexpectedEof));
        assert!(a.is_empty());
        assert_eq!(b, [0xff; 100]);
    }
}
