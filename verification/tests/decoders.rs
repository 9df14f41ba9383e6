use flate2::read::ZlibDecoder;
use flate2::write::ZlibEncoder;
use flate2::Compression;
use inno::decoder::Decoder;
use lzma_rust2::{LzmaOptions, LzmaReader, LzmaWriter};
use std::io::{ErrorKind, Write};

fn text() -> Vec<u8> {
    (0..100_000u32).map(|i| (i * i / 7 % 61) as u8 + b'0').collect()
}

fn zlib(data: &[u8]) -> Vec<u8> {
    let mut encoder = ZlibEncoder::new(Vec::new(), Compression::default());
    encoder.write_all(data).unwrap();
    encoder.finish().unwrap()
}

/// A raw LZMA1 stream with an end marker, and its properties and dictionary size.
fn lzma(data: &[u8]) -> (Vec<u8>, u8, u32) {
    let options = LzmaOptions::with_preset(1);
    let mut writer = LzmaWriter::new_no_header(Vec::new(), &options, true).unwrap();
    let props = writer.props();
    writer.write_all(data).unwrap();
    (writer.finish().unwrap(), props, options.dict_size)
}

fn lzma_reader<R: std::io::Read>(reader: R, props: u8, dict_size: u32) -> LzmaReader<R> {
    LzmaReader::new_with_props(reader, u64::MAX, props, dict_size, None).unwrap()
}

/// Reads to the end through a buffer, and returns the reads one by one.
fn read_all(decoder: &mut Decoder<&[u8]>, buf_len: usize) -> Vec<Vec<u8>> {
    let mut reads = Vec::new();
    let mut buf = vec![0; buf_len];
    loop {
        let n = decoder.read(&mut buf).unwrap();
        assert!(n <= buf_len);
        if n == 0 {
            return reads;
        }
        reads.push(buf[..n].to_vec());
    }
}

#[test]
fn kinds_are_told_apart() {
    let stored: Decoder<&[u8]> = Decoder::Stored(&[]);
    assert!(stored.is_stored());
    assert!(!stored.is_compressed());
    assert!(!stored.is_zlib());
    assert!(!stored.is_lzma1());

    let compressed = zlib(b"x");
    let zlib = Decoder::Zlib(ZlibDecoder::new(compressed.as_slice()));
    assert!(!zlib.is_stored());
    assert!(zlib.is_compressed());
    assert!(zlib.is_zlib());
    assert!(!zlib.is_lzma1());

    let (compressed, props, dict_size) = lzma(b"x");
    let lzma1 = Decoder::LZMA1(lzma_reader(compressed.as_slice(), props, dict_size));
    assert!(!lzma1.is_stored());
    assert!(lzma1.is_compressed());
    assert!(!lzma1.is_zlib());
    assert!(lzma1.is_lzma1());
}

#[test]
fn stored_data_are_copied() {
    let mut decoder: Decoder<&[u8]> = Decoder::Stored(b"abcde");
    let mut buf = *b"......";
    assert_eq!(decoder.read(&mut buf[..2]).unwrap(), 2);
    assert_eq!(&buf, b"ab....");
    assert_eq!(decoder.read(&mut []).unwrap(), 0);
    assert_eq!(decoder.read(&mut buf).unwrap(), 3);
    assert_eq!(&buf, b"cde...");
    assert_eq!(decoder.read(&mut buf).unwrap(), 0);
    assert_eq!(&buf, b"cde...");
    assert!(decoder.is_stored());
}

#[test]
fn reads_of_stored_data_put_together_are_the_data() {
    let data = text();
    for buf_len in [1, 7, 4096, 200_000] {
        let mut decoder = Decoder::Stored(data.as_slice());
        assert_eq!(read_all(&mut decoder, buf_len).concat(), data);
    }
}

#[test]
fn reads_of_zlib_data_put_together_are_the_data() {
    let data = text();
    let compressed = zlib(&data);
    assert!(compressed.len() < data.len());
    for buf_len in [1, 7, 4096, 200_000] {
        let mut decoder = Decoder::Zlib(ZlibDecoder::new(compressed.as_slice()));
        assert_eq!(decoder.read(&mut []).unwrap(), 0);
        assert_eq!(read_all(&mut decoder, buf_len).concat(), data);
        assert!(decoder.is_zlib());
    }
}

#[test]
fn reads_of_lzma_data_put_together_are_the_data() {
    let data = text();
    let (compressed, props, dict_size) = lzma(&data);
    assert!(compressed.len() < data.len());
    for buf_len in [1, 7, 4096, 200_000] {
        let mut decoder = Decoder::LZMA1(lzma_reader(compressed.as_slice(), props, dict_size));
        assert_eq!(decoder.read(&mut []).unwrap(), 0);
        assert_eq!(read_all(&mut decoder, buf_len).concat(), data);
        assert!(decoder.is_lzma1());
    }
}

#[test]
fn empty_streams_have_no_bytes() {
    let compressed = zlib(b"");
    let mut decoder = Decoder::Zlib(ZlibDecoder::new(compressed.as_slice()));
    assert!(read_all(&mut decoder, 10).is_empty());
    let (compressed, props, dict_size) = lzma(b"");
    let mut decoder = Decoder::LZMA1(lzma_reader(compressed.as_slice(), props, dict_size));
    assert!(read_all(&mut decoder, 10).is_empty());
}

#[test]
fn zlib_stream_that_is_cut_short_fails() {
    let compressed = zlib(&text());
    let mut decoder = Decoder::Zlib(ZlibDecoder::new(&compressed[..compressed.len() / 2]));
    let mut buf = vec![0; 200_000];
    let error = loop {
        match decoder.read(&mut buf) {
            Ok(n) => assert!(n > 0),
            Err(error) => break error,
        }
    };
    assert_eq!(error.kind(), ErrorKind::UnexpectedEof);
    assert!(decoder.is_zlib());
}

#[test]
fn corrupt_zlib_stream_fails() {
    let mut decoder = Decoder::Zlib(ZlibDecoder::new(&[0xff, 0xff, 0xff, 0xff][..]));
    assert_eq!(decoder.read(&mut [0; 10]).unwrap_err().kind(), ErrorKind::InvalidInput);
}

#[test]
fn lzma_stream_that_is_cut_short_fails() {
    let (compressed, props, dict_size) = lzma(&text());
    let half = &compressed[..compressed.len() / 2];
    let mut decoder = Decoder::LZMA1(lzma_reader(half, props, dict_size));
    let mut buf = vec![0; 200_000];
    assert!(decoder.read(&mut buf).is_err());
    assert!(decoder.is_lzma1());
}

#[test]
fn underlying_reader_is_shown_lent_and_given_up() {
    let other = *b"other";

    let mut stored: Decoder<&[u8]> = Decoder::Stored(b"stored");
    assert_eq!(*stored.get_ref(), b"stored");
    *stored.get_mut() = &other;
    assert_eq!(*stored.get_ref(), b"other");
    assert!(stored.is_stored());
    assert_eq!(stored.into_inner(), b"other");

    let compressed = zlib(b"data");
    let mut zlib = Decoder::Zlib(ZlibDecoder::new(compressed.as_slice()));
    assert_eq!(*zlib.get_ref(), compressed.as_slice());
    *zlib.get_mut() = &other;
    assert_eq!(*zlib.get_ref(), b"other");
    assert!(zlib.is_zlib());
    assert_eq!(zlib.into_inner(), b"other");

    let (compressed, props, dict_size) = lzma(b"data");
    let mut lzma1 = Decoder::LZMA1(lzma_reader(compressed.as_slice(), props, dict_size));
    assert!(compressed.ends_with(lzma1.get_ref()));
    *lzma1.get_mut() = &other;
    assert_eq!(*lzma1.get_ref(), b"other");
    assert!(lzma1.is_lzma1());
    assert_eq!(lzma1.into_inner(), b"other");
}

#[test]
fn zlib_decoder_begins_at_the_front_of_its_stream() {
    let data = text();
    let compressed = zlib(&data);
    let mut decoder = Decoder::zlib(&compressed);
    assert!(decoder.is_zlib());
    assert_eq!(*decoder.get_ref(), compressed.as_slice());
    assert_eq!(read_all(&mut decoder, 4096).concat(), data);
    assert!(decoder.into_inner().is_empty());
}

#[test]
fn rest_of_the_buffer_is_left_alone() {
    let compressed = zlib(b"abc");
    let mut decoder = Decoder::zlib(&compressed);
    let mut buf = *b"......";
    assert_eq!(decoder.read(&mut buf).unwrap(), 3);
    assert_eq!(&buf, b"abc...");

    let (compressed, props, dict_size) = lzma(b"abc");
    let mut decoder = Decoder::LZMA1(lzma_reader(compressed.as_slice(), props, dict_size));
    let mut buf = *b"......";
    assert_eq!(decoder.read(&mut buf).unwrap(), 3);
    assert_eq!(&buf, b"abc...");
}

#[test]
fn lending_the_reader_changes_nothing() {
    let data = text();
    let compressed = zlib(&data);
    let mut decoder = Decoder::zlib(&compressed);
    let mut front = [0; 10];
    assert_eq!(decoder.read(&mut front).unwrap(), 10);
    let _reader = decoder.get_mut();
    assert_eq!(read_all(&mut decoder, 4096).concat(), data[10..]);

    let (compressed, props, dict_size) = lzma(&data);
    let mut decoder = Decoder::LZMA1(lzma_reader(compressed.as_slice(), props, dict_size));
    assert_eq!(decoder.read(&mut front).unwrap(), 10);
    let _reader = decoder.get_mut();
    assert_eq!(read_all(&mut decoder, 4096).concat(), data[10..]);
}

#[test]
fn same_decoder_and_buffer_length_give_the_same_read() {
    let data = text();
    let half = zlib(&data).len() / 2;
    let compressed = zlib(&data);
    let cut = &compressed[..half];
    let (mut a, mut b) = (Decoder::zlib(cut), Decoder::zlib(cut));
    let (mut buf_a, mut buf_b) = (vec![1; 5000], vec![2; 5000]);
    loop {
        match (a.read(&mut buf_a), b.read(&mut buf_b)) {
            (Ok(n), Ok(m)) => {
                assert!(n > 0);
                assert_eq!(n, m);
                assert_eq!(buf_a[..n], buf_b[..m]);
            }
            (Err(e), Err(f)) => {
                assert_eq!(e.kind(), f.kind());
                assert_eq!(e.to_string(), f.to_string());
                return;
            }
            _ => panic!("only one of the reads failed"),
        }
    }
}

#[test]
fn lzma_reads_fill_the_buffer_as_far_as_the_contents_go() {
    let data = text();
    let (compressed, props, dict_size) = lzma(&data);
    let mut decoder = Decoder::LZMA1(lzma_reader(compressed.as_slice(), props, dict_size));
    let mut buf = vec![0; 60_000];
    assert_eq!(decoder.read(&mut buf).unwrap(), 60_000);
    assert_eq!(decoder.read(&mut buf).unwrap(), 40_000);
    assert_eq!(decoder.read(&mut buf).unwrap(), 0);
}
