use rtv::chunked::{decode_chunked, ChunkPhase};
use std::io::Read;

fn start() -> ChunkPhase {
    ChunkPhase::Size { len: 0, digits: false }
}

fn reference(stream: &[u8]) -> Vec<u8> {
    let mut out = Vec::new();
    chunked_transfer::Decoder::new(stream).read_to_end(&mut out).unwrap();
    out
}

#[test]
fn chunked_hello() {
    let (phase, out) = decode_chunked(start(), b"5\r\nhello\r\n0\r\n\r\n");
    assert_eq!(out, b"hello");
    assert_eq!(phase, ChunkPhase::Done);
}

#[test]
fn chunked_matches_reference_decoder() {
    let stream = b"3\r\nabc\r\n2\r\nde\r\nA\r\n0123456789\r\n0\r\n\r\n";
    let (phase, out) = decode_chunked(start(), stream);
    assert_eq!(phase, ChunkPhase::Done);
    assert_eq!(out, reference(stream));
    assert_eq!(out, b"abcde0123456789");
}

#[test]
fn chunked_any_split_gives_same_body() {
    let stream = b"3\r\nabc\r\n2\r\nde\r\n0\r\n\r\n";
    for cut in 0..=stream.len() {
        let (mid, mut first) = decode_chunked(start(), &stream[..cut]);
        let (end, second) = decode_chunked(mid, &stream[cut..]);
        first.extend_from_slice(&second);
        assert_eq!(first, b"abcde");
        assert_eq!(end, ChunkPhase::Done);
    }
}

#[test]
fn chunked_incomplete_waits() {
    let (phase, out) = decode_chunked(start(), b"4\r\nab");
    assert_eq!(out, b"ab");
    assert_eq!(phase, ChunkPhase::Data { remaining: 2 });
    let (phase, _) = decode_chunked(start(), b"1f");
    assert_eq!(phase, ChunkPhase::Size { len: 31, digits: true });
}

#[test]
fn chunked_rejects_extensions_and_garbage() {
    let (phase, _) = decode_chunked(start(), b"3;ext=1\r\nabc\r\n0\r\n\r\n");
    assert_eq!(phase, ChunkPhase::Invalid);
    let (phase, _) = decode_chunked(start(), b"\r\n");
    assert_eq!(phase, ChunkPhase::Invalid);
    let (phase, _) = decode_chunked(start(), b"1\r\nab\r\n");
    assert_eq!(phase, ChunkPhase::Invalid);
    let (phase, _) = decode_chunked(start(), b"0\r\nX-Trailer: 1\r\n\r\n");
    assert_eq!(phase, ChunkPhase::Invalid);
}

#[test]
fn chunked_size_overflow_is_invalid() {
    let (phase, _) = decode_chunked(start(), b"10000000000000000\r\n");
    assert_eq!(phase, ChunkPhase::Invalid);
}

#[test]
fn chunked_upper_case_hex() {
    let mut stream = b"B\r\n".to_vec();
    stream.extend_from_slice(b"hello world\r\n0\r\n\r\n");
    let (phase, out) = decode_chunked(start(), &stream);
    assert_eq!(phase, ChunkPhase::Done);
    assert_eq!(out, reference(&stream));
}
