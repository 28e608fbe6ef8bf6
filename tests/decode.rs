use std::io::Write;

use cbc::cipher::block_padding::NoPadding;
use cbc::cipher::{BlockEncryptMut, KeyIvInit};
use flate2::write::ZlibEncoder;
use flate2::Compression;

use fromformats::dcx::{DCXError, DcxReader};
use fromformats::regulation::{Regulation, RegulationError};

const KEY: [u8; 32] = [
    0x99, 0xBF, 0xFC, 0x36, 0x6A, 0x6B, 0xC8, 0xC6, 0xF5, 0x82, 0x7D, 0x09, 0x36, 0x02, 0xD6, 0x76,
    0xC4, 0x28, 0x92, 0xA0, 0x1C, 0x20, 0x7F, 0xB0, 0x24, 0xD3, 0xAF, 0x4E, 0x49, 0x3F, 0xEF, 0x99,
];

const IV: [u8; 16] = [
    0x10, 0x21, 0x32, 0x43, 0x54, 0x65, 0x76, 0x87, 0x98, 0xA9, 0xBA, 0xCB, 0xDC, 0xED, 0xFE, 0x0F,
];

fn zlib(data: &[u8]) -> Vec<u8> {
    let mut e = ZlibEncoder::new(Vec::new(), Compression::default());
    e.write_all(data).unwrap();
    e.finish().unwrap()
}

fn header(algorithm: &[u8; 4], compressed: u32, size: u32) -> Vec<u8> {
    let mut h = Vec::new();
    h.extend_from_slice(b"DCX\0");
    h.extend_from_slice(&0x10000u32.to_be_bytes());
    h.extend_from_slice(&0x18u32.to_be_bytes());
    h.extend_from_slice(&0x24u32.to_be_bytes());
    h.extend_from_slice(&0x24u32.to_be_bytes());
    h.extend_from_slice(&0x2Cu32.to_be_bytes());
    h.extend_from_slice(b"DCS\0");
    h.extend_from_slice(&compressed.to_be_bytes());
    h.extend_from_slice(&size.to_be_bytes());
    h.extend_from_slice(b"DCP\0");
    h.extend_from_slice(algorithm);
    h.extend_from_slice(&[0u8; 24]);
    h.extend_from_slice(b"DCA\0");
    h.extend_from_slice(&8u32.to_be_bytes());
    assert_eq!(h.len(), 76);
    h
}

fn container(algorithm: &[u8; 4], payload: &[u8]) -> Vec<u8> {
    let body = zlib(payload);
    let mut c = header(algorithm, body.len() as u32, payload.len() as u32);
    c.extend_from_slice(&body);
    c
}

fn encrypt(plain: &[u8]) -> Vec<u8> {
    let mut padded = plain.to_vec();
    while padded.len() % 16 != 0 {
        padded.push(0);
    }
    let ct = cbc::Encryptor::<aes::Aes256>::new((&KEY).into(), (&IV).into())
        .encrypt_padded_vec_mut::<NoPadding>(&padded);
    let mut blob = IV.to_vec();
    blob.extend_from_slice(&ct);
    blob
}

fn decode(blob: &[u8]) -> Result<Vec<u8>, RegulationError> {
    Regulation::from_encrypted_compressed(blob).map(|r| r.parambnd)
}

#[test]
fn it_works() {
    let payload: Vec<u8> = (0..5000u32).map(|i| (i % 251) as u8).collect();
    let blob = encrypt(&container(b"DFLT", &payload));
    let reg = Regulation::from_encrypted_compressed(&blob).unwrap();
    assert_eq!(reg.parambnd, payload);
}

#[test]
fn decodes_hello() {
    let blob = encrypt(&container(b"DFLT", b"hello"));
    assert_eq!(decode(&blob).unwrap(), b"hello".to_vec());
}

#[test]
fn lz4_tag_is_unsupported() {
    let blob = encrypt(&container(b"LZ4\0", b"hello"));
    assert_eq!(
        decode(&blob).err(),
        Some(RegulationError::DCXError(DCXError::UnsupportedCodec(*b"LZ4\0")))
    );
}

#[test]
fn other_tags_are_unsupported() {
    for tag in [b"dflt", b"ZSTD", b"DFL\0", b"\0\0\0\0", b"KRAK"] {
        let c = container(tag, b"hello");
        assert_eq!(
            Regulation::from_decrypted_compressed(&c).err(),
            Some(RegulationError::DCXError(DCXError::UnsupportedCodec(*tag)))
        );
    }
}

#[test]
fn short_input_is_malformed() {
    for len in [0usize, 1, 15, 16, 17, 31] {
        let blob = vec![0u8; len];
        assert_eq!(decode(&blob).err(), Some(RegulationError::MalformedInput));
    }
}

#[test]
fn misaligned_ciphertext_is_refused() {
    for len in [33usize, 40, 47, 49, 95] {
        let blob = vec![7u8; len];
        assert_eq!(decode(&blob).err(), Some(RegulationError::DecryptInputTooShort));
    }
    let mut blob = encrypt(&container(b"DFLT", b"hello"));
    blob.push(0);
    assert_eq!(decode(&blob).err(), Some(RegulationError::DecryptInputTooShort));
}

#[test]
fn corrupt_magic_is_refused() {
    let good = container(b"DFLT", b"hello");
    for at in [0usize, 24, 36, 68] {
        for k in 0..4 {
            let mut c = good.clone();
            c[at + k] ^= 0x01;
            assert_eq!(
                Regulation::from_decrypted_compressed(&c).err(),
                Some(RegulationError::DCXError(DCXError::MalformedMetadata))
            );
            assert_eq!(
                decode(&encrypt(&c)).err(),
                Some(RegulationError::DCXError(DCXError::MalformedMetadata))
            );
        }
    }
}

#[test]
fn magic_is_checked_before_tag() {
    let mut c = container(b"LZ4\0", b"hello");
    c[68] = b'X';
    assert_eq!(
        Regulation::from_decrypted_compressed(&c).err(),
        Some(RegulationError::DCXError(DCXError::MalformedMetadata))
    );
}

#[test]
fn wrong_key_gives_malformed_header() {
    let mut blob = encrypt(&container(b"DFLT", b"hello"));
    blob[0] ^= 0xFF;
    assert_eq!(
        decode(&blob).err(),
        Some(RegulationError::DCXError(DCXError::MalformedMetadata))
    );
}

#[test]
fn short_header_is_io_error() {
    let c = container(b"DFLT", b"hello");
    for len in [0usize, 4, 60, 75] {
        assert_eq!(
            Regulation::from_decrypted_compressed(&c[..len]).err(),
            Some(RegulationError::DCXError(DCXError::IO))
        );
    }
}

#[test]
fn corrupt_body_is_decompression_error() {
    let mut c = header(b"DFLT", 4, 5);
    c.extend_from_slice(&[0xFF, 0xFF, 0xFF, 0xFF]);
    assert_eq!(
        Regulation::from_decrypted_compressed(&c).err(),
        Some(RegulationError::DCXError(DCXError::Decompression))
    );
    let full = container(b"DFLT", b"hello hello hello");
    let truncated = &full[..full.len() - 3];
    assert_eq!(
        Regulation::from_decrypted_compressed(truncated).err(),
        Some(RegulationError::DCXError(DCXError::Decompression))
    );
    let empty_body = header(b"DFLT", 0, 0);
    assert_eq!(
        Regulation::from_decrypted_compressed(&empty_body).err(),
        Some(RegulationError::DCXError(DCXError::Decompression))
    );
}

#[test]
fn trailing_bytes_after_stream_are_ignored() {
    let mut c = container(b"DFLT", b"hello");
    c.extend_from_slice(&[0u8; 11]);
    assert_eq!(
        Regulation::from_decrypted_compressed(&c).map(|r| r.parambnd).unwrap(),
        b"hello".to_vec()
    );
}

#[test]
fn empty_payload_decodes_to_nothing() {
    let blob = encrypt(&container(b"DFLT", b""));
    assert_eq!(decode(&blob).unwrap(), Vec::<u8>::new());
}

#[test]
fn decode_is_deterministic() {
    let blob = encrypt(&container(b"DFLT", b"the same bytes every time"));
    let first = decode(&blob).unwrap();
    for _ in 0..5 {
        assert_eq!(decode(&blob).unwrap(), first);
    }
    let bad = encrypt(&container(b"LZ4\0", b"x"));
    assert_eq!(decode(&bad).err(), decode(&bad).err());
}

#[test]
fn size_hint_is_the_declared_size() {
    let mut c = header(b"DFLT", 0, 0x0102_0304);
    c.extend_from_slice(&zlib(b"abc"));
    let reader = DcxReader::new(&c).ok().unwrap();
    assert_eq!(reader.size_hint(), 0x0102_0304);
    let out = Regulation::from_decrypted_compressed(&c).map(|r| r.parambnd).unwrap();
    assert_eq!(out, b"abc".to_vec());
}

#[test]
fn reader_streams_in_pieces() {
    let payload: Vec<u8> = (0..1000u32).map(|i| (i * 7 % 256) as u8).collect();
    let c = container(b"DFLT", &payload);
    let mut reader = DcxReader::new(&c).ok().unwrap();
    assert_eq!(reader.size_hint(), 1000);
    let mut out = Vec::new();
    let mut buf = [0u8; 33];
    loop {
        let n = reader.read(&mut buf).unwrap();
        if n == 0 {
            break;
        }
        out.extend_from_slice(&buf[..n]);
    }
    assert_eq!(out, payload);
    assert_eq!(reader.read(&mut buf).unwrap(), 0);
    assert_eq!(reader.read(&mut []).unwrap(), 0);
}

#[test]
fn reader_read_to_end_appends() {
    let c = container(b"DFLT", b"world");
    let mut reader = DcxReader::new(&c).ok().unwrap();
    let mut out = b"hello ".to_vec();
    assert_eq!(reader.read_to_end(&mut out).unwrap(), 5);
    assert_eq!(out, b"hello world".to_vec());
    assert_eq!(reader.read_to_end(&mut out).unwrap(), 0);
}

#[test]
fn reader_reports_header_errors() {
    assert_eq!(DcxReader::new(&[0u8; 10]).err(), Some(DCXError::IO));
    let c = container(b"ZSTD", b"x");
    assert_eq!(DcxReader::new(&c).err(), Some(DCXError::UnsupportedCodec(*b"ZSTD")));
}
