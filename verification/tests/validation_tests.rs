//! CRC-32 checksum tests.

use rom_patcher::crc32::{compute, Crc32Hasher};

#[test]
fn test_crc32_empty() {
    let data = b"";
    let hash = compute(data).to_be_bytes().to_vec();
    assert_eq!(hash, vec![0x00, 0x00, 0x00, 0x00]);
}

#[test]
fn test_crc32_known_values() {
    // Test "123456789"
    let data = b"123456789";
    let hash = compute(data).to_be_bytes().to_vec();
    assert_eq!(hash, vec![0xCB, 0xF4, 0x39, 0x26]);

    // Test "The quick brown fox jumps over the lazy dog"
    let data = b"The quick brown fox jumps over the lazy dog";
    let hash = compute(data).to_be_bytes().to_vec();
    assert_eq!(hash, vec![0x41, 0x4F, 0xA3, 0x39]);
}

#[test]
fn test_validation() {
    let data = b"test data";
    let hash = compute(data);
    assert_eq!(compute(data), hash);

    let wrong_hash: u32 = 0x00000000;
    assert_ne!(compute(data), wrong_hash);
}

#[test]
fn test_crc32_incremental_matches_oneshot() {
    let mut hasher = Crc32Hasher::new();
    hasher.update(b"The quick brown fox ");
    hasher.update(b"jumps over the lazy dog");
    let split = hasher.finalize();
    assert_eq!(split, compute(b"The quick brown fox jumps over the lazy dog"));
}

#[test]
fn test_crc32_against_crc32fast() {
    let data = b"arbitrary cross-check payload 0123456789";
    assert_eq!(compute(data), crc32fast::hash(data));
}

#[test]
fn test_md5_known_vectors() {
    // RFC 1321 test vectors
    let d = rom_patcher::md5::md5(b"");
    assert_eq!(
        d,
        vec![
            0xD4, 0x1D, 0x8C, 0xD9, 0x8F, 0x00, 0xB2, 0x04, 0xE9, 0x80, 0x09, 0x98, 0xEC, 0xF8,
            0x42, 0x7E
        ]
    );
    let d = rom_patcher::md5::md5(b"abc");
    assert_eq!(
        d,
        vec![
            0x90, 0x01, 0x50, 0x98, 0x3C, 0xD2, 0x4F, 0xB0, 0xD6, 0x96, 0x3F, 0x7D, 0x28, 0xE1,
            0x7F, 0x72
        ]
    );
    let d = rom_patcher::md5::md5(b"abcdefghijklmnopqrstuvwxyz");
    assert_eq!(
        d,
        vec![
            0xC3, 0xFC, 0xD3, 0xD7, 0x61, 0x92, 0xE4, 0x00, 0x7D, 0xFB, 0x49, 0x6C, 0xCA, 0x67,
            0xE1, 0x3B
        ]
    );
}

#[test]
fn test_adler32_known_values() {
    // zlib definition: "Wikipedia" has Adler-32 0x11E60398
    assert_eq!(rom_patcher::adler32::adler32(b"Wikipedia"), 0x11E60398);
    assert_eq!(rom_patcher::adler32::adler32(b""), 1);
}
