//! BPS decoder tests.

use rom_patcher::bps::BpsPatcher;

fn write_varint(buf: &mut Vec<u8>, mut data: u64) {
    loop {
        let x = (data & 0x7f) as u8;
        data >>= 7;
        if data == 0 {
            buf.push(0x80 | x);
            break;
        }
        buf.push(x);
        data -= 1;
    }
}

fn create_bps_patch_with_metadata(
    source_size: usize,
    target_size: usize,
    metadata: &str,
) -> Vec<u8> {
    let mut patch = Vec::new();

    // Magic header
    patch.extend_from_slice(b"BPS1");

    // Source size (varint)
    write_varint(&mut patch, source_size as u64);

    // Target size (varint)
    write_varint(&mut patch, target_size as u64);

    // Metadata
    write_varint(&mut patch, metadata.len() as u64);
    patch.extend_from_slice(metadata.as_bytes());

    // No actions

    // Checksums
    patch.extend_from_slice(&[0x00, 0x00, 0x00, 0x00]); // source CRC32
    patch.extend_from_slice(&[0x00, 0x00, 0x00, 0x00]); // target CRC32

    // Patch CRC32
    let patch_crc = crc32fast::hash(&patch);
    patch.extend_from_slice(&patch_crc.to_le_bytes());

    patch
}

#[test]
fn test_metadata_simple() {
    let patch = create_bps_patch_with_metadata(1024, 2048, "");

    let metadata = BpsPatcher::metadata(&patch).unwrap();

    assert_eq!(metadata.source_size, Some(1024));
    assert_eq!(metadata.target_size, Some(2048));
}

#[test]
fn test_metadata_with_info() {
    let patch = create_bps_patch_with_metadata(512, 1024, "Test patch v1.0");

    let metadata = BpsPatcher::metadata(&patch).unwrap();

    assert_eq!(metadata.source_size, Some(512));
    assert_eq!(metadata.target_size, Some(1024));
    assert_eq!(metadata.extra.len(), 1);
    assert_eq!(metadata.extra[0].0, "metadata");
    assert_eq!(metadata.extra[0].1, "Test patch v1.0");
}

#[test]
fn metadata_tests_test_metadata_invalid_patch() {
    let invalid_patch = b"NOTBPS";
    let result = BpsPatcher::metadata(invalid_patch);

    assert!(result.is_err());
}

#[test]
fn error_tests_test_apply_invalid_patch() {
    let mut rom = vec![0x00; 10];
    let patch = b"NOTBPS";

    let patcher = BpsPatcher;
    assert!(patcher.apply(&mut rom, patch).is_err());
}

#[test]
fn error_tests_test_apply_truncated_patch() {
    let mut rom = vec![0x00; 10];
    let patch = b"BPS1\x85\x83"; // Incomplete header

    let patcher = BpsPatcher;
    assert!(patcher.apply(&mut rom, patch).is_err());
}

#[test]
fn test_bps_target_copy_rle() {
    // source empty, target AB AB AB AB: one TargetRead then an
    // overlapping TargetCopy of length three
    let mut patch = Vec::new();
    patch.extend_from_slice(b"BPS1");
    write_varint(&mut patch, 0); // source size
    write_varint(&mut patch, 4); // target size
    write_varint(&mut patch, 0); // metadata size

    write_varint(&mut patch, 1); // TargetRead, length 1: (1-1)*4 + 1
    patch.push(0xAB);
    write_varint(&mut patch, 11); // TargetCopy, length 3: (3-1)*4 + 3
    write_varint(&mut patch, 0); // relative offset 0

    let target = vec![0xABu8; 4];
    patch.extend_from_slice(&crc32fast::hash(b"").to_le_bytes());
    patch.extend_from_slice(&crc32fast::hash(&target).to_le_bytes());
    let patch_crc = crc32fast::hash(&patch);
    patch.extend_from_slice(&patch_crc.to_le_bytes());

    let patcher = BpsPatcher;
    let mut rom: Vec<u8> = Vec::new();
    assert!(patcher.apply(&mut rom, &patch).is_ok());
    assert_eq!(rom, target);
}

#[test]
fn test_bps_source_read_and_copy() {
    // source "abcd" to target "abab": SourceRead 2, then SourceCopy 2
    // with the source cursor moved back to the start
    let src = b"abcd".to_vec();
    let mut patch = Vec::new();
    patch.extend_from_slice(b"BPS1");
    write_varint(&mut patch, 4); // source size
    write_varint(&mut patch, 4); // target size
    write_varint(&mut patch, 0); // metadata size

    write_varint(&mut patch, 4); // SourceRead, length 2: (2-1)*4 + 0
    write_varint(&mut patch, 6); // SourceCopy, length 2: (2-1)*4 + 2
    write_varint(&mut patch, 0); // signed delta 0

    let target = b"abab".to_vec();
    patch.extend_from_slice(&crc32fast::hash(&src).to_le_bytes());
    patch.extend_from_slice(&crc32fast::hash(&target).to_le_bytes());
    let patch_crc = crc32fast::hash(&patch);
    patch.extend_from_slice(&patch_crc.to_le_bytes());

    let patcher = BpsPatcher;
    let mut rom = src.clone();
    assert!(patcher.apply(&mut rom, &patch).is_ok());
    assert_eq!(rom, target);
}

#[test]
fn test_bps_wrong_target_crc() {
    let mut patch = Vec::new();
    patch.extend_from_slice(b"BPS1");
    write_varint(&mut patch, 0);
    write_varint(&mut patch, 1);
    write_varint(&mut patch, 0);
    write_varint(&mut patch, 1); // TargetRead, length 1
    patch.push(0x11);
    patch.extend_from_slice(&crc32fast::hash(b"").to_le_bytes());
    patch.extend_from_slice(&[0xDE, 0xAD, 0xBE, 0xEF]); // wrong target CRC
    let patch_crc = crc32fast::hash(&patch);
    patch.extend_from_slice(&patch_crc.to_le_bytes());

    let patcher = BpsPatcher;
    let mut rom: Vec<u8> = Vec::new();
    match patcher.apply(&mut rom, &patch) {
        Err(rom_patcher::PatchError::ChecksumMismatch { .. }) => {}
        other => panic!("expected a checksum mismatch, got {:?}", other),
    }
    assert!(rom.is_empty(), "image must be unchanged on error");
}

#[test]
fn test_bps_validate_accepts_well_formed() {
    let patch = create_bps_patch_with_metadata(0, 0, "note");
    assert!(BpsPatcher::validate(&patch).is_ok());
}
