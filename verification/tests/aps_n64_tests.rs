//! APS N64 decoder tests.

use rom_patcher::aps::{apply, can_handle, parse_header, validate, ApsPatcher};
use rom_patcher::PatchError;

const MAGIC: &[u8] = b"APS10";
const HEADER_TYPE_N64: u8 = 0x01;
const DESCRIPTION_LEN: usize = 50;
const N64_CRC_LEN: usize = 8;
const N64_PAD_LEN: usize = 5;
const MIN_PATCH_SIZE: usize = 5 + 1 + 1 + 50 + 4;

fn create_minimal_patch() -> Vec<u8> {
    let mut patch = Vec::new();
    patch.extend_from_slice(MAGIC); // Magic
    patch.push(HEADER_TYPE_N64); // Header type
    patch.push(0x00); // Encoding method
    patch.extend_from_slice(&[0u8; DESCRIPTION_LEN]); // Description

    // N64 header
    patch.push(0x01); // Original format
    patch.extend_from_slice(b"NTE"); // Cart ID
    patch.extend_from_slice(&[0u8; N64_CRC_LEN]); // CRC
    patch.extend_from_slice(&[0u8; N64_PAD_LEN]); // Padding

    // Output size (1024 bytes, LE)
    patch.extend_from_slice(&1024u32.to_le_bytes());

    patch
}

fn create_test_patch_with_records() -> Vec<u8> {
    let mut patch = create_minimal_patch();

    // Add a simple record at offset 0x100
    patch.extend_from_slice(&0x100u32.to_le_bytes()); // Offset
    patch.push(4); // Length
    patch.extend_from_slice(&[0xDE, 0xAD, 0xBE, 0xEF]); // Data

    // Add an RLE record at offset 0x200
    patch.extend_from_slice(&0x200u32.to_le_bytes()); // Offset
    patch.push(0x00); // RLE marker
    patch.push(0xFF); // Byte value
    patch.push(10); // Count

    patch
}

#[test]
fn test_can_handle_valid() {
    let patch = create_minimal_patch();
    assert!(can_handle(&patch));
}

#[test]
fn test_can_handle_invalid_magic() {
    let patch = b"INVALID";
    assert!(!can_handle(patch));
}

#[test]
fn test_validate_minimal() {
    let patch = create_minimal_patch();
    assert!(validate(&patch).is_ok());
}

#[test]
fn test_validate_too_small() {
    let patch = &[0u8; 10];
    assert!(validate(patch).is_err());
}

#[test]
fn test_parse_minimal_header() {
    let mut patch = vec![0u8; MIN_PATCH_SIZE];
    patch[..5].copy_from_slice(MAGIC);
    patch[5] = 0x00; // header_type (not N64)
    patch[6] = 0x00; // encoding_method

    // Output size at end (LE)
    let offset = 5 + 2 + DESCRIPTION_LEN;
    patch[offset..offset + 4].copy_from_slice(&1024u32.to_le_bytes());

    let result = parse_header(&patch);
    assert!(result.is_ok());

    let (header, _) = result.unwrap();
    assert_eq!(header.output_size, 1024);
    assert!(header.n64_header.is_none());
}

#[test]
fn test_apply_with_records() {
    let rom = vec![0u8; 512];
    let patch = create_test_patch_with_records();

    let result = apply(&rom, &patch);
    assert!(result.is_ok());

    let output = result.unwrap();
    assert_eq!(output.len(), 1024);

    // Check simple record
    assert_eq!(&output[0x100..0x104], &[0xDE, 0xAD, 0xBE, 0xEF]);

    // Check RLE record
    assert_eq!(&output[0x200..0x20A], &[0xFF; 10]);
}

#[test]
fn test_apply_invalid_patch() {
    let mut rom = vec![0u8; 256];
    let patcher = ApsPatcher;
    let result = patcher.apply(&mut rom, b"INVALID");
    assert!(result.is_err());
}

#[test]
fn test_apply_truncated_patch() {
    let mut rom = vec![0u8; 256];
    let patcher = ApsPatcher;
    let result = patcher.apply(&mut rom, b"APS10\x01");
    assert!(result.is_err());
}

#[test]
fn test_aps_record_out_of_bounds() {
    let mut patch = create_minimal_patch();
    // record at the very end of the declared 1024-byte image
    patch.extend_from_slice(&1022u32.to_le_bytes());
    patch.push(4);
    patch.extend_from_slice(&[1, 2, 3, 4]);
    let rom = vec![0u8; 16];
    match apply(&rom, &patch) {
        Err(PatchError::OutOfBounds { offset, rom_size }) => {
            assert_eq!(offset, 1022);
            assert_eq!(rom_size, 1024);
        }
        other => panic!("expected an out-of-bounds error, got {:?}", other),
    }
}

#[test]
fn test_aps_non_n64_rejected() {
    let mut patch = create_minimal_patch();
    patch[5] = 0x00; // not the N64 header type
    match validate(&patch) {
        Err(PatchError::InvalidFormat(_)) => {}
        other => panic!("expected an invalid-format error, got {:?}", other),
    }
}

#[test]
fn test_aps_metadata_description() {
    let mut patch = create_minimal_patch();
    patch[7..12].copy_from_slice(b"HELLO");
    let m = ApsPatcher::metadata(&patch).unwrap();
    assert_eq!(m.target_size, Some(1024));
    assert_eq!(m.extra.len(), 1);
    assert_eq!(m.extra[0].0, "description");
    assert_eq!(m.extra[0].1, "HELLO");
}

#[test]
fn test_aps_verify_target_not_supported() {
    let patch = create_minimal_patch();
    let rom = vec![0u8; 64];
    let target = vec![0u8; 64];
    match ApsPatcher::verify(&rom, &patch, Some(&target)) {
        Err(PatchError::NotSupported) => {}
        other => panic!("expected not-supported, got {:?}", other),
    }
}

#[test]
fn test_aps_verify_source_header() {
    let patch = create_minimal_patch();
    // a ROM whose cart id and CRC match the (zeroed) sub-header
    let mut rom = vec![0u8; 0x40];
    rom[0x3C..0x3F].copy_from_slice(b"NTE");
    assert!(ApsPatcher::verify(&rom, &patch, None).is_ok());

    let mut bad = rom.clone();
    bad[0x3C] = b'X';
    assert!(ApsPatcher::verify(&bad, &patch, None).is_err());
}
