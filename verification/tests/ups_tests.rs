//! UPS decoder tests.

use rom_patcher::ups::UpsPatcher;
use rom_patcher::PatchError;

/// Create minimal valid UPS patch for testing
fn create_test_patch() -> Vec<u8> {
    let mut patch = Vec::new();
    patch.extend_from_slice(b"UPS1");
    patch.push(0x8A); // Input size = 10
    patch.push(0x8A); // Output size = 10
    patch.push(0x80); // Relative offset 0
    patch.push(0xFF); // XOR with 0xFF
    patch.push(0x00); // Terminator

    let input_rom = vec![0u8; 10];
    let input_crc = crc32fast::hash(&input_rom);
    patch.extend_from_slice(&input_crc.to_le_bytes());

    let mut output_rom = input_rom;
    output_rom[0] = 0xFF;
    let output_crc = crc32fast::hash(&output_rom);
    patch.extend_from_slice(&output_crc.to_le_bytes());

    let patch_crc = crc32fast::hash(&patch);
    patch.extend_from_slice(&patch_crc.to_le_bytes());

    patch
}

#[test]
fn test_validate_rejects_invalid_magic() {
    let invalid_patch = b"NOPE";
    assert!(UpsPatcher::validate(invalid_patch).is_err());
}

#[test]
fn test_validate_rejects_too_small() {
    let invalid_patch = b"UPS1";
    assert!(UpsPatcher::validate(invalid_patch).is_err());
}

#[test]
fn test_apply_simple_xor() {
    let patcher = UpsPatcher;
    let patch = create_test_patch();
    let mut rom = vec![0u8; 10];

    assert!(patcher.apply(&mut rom, &patch).is_ok());
    assert_eq!(rom[0], 0xFF);
    assert_eq!(rom[1], 0x00);
}

#[test]
fn test_apply_multiple_xor_records() {
    let mut patch = Vec::new();
    patch.extend_from_slice(b"UPS1");
    patch.push(0x8A); // Input size = 10
    patch.push(0x8A); // Output size = 10

    // First XOR: at offset 0, change to 0xAA
    patch.push(0x80); // Relative offset 0
    patch.push(0xAA); // XOR data
    patch.push(0x00); // Terminator

    // Second XOR: at offset 4 (relative offset from pos 2 = 2)
    patch.push(0x82); // Relative offset 2
    patch.push(0xBB); // XOR data
    patch.push(0x00); // Terminator

    let input_rom = vec![0u8; 10];
    let input_crc = crc32fast::hash(&input_rom);
    patch.extend_from_slice(&input_crc.to_le_bytes());

    let mut output_rom = input_rom.clone();
    output_rom[0] = 0xAA;
    output_rom[4] = 0xBB;
    let output_crc = crc32fast::hash(&output_rom);
    patch.extend_from_slice(&output_crc.to_le_bytes());

    let patch_crc = crc32fast::hash(&patch);
    patch.extend_from_slice(&patch_crc.to_le_bytes());

    let patcher = UpsPatcher;
    let mut rom = vec![0u8; 10];
    assert!(patcher.apply(&mut rom, &patch).is_ok());
    assert_eq!(rom[0], 0xAA);
    assert_eq!(rom[4], 0xBB);
}

#[test]
fn test_apply_rom_resize() {
    let mut patch = Vec::new();
    patch.extend_from_slice(b"UPS1");
    patch.push(0x8A); // Input size = 10
    patch.push(0x94); // Output size = 20

    patch.push(0x8F); // Relative offset 15
    patch.push(0xCC);
    patch.push(0x00);

    let input_rom = vec![0u8; 10];
    let input_crc = crc32fast::hash(&input_rom);
    patch.extend_from_slice(&input_crc.to_le_bytes());

    let mut output_rom = vec![0u8; 20];
    output_rom[15] = 0xCC;
    let output_crc = crc32fast::hash(&output_rom);
    patch.extend_from_slice(&output_crc.to_le_bytes());

    let patch_crc = crc32fast::hash(&patch);
    patch.extend_from_slice(&patch_crc.to_le_bytes());

    let patcher = UpsPatcher;
    let mut rom = vec![0u8; 10];
    assert!(patcher.apply(&mut rom, &patch).is_ok());
    assert_eq!(rom.len(), 20);
    assert_eq!(rom[15], 0xCC);
}

#[test]
fn test_apply_multi_byte_xor() {
    let mut patch = Vec::new();
    patch.extend_from_slice(b"UPS1");
    patch.push(0x8A); // Input size = 10
    patch.push(0x8A); // Output size = 10

    patch.push(0x80); // Relative offset 0
    patch.push(0xFF);
    patch.push(0xEE);
    patch.push(0xDD);
    patch.push(0x00); // Terminator

    let input_rom = vec![0u8; 10];
    let input_crc = crc32fast::hash(&input_rom);
    patch.extend_from_slice(&input_crc.to_le_bytes());

    let mut output_rom = input_rom.clone();
    output_rom[0] = 0xFF;
    output_rom[1] = 0xEE;
    output_rom[2] = 0xDD;
    let output_crc = crc32fast::hash(&output_rom);
    patch.extend_from_slice(&output_crc.to_le_bytes());

    let patch_crc = crc32fast::hash(&patch);
    patch.extend_from_slice(&patch_crc.to_le_bytes());

    let patcher = UpsPatcher;
    let mut rom = vec![0u8; 10];
    assert!(patcher.apply(&mut rom, &patch).is_ok());
    assert_eq!(rom[0], 0xFF);
    assert_eq!(rom[1], 0xEE);
    assert_eq!(rom[2], 0xDD);
}

#[test]
fn test_verify_input_rom() {
    let patch = create_test_patch();
    let input_rom = vec![0u8; 10];
    assert!(UpsPatcher::verify(&input_rom, &patch, None).is_ok());
}

#[test]
fn test_verify_output_rom() {
    let patch = create_test_patch();
    let mut output_rom = vec![0u8; 10];
    output_rom[0] = 0xFF;
    assert!(UpsPatcher::verify(&[], &patch, Some(&output_rom)).is_ok());
}

#[test]
fn test_verify_wrong_input_checksum() {
    let patch = create_test_patch();
    let wrong_input = vec![0xFF; 10];
    assert!(UpsPatcher::verify(&wrong_input, &patch, None).is_err());
}

#[test]
fn test_verify_wrong_output_checksum() {
    let patch = create_test_patch();
    let wrong_output = vec![0xAA; 10];
    assert!(UpsPatcher::verify(&[], &patch, Some(&wrong_output)).is_err());
}

#[test]
fn test_ups_noop_round_trip() {
    // input_size = 10, output_size = 10, no XOR records
    let mut patch = Vec::new();
    patch.extend_from_slice(b"UPS1");
    patch.push(0x8A);
    patch.push(0x8A);
    let rom0 = vec![0u8; 10];
    let crc = crc32fast::hash(&rom0);
    patch.extend_from_slice(&crc.to_le_bytes()); // input CRC
    patch.extend_from_slice(&crc.to_le_bytes()); // output CRC
    let patch_crc = crc32fast::hash(&patch);
    patch.extend_from_slice(&patch_crc.to_le_bytes());

    let patcher = UpsPatcher;
    let mut rom = rom0.clone();
    assert!(patcher.apply(&mut rom, &patch).is_ok());
    assert_eq!(rom, rom0);
    assert!(UpsPatcher::verify(&rom0, &patch, None).is_ok());
}

#[test]
fn test_ups_validate_reports_crc_bytes() {
    // wrong trailing patch CRC: the error carries the stored and the
    // computed checksum bytes
    let mut patch = create_test_patch();
    let n = patch.len();
    let good_crc = crc32fast::hash(&patch[..n - 4]);
    patch[n - 4..].copy_from_slice(&[0x11, 0x22, 0x33, 0x44]);
    match UpsPatcher::validate(&patch) {
        Err(PatchError::ChecksumMismatch { expected, actual }) => {
            assert_eq!(expected, vec![0x11, 0x22, 0x33, 0x44]);
            assert_eq!(actual, good_crc.to_le_bytes().to_vec());
        }
        other => panic!("expected a checksum mismatch, got {:?}", other),
    }
}

#[test]
fn test_ups_patch_checksum_enforced() {
    let mut patch = create_test_patch();
    let n = patch.len();
    patch[n - 1] ^= 0xFF; // corrupt the patch CRC
    let patcher = UpsPatcher;
    let mut rom = vec![0u8; 10];
    match patcher.apply(&mut rom, &patch) {
        Err(PatchError::ChecksumMismatch { .. }) => {}
        other => panic!("expected a checksum mismatch, got {:?}", other),
    }
    assert_eq!(rom, vec![0u8; 10], "image must be unchanged on error");
}

#[test]
fn test_ups_wrong_source_rejected() {
    let patch = create_test_patch();
    let patcher = UpsPatcher;
    let mut rom = vec![0x55u8; 10]; // right size, wrong content
    match patcher.apply(&mut rom, &patch) {
        Err(PatchError::ChecksumMismatch { .. }) => {}
        other => panic!("expected a checksum mismatch, got {:?}", other),
    }
}

#[test]
fn test_ups_resource_limit() {
    // declared output size far beyond the ceiling
    let mut patch = Vec::new();
    patch.extend_from_slice(b"UPS1");
    patch.push(0x8A); // input size 10
    // output size 2^40: UPS VLV encoding
    let mut v: u64 = 1 << 40;
    loop {
        let x = (v & 0x7F) as u8;
        v >>= 7;
        if v == 0 {
            patch.push(0x80 | x);
            break;
        }
        patch.push(x);
        v -= 1;
    }
    let crc = crc32fast::hash(&[0u8; 10]);
    patch.extend_from_slice(&crc.to_le_bytes());
    patch.extend_from_slice(&crc.to_le_bytes());
    let patch_crc = crc32fast::hash(&patch);
    patch.extend_from_slice(&patch_crc.to_le_bytes());

    let patcher = UpsPatcher;
    let mut rom = vec![0u8; 10];
    match patcher.apply(&mut rom, &patch) {
        Err(PatchError::ResourceLimit) => {}
        other => panic!("expected a resource limit error, got {:?}", other),
    }
}

#[test]
fn test_ups_metadata_sizes() {
    let patch = create_test_patch();
    let m = UpsPatcher::metadata(&patch).unwrap();
    assert_eq!(m.source_size, Some(10));
    assert_eq!(m.target_size, Some(10));
    let input_crc = crc32fast::hash(&[0u8; 10]);
    assert_eq!(m.source_checksum, Some(input_crc.to_le_bytes().to_vec()));
}
