//! PPF decoder tests.

use rom_patcher::ppf::PpfPatcher;
use rom_patcher::PatchError;

#[test]
fn test_validate_valid_ppf3() {
    let mut patch_data = Vec::new();

    patch_data.extend_from_slice(b"PPF30");

    patch_data.push(0x02); // Encoding

    patch_data.extend_from_slice(&[0u8; 50]); // Description

    patch_data.push(0x00); // Image Type

    patch_data.push(0x00); // Block Check (False)

    patch_data.push(0x00); // Undo Data (False)

    patch_data.push(0x00); // Dummy

    // Record

    patch_data.extend_from_slice(&0u64.to_le_bytes());

    patch_data.push(0x01);

    patch_data.push(0xAA);

    assert!(PpfPatcher::validate(&patch_data).is_ok());
}

#[test]
fn test_validate_truncated_ppf3() {
    let mut patch_data = Vec::new();

    patch_data.extend_from_slice(b"PPF30");

    patch_data.push(0x02); // Encoding

    // Truncate in description

    patch_data.extend_from_slice(&[0u8; 10]);

    assert!(matches!(
        PpfPatcher::validate(&patch_data),
        Err(PatchError::CorruptedData)
    ));
}

#[test]
fn test_ppf3_apply_writes_record() {
    let mut patch = Vec::new();
    patch.extend_from_slice(b"PPF30");
    patch.push(0x02);
    patch.extend_from_slice(&[0u8; 50]);
    patch.extend_from_slice(&[0x00, 0x00, 0x00, 0x00]); // type, block, undo, dummy
    patch.extend_from_slice(&8u64.to_le_bytes()); // offset 8
    patch.push(0x02); // length 2
    patch.extend_from_slice(&[0xAA, 0xBB]);

    let patcher = PpfPatcher;
    let mut rom = vec![0u8; 16];
    assert!(patcher.apply(&mut rom, &patch).is_ok());
    assert_eq!(rom[8], 0xAA);
    assert_eq!(rom[9], 0xBB);
    assert_eq!(rom[7], 0x00);
}

#[test]
fn test_ppf1_apply_writes_record() {
    let mut patch = Vec::new();
    patch.extend_from_slice(b"PPF10");
    patch.push(0x00);
    patch.extend_from_slice(&[0u8; 50]);
    patch.extend_from_slice(&4u32.to_le_bytes()); // offset 4
    patch.push(0x01);
    patch.push(0x5C);

    let patcher = PpfPatcher;
    let mut rom = vec![0u8; 8];
    assert!(patcher.apply(&mut rom, &patch).is_ok());
    assert_eq!(rom[4], 0x5C);
}

#[test]
fn test_ppf_record_beyond_image() {
    let mut patch = Vec::new();
    patch.extend_from_slice(b"PPF30");
    patch.push(0x02);
    patch.extend_from_slice(&[0u8; 50]);
    patch.extend_from_slice(&[0x00, 0x00, 0x00, 0x00]);
    patch.extend_from_slice(&100u64.to_le_bytes()); // offset beyond the image
    patch.push(0x01);
    patch.push(0xAA);

    let patcher = PpfPatcher;
    let mut rom = vec![0u8; 16];
    match patcher.apply(&mut rom, &patch) {
        Err(PatchError::OutOfBounds { offset, rom_size }) => {
            assert_eq!(offset, 100);
            assert_eq!(rom_size, 16);
        }
        other => panic!("expected an out-of-bounds error, got {:?}", other),
    }
}

#[test]
fn test_ppf_metadata_version() {
    let mut patch = Vec::new();
    patch.extend_from_slice(b"PPF20");
    let m = PpfPatcher::metadata(&patch).unwrap();
    assert_eq!(m.extra.len(), 1);
    assert_eq!(m.extra[0].0, "version");
    assert_eq!(m.extra[0].1, "PPF2");
}

#[test]
fn test_ppf_verify_not_supported() {
    match PpfPatcher::verify(&[], b"PPF30", None) {
        Err(PatchError::NotSupported) => {}
        other => panic!("expected not-supported, got {:?}", other),
    }
}

#[test]
fn test_ppf_empty_invalid_magic() {
    let patcher = PpfPatcher;
    let mut rom = vec![0u8; 4];
    match patcher.apply(&mut rom, b"") {
        Err(PatchError::InvalidMagic { .. }) => {}
        other => panic!("expected invalid magic, got {:?}", other),
    }
}
