//! RUP decoder tests.

use rom_patcher::md5::md5;
use rom_patcher::rup::RupPatcher;
use rom_patcher::PatchError;

/// A RUP patch over the given sizes with one XOR record.
fn build_rup_patch(src: &[u8], tgt: &[u8], skip: u8, xor: &[u8]) -> Vec<u8> {
    let mut patch = Vec::new();
    patch.extend_from_slice(b"NINJA2");
    patch.push(0x00); // command byte
    for text in ["someone", "a title", "1.0", "demo", "notes"] {
        patch.push(text.len() as u8);
        patch.extend_from_slice(text.as_bytes());
    }
    patch.extend_from_slice(&(src.len() as u64).to_le_bytes());
    patch.extend_from_slice(&(tgt.len() as u64).to_le_bytes());
    patch.extend_from_slice(&md5(src));
    patch.extend_from_slice(&md5(tgt));
    // one record: relative offset, XOR bytes, terminator
    patch.push(0x80 | skip);
    patch.extend_from_slice(xor);
    patch.push(0x00);
    patch
}

#[test]
fn test_can_handle() {
    assert!(RupPatcher::can_handle(b"NINJA2"));
    assert!(RupPatcher::can_handle(
        b"NINJA2\x00\x00\x00\x00\x00\x00\x00\x00"
    ));
    assert!(!RupPatcher::can_handle(b"PATCH"));
    assert!(!RupPatcher::can_handle(b"NINJA"));
    assert!(!RupPatcher::can_handle(b""));
}

#[test]
fn test_apply_preserves_rom_on_error() {
    let invalid_patch = b"NINJA2";
    let mut rom = vec![0xAA; 100];
    let original = rom.clone();

    let patcher = RupPatcher;
    let result = patcher.apply(&mut rom, invalid_patch);

    assert!(result.is_err());
    assert_eq!(rom, original, "ROM should be unchanged on error");
}

#[test]
fn test_metadata_invalid_patch() {
    let invalid_patch = b"NOTRUP";
    let result = RupPatcher::metadata(invalid_patch);

    assert!(result.is_err());
}

#[test]
fn test_metadata_truncated_patch() {
    let patch = b"NINJA2";
    let result = RupPatcher::metadata(patch);

    assert!(result.is_err());
}

#[test]
fn test_rup_apply_and_undo() {
    // forward apply flips one byte; applying the patch again restores
    // the original image
    let src = vec![0x10u8, 0x20, 0x30, 0x40];
    let mut tgt = src.clone();
    tgt[2] ^= 0x5A;
    let patch = build_rup_patch(&src, &tgt, 2, &[0x5A]);

    let patcher = RupPatcher;
    let mut rom = src.clone();
    assert!(patcher.apply(&mut rom, &patch).is_ok(), "forward apply");
    assert_eq!(rom, tgt);
    assert!(patcher.apply(&mut rom, &patch).is_ok(), "undo apply");
    assert_eq!(rom, src, "second apply should restore the original");
}

#[test]
fn test_rup_grows_and_shrinks() {
    // a growing patch zero-pads before the XOR pass; applying it to the
    // target cuts back to the source size
    let src = vec![0u8; 4];
    let mut tgt = vec![0u8; 6];
    tgt[5] = 0x77;
    let patch = build_rup_patch(&src, &tgt, 5, &[0x77]);

    let patcher = RupPatcher;
    let mut rom = src.clone();
    assert!(patcher.apply(&mut rom, &patch).is_ok());
    assert_eq!(rom, tgt);
    assert!(patcher.apply(&mut rom, &patch).is_ok());
    assert_eq!(rom, src);
}

#[test]
fn test_rup_verify_digests() {
    let src = vec![0x01u8, 0x02, 0x03];
    let mut tgt = src.clone();
    tgt[0] ^= 0xFF;
    let patch = build_rup_patch(&src, &tgt, 0, &[0xFF]);

    assert!(RupPatcher::verify(&src, &patch, None).is_ok());
    assert!(RupPatcher::verify(&src, &patch, Some(&tgt)).is_ok());
    match RupPatcher::verify(&tgt, &patch, None) {
        Err(PatchError::ChecksumMismatch { .. }) => {}
        other => panic!("expected a checksum mismatch, got {:?}", other),
    }
}

#[test]
fn test_rup_metadata_fields() {
    let src = vec![0u8; 8];
    let tgt = vec![0u8; 8];
    let patch = build_rup_patch(&src, &tgt, 0, &[]);
    let m = RupPatcher::metadata(&patch).unwrap();
    assert_eq!(m.patch_type, rom_patcher::PatchType::Rup);
    assert_eq!(m.source_size, Some(8));
    assert_eq!(m.target_size, Some(8));
    assert_eq!(m.source_checksum, Some(md5(&src)));
    assert!(!m.extra.is_empty(), "RUP should have extra metadata");
    assert_eq!(m.extra[0].0, "author");
    assert_eq!(m.extra[0].1, "someone");
    assert_eq!(m.extra[1].1, "a title");
}

#[test]
fn test_rup_validate() {
    let src = vec![0u8; 4];
    let tgt = vec![0u8; 4];
    let patch = build_rup_patch(&src, &tgt, 1, &[0x01]);
    assert!(RupPatcher::validate(&patch).is_ok());

    // a record whose XOR run has no terminator
    let mut bad = patch.clone();
    bad.pop();
    match RupPatcher::validate(&bad) {
        Err(PatchError::UnexpectedEof(_)) => {}
        other => panic!("expected an end-of-input error, got {:?}", other),
    }
}
