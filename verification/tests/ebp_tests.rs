//! EBP decoder tests.

use rom_patcher::ebp::EbpPatcher;

#[test]
fn ebp_test_apply_invalid_patch() {
    let mut rom = vec![0x00; 10];
    let patch = b"NOTVALID";

    let patcher = EbpPatcher;
    assert!(patcher.apply(&mut rom, patch).is_err());
}

#[test]
fn ebp_test_apply_truncated_patch() {
    let mut rom = vec![0x00; 10];
    // Incomplete record
    let patch = b"PATCH\x00\x00\x05\x00";

    let patcher = EbpPatcher;
    assert!(patcher.apply(&mut rom, patch).is_err());
}

#[test]
fn test_ebp_apply_is_ips() {
    let mut patch = Vec::new();
    patch.extend_from_slice(b"PATCH");
    patch.extend_from_slice(&[0x00, 0x00, 0x01, 0x00, 0x01, 0x42]);
    patch.extend_from_slice(b"EOF");
    patch.extend_from_slice(b"{\"title\":\"demo\"}");

    let patcher = EbpPatcher;
    let mut rom = vec![0u8; 4];
    assert!(patcher.apply(&mut rom, &patch).is_ok());
    assert_eq!(rom, vec![0, 0x42, 0, 0]);
}

#[test]
fn test_ebp_metadata_json_verbatim() {
    let mut patch = Vec::new();
    patch.extend_from_slice(b"PATCH");
    patch.extend_from_slice(b"EOF");
    patch.extend_from_slice(b"{\"author\":\"x\",\"nested\":{\"a\":1}}");

    let m = EbpPatcher::metadata(&patch).unwrap();
    assert_eq!(m.patch_type, rom_patcher::PatchType::Ebp);
    assert_eq!(m.extra.len(), 1);
    assert_eq!(m.extra[0].0, "json");
    assert_eq!(m.extra[0].1, "{\"author\":\"x\",\"nested\":{\"a\":1}}");
}

#[test]
fn test_ebp_metadata_absent_json() {
    let patch = b"PATCHEOF";
    let m = EbpPatcher::metadata(patch).unwrap();
    assert!(m.extra.is_empty());
}

#[test]
fn test_ebp_metadata_unbalanced_json_absent() {
    let mut patch = Vec::new();
    patch.extend_from_slice(b"PATCH");
    patch.extend_from_slice(b"EOF");
    patch.extend_from_slice(b"{\"open\":");
    let m = EbpPatcher::metadata(&patch).unwrap();
    assert!(m.extra.is_empty());
}
