//! Format detection tests.

use rom_patcher::detect::detect_format;
use rom_patcher::dispatch::apply_patch;
use rom_patcher::PatchType;

#[test]
fn test_detect_each_magic() {
    assert_eq!(detect_format(b"PATCHEOF"), Some(PatchType::Ips));
    assert_eq!(detect_format(b"BPS1"), Some(PatchType::Bps));
    assert_eq!(detect_format(b"UPS1"), Some(PatchType::Ups));
    assert_eq!(detect_format(b"APS10"), Some(PatchType::Aps));
    assert_eq!(detect_format(b"NINJA2"), Some(PatchType::Rup));
    assert_eq!(detect_format(b"PPF10"), Some(PatchType::Ppf));
    assert_eq!(detect_format(b"PPF20"), Some(PatchType::Ppf));
    assert_eq!(detect_format(b"PPF30"), Some(PatchType::Ppf));
    assert_eq!(detect_format(&[0xD6, 0xC3, 0xC4, 0x00]), Some(PatchType::Xdelta));
    assert_eq!(detect_format(b"GARBAGE"), None);
    assert_eq!(detect_format(b""), None);
}

#[test]
fn test_detect_ips_ebp_tie_break() {
    // a bare IPS patch is IPS; a JSON object after EOF makes it EBP
    assert_eq!(detect_format(b"PATCHEOF"), Some(PatchType::Ips));
    assert_eq!(detect_format(b"PATCHEOF{\"a\":1}"), Some(PatchType::Ebp));
    // an unbalanced tail does not count as JSON
    assert_eq!(detect_format(b"PATCHEOF{\"a\":"), Some(PatchType::Ips));
    // a malformed record stream falls back to IPS
    assert_eq!(detect_format(b"PATCH\x00\x00"), Some(PatchType::Ips));
}

#[test]
fn test_dispatch_applies_by_kind() {
    let mut patch = Vec::new();
    patch.extend_from_slice(b"PATCH");
    patch.extend_from_slice(&[0x00, 0x00, 0x00, 0x00, 0x01, 0x33]);
    patch.extend_from_slice(b"EOF");
    let kind = detect_format(&patch).unwrap();
    assert_eq!(kind, PatchType::Ips);
    let mut rom = vec![0u8; 2];
    assert!(apply_patch(&mut rom, &patch, &kind).is_ok());
    assert_eq!(rom, vec![0x33, 0x00]);
}

#[test]
fn test_patch_type_names() {
    assert_eq!(PatchType::Ips.name(), "IPS");
    assert_eq!(PatchType::Xdelta.extension(), "xdelta");
    assert_eq!(PatchType::Rup.name(), "RUP");
}
