//! IPS decoder tests, including the boundary behaviours of 24-bit
//! addressing.

use rom_patcher::ips::IpsPatcher;
use rom_patcher::PatchError;

#[test]
fn test_ips_single_byte_write() {
    // source sixteen zero bytes; one record writes 0xFF at index 5
    let mut patch = Vec::new();
    patch.extend_from_slice(b"PATCH");
    patch.extend_from_slice(&[0x00, 0x00, 0x05]); // offset 5
    patch.extend_from_slice(&[0x00, 0x01]); // size 1
    patch.push(0xFF);
    patch.extend_from_slice(b"EOF");

    let patcher = IpsPatcher;
    let mut rom = vec![0u8; 16];
    assert!(patcher.apply(&mut rom, &patch).is_ok());
    assert_eq!(rom.len(), 16);
    for (i, b) in rom.iter().enumerate() {
        if i == 5 {
            assert_eq!(*b, 0xFF);
        } else {
            assert_eq!(*b, 0x00);
        }
    }
}

#[test]
fn test_ips_rle_fill() {
    // source 256 zero bytes; an RLE record fills 0x10..0x14 with 0xAA
    let mut patch = Vec::new();
    patch.extend_from_slice(b"PATCH");
    patch.extend_from_slice(&[0x00, 0x00, 0x10]); // offset 0x10
    patch.extend_from_slice(&[0x00, 0x00]); // size 0: RLE
    patch.extend_from_slice(&[0x00, 0x04]); // run length 4
    patch.push(0xAA);
    patch.extend_from_slice(b"EOF");

    let patcher = IpsPatcher;
    let mut rom = vec![0u8; 256];
    assert!(patcher.apply(&mut rom, &patch).is_ok());
    assert_eq!(&rom[0x10..0x14], &[0xAA; 4]);
    assert!(rom[..0x10].iter().all(|b| *b == 0));
    assert!(rom[0x14..].iter().all(|b| *b == 0));
}

#[test]
fn test_ips_max_offset_grows_target() {
    // a record at the maximum 24-bit offset extends the image to
    // 0x1000000 bytes
    let mut patch = Vec::new();
    patch.extend_from_slice(b"PATCH");
    patch.extend_from_slice(&[0xFF, 0xFF, 0xFF]); // offset 0xFFFFFF
    patch.extend_from_slice(&[0x00, 0x01]); // size 1
    patch.push(0x7E);
    patch.extend_from_slice(b"EOF");

    let patcher = IpsPatcher;
    let mut rom = vec![0u8; 16];
    assert!(patcher.apply(&mut rom, &patch).is_ok());
    assert_eq!(rom.len(), 0x1000000);
    assert_eq!(rom[0xFFFFFF], 0x7E);
}

#[test]
fn test_ips_eof_bytes_inside_record_data() {
    // the bytes `EOF` inside record data do not terminate parsing
    let mut patch = Vec::new();
    patch.extend_from_slice(b"PATCH");
    patch.extend_from_slice(&[0x00, 0x00, 0x00]); // offset 0
    patch.extend_from_slice(&[0x00, 0x03]); // size 3
    patch.extend_from_slice(b"EOF"); // literal data
    patch.extend_from_slice(&[0x00, 0x00, 0x08]); // offset 8
    patch.extend_from_slice(&[0x00, 0x01]);
    patch.push(0x11);
    patch.extend_from_slice(b"EOF");

    let patcher = IpsPatcher;
    let mut rom = vec![0u8; 16];
    assert!(patcher.apply(&mut rom, &patch).is_ok());
    assert_eq!(&rom[0..3], b"EOF");
    assert_eq!(rom[8], 0x11);
}

#[test]
fn test_ips_empty_buffer_invalid_magic() {
    let patcher = IpsPatcher;
    let mut rom = vec![0u8; 4];
    match patcher.apply(&mut rom, b"") {
        Err(PatchError::InvalidMagic { .. }) => {}
        other => panic!("expected invalid magic, got {:?}", other),
    }
}

#[test]
fn test_ips_truncated_magic_invalid() {
    let patcher = IpsPatcher;
    let mut rom = vec![0u8; 4];
    match patcher.apply(&mut rom, b"PAT") {
        Err(PatchError::InvalidMagic { .. }) => {}
        other => panic!("expected invalid magic, got {:?}", other),
    }
}

#[test]
fn test_ips_truncated_record_unexpected_eof() {
    let patcher = IpsPatcher;
    let mut rom = vec![0u8; 16];
    match patcher.apply(&mut rom, b"PATCH\x00\x00\x05\x00") {
        Err(PatchError::UnexpectedEof(_)) => {}
        other => panic!("expected an end-of-input error, got {:?}", other),
    }
}

#[test]
fn test_ips_missing_eof_marker() {
    // a structurally complete record but no terminator
    let mut patch = Vec::new();
    patch.extend_from_slice(b"PATCH");
    patch.extend_from_slice(&[0x00, 0x00, 0x00, 0x00, 0x01, 0x42]);
    match IpsPatcher::validate(&patch) {
        Err(PatchError::UnexpectedEof(_)) => {}
        other => panic!("expected an end-of-input error, got {:?}", other),
    }
}

#[test]
fn test_ips_validate_matches_apply() {
    let mut patch = Vec::new();
    patch.extend_from_slice(b"PATCH");
    patch.extend_from_slice(&[0x00, 0x00, 0x02, 0x00, 0x01, 0x99]);
    patch.extend_from_slice(b"EOF");
    assert!(IpsPatcher::validate(&patch).is_ok());
    let patcher = IpsPatcher;
    let mut rom = vec![0u8; 4];
    assert!(patcher.apply(&mut rom, &patch).is_ok());
    assert_eq!(rom, vec![0, 0, 0x99, 0]);
}

#[test]
fn test_ips_metadata_kind_only() {
    let patch = b"PATCHEOF";
    let m = IpsPatcher::metadata(patch).unwrap();
    assert_eq!(m.patch_type, rom_patcher::PatchType::Ips);
    assert_eq!(m.source_size, None);
    assert_eq!(m.target_size, None);
    assert!(m.extra.is_empty());
}
