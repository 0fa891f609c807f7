//! Variable-length integer decoder tests.

use rom_patcher::varint;
use rom_patcher::PatchError;

#[test]
fn test_varint_decode() {
    // Test decoding of known valid values
    assert_eq!(varint::ups::decode(&[0x80]).unwrap(), (0, 1));
    assert_eq!(varint::ups::decode(&[0x81]).unwrap(), (1, 1));
    assert_eq!(varint::ups::decode(&[0xFF]).unwrap(), (127, 1));
    assert_eq!(varint::ups::decode(&[0x00, 0x80]).unwrap(), (128, 2));
}

#[test]
fn test_bps_varint_decode() {
    // the BPS convention shares the byte shape of the UPS one
    assert_eq!(varint::bps::decode(&[0x80]).unwrap(), (0, 1));
    assert_eq!(varint::bps::decode(&[0x81]).unwrap(), (1, 1));
    assert_eq!(varint::bps::decode(&[0xFF]).unwrap(), (127, 1));
    assert_eq!(varint::bps::decode(&[0x00, 0x80]).unwrap(), (128, 2));
    // trailing bytes are ignored
    assert_eq!(varint::bps::decode(&[0x85, 0x12, 0x34]).unwrap(), (5, 1));
}

#[test]
fn test_vcdiff_varint_decode() {
    // big-endian groups, clear high bit terminates
    assert_eq!(varint::vcdiff::decode(&[0x00]).unwrap(), (0, 1));
    assert_eq!(varint::vcdiff::decode(&[0x7F]).unwrap(), (127, 1));
    assert_eq!(varint::vcdiff::decode(&[0x81, 0x00]).unwrap(), (128, 2));
    assert_eq!(varint::vcdiff::decode(&[0x81, 0x7F]).unwrap(), (255, 2));
}

#[test]
fn test_varint_unterminated() {
    match varint::ups::decode(&[0x00, 0x00]) {
        Err(PatchError::UnexpectedEof(_)) => {}
        other => panic!("expected an end-of-input error, got {:?}", other),
    }
    match varint::vcdiff::decode(&[0x81]) {
        Err(PatchError::UnexpectedEof(_)) => {}
        other => panic!("expected an end-of-input error, got {:?}", other),
    }
}

#[test]
fn test_varint_overflow_guard() {
    // more than ten continuation bytes are refused
    let long = [0x00u8; 12];
    match varint::ups::decode(&long) {
        Err(PatchError::VarintOverflow) => {}
        other => panic!("expected a varint overflow, got {:?}", other),
    }
    let long_be = [0x81u8; 12];
    match varint::vcdiff::decode(&long_be) {
        Err(PatchError::VarintOverflow) => {}
        other => panic!("expected a varint overflow, got {:?}", other),
    }
}
