//! xdelta decoder, address cache and code table tests.

use rom_patcher::xdelta::address_cache::AddressCache;
use rom_patcher::xdelta::code_table::get_default_code_table;
use rom_patcher::xdelta::XdeltaPatcher;
use rom_patcher::PatchError;

#[test]
fn test_cache_default() {
    let cache = AddressCache::default();
    assert_eq!(cache.near_size(), 4);
    // same_size is 3, total size 3*256 = 768
}

#[test]
fn test_cache_update() {
    let mut cache = AddressCache::default();

    // Update with address 100
    cache.update(100);

    // Near[0] should be 100
    assert_eq!(cache.get_near(0), 100);

    // Same[100 % (3*256)] should be 100
    // 100 % 768 = 100
    assert_eq!(cache.get_same(100), 100);

    // Update with address 200
    cache.update(200);
    // Near[1] should be 200
    assert_eq!(cache.get_near(1), 200);
    // Near[0] still 100
    assert_eq!(cache.get_near(0), 100);
}

#[test]
fn test_cache_reset() {
    let mut cache = AddressCache::default();
    cache.update(100);
    cache.reset();
    assert_eq!(cache.get_near(0), 0);
}

#[test]
fn test_code_table_shape() {
    let table = get_default_code_table();
    assert_eq!(table.len(), 256);
    // index 0: RUN with explicit size
    assert_eq!(table[0].0.inst_type, 2);
    assert_eq!(table[0].0.size, 0);
    // indices 1..=18: ADD with sizes 0..=17
    assert_eq!(table[1].0.inst_type, 1);
    assert_eq!(table[1].0.size, 0);
    assert_eq!(table[18].0.size, 17);
    // index 19: COPY mode 0 with explicit size
    assert_eq!(table[19].0.inst_type, 3);
    assert_eq!(table[19].0.size, 0);
    assert_eq!(table[19].0.mode, 0);
    // index 35: COPY mode 1 with explicit size
    assert_eq!(table[35].0.mode, 1);
    // index 163: paired ADD size 1 + COPY size 4 mode 0
    assert_eq!(table[163].0.inst_type, 1);
    assert_eq!(table[163].0.size, 1);
    assert_eq!(table[163].1.inst_type, 3);
    assert_eq!(table[163].1.size, 4);
    assert_eq!(table[163].1.mode, 0);
    // index 247: paired COPY size 4 mode 0 + ADD size 1
    assert_eq!(table[247].0.inst_type, 3);
    assert_eq!(table[247].0.size, 4);
    assert_eq!(table[247].1.inst_type, 1);
    assert_eq!(table[247].1.size, 1);
    // index 255: COPY mode 8
    assert_eq!(table[255].0.mode, 8);
}

#[test]
fn test_vcdiff_one_window_add() {
    // magic, version 0, zero header indicator, one bare window:
    // target length 3, sections holding `01 02 03` and one ADD opcode
    let patch: Vec<u8> = vec![
        0xD6, 0xC3, 0xC4, 0x00, // magic + version
        0x00, // header indicator
        0x00, // window indicator: no source segment
        0x0A, // delta length
        0x03, // target window length
        0x00, // delta indicator
        0x03, // data section length
        0x01, // instruction section length
        0x00, // address section length
        0x01, 0x02, 0x03, // data section
        0x04, // instruction: ADD, size 3
    ];

    let patcher = XdeltaPatcher;
    let mut rom: Vec<u8> = Vec::new();
    assert!(patcher.apply(&mut rom, &patch).is_ok());
    assert_eq!(rom, vec![0x01, 0x02, 0x03]);
}

#[test]
fn test_vcdiff_source_copy_window() {
    // one window that names a 4-byte source segment and copies it
    let patch: Vec<u8> = vec![
        0xD6, 0xC3, 0xC4, 0x00, // magic + version
        0x00, // header indicator
        0x01, // window indicator: VCD_SOURCE
        0x04, // segment length
        0x00, // segment position
        0x08, // delta length
        0x04, // target window length
        0x00, // delta indicator
        0x00, // data section length
        0x01, // instruction section length
        0x01, // address section length
        0x13, // instruction: COPY size 4 mode 0 (opcode 19 reads explicit... size embedded)
        0x00, // address 0
    ];
    // opcode 19 carries an explicit size, so use opcode 19+1 (size 4) instead
    let mut patch = patch;
    patch[14] = 0x14; // COPY size 4, mode 0

    let patcher = XdeltaPatcher;
    let mut rom: Vec<u8> = vec![0xAB, 0xCD, 0xEF, 0x99];
    assert!(patcher.apply(&mut rom, &patch).is_ok());
    assert_eq!(rom, vec![0xAB, 0xCD, 0xEF, 0x99]);
}

#[test]
fn test_vcdiff_run_window() {
    // RUN: opcode 0 with explicit size 5, repeating one data byte
    let patch: Vec<u8> = vec![
        0xD6, 0xC3, 0xC4, 0x00, // magic + version
        0x00, // header indicator
        0x00, // window indicator
        0x09, // delta length
        0x05, // target window length
        0x00, // delta indicator
        0x01, // data section length
        0x02, // instruction section length
        0x00, // address section length
        0x7E, // data byte
        0x00, 0x05, // RUN, explicit size 5
    ];
    let patcher = XdeltaPatcher;
    let mut rom: Vec<u8> = Vec::new();
    assert!(patcher.apply(&mut rom, &patch).is_ok());
    assert_eq!(rom, vec![0x7E; 5]);
}

#[test]
fn test_vcdiff_empty_invalid_magic() {
    let patcher = XdeltaPatcher;
    let mut rom: Vec<u8> = Vec::new();
    match patcher.apply(&mut rom, b"") {
        Err(PatchError::InvalidMagic { .. }) => {}
        other => panic!("expected invalid magic, got {:?}", other),
    }
}

#[test]
fn test_vcdiff_truncated_header() {
    let patcher = XdeltaPatcher;
    let mut rom: Vec<u8> = Vec::new();
    match patcher.apply(&mut rom, &[0xD6, 0xC3, 0xC4, 0x00]) {
        Err(PatchError::UnexpectedEof(_)) => {}
        other => panic!("expected an end-of-input error, got {:?}", other),
    }
}

#[test]
fn test_vcdiff_validate_window_frames() {
    let patch: Vec<u8> = vec![
        0xD6, 0xC3, 0xC4, 0x00, 0x00, // header
        0x00, 0x0A, 0x03, 0x00, 0x03, 0x01, 0x00, // window frame
        0x01, 0x02, 0x03, // data
        0x04, // instructions
    ];
    assert!(XdeltaPatcher::validate(&patch).is_ok());

    let truncated = &patch[..12];
    assert!(XdeltaPatcher::validate(truncated).is_err());

    // a delta length that disagrees with the window's actual extent
    let mut wrong_dl = patch.clone();
    wrong_dl[6] = 0x07;
    match XdeltaPatcher::validate(&wrong_dl) {
        Err(PatchError::InvalidFormat(_)) => {}
        other => panic!("expected an invalid-format error, got {:?}", other),
    }
}
