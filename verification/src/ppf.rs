//! The PPF patch format, versions 1 to 3.
//!
//! Magic `PPF10`, `PPF20` or `PPF30`, an encoding byte and a 50-byte
//! description form the fixed descriptor; truncation inside it is
//! reported as corrupted data.  Version 2 adds a declared input size and
//! a 1024-byte block-check region; version 3 adds image-type,
//! block-check and undo-data flags plus a dummy byte, with the
//! block-check region only when its flag is set.  Records write literal
//! data into the image in place: a 32-bit offset for versions 1 and 2, a
//! 64-bit offset for version 3, then a length byte and the data (doubled
//! when undo data is carried).

use crate::buf::{
    read_u32_le_at, read_u64_le_at, spec_u32_le_at, spec_u64_le_at, write_bytes, write_bytes_exec,
    prefix_vec,
};
use crate::error::{ErrKind, PatchError};
use crate::types::{PatchMetadata, PatchType};
use vstd::prelude::*;
use vstd::string::StringExecFns;

verus! {

/// The PPF version `b` declares: 1, 2 or 3, or 0 when `b` carries no PPF
/// magic.
pub open spec fn spec_ppf_version(b: Seq<u8>) -> int {
    if b.len() >= 5 && b[0] == 0x50u8 && b[1] == 0x50u8 && b[2] == 0x46u8 && b[4] == 0x30u8 {
        if b[3] == 0x31u8 {
            1
        } else if b[3] == 0x32u8 {
            2
        } else if b[3] == 0x33u8 {
            3
        } else {
            0
        }
    } else {
        0
    }
}

/// `b` starts with one of the three PPF magics.
pub open spec fn spec_ppf_can(b: Seq<u8>) -> bool {
    spec_ppf_version(b) != 0
}

/// Version 3 carries a block-check region.
pub open spec fn spec_ppf3_has_blockcheck(b: Seq<u8>) -> bool {
    b[57] != 0u8
}

/// Version 3 carries undo data after each record.
pub open spec fn spec_ppf3_has_undo(b: Seq<u8>) -> bool {
    b[58] != 0u8
}

/// The fixed descriptor region is present in full for the declared
/// version.
pub open spec fn spec_ppf_fixed_ok(b: Seq<u8>) -> Result<(), ErrKind> {
    let v = spec_ppf_version(b);
    if b.len() < 56 {
        Err(ErrKind::CorruptedData)
    } else if v == 2 && b.len() < 1084 {
        Err(ErrKind::CorruptedData)
    } else if v == 3 && b.len() < 60 {
        Err(ErrKind::CorruptedData)
    } else if v == 3 && spec_ppf3_has_blockcheck(b) && b.len() < 1084 {
        Err(ErrKind::CorruptedData)
    } else {
        Ok(())
    }
}

/// Position of the first record for the declared version.
pub open spec fn spec_ppf_records_start(b: Seq<u8>) -> int {
    let v = spec_ppf_version(b);
    if v == 1 {
        56
    } else if v == 2 {
        1084
    } else if spec_ppf3_has_blockcheck(b) {
        1084
    } else {
        60
    }
}

/// The declared input size of a version-2 patch.
pub open spec fn spec_ppf2_input_size(b: Seq<u8>) -> int {
    spec_u32_le_at(b, 56)
}

/// The record stream from position `i` applied in place to `rom`.
/// `wide` selects 64-bit offsets, `undo` doubles each record's payload.
pub open spec fn ppf_records(patch: Seq<u8>, i: int, wide: bool, undo: bool, rom: Seq<u8>) -> Result<
    Seq<u8>,
    ErrKind,
>
    decreases patch.len() - i,
{
    let osize: int = if wide {
        8
    } else {
        4
    };
    if i < 0 {
        Err(ErrKind::UnexpectedEof)
    } else if i >= patch.len() {
        Ok(rom)
    } else if patch.len() - i < osize + 1 {
        Err(ErrKind::UnexpectedEof)
    } else {
        let off = if wide {
            spec_u64_le_at(patch, i)
        } else {
            spec_u32_le_at(patch, i)
        };
        let l = patch[i + osize] as int;
        let d0 = i + osize + 1;
        let total = if undo {
            2 * l
        } else {
            l
        };
        if patch.len() - d0 < total {
            Err(ErrKind::UnexpectedEof)
        } else if off + l > rom.len() {
            Err(ErrKind::OutOfBounds)
        } else {
            ppf_records(patch, d0 + total, wide, undo, write_bytes(rom, off, patch.subrange(d0, d0 + l)))
        }
    }
}

/// The structural walk of the record stream (bounds against the image
/// are a property of the image, not the patch, and are not checked).
pub open spec fn ppf_walk(patch: Seq<u8>, i: int, wide: bool, undo: bool) -> Result<(), ErrKind>
    decreases patch.len() - i,
{
    let osize: int = if wide {
        8
    } else {
        4
    };
    if i < 0 {
        Err(ErrKind::UnexpectedEof)
    } else if i >= patch.len() {
        Ok(())
    } else if patch.len() - i < osize + 1 {
        Err(ErrKind::UnexpectedEof)
    } else {
        let l = patch[i + osize] as int;
        let d0 = i + osize + 1;
        let total = if undo {
            2 * l
        } else {
            l
        };
        if patch.len() - d0 < total {
            Err(ErrKind::UnexpectedEof)
        } else {
            ppf_walk(patch, d0 + total, wide, undo)
        }
    }
}

/// The offset of the first record whose write leaves `[0, rom_len)`,
/// clamped to the address space, and `rom_len` itself, for out-of-bounds
/// error payloads (zero when the stream fails earlier or not at all).
pub open spec fn ppf_oob_info(patch: Seq<u8>, i: int, wide: bool, undo: bool, rom_len: int) -> (
    int,
    int,
)
    decreases patch.len() - i,
{
    let osize: int = if wide {
        8
    } else {
        4
    };
    if i < 0 || i >= patch.len() || patch.len() - i < osize + 1 {
        (0, rom_len)
    } else {
        let off = if wide {
            spec_u64_le_at(patch, i)
        } else {
            spec_u32_le_at(patch, i)
        };
        let l = patch[i + osize] as int;
        let d0 = i + osize + 1;
        let total = if undo {
            2 * l
        } else {
            l
        };
        if patch.len() - d0 < total {
            (0, rom_len)
        } else if off + l > rom_len {
            (
                if off > usize::MAX as int {
                    usize::MAX as int
                } else {
                    off
                },
                rom_len,
            )
        } else {
            ppf_oob_info(patch, d0 + total, wide, undo, rom_len)
        }
    }
}

/// A record stream that applies in full walks in full; a walked stream
/// applied to an image fails only on image bounds.
pub proof fn lemma_ppf_records_walk(patch: Seq<u8>, i: int, wide: bool, undo: bool, rom: Seq<u8>)
    ensures
        match ppf_records(patch, i, wide, undo, rom) {
            Ok(t) => ppf_walk(patch, i, wide, undo) is Ok && t.len() == rom.len(),
            Err(k) => k == ErrKind::OutOfBounds || ppf_walk(patch, i, wide, undo) == Err::<
                (),
                ErrKind,
            >(k),
        },
    decreases patch.len() - i,
{
    let osize: int = if wide {
        8
    } else {
        4
    };
    if i < 0 {
    } else if i >= patch.len() {
    } else if patch.len() - i < osize + 1 {
    } else {
        let off = if wide {
            spec_u64_le_at(patch, i)
        } else {
            spec_u32_le_at(patch, i)
        };
        let l = patch[i + osize] as int;
        let d0 = i + osize + 1;
        let total = if undo {
            2 * l
        } else {
            l
        };
        if patch.len() - d0 < total {
        } else if off + l > rom.len() {
        } else {
            lemma_ppf_records_walk(
                patch,
                d0 + total,
                wide,
                undo,
                write_bytes(rom, off, patch.subrange(d0, d0 + l)),
            );
        }
    }
}

/// Applying `patch` to `src` in place: magic, the fixed descriptor, the
/// version-2 size check, then the records.
pub open spec fn spec_ppf_apply(src: Seq<u8>, patch: Seq<u8>) -> Result<Seq<u8>, ErrKind> {
    if !spec_ppf_can(patch) {
        Err(ErrKind::InvalidMagic)
    } else if spec_ppf_fixed_ok(patch) is Err {
        Err(ErrKind::CorruptedData)
    } else if spec_ppf_version(patch) == 2 && src.len() != spec_ppf2_input_size(patch) {
        Err(ErrKind::InvalidFormat)
    } else {
        ppf_records(
            patch,
            spec_ppf_records_start(patch),
            spec_ppf_version(patch) == 3,
            spec_ppf_version(patch) == 3 && spec_ppf3_has_undo(patch),
            src,
        )
    }
}

/// Validating `patch`: magic, the fixed descriptor, and the record walk.
pub open spec fn spec_ppf_validate(patch: Seq<u8>) -> Result<(), ErrKind> {
    if !spec_ppf_can(patch) {
        Err(ErrKind::InvalidMagic)
    } else if spec_ppf_fixed_ok(patch) is Err {
        Err(ErrKind::CorruptedData)
    } else {
        ppf_walk(
            patch,
            spec_ppf_records_start(patch),
            spec_ppf_version(patch) == 3,
            spec_ppf_version(patch) == 3 && spec_ppf3_has_undo(patch),
        )
    }
}

/// A validated patch applies up to image bounds, and an applied patch
/// validates (no PPF failure but bounds depends on the image).
pub proof fn lemma_ppf_validate_covers_apply(src: Seq<u8>, patch: Seq<u8>)
    ensures
        (spec_ppf_validate(patch) is Ok && !(spec_ppf_version(patch) == 2 && src.len()
            != spec_ppf2_input_size(patch))) ==> (spec_ppf_apply(src, patch) is Ok || spec_ppf_apply(
            src,
            patch,
        ) == Err::<Seq<u8>, ErrKind>(ErrKind::OutOfBounds)),
        spec_ppf_apply(src, patch) is Ok ==> spec_ppf_validate(patch) is Ok,
{
    if spec_ppf_can(patch) && spec_ppf_fixed_ok(patch) is Ok {
        lemma_ppf_records_walk(
            patch,
            spec_ppf_records_start(patch),
            spec_ppf_version(patch) == 3,
            spec_ppf_version(patch) == 3 && spec_ppf3_has_undo(patch),
            src,
        );
    }
}

/// Reads the declared version from the magic: 1, 2 or 3, or 0 when the
/// magic is absent.
fn ppf_version(data: &[u8]) -> (v: u8)
    ensures
        v as int == spec_ppf_version(data@),
{
    if data.len() >= 5 && data[0] == 0x50 && data[1] == 0x50 && data[2] == 0x46 && data[4] == 0x30 {
        if data[3] == 0x31 {
            1
        } else if data[3] == 0x32 {
            2
        } else if data[3] == 0x33 {
            3
        } else {
            0
        }
    } else {
        0
    }
}

/// Checks whether the data starts with one of the three PPF magics.
pub fn can_handle(data: &[u8]) -> (r: bool)
    ensures
        r == spec_ppf_can(data@),
{
    ppf_version(data) != 0
}

/// Validates a PPF patch file.
pub fn validate_patch(patch: &[u8]) -> (r: Result<(), PatchError>)
    ensures
        match r {
            Ok(()) => spec_ppf_validate(patch@) is Ok,
            Err(e) => spec_ppf_validate(patch@) matches Err(k) && k == e.kind(),
        },
{
    PpfPatcher::validate(patch)
}

/// Extracts metadata from a PPF patch.
pub fn extract_metadata(patch: &[u8]) -> (r: Result<PatchMetadata, PatchError>)
    ensures
        match r {
            Ok(m) => spec_ppf_can(patch@) && m.patch_type == PatchType::Ppf,
            Err(e) => !spec_ppf_can(patch@) && e.kind() == ErrKind::InvalidMagic,
        },
{
    PpfPatcher::metadata(patch)
}

/// PPF format decoder.
pub struct PpfPatcher;

impl PpfPatcher {
    /// The byte-prefix test for the three PPF magics; never fails.
    pub fn can_handle(data: &[u8]) -> (r: bool)
        ensures
            r == spec_ppf_can(data@),
    {
        ppf_version(data) != 0
    }

    /// Applies `patch` to `rom` in place; on error the image may hold a
    /// partial result.
    pub fn apply(&self, rom: &mut Vec<u8>, patch: &[u8]) -> (r: Result<(), PatchError>)
        ensures
            match r {
                Ok(()) => spec_ppf_apply(old(rom)@, patch@) matches Ok(t) && final(rom)@ == t,
                Err(e) => spec_ppf_apply(old(rom)@, patch@) matches Err(k) && k == e.kind() && (e
                    matches PatchError::OutOfBounds { offset, rom_size } ==> offset as int
                    == ppf_oob_info(
                    patch@,
                    spec_ppf_records_start(patch@),
                    spec_ppf_version(patch@) == 3,
                    spec_ppf_version(patch@) == 3 && spec_ppf3_has_undo(patch@),
                    old(rom)@.len() as int,
                ).0 && rom_size as int == old(rom)@.len()),
            },
    {
        let v = ppf_version(patch);
        if v == 0 {
            return Err(PatchError::InvalidMagic {
                expected: vec![0x50, 0x50, 0x46],
                actual: prefix_vec(patch, 5),
            });
        }
        let n = patch.len();
        if n < 56 {
            return Err(PatchError::CorruptedData);
        }
        if v == 2 && n < 1084 {
            return Err(PatchError::CorruptedData);
        }
        if v == 3 && n < 60 {
            return Err(PatchError::CorruptedData);
        }
        if v == 3 && patch[57] != 0 && n < 1084 {
            return Err(PatchError::CorruptedData);
        }
        if v == 2 {
            let declared = read_u32_le_at(patch, 56);
            if rom.len() as u64 != declared as u64 {
                return Err(PatchError::InvalidFormat(
                    "image size differs from the declared input size",
                ));
            }
        }
        let wide = v == 3;
        let undo = v == 3 && patch[58] != 0;
        let start: usize = if v == 1 {
            56
        } else if v == 2 {
            1084
        } else if patch[57] != 0 {
            1084
        } else {
            60
        };
        let osize: usize = if wide {
            8
        } else {
            4
        };
        let mut i: usize = start;
        while i < n
            invariant
                i <= n,
                n == patch@.len(),
                osize == (if wide { 8int } else { 4int }),
                wide == (spec_ppf_version(patch@) == 3),
                undo == (spec_ppf_version(patch@) == 3 && spec_ppf3_has_undo(patch@)),
                start as int == spec_ppf_records_start(patch@),
                rom@.len() == old(rom)@.len(),
                ppf_records(patch@, i as int, wide, undo, rom@) == ppf_records(
                    patch@,
                    start as int,
                    wide,
                    undo,
                    old(rom)@,
                ),
                ppf_oob_info(patch@, i as int, wide, undo, rom@.len() as int) == ppf_oob_info(
                    patch@,
                    start as int,
                    wide,
                    undo,
                    old(rom)@.len() as int,
                ),
                spec_ppf_apply(old(rom)@, patch@) == ppf_records(
                    patch@,
                    start as int,
                    wide,
                    undo,
                    old(rom)@,
                ),
            decreases n - i,
        {
            if n - i < osize + 1 {
                return Err(PatchError::UnexpectedEof("incomplete record header"));
            }
            let off: u64 = if wide {
                read_u64_le_at(patch, i)
            } else {
                read_u32_le_at(patch, i) as u64
            };
            let l = patch[i + osize] as usize;
            let d0 = i + osize + 1;
            let total = if undo {
                2 * l
            } else {
                l
            };
            if n - d0 < total {
                return Err(PatchError::UnexpectedEof("incomplete record data"));
            }
            if off as u128 + l as u128 > rom.len() as u128 {
                let off_clamped: usize = if off > usize::MAX as u64 {
                    usize::MAX
                } else {
                    off as usize
                };
                return Err(PatchError::OutOfBounds { offset: off_clamped, rom_size: rom.len() });
            }
            write_bytes_exec(rom, off as usize, patch, d0, l);
            i = d0 + total;
        }
        Ok(())
    }

    /// The declared version, as a metadata entry.
    pub fn metadata(patch: &[u8]) -> (r: Result<PatchMetadata, PatchError>)
        ensures
            match r {
                Ok(m) => {
                    &&& spec_ppf_can(patch@)
                    &&& m.patch_type == PatchType::Ppf
                    &&& m.source_size is None
                    &&& m.target_size is None
                    &&& m.extra@.len() == 1
                    &&& m.extra@[0].0@ == "version"@
                    &&& (spec_ppf_version(patch@) == 1 ==> m.extra@[0].1@ == "PPF1"@)
                    &&& (spec_ppf_version(patch@) == 2 ==> m.extra@[0].1@ == "PPF2"@)
                    &&& (spec_ppf_version(patch@) == 3 ==> m.extra@[0].1@ == "PPF3"@)
                },
                Err(e) => !spec_ppf_can(patch@) && e.kind() == ErrKind::InvalidMagic,
            },
    {
        let v = ppf_version(patch);
        if v == 0 {
            return Err(PatchError::InvalidMagic {
                expected: vec![0x50, 0x50, 0x46],
                actual: prefix_vec(patch, 5),
            });
        }
        let m = PatchMetadata::new(PatchType::Ppf);
        let tag: &str = if v == 1 {
            "PPF1"
        } else if v == 2 {
            "PPF2"
        } else {
            "PPF3"
        };
        Ok(m.with_extra(String::from_str("version"), String::from_str(tag)))
    }

    /// Full structural walk: the fixed descriptor and every record.
    pub fn validate(patch: &[u8]) -> (r: Result<(), PatchError>)
        ensures
            match r {
                Ok(()) => spec_ppf_validate(patch@) is Ok,
                Err(e) => spec_ppf_validate(patch@) matches Err(k) && k == e.kind(),
            },
    {
        let v = ppf_version(patch);
        if v == 0 {
            return Err(PatchError::InvalidMagic {
                expected: vec![0x50, 0x50, 0x46],
                actual: prefix_vec(patch, 5),
            });
        }
        let n = patch.len();
        if n < 56 {
            return Err(PatchError::CorruptedData);
        }
        if v == 2 && n < 1084 {
            return Err(PatchError::CorruptedData);
        }
        if v == 3 && n < 60 {
            return Err(PatchError::CorruptedData);
        }
        if v == 3 && patch[57] != 0 && n < 1084 {
            return Err(PatchError::CorruptedData);
        }
        let wide = v == 3;
        let undo = v == 3 && patch[58] != 0;
        let start: usize = if v == 1 {
            56
        } else if v == 2 {
            1084
        } else if patch[57] != 0 {
            1084
        } else {
            60
        };
        let osize: usize = if wide {
            8
        } else {
            4
        };
        let mut i: usize = start;
        while i < n
            invariant
                i <= n,
                n == patch@.len(),
                osize == (if wide { 8int } else { 4int }),
                ppf_walk(patch@, i as int, wide, undo) == ppf_walk(patch@, start as int, wide, undo),
                spec_ppf_validate(patch@) == ppf_walk(patch@, start as int, wide, undo),
            decreases n - i,
        {
            if n - i < osize + 1 {
                return Err(PatchError::UnexpectedEof("incomplete record header"));
            }
            let l = patch[i + osize] as usize;
            let d0 = i + osize + 1;
            let total = if undo {
                2 * l
            } else {
                l
            };
            if n - d0 < total {
                return Err(PatchError::UnexpectedEof("incomplete record data"));
            }
            i = d0 + total;
        }
        Ok(())
    }

    /// PPF carries no checksums; verification is not supported.
    pub fn verify(_rom: &[u8], _patch: &[u8], _target: Option<&[u8]>) -> (r: Result<
        (),
        PatchError,
    >)
        ensures
            r matches Err(e) && e.kind() == ErrKind::NotSupported,
    {
        Err(PatchError::NotSupported)
    }
}

} // verus!
