//! The IPS patch format.
//!
//! Header `PATCH`, then records `offset[3 BE] size[2 BE] data[size]`; a
//! size of zero introduces an RLE record `rle_size[2 BE] value[1]`.  The
//! three bytes `EOF` in the offset position terminate the record stream.
//! Offsets are 24-bit, so writes can grow the target up to 16 MiB (plus
//! one record).  The format carries no checksums and no metadata.

use crate::buf::{write_bytes, write_bytes_exec, write_run, write_run_exec, prefix_vec};
use crate::error::{ErrKind, PatchError};
use crate::types::{PatchMetadata, PatchType};
use vstd::prelude::*;

verus! {

/// Maximum ROM size addressable by a record offset (24-bit addressing).
pub const MAX_ROM_SIZE: usize = 16 * 1024 * 1024;

/// Maximum record payload (16-bit size field).
pub const MAX_RECORD_SIZE: usize = 65535;

/// Big-endian 16-bit value at `b[i..i+2]`.
pub open spec fn spec_u16_at(b: Seq<u8>, i: int) -> int {
    (b[i] as int) * 0x100 + (b[i + 1] as int)
}

/// Big-endian 24-bit value at `b[i..i+3]`.
pub open spec fn spec_u24_at(b: Seq<u8>, i: int) -> int {
    (b[i] as int) * 0x10000 + (b[i + 1] as int) * 0x100 + (b[i + 2] as int)
}

/// Read a 24-bit big-endian unsigned integer from the front of `bytes`.
pub fn read_u24_be(bytes: &[u8]) -> (r: u32)
    requires
        bytes@.len() >= 3,
    ensures
        r as int == spec_u24_at(bytes@, 0),
        r <= 0xFFFFFF,
{
    (bytes[0] as u32) * 0x10000 + (bytes[1] as u32) * 0x100 + (bytes[2] as u32)
}

/// Read a 16-bit big-endian unsigned integer from the front of `bytes`.
pub fn read_u16_be(bytes: &[u8]) -> (r: u16)
    requires
        bytes@.len() >= 2,
    ensures
        r as int == spec_u16_at(bytes@, 0),
{
    (bytes[0] as u16) * 0x100 + (bytes[1] as u16)
}

/// `b` starts with the IPS magic `PATCH`.
pub open spec fn spec_ips_can(b: Seq<u8>) -> bool {
    &&& b.len() >= 5
    &&& b[0] == 0x50u8
    &&& b[1] == 0x41u8
    &&& b[2] == 0x54u8
    &&& b[3] == 0x43u8
    &&& b[4] == 0x48u8
}

/// The record stream of `patch` from position `i`, applied to `rom`.
/// `Ok` carries the patched image and the position just after the `EOF`
/// marker.
pub open spec fn ips_records(patch: Seq<u8>, i: int, rom: Seq<u8>) -> Result<(Seq<u8>, int), ErrKind>
    decreases patch.len() - i,
{
    if i < 0 || i + 3 > patch.len() {
        Err(ErrKind::UnexpectedEof)
    } else if spec_u24_at(patch, i) == 0x454F46 {
        Ok((rom, i + 3))
    } else if i + 5 > patch.len() {
        Err(ErrKind::UnexpectedEof)
    } else {
        let off = spec_u24_at(patch, i);
        let size = spec_u16_at(patch, i + 3);
        if size == 0 {
            if i + 8 > patch.len() {
                Err(ErrKind::UnexpectedEof)
            } else {
                let rle = spec_u16_at(patch, i + 5);
                ips_records(patch, i + 8, write_run(rom, off, rle, patch[i + 7]))
            }
        } else {
            if i + 5 + size > patch.len() {
                Err(ErrKind::UnexpectedEof)
            } else {
                ips_records(
                    patch,
                    i + 5 + size,
                    write_bytes(rom, off, patch.subrange(i + 5, i + 5 + size)),
                )
            }
        }
    }
}

/// The structural walk of the record stream alone: the position just
/// after the `EOF` marker, or the reason the stream is malformed.
pub open spec fn ips_walk(patch: Seq<u8>, i: int) -> Result<int, ErrKind>
    decreases patch.len() - i,
{
    if i < 0 || i + 3 > patch.len() {
        Err(ErrKind::UnexpectedEof)
    } else if spec_u24_at(patch, i) == 0x454F46 {
        Ok(i + 3)
    } else if i + 5 > patch.len() {
        Err(ErrKind::UnexpectedEof)
    } else {
        let size = spec_u16_at(patch, i + 3);
        if size == 0 {
            if i + 8 > patch.len() {
                Err(ErrKind::UnexpectedEof)
            } else {
                ips_walk(patch, i + 8)
            }
        } else {
            if i + 5 + size > patch.len() {
                Err(ErrKind::UnexpectedEof)
            } else {
                ips_walk(patch, i + 5 + size)
            }
        }
    }
}

/// The record walk succeeds, fails, and ends independently of the image
/// it is applied to.
pub proof fn lemma_ips_records_walk(patch: Seq<u8>, i: int, rom: Seq<u8>)
    ensures
        match ips_records(patch, i, rom) {
            Ok((_, end)) => ips_walk(patch, i) == Ok::<int, ErrKind>(end),
            Err(k) => ips_walk(patch, i) == Err::<int, ErrKind>(k),
        },
    decreases patch.len() - i,
{
    if i < 0 || i + 3 > patch.len() {
    } else if spec_u24_at(patch, i) == 0x454F46 {
    } else if i + 5 > patch.len() {
    } else {
        let off = spec_u24_at(patch, i);
        let size = spec_u16_at(patch, i + 3);
        if size == 0 {
            if i + 8 <= patch.len() {
                let rle = spec_u16_at(patch, i + 5);
                lemma_ips_records_walk(patch, i + 8, write_run(rom, off, rle, patch[i + 7]));
            }
        } else {
            if i + 5 + size <= patch.len() {
                lemma_ips_records_walk(
                    patch,
                    i + 5 + size,
                    write_bytes(rom, off, patch.subrange(i + 5, i + 5 + size)),
                );
            }
        }
    }
}

/// The bytes `EOF` in the offset position terminate the record stream
/// at once: the image is returned as it stands, and records beyond the
/// marker are never applied.
pub proof fn lemma_ips_eof_terminates(patch: Seq<u8>, i: int, rom: Seq<u8>)
    requires
        0 <= i,
        i + 3 <= patch.len(),
        patch[i] == 0x45u8,
        patch[i + 1] == 0x4Fu8,
        patch[i + 2] == 0x46u8,
    ensures
        ips_records(patch, i, rom) == Ok::<(Seq<u8>, int), ErrKind>((rom, i + 3)),
{
    assert(spec_u24_at(patch, i) == 0x454F46);
}

/// The record stream only ever ends on the `EOF` marker in the offset
/// position; the same bytes inside a size or data field never stop the
/// walk.
pub proof fn lemma_ips_walk_ends_at_eof(patch: Seq<u8>, i: int)
    ensures
        ips_walk(patch, i) matches Ok(end) ==> i + 3 <= end <= patch.len() && spec_u24_at(
            patch,
            end - 3,
        ) == 0x454F46,
    decreases patch.len() - i,
{
    if i < 0 || i + 3 > patch.len() {
    } else if spec_u24_at(patch, i) == 0x454F46 {
    } else if i + 5 > patch.len() {
    } else {
        let size = spec_u16_at(patch, i + 3);
        if size == 0 {
            if i + 8 <= patch.len() {
                lemma_ips_walk_ends_at_eof(patch, i + 8);
            }
        } else {
            if i + 5 + size <= patch.len() {
                lemma_ips_walk_ends_at_eof(patch, i + 5 + size);
            }
        }
    }
}

/// Applying `patch` to `src`: magic check, then the record stream.
pub open spec fn spec_ips_apply(src: Seq<u8>, patch: Seq<u8>) -> Result<Seq<u8>, ErrKind> {
    if !spec_ips_can(patch) {
        Err(ErrKind::InvalidMagic)
    } else {
        match ips_records(patch, 5, src) {
            Ok((rom, _)) => Ok(rom),
            Err(k) => Err(k),
        }
    }
}

/// Validating `patch`: magic check, then the structural walk.
pub open spec fn spec_ips_validate(patch: Seq<u8>) -> Result<int, ErrKind> {
    if !spec_ips_can(patch) {
        Err(ErrKind::InvalidMagic)
    } else {
        ips_walk(patch, 5)
    }
}

/// `validate` accepts exactly the patches `apply` executes in full, for
/// every source image: every IPS failure is structural to the patch.
pub proof fn lemma_ips_validate_iff_apply(src: Seq<u8>, patch: Seq<u8>)
    ensures
        spec_ips_validate(patch) is Ok <==> spec_ips_apply(src, patch) is Ok,
        (spec_ips_validate(patch) matches Err(k) ==> spec_ips_apply(src, patch)
            == Err::<Seq<u8>, ErrKind>(k)),
{
    if spec_ips_can(patch) {
        lemma_ips_records_walk(patch, 5, src);
    }
}

/// Walks the record stream of an IPS patch without touching any image;
/// returns the position just after the `EOF` marker.
pub fn ips_scan(patch: &[u8]) -> (r: Result<usize, PatchError>)
    requires
        spec_ips_can(patch@),
    ensures
        match r {
            Ok(end) => ips_walk(patch@, 5) == Ok::<int, ErrKind>(end as int) && end
                <= patch@.len(),
            Err(e) => ips_walk(patch@, 5) matches Err(k) && k == e.kind(),
        },
{
    let n = patch.len();
    let mut i: usize = 5;
    loop
        invariant
            5 <= i <= n,
            n == patch@.len(),
            ips_walk(patch@, i as int) == ips_walk(patch@, 5),
        decreases n - i,
    {
        if n - i < 3 {
            return Err(PatchError::UnexpectedEof("record stream ends without EOF marker"));
        }
        let off = read_u24_be(&patch[i..i + 3]);
        proof {
            assert(patch@.subrange(i as int, i as int + 3)[0] == patch@[i as int]);
            assert(patch@.subrange(i as int, i as int + 3)[1] == patch@[i as int + 1]);
            assert(patch@.subrange(i as int, i as int + 3)[2] == patch@[i as int + 2]);
        }
        if off == 0x454F46 {
            return Ok(i + 3);
        }
        if n - i < 5 {
            return Err(PatchError::UnexpectedEof("record truncated in its size field"));
        }
        let size = read_u16_be(&patch[i + 3..i + 5]) as usize;
        proof {
            assert(patch@.subrange(i as int + 3, i as int + 5)[0] == patch@[i as int + 3]);
            assert(patch@.subrange(i as int + 3, i as int + 5)[1] == patch@[i as int + 4]);
        }
        if size == 0 {
            if n - i < 8 {
                return Err(PatchError::UnexpectedEof("RLE record truncated"));
            }
            i = i + 8;
        } else {
            if n - i < 5 || n - i - 5 < size {
                return Err(PatchError::UnexpectedEof("record data truncated"));
            }
            i = i + 5 + size;
        }
    }
}

/// IPS format decoder.
pub struct IpsPatcher;

impl IpsPatcher {
    /// The byte-prefix test for the IPS magic; never fails.
    pub fn can_handle(data: &[u8]) -> (r: bool)
        ensures
            r == spec_ips_can(data@),
    {
        data.len() >= 5 && data[0] == 0x50 && data[1] == 0x41 && data[2] == 0x54 && data[3] == 0x43
            && data[4] == 0x48
    }

    /// Applies `patch` to `rom` in place, growing the image as records
    /// demand.  On error the image may hold a partial result.
    pub fn apply(&self, rom: &mut Vec<u8>, patch: &[u8]) -> (r: Result<(), PatchError>)
        ensures
            match r {
                Ok(()) => spec_ips_apply(old(rom)@, patch@) matches Ok(t) && final(rom)@ == t,
                Err(e) => spec_ips_apply(old(rom)@, patch@) matches Err(k) && k == e.kind(),
            },
    {
        if !Self::can_handle(patch) {
            return Err(PatchError::InvalidMagic {
                expected: vec![0x50, 0x41, 0x54, 0x43, 0x48],
                actual: prefix_vec(patch, 5),
            });
        }
        let n = patch.len();
        let mut i: usize = 5;
        loop
            invariant
                5 <= i <= n,
                n == patch@.len(),
                spec_ips_can(patch@),
                ips_records(patch@, i as int, rom@) == ips_records(patch@, 5, old(rom)@),
            decreases n - i,
        {
            if n - i < 3 {
                return Err(PatchError::UnexpectedEof("record stream ends without EOF marker"));
            }
            let off = read_u24_be(&patch[i..i + 3]) as usize;
            proof {
                assert(patch@.subrange(i as int, i as int + 3)[0] == patch@[i as int]);
                assert(patch@.subrange(i as int, i as int + 3)[1] == patch@[i as int + 1]);
                assert(patch@.subrange(i as int, i as int + 3)[2] == patch@[i as int + 2]);
            }
            if off == 0x454F46 {
                return Ok(());
            }
            if n - i < 5 {
                return Err(PatchError::UnexpectedEof("record truncated in its size field"));
            }
            let size = read_u16_be(&patch[i + 3..i + 5]) as usize;
            proof {
                assert(patch@.subrange(i as int + 3, i as int + 5)[0] == patch@[i as int + 3]);
                assert(patch@.subrange(i as int + 3, i as int + 5)[1] == patch@[i as int + 4]);
            }
            if size == 0 {
                if n - i < 8 {
                    return Err(PatchError::UnexpectedEof("RLE record truncated"));
                }
                let rle = read_u16_be(&patch[i + 5..i + 7]) as usize;
                proof {
                    assert(patch@.subrange(i as int + 5, i as int + 7)[0] == patch@[i as int + 5]);
                    assert(patch@.subrange(i as int + 5, i as int + 7)[1] == patch@[i as int + 6]);
                }
                let val = patch[i + 7];
                write_run_exec(rom, off, rle, val);
                i = i + 8;
            } else {
                if n - i < 5 || n - i - 5 < size {
                    return Err(PatchError::UnexpectedEof("record data truncated"));
                }
                write_bytes_exec(rom, off, patch, i + 5, size);
                i = i + 5 + size;
            }
        }
    }

    /// IPS carries no sizes, checksums or metadata beyond its kind.
    pub fn metadata(patch: &[u8]) -> (r: Result<PatchMetadata, PatchError>)
        ensures
            match r {
                Ok(m) => {
                    &&& spec_ips_can(patch@)
                    &&& m.patch_type == PatchType::Ips
                    &&& m.source_size is None
                    &&& m.target_size is None
                    &&& m.source_checksum is None
                    &&& m.target_checksum is None
                    &&& m.extra@.len() == 0
                },
                Err(e) => !spec_ips_can(patch@) && e.kind() == ErrKind::InvalidMagic,
            },
    {
        if !Self::can_handle(patch) {
            return Err(PatchError::InvalidMagic {
                expected: vec![0x50, 0x41, 0x54, 0x43, 0x48],
                actual: prefix_vec(patch, 5),
            });
        }
        Ok(PatchMetadata::new(PatchType::Ips))
    }

    /// Full structural walk of the patch; accepts exactly the patches
    /// `apply` executes in full on any source.
    pub fn validate(patch: &[u8]) -> (r: Result<(), PatchError>)
        ensures
            match r {
                Ok(()) => spec_ips_validate(patch@) is Ok,
                Err(e) => spec_ips_validate(patch@) matches Err(k) && k == e.kind(),
            },
    {
        if !Self::can_handle(patch) {
            return Err(PatchError::InvalidMagic {
                expected: vec![0x50, 0x41, 0x54, 0x43, 0x48],
                actual: prefix_vec(patch, 5),
            });
        }
        match ips_scan(patch) {
            Ok(_) => Ok(()),
            Err(e) => Err(e),
        }
    }
}

} // verus!
