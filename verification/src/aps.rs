//! The APS patch format, N64 variant.
//!
//! Header `APS10`, a header-type byte, an encoding byte and a 50-byte
//! description; when the header type marks an N64 patch, a 17-byte
//! sub-header (original format, cartridge id, CRC, padding) follows.
//! A 4-byte little-endian output size closes the header.  Records are
//! `offset[4 LE] length[1] data[length]`; a zero length introduces an RLE
//! record `value[1] count[1]`.  The decoder allocates the declared output
//! size, copies the source prefix in, and overlays the records.

use crate::buf::{
    resize_seq, resize_to, slice_vec, spec_u32_le_at, read_u32_le_at, write_bytes,
    write_bytes_exec, write_run, write_run_exec, prefix_vec,
};
use crate::error::{ErrKind, PatchError};
use crate::strutil::{bytes_to_string_lossy, trim_trailing_zeros, trim_zeros_end, utf8_lossy};
use crate::types::{PatchMetadata, PatchType, MAX_TARGET_SIZE};
use vstd::prelude::*;
use vstd::string::StringExecFns;

verus! {

/// Header type marking the N64 variant.
pub const HEADER_TYPE_N64: u8 = 0x01;

/// Length of the description field.
pub const DESCRIPTION_LEN: usize = 50;

/// Minimum patch size: magic, two header bytes, description, output size.
pub const MIN_PATCH_SIZE: usize = 5 + 1 + 1 + 50 + 4;

/// `b` starts with the APS magic `APS10`.
pub open spec fn spec_aps_magic(b: Seq<u8>) -> bool {
    &&& b.len() >= 5
    &&& b[0] == 0x41u8
    &&& b[1] == 0x50u8
    &&& b[2] == 0x53u8
    &&& b[3] == 0x31u8
    &&& b[4] == 0x30u8
}

/// The fixed header is present in full: the base header always, and the
/// N64 sub-header when the header type asks for it.
pub open spec fn spec_aps_header_ok(b: Seq<u8>) -> Result<(), ErrKind> {
    if b.len() < 61 {
        Err(ErrKind::UnexpectedEof)
    } else if b[5] == HEADER_TYPE_N64 && b.len() < 78 {
        Err(ErrKind::UnexpectedEof)
    } else {
        Ok(())
    }
}

/// The patch declares the N64 header type.
pub open spec fn spec_aps_is_n64(b: Seq<u8>) -> bool {
    b[5] == HEADER_TYPE_N64
}

/// Position of the first record: after the header and the output size.
pub open spec fn spec_aps_header_end(b: Seq<u8>) -> int {
    if spec_aps_is_n64(b) {
        78
    } else {
        61
    }
}

/// The declared output size (little-endian, just before the records).
pub open spec fn spec_aps_output_size(b: Seq<u8>) -> int {
    spec_u32_le_at(b, spec_aps_header_end(b) - 4)
}

/// `b` is handled by this codec: magic plus a complete fixed header.
pub open spec fn spec_aps_can(b: Seq<u8>) -> bool {
    spec_aps_magic(b) && spec_aps_header_ok(b) is Ok
}

/// The record stream of `patch` from position `i` overlaid on `out`.
pub open spec fn aps_records(patch: Seq<u8>, i: int, out: Seq<u8>) -> Result<Seq<u8>, ErrKind>
    decreases patch.len() - i,
{
    if i < 0 {
        Err(ErrKind::UnexpectedEof)
    } else if i >= patch.len() {
        Ok(out)
    } else if patch.len() - i < 5 {
        Err(ErrKind::UnexpectedEof)
    } else {
        let off = spec_u32_le_at(patch, i);
        let l = patch[i + 4];
        if l == 0 {
            if patch.len() - i < 7 {
                Err(ErrKind::UnexpectedEof)
            } else if off + (patch[i + 6] as int) > out.len() {
                Err(ErrKind::OutOfBounds)
            } else {
                aps_records(patch, i + 7, write_run(out, off, patch[i + 6] as int, patch[i + 5]))
            }
        } else {
            if patch.len() - i < 5 + l {
                Err(ErrKind::UnexpectedEof)
            } else if off + (l as int) > out.len() {
                Err(ErrKind::OutOfBounds)
            } else {
                aps_records(
                    patch,
                    i + 5 + l,
                    write_bytes(out, off, patch.subrange(i + 5, i + 5 + l)),
                )
            }
        }
    }
}

/// The structural walk of the record stream over an image of length
/// `len`.
pub open spec fn aps_walk(patch: Seq<u8>, i: int, len: int) -> Result<(), ErrKind>
    decreases patch.len() - i,
{
    if i < 0 {
        Err(ErrKind::UnexpectedEof)
    } else if i >= patch.len() {
        Ok(())
    } else if patch.len() - i < 5 {
        Err(ErrKind::UnexpectedEof)
    } else {
        let off = spec_u32_le_at(patch, i);
        let l = patch[i + 4];
        if l == 0 {
            if patch.len() - i < 7 {
                Err(ErrKind::UnexpectedEof)
            } else if off + (patch[i + 6] as int) > len {
                Err(ErrKind::OutOfBounds)
            } else {
                aps_walk(patch, i + 7, len)
            }
        } else {
            if patch.len() - i < 5 + l {
                Err(ErrKind::UnexpectedEof)
            } else if off + (l as int) > len {
                Err(ErrKind::OutOfBounds)
            } else {
                aps_walk(patch, i + 5 + l, len)
            }
        }
    }
}

/// The offset of the first record whose write leaves `[0, len)`, and
/// `len` itself, for out-of-bounds error payloads (zero when the stream
/// fails earlier or not at all).
pub open spec fn aps_oob_info(patch: Seq<u8>, i: int, len: int) -> (int, int)
    decreases patch.len() - i,
{
    if i < 0 || i >= patch.len() || patch.len() - i < 5 {
        (0, len)
    } else {
        let off = spec_u32_le_at(patch, i);
        let l = patch[i + 4];
        if l == 0 {
            if patch.len() - i < 7 {
                (0, len)
            } else if off + (patch[i + 6] as int) > len {
                (off, len)
            } else {
                aps_oob_info(patch, i + 7, len)
            }
        } else {
            if patch.len() - i < 5 + l {
                (0, len)
            } else if off + (l as int) > len {
                (off, len)
            } else {
                aps_oob_info(patch, i + 5 + l, len)
            }
        }
    }
}

/// The record stream succeeds or fails independently of the image
/// content; only the image length matters, and the length is preserved.
pub proof fn lemma_aps_records_walk(patch: Seq<u8>, i: int, out: Seq<u8>)
    ensures
        match aps_records(patch, i, out) {
            Ok(t) => aps_walk(patch, i, out.len() as int) is Ok && t.len() == out.len(),
            Err(k) => aps_walk(patch, i, out.len() as int) == Err::<(), ErrKind>(k),
        },
    decreases patch.len() - i,
{
    if i < 0 {
    } else if i >= patch.len() {
    } else if patch.len() - i < 5 {
    } else {
        let off = spec_u32_le_at(patch, i);
        let l = patch[i + 4];
        if l == 0 {
            if patch.len() - i >= 7 && off + (patch[i + 6] as int) <= out.len() {
                lemma_aps_records_walk(
                    patch,
                    i + 7,
                    write_run(out, off, patch[i + 6] as int, patch[i + 5]),
                );
            }
        } else {
            if patch.len() - i >= 5 + l && off + (l as int) <= out.len() {
                lemma_aps_records_walk(
                    patch,
                    i + 5 + l,
                    write_bytes(out, off, patch.subrange(i + 5, i + 5 + l)),
                );
            }
        }
    }
}

/// Applying `patch` to `src`: the output buffer of the declared size is
/// seeded with the source prefix and the records are overlaid.
pub open spec fn spec_aps_apply(src: Seq<u8>, patch: Seq<u8>) -> Result<Seq<u8>, ErrKind> {
    if !spec_aps_magic(patch) {
        Err(ErrKind::InvalidMagic)
    } else if spec_aps_header_ok(patch) is Err {
        Err(ErrKind::UnexpectedEof)
    } else if !spec_aps_is_n64(patch) {
        Err(ErrKind::InvalidFormat)
    } else if spec_aps_output_size(patch) > MAX_TARGET_SIZE as int {
        Err(ErrKind::ResourceLimit)
    } else {
        aps_records(
            patch,
            spec_aps_header_end(patch),
            resize_seq(src, spec_aps_output_size(patch)),
        )
    }
}

/// Validating `patch`: the same checks as `apply`, with the structural
/// walk in place of the overlay.
pub open spec fn spec_aps_validate(patch: Seq<u8>) -> Result<(), ErrKind> {
    if !spec_aps_magic(patch) {
        Err(ErrKind::InvalidMagic)
    } else if spec_aps_header_ok(patch) is Err {
        Err(ErrKind::UnexpectedEof)
    } else if !spec_aps_is_n64(patch) {
        Err(ErrKind::InvalidFormat)
    } else if spec_aps_output_size(patch) > MAX_TARGET_SIZE as int {
        Err(ErrKind::ResourceLimit)
    } else {
        aps_walk(patch, spec_aps_header_end(patch), spec_aps_output_size(patch))
    }
}

/// The source ROM matches the N64 sub-header: the cartridge id at
/// `0x3C..0x3F` and the CRC words at `0x10..0x18`.
pub open spec fn spec_aps_source_ok(rom: Seq<u8>, patch: Seq<u8>) -> bool {
    &&& rom.len() >= 0x3F
    &&& rom.subrange(0x3C, 0x3F) == patch.subrange(58, 61)
    &&& rom.subrange(0x10, 0x18) == patch.subrange(61, 69)
}

/// Verifying a source against `patch`: the N64 sub-header fields must
/// match the ROM header.
pub open spec fn spec_aps_verify(rom: Seq<u8>, patch: Seq<u8>) -> Result<(), ErrKind> {
    if !spec_aps_magic(patch) {
        Err(ErrKind::InvalidMagic)
    } else if spec_aps_header_ok(patch) is Err {
        Err(ErrKind::UnexpectedEof)
    } else if !spec_aps_is_n64(patch) {
        Ok(())
    } else if spec_aps_source_ok(rom, patch) {
        Ok(())
    } else {
        Err(ErrKind::ChecksumMismatch)
    }
}

/// `validate` accepts exactly the patches `apply` executes in full, for
/// every source image: every APS failure is structural to the patch.
pub proof fn lemma_aps_validate_iff_apply(src: Seq<u8>, patch: Seq<u8>)
    ensures
        spec_aps_validate(patch) is Ok <==> spec_aps_apply(src, patch) is Ok,
        (spec_aps_validate(patch) matches Err(k) ==> spec_aps_apply(src, patch) == Err::<
            Seq<u8>,
            ErrKind,
        >(k)),
{
    if spec_aps_magic(patch) && spec_aps_header_ok(patch) is Ok && spec_aps_is_n64(patch)
        && spec_aps_output_size(patch) <= MAX_TARGET_SIZE as int {
        lemma_aps_records_walk(
            patch,
            spec_aps_header_end(patch),
            resize_seq(src, spec_aps_output_size(patch)),
        );
    }
}

/// The N64 sub-header of an APS patch.
#[derive(Debug)]
pub struct N64Header {
    pub original_format: u8,
    pub cart_id: Vec<u8>,
    pub crc: Vec<u8>,
    pub pad: Vec<u8>,
}

/// The parsed APS header.
#[derive(Debug)]
pub struct ApsHeader {
    pub header_type: u8,
    pub encoding_method: u8,
    pub description: String,
    pub n64_header: Option<N64Header>,
    pub output_size: u32,
}

/// Parse the fixed APS header; returns the header and the position of
/// the first record.
pub fn parse_header(patch: &[u8]) -> (r: Result<(ApsHeader, usize), PatchError>)
    ensures
        match r {
            Ok(p) => {
                &&& spec_aps_header_ok(patch@) is Ok
                &&& patch@.len() >= 61
                &&& p.0.header_type == patch@[5]
                &&& p.0.encoding_method == patch@[6]
                &&& p.0.description@ == utf8_lossy(
                    trim_trailing_zeros(patch@.subrange(7, 57)),
                )
                &&& p.0.n64_header is Some <==> spec_aps_is_n64(patch@)
                &&& (match p.0.n64_header {
                    Some(h) => {
                        &&& h.original_format == patch@[57]
                        &&& h.cart_id@ == patch@.subrange(58, 61)
                        &&& h.crc@ == patch@.subrange(61, 69)
                        &&& h.pad@ == patch@.subrange(69, 74)
                    },
                    None => true,
                })
                &&& p.0.output_size as int == spec_aps_output_size(patch@)
                &&& p.1 as int == spec_aps_header_end(patch@)
            },
            Err(e) => spec_aps_header_ok(patch@) is Err && e.kind() == ErrKind::UnexpectedEof,
        },
{
    if patch.len() < MIN_PATCH_SIZE {
        return Err(PatchError::UnexpectedEof("patch too small for the APS header"));
    }
    let header_type = patch[5];
    let encoding_method = patch[6];
    let desc_end = trim_zeros_end(patch, 7, 57);
    let desc_bytes = slice_vec(patch, 7, desc_end);
    let description = bytes_to_string_lossy(desc_bytes.as_slice());
    if header_type == HEADER_TYPE_N64 {
        if patch.len() < 78 {
            return Err(PatchError::UnexpectedEof("patch too small for the N64 sub-header"));
        }
        let n64 = N64Header {
            original_format: patch[57],
            cart_id: slice_vec(patch, 58, 61),
            crc: slice_vec(patch, 61, 69),
            pad: slice_vec(patch, 69, 74),
        };
        let output_size = read_u32_le_at(patch, 74);
        Ok((
            ApsHeader {
                header_type,
                encoding_method,
                description,
                n64_header: Some(n64),
                output_size,
            },
            78,
        ))
    } else {
        let output_size = read_u32_le_at(patch, 57);
        Ok((
            ApsHeader {
                header_type,
                encoding_method,
                description,
                n64_header: None,
                output_size,
            },
            61,
        ))
    }
}

/// Whether the source ROM matches the N64 sub-header fields.
pub fn validate_source_rom(rom: &[u8], n64_header: &N64Header) -> (r: bool)
    requires
        n64_header.cart_id@.len() == 3,
        n64_header.crc@.len() == 8,
    ensures
        r == {
            &&& rom@.len() >= 0x3F
            &&& rom@.subrange(0x3C, 0x3F) == n64_header.cart_id@
            &&& rom@.subrange(0x10, 0x18) == n64_header.crc@
        },
{
    if rom.len() < 0x3F {
        return false;
    }
    let mut k: usize = 0;
    while k < 3
        invariant
            k <= 3,
            rom@.len() >= 0x3F,
            n64_header.cart_id@.len() == 3,
            forall|j: int| 0 <= j < k ==> rom@[0x3C + j] == n64_header.cart_id@[j],
        decreases 3 - k,
    {
        if rom[0x3C + k] != n64_header.cart_id[k] {
            proof {
                assert(rom@.subrange(0x3C, 0x3F)[k as int] != n64_header.cart_id@[k as int]);
            }
            return false;
        }
        k = k + 1;
    }
    let mut k2: usize = 0;
    while k2 < 8
        invariant
            k2 <= 8,
            rom@.len() >= 0x3F,
            n64_header.crc@.len() == 8,
            forall|j: int| 0 <= j < k2 ==> rom@[0x10 + j] == n64_header.crc@[j],
        decreases 8 - k2,
    {
        if rom[0x10 + k2] != n64_header.crc[k2] {
            proof {
                assert(rom@.subrange(0x10, 0x18)[k2 as int] != n64_header.crc@[k2 as int]);
            }
            return false;
        }
        k2 = k2 + 1;
    }
    proof {
        assert(rom@.subrange(0x3C, 0x3F) =~= n64_header.cart_id@);
        assert(rom@.subrange(0x10, 0x18) =~= n64_header.crc@);
    }
    true
}

/// The byte-prefix and header test for an APS N64 patch.
pub fn can_handle(data: &[u8]) -> (r: bool)
    ensures
        r == spec_aps_can(data@),
{
    if !(data.len() >= 5 && data[0] == 0x41 && data[1] == 0x50 && data[2] == 0x53 && data[3]
        == 0x31 && data[4] == 0x30) {
        return false;
    }
    if data.len() < MIN_PATCH_SIZE {
        return false;
    }
    if data[5] == HEADER_TYPE_N64 && data.len() < 78 {
        return false;
    }
    true
}

/// Full structural walk: header, then every record against the declared
/// output size.
pub fn validate(patch: &[u8]) -> (r: Result<(), PatchError>)
    ensures
        match r {
            Ok(()) => spec_aps_validate(patch@) is Ok,
            Err(e) => spec_aps_validate(patch@) matches Err(k) && k == e.kind() && (e matches
                PatchError::OutOfBounds { offset, rom_size } ==> offset as int == aps_oob_info(
                patch@,
                spec_aps_header_end(patch@),
                spec_aps_output_size(patch@),
            ).0 && rom_size as int == spec_aps_output_size(patch@)),
        },
{
    if !(patch.len() >= 5 && patch[0] == 0x41 && patch[1] == 0x50 && patch[2] == 0x53 && patch[3]
        == 0x31 && patch[4] == 0x30) {
        return Err(PatchError::InvalidMagic {
            expected: vec![0x41, 0x50, 0x53, 0x31, 0x30],
            actual: prefix_vec(patch, 5),
        });
    }
    if patch.len() < MIN_PATCH_SIZE {
        return Err(PatchError::UnexpectedEof("patch too small for the APS header"));
    }
    if patch[5] == HEADER_TYPE_N64 && patch.len() < 78 {
        return Err(PatchError::UnexpectedEof("patch too small for the N64 sub-header"));
    }
    if patch[5] != HEADER_TYPE_N64 {
        return Err(PatchError::InvalidFormat("not an APS N64 patch"));
    }
    let out_size = read_u32_le_at(patch, 74) as usize;
    if out_size > MAX_TARGET_SIZE {
        return Err(PatchError::ResourceLimit);
    }
    let n = patch.len();
    let mut i: usize = 78;
    while i < n
        invariant
            78 <= i <= n,
            n == patch@.len(),
            out_size <= MAX_TARGET_SIZE,
            spec_aps_magic(patch@),
            spec_aps_header_ok(patch@) is Ok,
            spec_aps_is_n64(patch@),
            out_size as int == spec_aps_output_size(patch@),
            aps_walk(patch@, i as int, out_size as int) == aps_walk(patch@, 78, out_size as int),
            aps_oob_info(patch@, i as int, out_size as int) == aps_oob_info(
                patch@,
                78,
                out_size as int,
            ),
        decreases n - i,
    {
        if n - i < 5 {
            return Err(PatchError::UnexpectedEof("incomplete record header"));
        }
        let off = read_u32_le_at(patch, i) as usize;
        let l = patch[i + 4];
        if l == 0 {
            if n - i < 7 {
                return Err(PatchError::UnexpectedEof("incomplete RLE record"));
            }
            let cnt = patch[i + 6] as usize;
            if off as u64 + cnt as u64 > out_size as u64 {
                return Err(PatchError::OutOfBounds { offset: off, rom_size: out_size });
            }
            i = i + 7;
        } else {
            let dl = l as usize;
            if n - i < 5 + dl {
                return Err(PatchError::UnexpectedEof("incomplete simple record"));
            }
            if off as u64 + dl as u64 > out_size as u64 {
                return Err(PatchError::OutOfBounds { offset: off, rom_size: out_size });
            }
            i = i + 5 + dl;
        }
    }
    Ok(())
}

/// Apply an APS N64 patch to `rom`, producing the new image.
pub fn apply(rom: &[u8], patch: &[u8]) -> (r: Result<Vec<u8>, PatchError>)
    ensures
        match r {
            Ok(out) => spec_aps_apply(rom@, patch@) matches Ok(t) && out@ == t,
            Err(e) => spec_aps_apply(rom@, patch@) matches Err(k) && k == e.kind() && (e matches
                PatchError::OutOfBounds { offset, rom_size } ==> offset as int == aps_oob_info(
                patch@,
                spec_aps_header_end(patch@),
                spec_aps_output_size(patch@),
            ).0 && rom_size as int == spec_aps_output_size(patch@)),
        },
{
    if !(patch.len() >= 5 && patch[0] == 0x41 && patch[1] == 0x50 && patch[2] == 0x53 && patch[3]
        == 0x31 && patch[4] == 0x30) {
        return Err(PatchError::InvalidMagic {
            expected: vec![0x41, 0x50, 0x53, 0x31, 0x30],
            actual: prefix_vec(patch, 5),
        });
    }
    if patch.len() < MIN_PATCH_SIZE {
        return Err(PatchError::UnexpectedEof("patch too small for the APS header"));
    }
    if patch[5] == HEADER_TYPE_N64 && patch.len() < 78 {
        return Err(PatchError::UnexpectedEof("patch too small for the N64 sub-header"));
    }
    if patch[5] != HEADER_TYPE_N64 {
        return Err(PatchError::InvalidFormat("not an APS N64 patch"));
    }
    let out_size = read_u32_le_at(patch, 74) as usize;
    if out_size > MAX_TARGET_SIZE {
        return Err(PatchError::ResourceLimit);
    }
    let mut out = resize_to(rom, out_size);
    let ghost out0 = out@;
    let n = patch.len();
    let mut i: usize = 78;
    while i < n
        invariant
            78 <= i <= n,
            n == patch@.len(),
            out_size <= MAX_TARGET_SIZE,
            out@.len() == out_size,
            spec_aps_magic(patch@),
            spec_aps_header_ok(patch@) is Ok,
            spec_aps_is_n64(patch@),
            out_size as int == spec_aps_output_size(patch@),
            aps_records(patch@, 78, out0) == spec_aps_apply(rom@, patch@),
            aps_records(patch@, i as int, out@) == aps_records(patch@, 78, out0),
            aps_oob_info(patch@, i as int, out_size as int) == aps_oob_info(
                patch@,
                78,
                out_size as int,
            ),
        decreases n - i,
    {
        if n - i < 5 {
            return Err(PatchError::UnexpectedEof("incomplete record header"));
        }
        let off = read_u32_le_at(patch, i) as usize;
        let l = patch[i + 4];
        if l == 0 {
            if n - i < 7 {
                return Err(PatchError::UnexpectedEof("incomplete RLE record"));
            }
            let val = patch[i + 5];
            let cnt = patch[i + 6] as usize;
            if off as u64 + cnt as u64 > out_size as u64 {
                return Err(PatchError::OutOfBounds { offset: off, rom_size: out_size });
            }
            write_run_exec(&mut out, off, cnt, val);
            i = i + 7;
        } else {
            let dl = l as usize;
            if n - i < 5 + dl {
                return Err(PatchError::UnexpectedEof("incomplete simple record"));
            }
            if off as u64 + dl as u64 > out_size as u64 {
                return Err(PatchError::OutOfBounds { offset: off, rom_size: out_size });
            }
            write_bytes_exec(&mut out, off, patch, i + 5, dl);
            i = i + 5 + dl;
        }
    }
    Ok(out)
}

/// Verify that the source ROM matches the N64 sub-header requirements.
pub fn verify(rom: &[u8], patch: &[u8]) -> (r: Result<(), PatchError>)
    ensures
        match r {
            Ok(()) => spec_aps_verify(rom@, patch@) is Ok,
            Err(e) => spec_aps_verify(rom@, patch@) matches Err(k) && k == e.kind(),
        },
{
    if !(patch.len() >= 5 && patch[0] == 0x41 && patch[1] == 0x50 && patch[2] == 0x53 && patch[3]
        == 0x31 && patch[4] == 0x30) {
        return Err(PatchError::InvalidMagic {
            expected: vec![0x41, 0x50, 0x53, 0x31, 0x30],
            actual: prefix_vec(patch, 5),
        });
    }
    let (header, _off) = match parse_header(patch) {
        Ok(p) => p,
        Err(e) => {
            return Err(e);
        },
    };
    match header.n64_header {
        Some(n64) => {
            if validate_source_rom(rom, &n64) {
                Ok(())
            } else {
                Err(PatchError::ChecksumMismatch {
                    expected: n64.cart_id,
                    actual: prefix_vec(rom, 3),
                })
            }
        },
        None => Ok(()),
    }
}

/// APS format decoder.
pub struct ApsPatcher;

impl ApsPatcher {
    /// The byte-prefix and header test; never fails.
    pub fn can_handle(data: &[u8]) -> (r: bool)
        ensures
            r == spec_aps_can(data@),
    {
        can_handle(data)
    }

    /// Applies `patch`, replacing `rom` with the freshly built output
    /// image; on error the image is left unchanged.
    pub fn apply(&self, rom: &mut Vec<u8>, patch: &[u8]) -> (r: Result<(), PatchError>)
        ensures
            match r {
                Ok(()) => spec_aps_apply(old(rom)@, patch@) matches Ok(t) && final(rom)@ == t,
                Err(e) => spec_aps_apply(old(rom)@, patch@) matches Err(k) && k == e.kind()
                    && final(rom)@ == old(rom)@ && (e matches PatchError::OutOfBounds {
                    offset,
                    rom_size,
                } ==> offset as int == aps_oob_info(
                    patch@,
                    spec_aps_header_end(patch@),
                    spec_aps_output_size(patch@),
                ).0 && rom_size as int == spec_aps_output_size(patch@)),
            },
    {
        match apply(rom.as_slice(), patch) {
            Ok(out) => {
                *rom = out;
                Ok(())
            },
            Err(e) => Err(e),
        }
    }

    /// Header fields: the declared output size and the description.
    pub fn metadata(patch: &[u8]) -> (r: Result<PatchMetadata, PatchError>)
        ensures
            match r {
                Ok(m) => {
                    &&& spec_aps_magic(patch@)
                    &&& spec_aps_header_ok(patch@) is Ok
                    &&& m.patch_type == PatchType::Aps
                    &&& m.source_size is None
                    &&& m.target_size matches Some(t) && t as int == spec_aps_output_size(patch@)
                    &&& m.source_checksum is None
                    &&& m.target_checksum is None
                    &&& m.extra@.len() == 1
                    &&& m.extra@[0].0@ == "description"@
                    &&& m.extra@[0].1@ == utf8_lossy(trim_trailing_zeros(patch@.subrange(7, 57)))
                },
                Err(e) => {
                    ||| !spec_aps_magic(patch@) && e.kind() == ErrKind::InvalidMagic
                    ||| spec_aps_magic(patch@) && spec_aps_header_ok(patch@) is Err && e.kind()
                        == ErrKind::UnexpectedEof
                },
            },
    {
        if !(patch.len() >= 5 && patch[0] == 0x41 && patch[1] == 0x50 && patch[2] == 0x53
            && patch[3] == 0x31 && patch[4] == 0x30) {
            return Err(PatchError::InvalidMagic {
                expected: vec![0x41, 0x50, 0x53, 0x31, 0x30],
                actual: prefix_vec(patch, 5),
            });
        }
        let (header, _off) = match parse_header(patch) {
            Ok(p) => p,
            Err(e) => {
                return Err(e);
            },
        };
        let mut m = PatchMetadata::new(PatchType::Aps);
        m.target_size = Some(header.output_size as usize);
        let m2 = m.with_extra(String::from_str("description"), header.description);
        Ok(m2)
    }

    /// Full structural walk of the patch.
    pub fn validate(patch: &[u8]) -> (r: Result<(), PatchError>)
        ensures
            match r {
                Ok(()) => spec_aps_validate(patch@) is Ok,
                Err(e) => spec_aps_validate(patch@) matches Err(k) && k == e.kind() && (e matches
                    PatchError::OutOfBounds { offset, rom_size } ==> offset as int
                    == aps_oob_info(
                    patch@,
                    spec_aps_header_end(patch@),
                    spec_aps_output_size(patch@),
                ).0 && rom_size as int == spec_aps_output_size(patch@)),
            },
    {
        validate(patch)
    }

    /// Verifies the source ROM against the N64 sub-header.  APS carries
    /// no target checksum, so a target request is not supported.
    pub fn verify(rom: &[u8], patch: &[u8], target: Option<&[u8]>) -> (r: Result<(), PatchError>)
        ensures
            match r {
                Ok(()) => target is None && spec_aps_verify(rom@, patch@) is Ok,
                Err(e) => {
                    ||| target is Some && e.kind() == ErrKind::NotSupported
                    ||| target is None && (spec_aps_verify(rom@, patch@) matches Err(k) && k
                        == e.kind())
                },
            },
    {
        match target {
            Some(_) => Err(PatchError::NotSupported),
            None => verify(rom, patch),
        }
    }
}

} // verus!
